use serial_scale::error::ScaleError;
use serial_scale::protocol::{read_scale, Constraints, Data};
use serial_scale::toledo::{bit, Toledo, Unit};

fn with_checksum(mut body: Vec<u8>) -> Vec<u8> {
    let sum: u32 = body.iter().map(|b| (*b % 128) as u32).sum();
    body.push(((128 - sum % 128) % 128) as u8);
    body
}

fn frame(selector: u8, status: u8, weight: &[u8; 6], tare: &[u8; 6]) -> Vec<u8> {
    let mut body = vec![2u8, selector, status, 0u8];
    body.extend_from_slice(weight);
    body.extend_from_slice(tare);
    body.push(13);
    with_checksum(body)
}

fn no_bounds() -> Constraints {
    Constraints { unit: None, min_weight: None, max_weight: None, min_tare: None, max_tare: None }
}

#[test]
fn bit_reads_each_position() {
    assert!(bit(0b0001_0001, 0));
    assert!(!bit(0b0001_0001, 1));
    assert!(bit(0b0001_0001, 4));
    assert!(bit(0b1000_0000, 7));
    assert!(!bit(0, 3));
}

#[test]
fn kilogram_frame_decodes() {
    let raw = frame(2, 0b0001_0001, b"001234", b"000000");
    assert_eq!(raw.len(), 18);
    assert_eq!(raw[17], 20);
    let d = Data::from_toledo(&raw).unwrap();
    assert_eq!(d, Data { weight: 123_400_000, tare: 0, unit: Unit::Kilogram });
    assert_eq!(d.unit.name(), "Kg");
    assert_eq!(read_scale(&raw, &no_bounds()), Ok(d));
}

#[test]
fn least_weight_refuses_light_frame() {
    let raw = frame(2, 0b0001_0001, b"001234", b"000000");
    let c = Constraints { min_weight: Some(200_000_000), ..no_bounds() };
    assert_eq!(read_scale(&raw, &c), Err(ScaleError::Weigth));
    assert_eq!(ScaleError::Weigth.token(), "ERR_WEIGTH");
}

#[test]
fn decoder_reads_every_field() {
    let raw = frame(4, 0b0000_0011, b"123456", b"000500");
    let t = Toledo::new(&raw).unwrap();
    assert_eq!(t.exponent, -2);
    assert_eq!(t.weight, 123456);
    assert_eq!(t.tare, 500);
    assert!(t.net);
    assert!(t.negative);
    assert!(!t.error);
    assert!(!t.moviment);
    assert_eq!(t.unit, Unit::Pound);
}

#[test]
fn round_trip_scales_sign_and_tare() {
    let raw = frame(4, 0b0000_0011, b"123456", b"000500");
    let d = Data::from_toledo(&raw).unwrap();
    assert_eq!(d, Data { weight: -123_456_000, tare: 500_000, unit: Unit::Pound });
    assert_eq!(d.unit.name(), "Lb");
}

#[test]
fn unit_names_read_back() {
    assert_eq!(Unit::from_name("Kg"), Some(Unit::Kilogram));
    assert_eq!(Unit::from_name("Lb"), Some(Unit::Pound));
    assert_eq!(Unit::from_name("kg"), None);
    assert_eq!(Unit::from_name(""), None);
}

#[test]
fn exponent_extremes() {
    let low = frame(7, 0b0001_0000, b"999999", b"000000");
    assert_eq!(Data::from_toledo(&low).unwrap().weight, 999_999);
    let high = frame(0, 0b0001_0000, b"999999", b"000000");
    assert_eq!(Data::from_toledo(&high).unwrap().weight, 9_999_990_000_000);
    let masked_selector = frame(8 + 2, 0b0001_0000, b"000001", b"000000");
    assert_eq!(Data::from_toledo(&masked_selector).unwrap().weight, 100_000);
}

#[test]
fn tare_dropped_when_not_net() {
    let raw = frame(2, 0b0001_0000, b"000100", b"000050");
    let d = Data::from_toledo(&raw).unwrap();
    assert_eq!(d.tare, 0);
    assert_eq!(d.weight, 10_000_000);
}

#[test]
fn bad_checksum_is_integrity() {
    let mut raw = frame(2, 0b0001_0001, b"001234", b"000000");
    raw[17] = raw[17].wrapping_add(1);
    assert_eq!(Toledo::new(&raw).err(), Some(ScaleError::Integrity));
    assert_eq!(ScaleError::Integrity.token(), "ERR_INTEGRITY");
}

#[test]
fn bad_markers_are_integrity() {
    let mut body = vec![3u8, 2, 0b0001_0001, 0];
    body.extend_from_slice(b"001234000000");
    body.push(13);
    assert_eq!(Toledo::new(&with_checksum(body)).err(), Some(ScaleError::Integrity));
    let mut body = vec![2u8, 2, 0b0001_0001, 0];
    body.extend_from_slice(b"001234000000");
    body.push(10);
    assert_eq!(Toledo::new(&with_checksum(body)).err(), Some(ScaleError::Integrity));
}

#[test]
fn non_digit_is_integrity() {
    let raw = frame(2, 0b0001_0001, b"+01234", b"000000");
    assert_eq!(Toledo::new(&raw).err(), Some(ScaleError::Integrity));
    let raw = frame(2, 0b0001_0001, b"001234", b"00 000");
    assert_eq!(Toledo::new(&raw).err(), Some(ScaleError::Integrity));
}

#[test]
fn short_or_long_frame_is_integrity() {
    let raw = frame(2, 0b0001_0001, b"001234", b"000000");
    assert_eq!(Toledo::new(&raw[..17].to_vec()).err(), Some(ScaleError::Integrity));
    let mut long = raw.clone();
    long.push(0);
    assert_eq!(Toledo::new(&long).err(), Some(ScaleError::Integrity));
    assert_eq!(Toledo::new(&Vec::new()).err(), Some(ScaleError::Integrity));
}

#[test]
fn high_bits_are_stripped() {
    let raw: Vec<u8> = frame(2, 0b0001_0001, b"001234", b"000000").iter().map(|b| b | 0x80).collect();
    let d = Data::from_toledo(&raw).unwrap();
    assert_eq!(d.weight, 123_400_000);
}

#[test]
fn motion_refused_before_fault() {
    let raw = frame(2, 0b0001_1101, b"001234", b"000000");
    assert_eq!(Data::from_toledo(&raw), Err(ScaleError::Moviment));
    let c = Constraints { min_weight: Some(0), ..no_bounds() };
    assert_eq!(read_scale(&raw, &c), Err(ScaleError::Moviment));
    assert_eq!(ScaleError::Moviment.token(), "ERR_MOVIMENT");
}

#[test]
fn fault_flag_is_scale_error() {
    let raw = frame(2, 0b0001_0101, b"001234", b"000000");
    assert_eq!(Data::from_toledo(&raw), Err(ScaleError::Scale));
    assert_eq!(ScaleError::Scale.token(), "ERR_SCALE");
}
