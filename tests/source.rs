use serial_scale::error::ScaleError;
use serial_scale::message::Message;
use serial_scale::protocol::{Constraints, Data};
use serial_scale::reader::File;
use serial_scale::retry::{next_step, read_file_scale, Step, ATTEMPTS};
use serial_scale::toledo::Unit;

fn frame(digits: &[u8; 6]) -> Vec<u8> {
    let mut body = vec![2u8, 2, 0b0001_0000, 0];
    body.extend_from_slice(digits);
    body.extend_from_slice(b"000000");
    body.push(13);
    let sum: u32 = body.iter().map(|b| (*b % 128) as u32).sum();
    body.push(((128 - sum % 128) % 128) as u8);
    body
}

fn no_bounds() -> Constraints {
    Constraints { unit: None, min_weight: None, max_weight: None, min_tare: None, max_tare: None }
}

#[test]
fn file_source_wraps_after_two_frames() {
    let first = frame(b"000001");
    let second = frame(b"000002");
    let mut data = first.clone();
    data.extend_from_slice(&second);
    assert_eq!(data.len(), 36);
    let mut f = File::new(data);
    assert_eq!(f.read(), Ok(first.clone()));
    assert_eq!(f.read(), Ok(second));
    assert_eq!(f.read(), Ok(first));
}

#[test]
fn file_source_short_tail_fails_then_restarts() {
    let first = frame(b"000001");
    let mut data = first.clone();
    data.extend_from_slice(&[1, 2, 3]);
    let mut f = File::new(data);
    assert_eq!(f.read(), Ok(first.clone()));
    assert_eq!(f.read(), Err(ScaleError::Integrity));
    assert_eq!(f.read(), Ok(first));
}

#[test]
fn file_source_too_short_always_fails() {
    let mut f = File::new(vec![2, 3]);
    assert_eq!(f.read(), Err(ScaleError::Integrity));
    assert_eq!(f.read(), Err(ScaleError::Integrity));
    let mut empty = File::new(Vec::new());
    assert_eq!(empty.read(), Err(ScaleError::Integrity));
}

#[test]
fn file_request_reads_and_validates() {
    let mut data = frame(b"000007");
    data.extend_from_slice(&frame(b"000009"));
    let mut f = File::new(data);
    assert_eq!(read_file_scale(&mut f, &no_bounds()), Ok(Data { weight: 700_000, tare: 0, unit: Unit::Kilogram }));
    let c = Constraints { max_weight: Some(800_000), ..no_bounds() };
    assert_eq!(read_file_scale(&mut f, &c), Err(ScaleError::Weigth));
}

#[test]
fn retry_only_live_failures() {
    let ok = Ok(Data { weight: 1, tare: 0, unit: Unit::Pound });
    assert!(matches!(next_step(ATTEMPTS, true, ok), Step::Done(Ok(_))));
    assert!(matches!(next_step(ATTEMPTS, true, Err(ScaleError::Integrity)), Step::Retry(3)));
    assert!(matches!(next_step(2, true, Err(ScaleError::Port)), Step::Retry(1)));
    assert!(matches!(next_step(1, true, Err(ScaleError::Port)), Step::Done(Err(ScaleError::Port))));
    assert!(matches!(next_step(ATTEMPTS, false, Err(ScaleError::Integrity)), Step::Done(Err(ScaleError::Integrity))));
    assert_eq!(ScaleError::Port.token(), "ERR_PORT");
}

#[test]
fn message_lookup_falls_back_to_token() {
    let m = Message::from_entries(vec![("ERR_UNIT".to_string(), "Wrong unit".to_string())]);
    assert_eq!(m.err("ERR_UNIT"), "Wrong unit");
    assert_eq!(m.err("ERR_TARE"), "ERR_TARE");
}

#[test]
fn message_table_from_toml() {
    let m = Message::new("ERR_SCALE = \"Scale fault\"\nERR_PORT = \"No port\"\n").unwrap();
    assert_eq!(m.err("ERR_SCALE"), "Scale fault");
    assert_eq!(m.err("ERR_PORT"), "No port");
    assert_eq!(m.err("ERR_MOVIMENT"), "ERR_MOVIMENT");
    assert!(Message::new("ERR_SCALE = ").is_none());
}
