//! The Toledo wire frame: eighteen bytes that carry a status byte, two runs of
//! ASCII digits and a self-checking sum.
use vstd::prelude::*;
use vstd::string::StringExecFns;
use crate::error::ScaleError;

verus! {

/// Length of one frame on the wire.
pub const FRAME_LEN: usize = 18;

/// Whether bit `index` of `num` is set.
pub open spec fn bit_spec(num: u8, index: u8) -> bool {
    (num >> index) & 1u8 == 1u8
}

/// Tests bit `index` (0 = least significant) of `num`.
pub fn bit(num: u8, index: u8) -> (r: bool)
    requires
        index < 8,
    ensures
        r == bit_spec(num, index),
{
    let mask: u8 = 1u8 << index;
    let r = (mask & num) > 0;
    assert(((1u8 << index) & num > 0) == ((num >> index) & 1u8 == 1u8)) by (bit_vector)
        requires
            index < 8,
    ;
    r
}

/// The unit a frame reports its weights in.
#[derive(PartialEq, Eq, Structural, Clone, Copy, Debug)]
pub enum Unit {
    Kilogram,
    Pound,
}

/// The short name of each unit.
pub open spec fn unit_name_spec(u: Unit) -> Seq<char> {
    match u {
        Unit::Kilogram => "Kg"@,
        Unit::Pound => "Lb"@,
    }
}

impl Unit {
    /// The unit whose short name is `name`, if any.
    pub fn from_name(name: &str) -> (r: Option<Unit>)
        ensures
            r == (if name@ == unit_name_spec(Unit::Kilogram) {
                Some(Unit::Kilogram)
            } else if name@ == unit_name_spec(Unit::Pound) {
                Some(Unit::Pound)
            } else {
                None::<Unit>
            }),
    {
        let name = name.to_owned();
        if name == Unit::Kilogram.name() {
            Some(Unit::Kilogram)
        } else if name == Unit::Pound.name() {
            Some(Unit::Pound)
        } else {
            None
        }
    }

    /// The short name of the unit: `Kg` or `Lb`.
    pub fn name(&self) -> (r: String)
        ensures
            r@ == unit_name_spec(*self),
    {
        match self {
            Unit::Kilogram => String::from_str("Kg"),
            Unit::Pound => String::from_str("Lb"),
        }
    }
}

/// A byte with its parity (high) bit stripped.
pub open spec fn mask(b: u8) -> u8 {
    b % 128
}

/// Every byte of `s` with its high bit stripped.
pub open spec fn masked(s: Seq<u8>) -> Seq<u8> {
    s.map_values(|b: u8| mask(b))
}

/// The sum of the bytes of `s`.
pub open spec fn byte_sum(s: Seq<u8>) -> nat
    decreases s.len(),
{
    if s.len() == 0 {
        0
    } else {
        byte_sum(s.drop_last()) + s.last() as nat
    }
}

/// The bytes of `s` read as characters, one for one.
pub open spec fn text_of(s: Seq<u8>) -> Seq<char> {
    s.map_values(|b: u8| b as char)
}

/// Whether `c` is one of the ASCII digits `0`..`9`.
pub open spec fn is_digit(c: char) -> bool {
    '0' <= c && c <= '9'
}

/// Whether every character of `s` is an ASCII digit.
pub open spec fn all_digits(s: Seq<char>) -> bool {
    forall|i: int| 0 <= i < s.len() ==> is_digit(#[trigger] s[i])
}

/// The number that the decimal digits of `s` spell, most significant first.
pub open spec fn digits_value(s: Seq<char>) -> nat
    decreases s.len(),
{
    if s.len() == 0 {
        0
    } else {
        digits_value(s.drop_last()) * 10 + ((s.last() as int) - ('0' as int)) as nat
    }
}

/// Ten to the power `n`.
pub open spec fn pow10(n: nat) -> nat
    decreases n,
{
    if n == 0 {
        1
    } else {
        10 * pow10((n - 1) as nat)
    }
}

/// A run of digits is worth less than ten to the power of its length.
pub proof fn lemma_digits_value_bound(s: Seq<char>)
    requires
        all_digits(s),
    ensures
        digits_value(s) < pow10(s.len()),
    decreases s.len(),
{
    if s.len() > 0 {
        let t = s.drop_last();
        assert(all_digits(t)) by {
            assert forall|i: int| 0 <= i < t.len() implies is_digit(#[trigger] t[i]) by {
                assert(t[i] == s[i]);
            }
        }
        lemma_digits_value_bound(t);
        assert(is_digit(s[s.len() - 1]));
        assert(digits_value(s) < pow10(s.len())) by (nonlinear_arith)
            requires
                digits_value(s) == digits_value(t) * 10 + ((s.last() as int) - ('0' as int)) as nat,
                digits_value(t) + 1 <= pow10(t.len()),
                0 <= (s.last() as int) - ('0' as int) <= 9,
                pow10(s.len()) == 10 * pow10(t.len()),
        ;
    }
}

/// Markers and checksum: byte 0 is STX (2), byte 16 is CR (13), and the
/// masked bytes sum to a multiple of 128.
pub open spec fn frame_intact(raw: Seq<u8>) -> bool {
    &&& raw.len() == 18
    &&& mask(raw[0]) == 2
    &&& mask(raw[16]) == 13
    &&& byte_sum(masked(raw)) % 128 == 0
}

/// The weight digits of a frame (bytes 4 to 9, masked).
pub open spec fn weight_text(raw: Seq<u8>) -> Seq<char> {
    text_of(masked(raw).subrange(4, 10))
}

/// The tare digits of a frame (bytes 10 to 15, masked).
pub open spec fn tare_text(raw: Seq<u8>) -> Seq<char> {
    text_of(masked(raw).subrange(10, 16))
}

/// Whether a frame decodes: it is intact and both digit runs are digits.
pub open spec fn frame_valid(raw: Seq<u8>) -> bool {
    &&& frame_intact(raw)
    &&& all_digits(weight_text(raw))
    &&& all_digits(tare_text(raw))
}

/// The masked status byte of a frame.
pub open spec fn status(raw: Seq<u8>) -> u8 {
    mask(raw[2])
}

/// The power of ten that scales both digit runs.
pub open spec fn frame_exponent(raw: Seq<u8>) -> int {
    2 - (mask(raw[1]) % 8) as int
}

/// The unit that bit 4 of the status byte selects.
pub open spec fn frame_unit(raw: Seq<u8>) -> Unit {
    if bit_spec(status(raw), 4) {
        Unit::Kilogram
    } else {
        Unit::Pound
    }
}

/// A decoded frame.
#[derive(Debug)]
pub struct Toledo {
    pub exponent: i32,
    pub weight: u64,
    pub tare: u64,
    pub net: bool,
    pub negative: bool,
    pub error: bool,
    pub moviment: bool,
    pub unit: Unit,
}

/// Whether `t` holds what the frame `raw` carries.
pub open spec fn decodes_to(raw: Seq<u8>, t: Toledo) -> bool {
    &&& t.exponent == frame_exponent(raw)
    &&& t.weight == digits_value(weight_text(raw))
    &&& t.tare == digits_value(tare_text(raw))
    &&& t.net == bit_spec(status(raw), 0)
    &&& t.negative == bit_spec(status(raw), 1)
    &&& t.error == bit_spec(status(raw), 2)
    &&& t.moviment == bit_spec(status(raw), 3)
    &&& t.unit == frame_unit(raw)
}

/// Relies on ascii_converter::decimals_to_string: it succeeds exactly when
/// every byte is printable ASCII (32 to 126), and then holds the bytes as
/// characters, one for one.
#[verifier::external_body]
fn decimals_to_string(bytes: &Vec<u8>) -> (r: Result<String, String>)
    ensures
        r is Ok <==> (forall|i: int| 0 <= i < bytes@.len() ==> 32 <= #[trigger] bytes@[i] <= 126),
        r is Ok ==> r->Ok_0@ == text_of(bytes@),
{
    ascii_converter::decimals_to_string(bytes)
}

/// Relies on `str::parse::<u64>`: one to nineteen ASCII digits read as their
/// decimal value (nineteen digits cannot overflow a `u64`).
#[verifier::external_body]
fn parse_u64(s: &String) -> (r: Option<u64>)
    ensures
        all_digits(s@) && 1 <= s@.len() <= 19 ==> r == Some(digits_value(s@) as u64),
{
    s.parse::<u64>().ok()
}

/// The bytes `v[start..end]`.
fn sub_bytes(v: &Vec<u8>, start: usize, end: usize) -> (r: Vec<u8>)
    requires
        start <= end <= v@.len(),
    ensures
        r@ == v@.subrange(start as int, end as int),
{
    let mut r: Vec<u8> = Vec::new();
    let mut i: usize = start;
    while i < end
        invariant
            start <= i <= end <= v@.len(),
            r@ == v@.subrange(start as int, i as int),
        decreases end - i,
    {
        r.push(v[i]);
        assert(r@ =~= v@.subrange(start as int, i + 1));
        i = i + 1;
    }
    r
}

/// Whether every byte of `v` is an ASCII digit.
fn digit_bytes(v: &Vec<u8>) -> (r: bool)
    ensures
        r == all_digits(text_of(v@)),
{
    let mut i: usize = 0;
    while i < v.len()
        invariant
            i <= v@.len(),
            forall|j: int| 0 <= j < i ==> is_digit(#[trigger] text_of(v@)[j]),
        decreases v@.len() - i,
    {
        if v[i] < 48 || v[i] > 57 {
            assert(!is_digit(text_of(v@)[i as int]));
            return false;
        }
        i = i + 1;
    }
    true
}

/// The digits of a run, read as a number, or `None` where a byte is not a
/// digit.
fn read_digits(v: &Vec<u8>) -> (r: Option<u64>)
    requires
        v@.len() == 6,
        forall|i: int| 0 <= i < v@.len() ==> #[trigger] v@[i] < 128,
    ensures
        r is Some <==> all_digits(text_of(v@)),
        r is Some ==> r == Some(digits_value(text_of(v@)) as u64),
        r is Some ==> digits_value(text_of(v@)) < 1000000,
{
    let text = match decimals_to_string(v) {
        Ok(t) => t,
        Err(_) => {
            if digit_bytes(v) {
                assert forall|i: int| 0 <= i < v@.len() implies 32 <= #[trigger] v@[i] <= 126 by {
                    assert(is_digit(text_of(v@)[i]));
                }
                assert(false);
            }
            return None;
        },
    };
    if !digit_bytes(v) {
        return None;
    }
    proof {
        lemma_digits_value_bound(text_of(v@));
        reveal_with_fuel(pow10, 7);
        assert(pow10(6) == 1000000);
    }
    parse_u64(&text)
}

impl Toledo {
    /// Decodes one frame. Fails with `Integrity` unless the frame is 18 bytes
    /// long, starts with STX and has CR at byte 16, its masked bytes sum to a
    /// multiple of 128, and both digit runs are ASCII digits.
    pub fn new(raw: &Vec<u8>) -> (r: Result<Toledo, ScaleError>)
        ensures
            r is Ok <==> frame_valid(raw@),
            r is Err ==> r == Err::<Toledo, ScaleError>(ScaleError::Integrity),
            r is Ok ==> decodes_to(raw@, r->Ok_0),
            r is Ok ==> r->Ok_0.weight < 1000000 && r->Ok_0.tare < 1000000,
            r is Ok ==> -5 <= r->Ok_0.exponent <= 2,
            raw@.len() == 18 && (byte_sum(masked(raw@)) % 128 != 0 || mask(raw@[0]) != 2
                || mask(raw@[16]) != 13) ==> r == Err::<Toledo, ScaleError>(ScaleError::Integrity),
    {
        if raw.len() != FRAME_LEN {
            return Err(ScaleError::Integrity);
        }
        let mut data: Vec<u8> = Vec::new();
        let mut check: u32 = 0;
        let mut i: usize = 0;
        while i < FRAME_LEN
            invariant
                i <= 18,
                raw@.len() == 18,
                data@ == masked(raw@.subrange(0, i as int)),
                check == byte_sum(data@),
                check <= 127 * i,
            decreases 18 - i,
        {
            let v: u8 = raw[i] % 128;
            let ghost before = data@;
            data.push(v);
            assert(data@.drop_last() =~= before);
            assert(data@ =~= masked(raw@.subrange(0, i + 1)));
            check = check + v as u32;
            i = i + 1;
        }
        assert(raw@.subrange(0, 18) =~= raw@);
        let stx = data[0];
        let cr = data[16];
        if stx != 2 || cr != 13 || check % 128 != 0 {
            return Err(ScaleError::Integrity);
        }
        let wbytes = sub_bytes(&data, 4, 10);
        let tbytes = sub_bytes(&data, 10, 16);
        let weight = match read_digits(&wbytes) {
            Some(w) => w,
            None => return Err(ScaleError::Integrity),
        };
        let tare = match read_digits(&tbytes) {
            Some(t) => t,
            None => return Err(ScaleError::Integrity),
        };
        let status = data[2];
        Ok(Toledo {
            exponent: 2 - ((data[1] as i32) % 8),
            weight,
            tare,
            net: bit(status, 0),
            negative: bit(status, 1),
            error: bit(status, 2),
            moviment: bit(status, 3),
            unit: if bit(status, 4) {
                Unit::Kilogram
            } else {
                Unit::Pound
            },
        })
    }
}

/// The `k` ASCII digits of `n` modulo `10^k`, most significant first.
pub open spec fn digit_run(n: nat, k: nat) -> Seq<u8>
    decreases k,
{
    if k == 0 {
        Seq::empty()
    } else {
        digit_run(n / 10, (k - 1) as nat).push((48 + n % 10) as u8)
    }
}

/// The status byte for these flags, with the fault and motion bits clear.
pub open spec fn status_of(net: bool, negative: bool, unit: Unit) -> u8 {
    ((if net { 1u8 } else { 0u8 }) + (if negative { 2u8 } else { 0u8 }) + (if unit == Unit::Kilogram {
        16u8
    } else {
        0u8
    })) as u8
}

/// The byte that brings `s`'s sum to a multiple of 128.
pub open spec fn checksum_for(s: Seq<u8>) -> u8 {
    ((128 - byte_sum(s) % 128) % 128) as u8
}

/// The frame that a settled scale sends for these values.
pub open spec fn frame_of(
    exponent: int,
    weight: nat,
    tare: nat,
    net: bool,
    negative: bool,
    unit: Unit,
) -> Seq<u8> {
    let body = seq![2u8, (2 - exponent) as u8, status_of(net, negative, unit), 0u8] + digit_run(
        weight,
        6,
    ) + digit_run(tare, 6) + seq![13u8];
    body.push(checksum_for(body))
}

proof fn lemma_digit_run(n: nat, k: nat)
    requires
        n < pow10(k),
    ensures
        digit_run(n, k).len() == k,
        forall|i: int| 0 <= i < k ==> 48 <= #[trigger] digit_run(n, k)[i] <= 57,
        all_digits(text_of(digit_run(n, k))),
        digits_value(text_of(digit_run(n, k))) == n,
    decreases k,
{
    if k > 0 {
        let m = (k - 1) as nat;
        assert(n / 10 < pow10(m)) by (nonlinear_arith)
            requires
                n < pow10(k),
                pow10(k) == 10 * pow10(m),
        ;
        lemma_digit_run(n / 10, m);
        let r = digit_run(n, k);
        let t = text_of(r);
        assert forall|i: int| 0 <= i < k implies 48 <= #[trigger] r[i] <= 57 by {
            if i < m {
                assert(r[i] == digit_run(n / 10, m)[i]);
            }
        }
        assert forall|i: int| 0 <= i < t.len() implies is_digit(#[trigger] t[i]) by {
            assert(48 <= r[i] <= 57);
        }
        assert(t.drop_last() =~= text_of(digit_run(n / 10, m)));
        assert(n == (n / 10) * 10 + n % 10) by (nonlinear_arith);
    }
}

proof fn lemma_byte_sum_append(s: Seq<u8>, t: Seq<u8>)
    ensures
        byte_sum(s + t) == byte_sum(s) + byte_sum(t),
    decreases t.len(),
{
    if t.len() > 0 {
        assert((s + t).drop_last() =~= s + t.drop_last());
        lemma_byte_sum_append(s, t.drop_last());
    } else {
        assert(s + t =~= s);
    }
}

/// Building a frame from an exponent, two digit runs, the net and sign flags
/// and a unit, and decoding it, gives each of them back.
pub proof fn lemma_frame_round_trip(
    exponent: int,
    weight: nat,
    tare: nat,
    net: bool,
    negative: bool,
    unit: Unit,
)
    requires
        -5 <= exponent <= 2,
        weight < 1000000,
        tare < 1000000,
    ensures
        frame_valid(frame_of(exponent, weight, tare, net, negative, unit)),
        frame_exponent(frame_of(exponent, weight, tare, net, negative, unit)) == exponent,
        digits_value(weight_text(frame_of(exponent, weight, tare, net, negative, unit))) == weight,
        digits_value(tare_text(frame_of(exponent, weight, tare, net, negative, unit))) == tare,
        bit_spec(status(frame_of(exponent, weight, tare, net, negative, unit)), 0) == net,
        bit_spec(status(frame_of(exponent, weight, tare, net, negative, unit)), 1) == negative,
        !bit_spec(status(frame_of(exponent, weight, tare, net, negative, unit)), 2),
        !bit_spec(status(frame_of(exponent, weight, tare, net, negative, unit)), 3),
        frame_unit(frame_of(exponent, weight, tare, net, negative, unit)) == unit,
{
    let f = frame_of(exponent, weight, tare, net, negative, unit);
    let head = seq![2u8, (2 - exponent) as u8, status_of(net, negative, unit), 0u8];
    let w = digit_run(weight, 6);
    let t = digit_run(tare, 6);
    let body = head + w + t + seq![13u8];
    reveal_with_fuel(pow10, 7);
    lemma_digit_run(weight, 6);
    lemma_digit_run(tare, 6);
    assert(f.len() == 18);
    assert forall|i: int| 0 <= i < 18 implies #[trigger] f[i] < 128 by {
        if 4 <= i < 10 {
            assert(f[i] == w[i - 4]);
        } else if 10 <= i < 16 {
            assert(f[i] == t[i - 10]);
        }
    }
    assert(masked(f) =~= f);
    assert(f.subrange(4, 10) =~= w);
    assert(f.subrange(10, 16) =~= t);
    assert(f.drop_last() =~= body);
    assert(byte_sum(f) % 128 == 0) by {
        let s = byte_sum(body);
        assert(byte_sum(f) == s + checksum_for(body));
        assert((s + (128 - s % 128) % 128) % 128 == 0) by (nonlinear_arith);
    }
    let a: u8 = if net { 1u8 } else { 0u8 };
    let b: u8 = if negative { 2u8 } else { 0u8 };
    let c: u8 = if unit == Unit::Kilogram { 16u8 } else { 0u8 };
    let st = status_of(net, negative, unit);
    assert(st == a + b + c);
    assert(status(f) == st);
    assert(((st >> 0u8) & 1u8 == 1u8) == (a == 1u8) && ((st >> 1u8) & 1u8 == 1u8) == (b == 2u8)
        && ((st >> 2u8) & 1u8 != 1u8) && ((st >> 3u8) & 1u8 != 1u8) && ((st >> 4u8) & 1u8 == 1u8)
        == (c == 16u8)) by (bit_vector)
        requires
            a == 0u8 || a == 1u8,
            b == 0u8 || b == 2u8,
            c == 0u8 || c == 16u8,
            st == a + b + c,
    ;
}

} // verus!
