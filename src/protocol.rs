//! Readings built from decoded frames, and the bounds they are held to.
//!
//! Weights and tares are kept exactly, as whole numbers of hundred-thousandths
//! of the frame's unit: a frame scales its digits by a power of ten between
//! `10^-5` and `10^2`, so every value it can carry is such a whole number.
use vstd::prelude::*;
use crate::error::ScaleError;
use crate::toledo::{
    bit_spec, digits_value, frame_exponent, frame_of, frame_unit, frame_valid,
    lemma_frame_round_trip, pow10, status, tare_text, weight_text, Toledo, Unit,
};

verus! {

/// A settled reading: weight and tare in hundred-thousandths of `unit`.
#[derive(PartialEq, Eq, Structural, Clone, Copy, Debug)]
pub struct Data {
    pub weight: i64,
    pub tare: i64,
    pub unit: Unit,
}

/// Optional bounds a reading must meet. Weight and tare bounds are in
/// hundred-thousandths of the reading's unit and are inclusive.
#[derive(PartialEq, Eq, Structural, Clone, Copy, Debug)]
pub struct Constraints {
    pub unit: Option<Unit>,
    pub min_weight: Option<i64>,
    pub max_weight: Option<i64>,
    pub min_tare: Option<i64>,
    pub max_tare: Option<i64>,
}

/// How many hundred-thousandths one step of a frame with this exponent is.
pub open spec fn step_factor(exponent: int) -> nat {
    pow10((exponent + 5) as nat)
}

/// The signed weight a valid frame carries, in hundred-thousandths.
pub open spec fn frame_weight(raw: Seq<u8>) -> int {
    let w = digits_value(weight_text(raw)) * step_factor(frame_exponent(raw));
    if bit_spec(status(raw), 1) {
        -w
    } else {
        w as int
    }
}

/// The tare a valid frame carries, in hundred-thousandths: zero unless the
/// frame is marked net.
pub open spec fn frame_tare(raw: Seq<u8>) -> int {
    if bit_spec(status(raw), 0) {
        (digits_value(tare_text(raw)) * step_factor(frame_exponent(raw))) as int
    } else {
        0
    }
}

/// What a frame yields: an integrity error, then motion, then a scale fault,
/// and otherwise its weight, tare and unit.
pub open spec fn frame_reading(raw: Seq<u8>) -> Result<Data, ScaleError> {
    if !frame_valid(raw) {
        Err(ScaleError::Integrity)
    } else if bit_spec(status(raw), 3) {
        Err(ScaleError::Moviment)
    } else if bit_spec(status(raw), 2) {
        Err(ScaleError::Scale)
    } else {
        Ok(Data {
            weight: frame_weight(raw) as i64,
            tare: frame_tare(raw) as i64,
            unit: frame_unit(raw),
        })
    }
}

/// The first bound that `d` breaks, checked in the order unit, least weight,
/// greatest weight, least tare, greatest tare.
pub open spec fn violation(d: Data, c: Constraints) -> Option<ScaleError> {
    if c.unit is Some && c.unit->Some_0 != d.unit {
        Some(ScaleError::Unit)
    } else if c.min_weight is Some && d.weight < c.min_weight->Some_0 {
        Some(ScaleError::Weigth)
    } else if c.max_weight is Some && d.weight > c.max_weight->Some_0 {
        Some(ScaleError::Weigth)
    } else if c.min_tare is Some && d.tare < c.min_tare->Some_0 {
        Some(ScaleError::Tare)
    } else if c.max_tare is Some && d.tare > c.max_tare->Some_0 {
        Some(ScaleError::Tare)
    } else {
        None
    }
}

/// `d` if it meets `c`, else the first bound it breaks.
pub open spec fn validated(d: Data, c: Constraints) -> Result<Data, ScaleError> {
    match violation(d, c) {
        Some(e) => Err(e),
        None => Ok(d),
    }
}

/// What a frame yields once held to `c`.
pub open spec fn accepted(raw: Seq<u8>, c: Constraints) -> Result<Data, ScaleError> {
    match frame_reading(raw) {
        Ok(d) => validated(d, c),
        Err(e) => Err(e),
    }
}

/// Ten to the power `n`, for `n` up to 7.
fn step_of(n: u32) -> (r: i64)
    requires
        n <= 7,
    ensures
        r == pow10(n as nat),
        0 < r <= 10000000,
{
    proof {
        reveal_with_fuel(pow10, 8);
    }
    match n {
        0 => 1,
        1 => 10,
        2 => 100,
        3 => 1000,
        4 => 10000,
        5 => 100000,
        6 => 1000000,
        _ => 10000000,
    }
}

impl Data {
    /// Builds the reading that a frame carries. Fails with `Integrity` on a
    /// frame that does not decode, then with `Moviment` while the scale is
    /// moving, then with `Scale` when it reports a fault.
    pub fn from_toledo(raw: &Vec<u8>) -> (r: Result<Data, ScaleError>)
        ensures
            r == frame_reading(raw@),
            r is Ok ==> r->Ok_0.weight as int == frame_weight(raw@) && r->Ok_0.tare as int
                == frame_tare(raw@),
    {
        let toledo = match Toledo::new(raw) {
            Ok(t) => t,
            Err(e) => return Err(e),
        };
        if toledo.moviment {
            Err(ScaleError::Moviment)
        } else if toledo.error {
            Err(ScaleError::Scale)
        } else {
            let step = step_of((toledo.exponent + 5) as u32);
            let digits = toledo.weight as i64;
            assert(digits * step <= 999999 * 10000000) by (nonlinear_arith)
                requires
                    0 <= digits < 1000000,
                    0 < step <= 10000000,
            ;
            let magnitude = digits * step;
            let weight = if toledo.negative {
                -magnitude
            } else {
                magnitude
            };
            let tare = if toledo.net {
                let tare_digits = toledo.tare as i64;
                assert(tare_digits * step <= 999999 * 10000000) by (nonlinear_arith)
                    requires
                        0 <= tare_digits < 1000000,
                        0 < step <= 10000000,
                ;
                tare_digits * step
            } else {
                0
            };
            Ok(Data { weight, tare, unit: toledo.unit })
        }
    }

    /// Passes unless a unit is required and this reading is in another.
    pub fn check_unit(&self, unit: Option<Unit>) -> (r: Result<&Data, ScaleError>)
        ensures
            r == (if unit is Some && unit->Some_0 != self.unit {
                Err::<&Data, ScaleError>(ScaleError::Unit)
            } else {
                Ok(self)
            }),
    {
        if let Some(u) = unit {
            if u != self.unit {
                return Err(ScaleError::Unit);
            }
        }
        Ok(self)
    }

    /// Passes unless a least weight is given and the weight is below it.
    pub fn check_min_weight(&self, min_weight: Option<i64>) -> (r: Result<&Data, ScaleError>)
        ensures
            r == (if min_weight is Some && self.weight < min_weight->Some_0 {
                Err::<&Data, ScaleError>(ScaleError::Weigth)
            } else {
                Ok(self)
            }),
    {
        if let Some(m) = min_weight {
            if self.weight < m {
                return Err(ScaleError::Weigth);
            }
        }
        Ok(self)
    }

    /// Passes unless a greatest weight is given and the weight is above it.
    pub fn check_max_weight(&self, max_weight: Option<i64>) -> (r: Result<&Data, ScaleError>)
        ensures
            r == (if max_weight is Some && self.weight > max_weight->Some_0 {
                Err::<&Data, ScaleError>(ScaleError::Weigth)
            } else {
                Ok(self)
            }),
    {
        if let Some(m) = max_weight {
            if self.weight > m {
                return Err(ScaleError::Weigth);
            }
        }
        Ok(self)
    }

    /// Passes unless a least tare is given and the tare is below it.
    pub fn check_min_tare(&self, min_tare: Option<i64>) -> (r: Result<&Data, ScaleError>)
        ensures
            r == (if min_tare is Some && self.tare < min_tare->Some_0 {
                Err::<&Data, ScaleError>(ScaleError::Tare)
            } else {
                Ok(self)
            }),
    {
        if let Some(m) = min_tare {
            if self.tare < m {
                return Err(ScaleError::Tare);
            }
        }
        Ok(self)
    }

    /// Passes unless a greatest tare is given and the tare is above it.
    pub fn check_max_tare(&self, max_tare: Option<i64>) -> (r: Result<&Data, ScaleError>)
        ensures
            r == (if max_tare is Some && self.tare > max_tare->Some_0 {
                Err::<&Data, ScaleError>(ScaleError::Tare)
            } else {
                Ok(self)
            }),
    {
        if let Some(m) = max_tare {
            if self.tare > m {
                return Err(ScaleError::Tare);
            }
        }
        Ok(self)
    }

    /// Holds the reading to every bound of `c`, in order, and fails with the
    /// first one it breaks.
    pub fn check(&self, c: &Constraints) -> (r: Result<&Data, ScaleError>)
        ensures
            r == (match violation(*self, *c) {
                Some(e) => Err::<&Data, ScaleError>(e),
                None => Ok(self),
            }),
    {
        let d = self.check_unit(c.unit)?;
        let d = d.check_min_weight(c.min_weight)?;
        let d = d.check_max_weight(c.max_weight)?;
        let d = d.check_min_tare(c.min_tare)?;
        d.check_max_tare(c.max_tare)
    }
}

/// Decodes one frame, builds its reading and holds it to `c`.
pub fn read_scale(raw: &Vec<u8>, c: &Constraints) -> (r: Result<Data, ScaleError>)
    ensures
        r == accepted(raw@, *c),
{
    let d = Data::from_toledo(raw)?;
    match d.check(c) {
        Ok(_) => Ok(d),
        Err(e) => Err(e),
    }
}

/// A frame that decodes but says the scale is moving is refused with
/// `Moviment`, whatever its digits and whatever the bounds.
pub proof fn lemma_motion_refused(raw: Seq<u8>, c: Constraints)
    requires
        frame_valid(raw),
        bit_spec(status(raw), 3),
    ensures
        accepted(raw, c) == Err::<Data, ScaleError>(ScaleError::Moviment),
{
}

/// The reading of a frame built from an exponent, digit runs, flags and a
/// unit is exactly the signed, scaled weight, the tare when net (else zero),
/// and that unit.
pub proof fn lemma_reading_round_trip(
    exponent: int,
    weight: nat,
    tare: nat,
    net: bool,
    negative: bool,
    unit: Unit,
)
    requires
        -5 <= exponent <= 2,
        weight < 1000000,
        tare < 1000000,
    ensures
        weight * step_factor(exponent) < 10000000000000,
        tare * step_factor(exponent) < 10000000000000,
        frame_reading(frame_of(exponent, weight, tare, net, negative, unit)) == Ok::<
            Data,
            ScaleError,
        >(
            Data {
                weight: (if negative {
                    -(weight * step_factor(exponent))
                } else {
                    (weight * step_factor(exponent)) as int
                }) as i64,
                tare: (if net {
                    tare * step_factor(exponent)
                } else {
                    0
                }) as i64,
                unit,
            },
        ),
{
    lemma_frame_round_trip(exponent, weight, tare, net, negative, unit);
    reveal_with_fuel(pow10, 8);
    assert(step_factor(exponent) <= 10000000);
    assert(weight * step_factor(exponent) < 10000000000000) by (nonlinear_arith)
        requires
            weight < 1000000,
            step_factor(exponent) <= 10000000,
    ;
    assert(tare * step_factor(exponent) < 10000000000000) by (nonlinear_arith)
        requires
            tare < 1000000,
            step_factor(exponent) <= 10000000,
    ;
}

/// A reading that passed the bounds passes them again, unchanged.
pub proof fn lemma_validation_idempotent(d: Data, c: Constraints)
    requires
        validated(d, c) is Ok,
    ensures
        validated(validated(d, c)->Ok_0, c) == validated(d, c),
        validated(d, c)->Ok_0 == d,
{
}

/// Weight bounds are inclusive: a weight equal to the least or the greatest
/// bound is not refused for its weight, and one step below the least or above
/// the greatest is refused with `Weigth`.
pub proof fn lemma_weight_bounds_inclusive(d: Data, c: Constraints)
    requires
        c.unit is None || c.unit == Some(d.unit),
        c.min_weight is Some,
        c.max_weight is Some,
        c.min_weight->Some_0 <= c.max_weight->Some_0,
    ensures
        d.weight == c.min_weight->Some_0 || d.weight == c.max_weight->Some_0 ==> violation(d, c)
            != Some(ScaleError::Weigth),
        d.weight == c.min_weight->Some_0 - 1 || d.weight == c.max_weight->Some_0 + 1
            ==> violation(d, c) == Some(ScaleError::Weigth),
{
}

} // verus!
