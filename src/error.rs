//! The reasons for which a reading is refused.
use vstd::prelude::*;
use vstd::string::StringExecFns;

verus! {

/// Why a frame did not become an accepted reading. Each reason has a stable
/// token (`ERR_...`) that callers and message tables key on.
#[derive(PartialEq, Eq, Structural, Clone, Copy, Debug)]
pub enum ScaleError {
    /// Malformed or unreadable frame: markers, checksum, digits or a short read.
    Integrity,
    /// The scale has not settled.
    Moviment,
    /// The scale reports a fault.
    Scale,
    /// The reading is not in the required unit.
    Unit,
    /// The weight is out of the configured bounds.
    Weigth,
    /// The tare is out of the configured bounds.
    Tare,
    /// The physical source could not be read.
    Port,
}

/// The token of each reason.
pub open spec fn token_spec(e: ScaleError) -> Seq<char> {
    match e {
        ScaleError::Integrity => "ERR_INTEGRITY"@,
        ScaleError::Moviment => "ERR_MOVIMENT"@,
        ScaleError::Scale => "ERR_SCALE"@,
        ScaleError::Unit => "ERR_UNIT"@,
        ScaleError::Weigth => "ERR_WEIGTH"@,
        ScaleError::Tare => "ERR_TARE"@,
        ScaleError::Port => "ERR_PORT"@,
    }
}

impl ScaleError {
    /// The token of this reason, such as `ERR_INTEGRITY`.
    pub fn token(&self) -> (r: String)
        ensures
            r@ == token_spec(*self),
    {
        match self {
            ScaleError::Integrity => String::from_str("ERR_INTEGRITY"),
            ScaleError::Moviment => String::from_str("ERR_MOVIMENT"),
            ScaleError::Scale => String::from_str("ERR_SCALE"),
            ScaleError::Unit => String::from_str("ERR_UNIT"),
            ScaleError::Weigth => String::from_str("ERR_WEIGTH"),
            ScaleError::Tare => String::from_str("ERR_TARE"),
            ScaleError::Port => String::from_str("ERR_PORT"),
        }
    }
}

} // verus!
