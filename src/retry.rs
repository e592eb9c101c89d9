//! The decisions around each attempt to take a reading: whether to try again,
//! and the whole attempt for a replayed source.
use vstd::prelude::*;
use crate::error::ScaleError;
use crate::protocol::{accepted, read_scale, Constraints, Data};
use crate::reader::File;

verus! {

/// How many attempts a request makes against a live source.
pub const ATTEMPTS: u8 = 4;

/// What to do after an attempt.
#[derive(Debug)]
pub enum Step {
    /// Hand this outcome back.
    Done(Result<Data, ScaleError>),
    /// Try again, with this many attempts left.
    Retry(u8),
}

/// The step after an attempt that ended in `outcome` with `attempts` attempts
/// (this one included) allowed: a failure is retried while more than one
/// attempt is allowed and the source is live; anything else is handed back.
pub open spec fn step_spec(attempts: u8, live: bool, outcome: Result<Data, ScaleError>) -> Step {
    if outcome is Err && attempts > 1 && live {
        Step::Retry((attempts - 1) as u8)
    } else {
        Step::Done(outcome)
    }
}

/// Decides what follows an attempt; see `step_spec`.
pub fn next_step(attempts: u8, live: bool, outcome: Result<Data, ScaleError>) -> (r: Step)
    ensures
        r == step_spec(attempts, live, outcome),
{
    match outcome {
        Ok(d) => Step::Done(Ok(d)),
        Err(e) => {
            if attempts > 1 && live {
                Step::Retry(attempts - 1)
            } else {
                Step::Done(Err(e))
            }
        },
    }
}

/// One request against a replayed source: reads the next frame and holds its
/// reading to `c`. A replayed source is never retried, since it would give
/// the same answer again.
pub fn read_file_scale(file: &mut File, c: &Constraints) -> (r: Result<Data, ScaleError>)
    ensures
        final(file).bytes() == old(file).bytes(),
        final(file).cursor() == (if old(file).cursor() + 18 >= old(file).bytes().len() {
            0
        } else {
            old(file).cursor() + 18
        }),
        old(file).cursor() + 18 > old(file).bytes().len() ==> r == Err::<Data, ScaleError>(
            ScaleError::Integrity,
        ),
        old(file).cursor() + 18 <= old(file).bytes().len() ==> r == accepted(
            old(file).bytes().subrange(old(file).cursor() as int, old(file).cursor() + 18int),
            *c,
        ),
{
    let raw = file.read()?;
    read_scale(&raw, c)
}

} // verus!
