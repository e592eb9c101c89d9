//! Decoding and validation of the weight frames that a Toledo scale sends
//! over a serial line.

pub mod error;
pub mod message;
pub mod protocol;
pub mod reader;
pub mod retry;
pub mod toledo;
