//! Errors reported to clients of the service.
use crate::messages::{append, decimal, decimal_text};
use vstd::prelude::*;

verus! {

pub enum PicoError {
    /// The input ran past the allowed number of cycles, given here.
    ExceededCycleLimit(u64),
    /// Any other failure, with its description.
    InternalError(String),
}

/// The text of an error.
pub open spec fn error_text(e: PicoError) -> Seq<char> {
    match e {
        PicoError::ExceededCycleLimit(n) => "input exceeded cycle limit of "@ + decimal(n as nat),
        PicoError::InternalError(s) => "internal error: "@ + s@,
    }
}

impl PicoError {
    /// The text of the error, as shown to clients.
    pub fn message(&self) -> (r: String)
        ensures
            r@ == error_text(*self),
    {
        match self {
            PicoError::ExceededCycleLimit(n) => {
                let mut r = "input exceeded cycle limit of ".to_owned();
                let digits = decimal_text(*n);
                append(&mut r, digits.as_str());
                r
            },
            PicoError::InternalError(s) => {
                let mut r = "internal error: ".to_owned();
                append(&mut r, s.as_str());
                r
            },
        }
    }
}

} // verus!
