//! The envelope in which the service answers API calls.
use vstd::prelude::*;

verus! {

/// An answer of the service: whether the call succeeded, a message for the
/// user, and the payload.
pub struct DefaultReturn<B> {
    pub success: bool,
    pub message: String,
    pub payload: B,
}

} // verus!
