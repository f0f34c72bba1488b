//! Why a call fails.
use vstd::prelude::*;

verus! {

/// The reason for which a call was refused. A refused call changes nothing.
#[derive(Clone, Copy, Debug, PartialEq, Eq, Structural)]
pub enum MangoError {
    /// The request could not be decoded.
    MalformedInput,
    /// The state does not admit the call: a cached value is stale, a slot
    /// does not exist or does not hold what the call is about, an event is
    /// out of turn.
    InvalidState,
    /// A liquidator called on an account whose maintenance health is not
    /// negative.
    NotLiquidatable,
    /// The call would leave the account with too little health.
    InsufficientHealth,
    /// A pool or a balance holds less than the call needs.
    InsufficientFunds,
    /// The caller has no right to make the call.
    Unauthorized,
    /// An invariant is broken: the clock went back, an event came twice, a
    /// number left the range of the arithmetic.
    Fatal,
}

} // verus!
