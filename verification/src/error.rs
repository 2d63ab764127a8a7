//! The reasons for which a request is refused.
use vstd::prelude::*;

verus! {

/// Why a request was refused. A refused request changes nothing.
#[derive(Clone, Copy, Debug, PartialEq, Eq, Structural)]
pub enum ContractError {
    /// The caller is not the owner or the margin engine that the operation
    /// is reserved for.
    Unauthorized,
    /// The request itself is malformed: zero leverage, a zero averaging
    /// interval where one is needed, an unknown market or position, a clock
    /// that runs backwards.
    InvalidRequest,
    /// The swap would take at least as much of an asset as the pool holds.
    InsufficientReserve,
    /// A swap result arrived while no matching swap was in flight.
    NoPendingSwap,
    /// Funding settlement was asked for before its window opened.
    TooEarly,
    /// A result does not fit the number range: above the 128-bit maximum or
    /// below zero.
    Overflow,
}

impl ContractError {
    /// The message shown to the caller.
    pub fn message(&self) -> (s: String)
        ensures
            s@ == self.message_spec(),
    {
        match self {
            ContractError::Unauthorized => "unauthorized".to_owned(),
            ContractError::InvalidRequest => "invalid request".to_owned(),
            ContractError::InsufficientReserve => "insufficient reserve".to_owned(),
            ContractError::NoPendingSwap => "no temporary position".to_owned(),
            ContractError::TooEarly => "settle funding called too early".to_owned(),
            ContractError::Overflow => "arithmetic overflow".to_owned(),
        }
    }

    /// The text of [`ContractError::message`].
    pub open spec fn message_spec(&self) -> Seq<char> {
        match self {
            ContractError::Unauthorized => "unauthorized"@,
            ContractError::InvalidRequest => "invalid request"@,
            ContractError::InsufficientReserve => "insufficient reserve"@,
            ContractError::NoPendingSwap => "no temporary position"@,
            ContractError::TooEarly => "settle funding called too early"@,
            ContractError::Overflow => "arithmetic overflow"@,
        }
    }
}

} // verus!
