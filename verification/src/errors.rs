//! The closed set of failures that the engine reports to its callers.

use vstd::prelude::*;

verus! {

/// Every way in which an operation of the engine can fail.
///
/// Failures are values, not crashes: each operation reports the first
/// condition that its input violates and leaves the state untouched.
#[derive(Copy, Clone, Debug, PartialEq, Eq, PartialOrd, Ord, Structural)]
pub enum Error {
    /// `initialize` was called on an engine that already has its configuration.
    AlreadyInitialized,
    /// A state-changing operation was called before `initialize`.
    NotInitialized,
    /// The identity on whose behalf the operation acts did not authorize it.
    Unauthorized,
    /// No market has been created under the given identifier.
    MarketNotFound,
    /// The market no longer accepts stakes: it is resolved, or its deadline has come.
    MarketClosed,
    /// Winnings were claimed on a market that is still open.
    MarketNotResolved,
    /// The market already has an outcome; it keeps the first one.
    MarketAlreadyResolved,
    /// Resolution was attempted before the market's deadline.
    DeadlineNotReached,
    /// A stake must be strictly positive.
    InvalidAmount,
    /// Part of the numbering of failures; no operation reports it.
    NothingToClaim,
    /// The position has been paid out before.
    AlreadyClaimed,
    /// A market's deadline must lie strictly after the time of its creation.
    InvalidDeadline,
}

impl Error {
    /// The number under which the failure is known outside the engine.
    pub open spec fn spec_code(self) -> u32 {
        match self {
            Error::AlreadyInitialized => 1,
            Error::NotInitialized => 2,
            Error::Unauthorized => 3,
            Error::MarketNotFound => 4,
            Error::MarketClosed => 5,
            Error::MarketNotResolved => 6,
            Error::MarketAlreadyResolved => 7,
            Error::DeadlineNotReached => 8,
            Error::InvalidAmount => 9,
            Error::NothingToClaim => 10,
            Error::AlreadyClaimed => 11,
            Error::InvalidDeadline => 12,
        }
    }

    /// The number under which the failure is known outside the engine.
    #[verifier::when_used_as_spec(spec_code)]
    pub fn code(self) -> (code: u32)
        ensures
            code == self.spec_code(),
            1 <= code <= 12,
    {
        match self {
            Error::AlreadyInitialized => 1,
            Error::NotInitialized => 2,
            Error::Unauthorized => 3,
            Error::MarketNotFound => 4,
            Error::MarketClosed => 5,
            Error::MarketNotResolved => 6,
            Error::MarketAlreadyResolved => 7,
            Error::DeadlineNotReached => 8,
            Error::InvalidAmount => 9,
            Error::NothingToClaim => 10,
            Error::AlreadyClaimed => 11,
            Error::InvalidDeadline => 12,
        }
    }

    /// The failure known under `code`, if there is one.
    pub fn from_code(code: u32) -> (error: Option<Error>)
        ensures
            error is Some <==> 1 <= code <= 12,
            error is Some ==> error->Some_0.spec_code() == code,
    {
        match code {
            1 => Some(Error::AlreadyInitialized),
            2 => Some(Error::NotInitialized),
            3 => Some(Error::Unauthorized),
            4 => Some(Error::MarketNotFound),
            5 => Some(Error::MarketClosed),
            6 => Some(Error::MarketNotResolved),
            7 => Some(Error::MarketAlreadyResolved),
            8 => Some(Error::DeadlineNotReached),
            9 => Some(Error::InvalidAmount),
            10 => Some(Error::NothingToClaim),
            11 => Some(Error::AlreadyClaimed),
            12 => Some(Error::InvalidDeadline),
            _ => None,
        }
    }
}

} // verus!
