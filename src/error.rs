use vstd::prelude::*;

verus! {

/// Why a marketplace operation did not take effect.
#[derive(Clone, Copy, Debug, PartialEq, Eq, Structural)]
pub enum EngineError {
    /// The identity has no account.
    UnknownAccount,
    /// The coupon does not exist.
    UnknownCoupon,
    /// The account's balance is below what the operation demands.
    InsufficientReputation,
    /// The unit of work failed before commit and was rolled back.
    Aborted,
    /// An account with this identity exists already.
    AlreadyExists,
}

/// An error as it is reported to a caller.
#[derive(Clone, Debug)]
pub struct AppError {
    pub message: String,
}

/// The message that reports `e` to a caller.
pub open spec fn message_of(e: EngineError) -> Seq<char> {
    match e {
        EngineError::UnknownAccount => "Unknown user"@,
        EngineError::UnknownCoupon => "Unknown coupon"@,
        EngineError::InsufficientReputation => "User does not have enough reputation"@,
        EngineError::Aborted => "Internal error: transaction aborted"@,
        EngineError::AlreadyExists => "User already exists"@,
    }
}

/// The message that reports `e` to a caller whose vote was refused.
pub open spec fn vote_message_of(e: EngineError) -> Seq<char> {
    match e {
        EngineError::InsufficientReputation => "User does not have enough reputation to vote"@,
        _ => message_of(e),
    }
}

impl EngineError {
    /// The message that reports this error to a caller.
    pub fn message(&self) -> (r: String)
        ensures
            r@ == message_of(*self),
    {
        match self {
            EngineError::UnknownAccount => "Unknown user".to_owned(),
            EngineError::UnknownCoupon => "Unknown coupon".to_owned(),
            EngineError::InsufficientReputation => "User does not have enough reputation".to_owned(),
            EngineError::Aborted => "Internal error: transaction aborted".to_owned(),
            EngineError::AlreadyExists => "User already exists".to_owned(),
        }
    }
}

impl EngineError {
    /// The message that reports this error to a caller whose vote was refused.
    pub fn vote_message(&self) -> (r: String)
        ensures
            r@ == vote_message_of(*self),
    {
        match self {
            EngineError::InsufficientReputation => "User does not have enough reputation to vote".to_owned(),
            _ => self.message(),
        }
    }
}

impl AppError {
    /// The report of `e`.
    pub fn from_error(e: EngineError) -> (r: AppError)
        ensures
            r.message@ == message_of(e),
    {
        AppError { message: e.message() }
    }
}

} // verus!
