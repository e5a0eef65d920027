//! Error values returned by the oracle engine and by the payment-schedule
//! helpers.

use vstd::prelude::*;

verus! {

/// Everything that can go wrong in the oracle engine, from registration
/// through validation, aggregation and queries. All errors are recoverable
/// at the call boundary; a failed call leaves the engine state unchanged
/// except where a function's contract says otherwise.
#[derive(Clone, Copy, Debug, PartialEq, Eq, Structural)]
pub enum OracleError {
    // Lifecycle
    AlreadyInitialized,
    NotInitialized,
    Unauthorized,
    EmergencyStopActive,
    // Registration
    NodeAlreadyRegistered,
    InsufficientStake,
    NodeNotFound,
    // Submission validation
    UnregisteredNode,
    NodeNotEligible,
    RateLimitExceeded,
    InvalidPriceZero,
    PriceTooHigh,
    PriceTooLow,
    InvalidAssetSymbol,
    TimestampTooOld,
    TimestampInFuture,
    MissingSignature,
    InvalidSignatureFormat,
    // Aggregation
    NoPriceData,
    NoValidSubmissions,
    NoWeightedData,
    UnreliablePrice,
    // Queries
    PriceNotAvailable,
    StalePrice,
    NoFallbackAvailable,
}

/// Errors of the payment-schedule rules that accompany the oracle in
/// this crate.
#[derive(Clone, Copy, Debug, PartialEq, Eq, Structural)]
pub enum ContractError {
    // Initialization
    AlreadyInitialized,
    NotInitialized,
    // Authorization
    Unauthorized,
    AdminOnly,
    PayerOnly,
    RecipientOnly,
    // Schedules
    ScheduleNotFound,
    ScheduleNotActive,
    ScheduleAlreadyCancelled,
    PaymentNotDue,
    // Payments
    InsufficientBalance,
    PaymentFailed,
    InvalidAmount,
    // Validation
    InvalidInput,
    InvalidStartTime,
    InvalidEndTime,
    // General
    DataNotFound,
    OperationNotAllowed,
}

} // verus!
