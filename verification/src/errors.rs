//! Typed failures. Every validation, authorization or arithmetic failure is
//! reported through these enums; no ledger operation panics.

use vstd::prelude::*;

verus! {

/// Errors returned by the ledger operations.
///
/// `GenericError` carries a numeric code and a human-readable message for
/// conditions that have no dedicated variant.
#[derive(Clone, Debug, PartialEq)]
pub enum TransferError {
    BadFee { expected_fee: u128 },
    BadBurn { min_burn_amount: u128 },
    InsufficientFunds { balance: u128 },
    TooOld,
    CreatedInFuture { ledger_time: u64 },
    Duplicate { duplicate_of: u64 },
    TemporarilyUnavailable,
    GenericError { error_code: u128, message: String },
    InvalidAmount,
    MemoTooLarge,
    SupplyExceeded,
    Overflow,
    Unauthorized,
}

/// Mathematical image of a `TransferError`: the message is a character
/// sequence rather than a heap string, so contracts can speak of it.
#[verifier::ext_equal]
pub enum TransferErrorV {
    BadFee { expected_fee: u128 },
    BadBurn { min_burn_amount: u128 },
    InsufficientFunds { balance: u128 },
    TooOld,
    CreatedInFuture { ledger_time: u64 },
    Duplicate { duplicate_of: u64 },
    TemporarilyUnavailable,
    GenericError { error_code: u128, message: Seq<char> },
    InvalidAmount,
    MemoTooLarge,
    SupplyExceeded,
    Overflow,
    Unauthorized,
}

impl View for TransferError {
    type V = TransferErrorV;

    open spec fn view(&self) -> TransferErrorV {
        match self {
            TransferError::BadFee { expected_fee } => TransferErrorV::BadFee {
                expected_fee: *expected_fee,
            },
            TransferError::BadBurn { min_burn_amount } => TransferErrorV::BadBurn {
                min_burn_amount: *min_burn_amount,
            },
            TransferError::InsufficientFunds { balance } => TransferErrorV::InsufficientFunds {
                balance: *balance,
            },
            TransferError::TooOld => TransferErrorV::TooOld,
            TransferError::CreatedInFuture { ledger_time } => TransferErrorV::CreatedInFuture {
                ledger_time: *ledger_time,
            },
            TransferError::Duplicate { duplicate_of } => TransferErrorV::Duplicate {
                duplicate_of: *duplicate_of,
            },
            TransferError::TemporarilyUnavailable => TransferErrorV::TemporarilyUnavailable,
            TransferError::GenericError { error_code, message } => TransferErrorV::GenericError {
                error_code: *error_code,
                message: message@,
            },
            TransferError::InvalidAmount => TransferErrorV::InvalidAmount,
            TransferError::MemoTooLarge => TransferErrorV::MemoTooLarge,
            TransferError::SupplyExceeded => TransferErrorV::SupplyExceeded,
            TransferError::Overflow => TransferErrorV::Overflow,
            TransferError::Unauthorized => TransferErrorV::Unauthorized,
        }
    }
}

/// The result of a settling operation: the new transaction id, or the first
/// failure met.
pub type TransferResult = Result<u64, TransferError>;

/// Mathematical image of a `TransferResult`.
pub open spec fn result_view(r: TransferResult) -> Result<u64, TransferErrorV> {
    match r {
        Ok(id) => Ok(id),
        Err(e) => Err(e@),
    }
}

/// Mathematical image of a unit-valued operation result.
pub open spec fn unit_result_view(r: Result<(), TransferError>) -> Result<(), TransferErrorV> {
    match r {
        Ok(u) => Ok(u),
        Err(e) => Err(e@),
    }
}

/// Errors of the initialization procedure and other security checks.
#[derive(Clone, Debug, PartialEq)]
pub enum SecurityError {
    Overflow,
    Underflow,
    InvalidInput { field: String, reason: String },
    Unauthorized,
    SupplyExceeded,
    InvalidAmount,
    MemoTooLarge,
    RateLimited,
    SerializationError,
}

/// Mathematical image of a `SecurityError`.
#[verifier::ext_equal]
pub enum SecurityErrorV {
    Overflow,
    Underflow,
    InvalidInput { field: Seq<char>, reason: Seq<char> },
    Unauthorized,
    SupplyExceeded,
    InvalidAmount,
    MemoTooLarge,
    RateLimited,
    SerializationError,
}

impl View for SecurityError {
    type V = SecurityErrorV;

    open spec fn view(&self) -> SecurityErrorV {
        match self {
            SecurityError::Overflow => SecurityErrorV::Overflow,
            SecurityError::Underflow => SecurityErrorV::Underflow,
            SecurityError::InvalidInput { field, reason } => SecurityErrorV::InvalidInput {
                field: field@,
                reason: reason@,
            },
            SecurityError::Unauthorized => SecurityErrorV::Unauthorized,
            SecurityError::SupplyExceeded => SecurityErrorV::SupplyExceeded,
            SecurityError::InvalidAmount => SecurityErrorV::InvalidAmount,
            SecurityError::MemoTooLarge => SecurityErrorV::MemoTooLarge,
            SecurityError::RateLimited => SecurityErrorV::RateLimited,
            SecurityError::SerializationError => SecurityErrorV::SerializationError,
        }
    }
}

} // verus!
