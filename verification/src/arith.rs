//! Checked arithmetic over the unsigned wide integers used for balances,
//! fees and supply. These never panic: a result that would wrap is reported
//! as a typed error instead.

use vstd::prelude::*;
use crate::errors::{TransferError, TransferErrorV};

verus! {

/// Checked addition; `Overflow` when the mathematical sum does not fit.
pub fn safe_add(a: u128, b: u128) -> (r: Result<u128, TransferError>)
    ensures
        a + b <= u128::MAX ==> r == Ok::<u128, TransferError>((a + b) as u128),
        a + b > u128::MAX ==> r == Err::<u128, TransferError>(TransferError::Overflow),
{
    if a <= u128::MAX - b {
        Ok(a + b)
    } else {
        Err(TransferError::Overflow)
    }
}

/// The error that `safe_sub` reports when the subtrahend exceeds the minuend.
pub open spec fn underflow_error() -> TransferErrorV {
    TransferErrorV::GenericError { error_code: 1002, message: "Arithmetic underflow"@ }
}

/// Checked subtraction; an arithmetic-underflow error when `b > a`.
pub fn safe_sub(a: u128, b: u128) -> (r: Result<u128, TransferError>)
    ensures
        b <= a ==> r == Ok::<u128, TransferError>((a - b) as u128),
        b > a ==> (r matches Err(e) && e@ == underflow_error()),
{
    if b <= a {
        Ok(a - b)
    } else {
        Err(TransferError::GenericError {
            error_code: 1002,
            message: "Arithmetic underflow".to_owned(),
        })
    }
}

} // verus!
