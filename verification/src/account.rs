//! Accounts and caller identities.
//!
//! The host's identity layer hands the ledger an already-authenticated,
//! opaque caller identifier; the ledger only ever compares identities for
//! equality and recognizes the distinguished anonymous (unauthenticated)
//! sentinel. The identifier is therefore modelled as a plain blob of bytes.

use vstd::prelude::*;
use crate::errors::{TransferError, TransferErrorV};

verus! {

/// An opaque, already-authenticated caller identity.
#[derive(Debug)]
pub struct Principal {
    pub bytes: Vec<u8>,
}

impl View for Principal {
    type V = Seq<u8>;

    open spec fn view(&self) -> Seq<u8> {
        self.bytes@
    }
}

/// The byte form of the anonymous (unauthenticated) sentinel identity.
pub open spec fn anonymous_bytes() -> Seq<u8> {
    seq![4u8]
}

/// The byte form of the system identity used as the counterparty of mint
/// and burn transactions: the empty blob.
pub open spec fn system_bytes() -> Seq<u8> {
    Seq::<u8>::empty()
}

impl Principal {
    /// The anonymous (unauthenticated) sentinel identity.
    pub fn anonymous() -> (r: Principal)
        ensures
            r@ == anonymous_bytes(),
    {
        let mut bytes: Vec<u8> = Vec::new();
        bytes.push(4u8);
        proof {
            assert(bytes@ =~= anonymous_bytes());
        }
        Principal { bytes }
    }

    /// The system identity that stands as the counterparty of mint and
    /// burn transactions.
    pub fn system() -> (r: Principal)
        ensures
            r@ == system_bytes(),
    {
        Principal { bytes: Vec::new() }
    }

    /// An identity from its raw byte form.
    pub fn from_bytes(bytes: Vec<u8>) -> (r: Principal)
        ensures
            r@ == bytes@,
    {
        Principal { bytes }
    }
}

impl Clone for Principal {
    fn clone(&self) -> (r: Self)
        ensures
            r@ == self@,
    {
        let bytes = self.bytes.clone();
        proof {
            assert(bytes@ =~= self.bytes@);
        }
        Principal { bytes }
    }
}

impl PartialEq for Principal {
    fn eq(&self, other: &Principal) -> (r: bool) {
        let r = self.bytes == other.bytes;
        proof {
            if r {
                assert(self.bytes@ =~= other.bytes@);
            }
        }
        r
    }
}

impl vstd::std_specs::cmp::PartialEqSpecImpl for Principal {
    open spec fn obeys_eq_spec() -> bool {
        true
    }

    open spec fn eq_spec(&self, other: &Principal) -> bool {
        self@ == other@
    }
}

/// Mathematical image of an `Account`.
#[verifier::ext_equal]
pub struct AccountV {
    pub owner: Seq<u8>,
    pub subaccount: Option<Seq<u8>>,
}

/// A balance-holding account: an owner identity plus an optional 32-byte
/// subaccount discriminator. Two accounts are the same account exactly when
/// owner and subaccount match; an absent subaccount is distinct from every
/// explicit one.
#[derive(Debug)]
pub struct Account {
    pub owner: Principal,
    pub subaccount: Option<Vec<u8>>,
}

impl View for Account {
    type V = AccountV;

    open spec fn view(&self) -> AccountV {
        AccountV {
            owner: self.owner@,
            subaccount: match self.subaccount {
                Some(s) => Some(s@),
                None => None,
            },
        }
    }
}

impl Clone for Account {
    fn clone(&self) -> (r: Self)
        ensures
            r@ == self@,
    {
        let subaccount = match &self.subaccount {
            Some(s) => {
                let c = s.clone();
                proof {
                    assert(c@ =~= s@);
                }
                Some(c)
            },
            None => None,
        };
        Account { owner: self.owner.clone(), subaccount }
    }
}

impl PartialEq for Account {
    fn eq(&self, other: &Account) -> (r: bool) {
        let owners_match = self.owner == other.owner;
        let subs_match = match (&self.subaccount, &other.subaccount) {
            (Some(a), Some(b)) => {
                let r = a == b;
                proof {
                    if r {
                        assert(a@ =~= b@);
                    }
                }
                r
            },
            (None, None) => true,
            _ => false,
        };
        owners_match && subs_match
    }
}

impl vstd::std_specs::cmp::PartialEqSpecImpl for Account {
    open spec fn obeys_eq_spec() -> bool {
        true
    }

    open spec fn eq_spec(&self, other: &Account) -> bool {
        self@ == other@
    }
}

/// Whether an account passes the field-level checks: not the anonymous
/// sentinel, and a subaccount, if present, of exactly 32 bytes.
pub open spec fn account_acceptable(a: AccountV) -> bool {
    &&& a.owner != anonymous_bytes()
    &&& (a.subaccount matches Some(s) ==> s.len() == 32)
}

/// The exact failure `validate_account` reports, `None` when the account is
/// acceptable.
pub open spec fn validate_account_spec(a: AccountV) -> Option<TransferErrorV> {
    if a.owner == anonymous_bytes() {
        Some(
            TransferErrorV::GenericError {
                error_code: 1000,
                message: "Anonymous principal not allowed"@,
            },
        )
    } else if a.subaccount matches Some(s) && s.len() != 32 {
        Some(
            TransferErrorV::GenericError {
                error_code: 1001,
                message: "Invalid subaccount length"@,
            },
        )
    } else {
        None
    }
}

/// Field-level account check: rejects the anonymous sentinel identity and
/// any subaccount that is not exactly 32 bytes long.
pub fn validate_account(account: &Account) -> (r: Result<(), TransferError>)
    ensures
        r matches Ok(_) <==> validate_account_spec(account@) is None,
        r matches Ok(_) <==> account_acceptable(account@),
        r matches Err(e) ==> Some(e@) == validate_account_spec(account@),
{
    let anon = Principal::anonymous();
    if account.owner == anon {
        return Err(
            TransferError::GenericError {
                error_code: 1000,
                message: "Anonymous principal not allowed".to_owned(),
            },
        );
    }
    if let Some(subaccount) = &account.subaccount {
        if subaccount.len() != 32 {
            return Err(
                TransferError::GenericError {
                    error_code: 1001,
                    message: "Invalid subaccount length".to_owned(),
                },
            );
        }
    }
    Ok(())
}

} // verus!
