//! Requests, settled transactions and the query-side records of the ledger.

use vstd::prelude::*;
use crate::account::{Account, AccountV};

verus! {

/// Mathematical image of an optional byte string.
pub open spec fn opt_bytes_view(o: Option<Vec<u8>>) -> Option<Seq<u8>> {
    match o {
        Some(b) => Some(b@),
        None => None,
    }
}

/// Copy an optional byte string.
pub fn clone_opt_bytes(o: &Option<Vec<u8>>) -> (r: Option<Vec<u8>>)
    ensures
        opt_bytes_view(r) == opt_bytes_view(*o),
{
    match o {
        Some(b) => {
            let c = b.clone();
            proof {
                assert(c@ =~= b@);
            }
            Some(c)
        },
        None => None,
    }
}

/// Mathematical image of a transfer request.
#[verifier::ext_equal]
pub struct TransferArgsV {
    pub from_subaccount: Option<Seq<u8>>,
    pub to: AccountV,
    pub amount: u128,
    pub fee: Option<u128>,
    pub memo: Option<Seq<u8>>,
    pub created_at_time: Option<u64>,
}

/// An externally submitted transfer request. The source owner is implicit:
/// it is the caller's identity, refined by `from_subaccount`.
#[derive(Debug)]
pub struct TransferArgs {
    pub from_subaccount: Option<Vec<u8>>,
    pub to: Account,
    pub amount: u128,
    pub fee: Option<u128>,
    pub memo: Option<Vec<u8>>,
    pub created_at_time: Option<u64>,
}

impl View for TransferArgs {
    type V = TransferArgsV;

    open spec fn view(&self) -> TransferArgsV {
        TransferArgsV {
            from_subaccount: match self.from_subaccount {
                Some(s) => Some(s@),
                None => None,
            },
            to: self.to@,
            amount: self.amount,
            fee: self.fee,
            memo: match self.memo {
                Some(m) => Some(m@),
                None => None,
            },
            created_at_time: self.created_at_time,
        }
    }
}

/// The operation a settled transaction recorded.
#[derive(Clone, Copy, Debug, PartialEq, Eq, Structural)]
pub enum TransactionType {
    Transfer,
    Mint,
    Burn,
    Reward,
}

/// Mathematical image of a settled transaction.
#[verifier::ext_equal]
pub struct TransactionV {
    pub id: u64,
    pub from: AccountV,
    pub to: AccountV,
    pub amount: u128,
    pub fee: u128,
    pub timestamp: u64,
    pub memo: Option<Seq<u8>>,
    pub transaction_type: TransactionType,
    pub tx_hash: Seq<u8>,
}

/// A settled operation in the append-only transaction log. Immutable once
/// written; ids are assigned 1, 2, 3, … in settlement order.
#[derive(Debug)]
pub struct Transaction {
    pub id: u64,
    pub from: Account,
    pub to: Account,
    pub amount: u128,
    pub fee: u128,
    pub timestamp: u64,
    pub memo: Option<Vec<u8>>,
    pub transaction_type: TransactionType,
    pub tx_hash: Vec<u8>,
}

impl View for Transaction {
    type V = TransactionV;

    open spec fn view(&self) -> TransactionV {
        TransactionV {
            id: self.id,
            from: self.from@,
            to: self.to@,
            amount: self.amount,
            fee: self.fee,
            timestamp: self.timestamp,
            memo: match self.memo {
                Some(m) => Some(m@),
                None => None,
            },
            transaction_type: self.transaction_type,
            tx_hash: self.tx_hash@,
        }
    }
}

/// Per-account cumulative reward statistics. Informational counters: they
/// saturate rather than fail, and are never conservation-critical.
#[derive(Clone, Copy, Debug, PartialEq)]
pub struct RewardStats {
    pub total_rewards: u128,
    pub last_reward: Option<u64>,
    pub reward_count: u64,
}

/// The statistics of an account that has never been rewarded.
pub open spec fn default_reward_stats() -> RewardStats {
    RewardStats { total_rewards: 0, last_reward: None, reward_count: 0 }
}

impl Default for RewardStats {
    fn default() -> (r: Self)
        ensures
            r == default_reward_stats(),
    {
        RewardStats { total_rewards: 0, last_reward: None, reward_count: 0 }
    }
}

/// A metadata value.
#[derive(Clone, Debug, PartialEq)]
pub enum Value {
    Nat(u128),
    Int(i128),
    Text(String),
    Blob(Vec<u8>),
}

/// One key/value pair of the token metadata.
pub type MetadataEntry = (String, Value);

/// A token standard this ledger implements.
#[derive(Clone, Debug, PartialEq)]
pub struct SupportedStandard {
    pub name: String,
    pub url: String,
}

/// A balance query.
#[derive(Debug)]
pub struct BalanceArgs {
    pub account: Account,
}

/// The ledger's fixed security parameters.
#[derive(Clone, Copy, Debug, PartialEq, Eq, Structural)]
pub struct SecurityInfo {
    pub max_supply: u128,
    pub max_fee: u128,
    pub max_memo_size: usize,
    pub deduplication_window_ns: u64,
    pub max_reward_per_call: u128,
}

} // verus!
