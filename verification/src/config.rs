//! Token configuration: the mutable singleton holding the token's identity,
//! fee, supply and its cap, the minting and admin identities, and the
//! fee-change cooldown state.

use vstd::prelude::*;
use crate::account::{Account, AccountV, anonymous_bytes};

verus! {

/// Largest memo accepted on a transfer, in bytes.
pub const MAX_MEMO_SIZE: usize = 32;

/// System-wide ceiling on the token supply.
pub const MAX_SUPPLY: u128 = 1_000_000_000_000_000_000;

/// Largest transfer fee the admin may configure.
pub const MAX_FEE: u128 = 1_000_000_000;

/// Span, in nanoseconds, during which a previously seen transfer
/// fingerprint counts as a duplicate: 24 hours.
pub const DEDUPLICATION_WINDOW: u64 = 24 * 60 * 60 * 1_000_000_000;

/// Largest amount a single reward call may grant.
pub const MAX_REWARD_PER_CALL: u128 = 100_000_000_000;

/// Cooldown, in nanoseconds, between two fee changes: 24 hours.
pub const FEE_CHANGE_DELAY: u64 = 24 * 60 * 60 * 1_000_000_000;

/// Mathematical image of the token configuration.
#[verifier::ext_equal]
pub struct TokenDataV {
    pub name: Seq<char>,
    pub symbol: Seq<char>,
    pub decimals: u8,
    pub total_supply: u128,
    pub max_supply: u128,
    pub fee: u128,
    pub minting_account: Option<AccountV>,
    pub admin: Seq<u8>,
    pub fee_change_delay: u64,
    pub last_fee_change: u64,
}

/// The token configuration singleton. Created at initialization; mutated
/// only by fee changes and by the supply updates of mint, burn and reward.
#[derive(Debug)]
pub struct TokenData {
    pub name: String,
    pub symbol: String,
    pub decimals: u8,
    pub total_supply: u128,
    pub max_supply: u128,
    pub fee: u128,
    pub minting_account: Option<Account>,
    pub admin: crate::account::Principal,
    pub fee_change_delay: u64,
    pub last_fee_change: u64,
}

impl View for TokenData {
    type V = TokenDataV;

    open spec fn view(&self) -> TokenDataV {
        TokenDataV {
            name: self.name@,
            symbol: self.symbol@,
            decimals: self.decimals,
            total_supply: self.total_supply,
            max_supply: self.max_supply,
            fee: self.fee,
            minting_account: match self.minting_account {
                Some(a) => Some(a@),
                None => None,
            },
            admin: self.admin@,
            fee_change_delay: self.fee_change_delay,
            last_fee_change: self.last_fee_change,
        }
    }
}

/// The configuration a ledger holds before initialization.
pub open spec fn default_token_data() -> TokenDataV {
    TokenDataV {
        name: Seq::<char>::empty(),
        symbol: Seq::<char>::empty(),
        decimals: 8,
        total_supply: 0,
        max_supply: MAX_SUPPLY,
        fee: 1000,
        minting_account: None,
        admin: anonymous_bytes(),
        fee_change_delay: FEE_CHANGE_DELAY,
        last_fee_change: 0,
    }
}

impl Default for TokenData {
    fn default() -> (r: Self)
        ensures
            r@ == default_token_data(),
    {
        let r = TokenData {
            name: String::new(),
            symbol: String::new(),
            decimals: 8,
            total_supply: 0,
            max_supply: MAX_SUPPLY,
            fee: 1000,
            minting_account: None,
            admin: crate::account::Principal::anonymous(),
            fee_change_delay: FEE_CHANGE_DELAY,
            last_fee_change: 0,
        };
        proof {
            assert(r@ =~= default_token_data());
        }
        r
    }
}

/// Mathematical image of the initialization parameters.
#[verifier::ext_equal]
pub struct TokenInitArgsV {
    pub name: Seq<char>,
    pub symbol: Seq<char>,
    pub decimals: u8,
    pub total_supply: u128,
    pub fee: u128,
    pub minting_account: AccountV,
    pub initial_balances: Seq<(AccountV, u128)>,
    pub max_supply: Option<u128>,
}

/// The parameters of the one-time initialization procedure.
#[derive(Debug)]
pub struct TokenInitArgs {
    pub name: String,
    pub symbol: String,
    pub decimals: u8,
    pub total_supply: u128,
    pub fee: u128,
    pub minting_account: Account,
    pub initial_balances: Vec<(Account, u128)>,
    pub max_supply: Option<u128>,
}

impl View for TokenInitArgs {
    type V = TokenInitArgsV;

    open spec fn view(&self) -> TokenInitArgsV {
        TokenInitArgsV {
            name: self.name@,
            symbol: self.symbol@,
            decimals: self.decimals,
            total_supply: self.total_supply,
            fee: self.fee,
            minting_account: self.minting_account@,
            initial_balances: self.initial_balances@.map_values(
                |p: (Account, u128)| (p.0@, p.1),
            ),
            max_supply: self.max_supply,
        }
    }
}

} // verus!
