//! The ledger service: the token configuration, the balance store, the
//! append-only transaction log, the reward ledger and the deduplication
//! window, together with the operations that compose them into atomic
//! state transitions.
//!
//! Every operation is specified against a mathematical transition function
//! over the ledger's image; its contract states that the executable code
//! returns exactly what the transition prescribes and leaves the ledger in
//! exactly the prescribed state. Well-formedness — conservation of supply,
//! the supply cap, gapless transaction ids, distinct store keys — is
//! established by `init` and preserved by every operation.

use vstd::prelude::*;
use vstd::string::StrSliceExecFns;
use crate::account::{
    Account, AccountV, Principal, account_acceptable, validate_account, validate_account_spec,
};
use crate::arith::{safe_add, safe_sub};
use crate::balances::{
    BalanceEntryV, BalanceStore, balance_of, entries_wf, lemma_balance_le_sum, lemma_set_balance,
    set_balance_spec, sum_balances,
};
use crate::config::{
    DEDUPLICATION_WINDOW, FEE_CHANGE_DELAY, MAX_FEE, MAX_MEMO_SIZE, MAX_REWARD_PER_CALL,
    MAX_SUPPLY, TokenData, TokenDataV, TokenInitArgs, TokenInitArgsV,
};
use crate::dedup::{
    DedupEntryV, DedupStore, cutoff, dd_find, dedup_wf, evict_spec, lemma_evict, lemma_record,
    record_spec, sat_sub64,
};
use crate::fingerprint::{fingerprint_spec, generate_tx_hash};
use crate::errors::{SecurityError, SecurityErrorV, TransferError, TransferErrorV, TransferResult};
use crate::rewards::{RewardEntryV, RewardStore, rewards_wf, stats_of};
use crate::errors::unit_result_view;
use crate::types::{
    BalanceArgs, MetadataEntry, RewardStats, SecurityInfo, SupportedStandard, Transaction,
    TransactionType, TransactionV, Value, opt_bytes_view,
};

verus! {

/// Mathematical image of the whole ledger.
#[verifier::ext_equal]
pub struct LedgerV {
    pub config: TokenDataV,
    pub balances: Seq<BalanceEntryV>,
    pub transactions: Seq<TransactionV>,
    pub reward_stats: Seq<RewardEntryV>,
    pub dedup: Seq<DedupEntryV>,
}

/// Well-formedness of a ledger state. This is the conjunction of the
/// ledger's global invariants:
/// - the balance store is well formed (distinct accounts, no stored zero),
/// - the sum of all balances equals the recorded total supply,
/// - the total supply never exceeds the supply cap,
/// - the supply cap and the fee respect their system-wide ceilings,
/// - transaction ids are `1, 2, 3, …` in log order, with no gap or repeat,
/// - reward records and window fingerprints are keyed uniquely.
pub open spec fn ledger_wf(l: LedgerV) -> bool {
    &&& entries_wf(l.balances)
    &&& sum_balances(l.balances) == l.config.total_supply
    &&& l.config.total_supply <= l.config.max_supply
    &&& l.config.max_supply <= MAX_SUPPLY
    &&& l.config.fee <= MAX_FEE
    &&& forall|i: int|
        0 <= i < l.transactions.len() ==> (#[trigger] l.transactions[i]).id == i + 1
    &&& rewards_wf(l.reward_stats)
    &&& dedup_wf(l.dedup)
}

/// The ledger service. All stores are exclusively owned: every mutation
/// goes through the operations below, each of which either fully commits
/// or returns an error leaving the state unchanged (a transfer may evict
/// stale deduplication entries on either outcome).
#[derive(Debug)]
pub struct Ledger {
    pub config: TokenData,
    pub balances: BalanceStore,
    pub transactions: Vec<Transaction>,
    pub reward_stats: RewardStore,
    pub dedup: DedupStore,
}

impl View for Ledger {
    type V = LedgerV;

    open spec fn view(&self) -> LedgerV {
        LedgerV {
            config: self.config@,
            balances: self.balances@,
            transactions: self.transactions@.map_values(|t: Transaction| t@),
            reward_stats: self.reward_stats@,
            dedup: self.dedup@,
        }
    }
}

/// The sum of a sequence of initial allocations, as a mathematical
/// integer.
pub open spec fn allocs_sum(allocs: Seq<(AccountV, u128)>) -> int
    decreases allocs.len(),
{
    if allocs.len() == 0 {
        0
    } else {
        allocs[0].1 + allocs_sum(allocs.drop_first())
    }
}

/// Credit one allocation: add `amt` to the stored balance of `a`.
/// Crediting zero changes nothing.
pub open spec fn credit_spec(b: Seq<BalanceEntryV>, a: AccountV, amt: u128) -> Seq<
    BalanceEntryV,
> {
    if amt == 0 {
        b
    } else {
        set_balance_spec(b, a, (balance_of(b, a) + amt) as u128)
    }
}

/// Credit a sequence of allocations in order.
pub open spec fn credit_seq(b: Seq<BalanceEntryV>, allocs: Seq<(AccountV, u128)>) -> Seq<
    BalanceEntryV,
>
    decreases allocs.len(),
{
    if allocs.len() == 0 {
        b
    } else {
        credit_seq(credit_spec(b, allocs[0].0, allocs[0].1), allocs.drop_first())
    }
}

/// A prefix of allocations sums to no more than the whole.
proof fn lemma_allocs_sum_prefix(allocs: Seq<(AccountV, u128)>, i: int)
    requires
        0 <= i <= allocs.len(),
    ensures
        allocs_sum(allocs.take(i)) <= allocs_sum(allocs),
        allocs_sum(allocs.take(i)) >= 0,
        allocs_sum(allocs) >= 0,
    decreases allocs.len(),
{
    if allocs.len() == 0 {
        assert(allocs.take(i) =~= allocs);
    } else if i == 0 {
        assert(allocs.take(0) =~= Seq::<(AccountV, u128)>::empty());
        lemma_allocs_sum_prefix(allocs.drop_first(), 0);
    } else {
        assert(allocs.take(i)[0] == allocs[0]);
        assert(allocs.take(i).drop_first() =~= allocs.drop_first().take(i - 1));
        lemma_allocs_sum_prefix(allocs.drop_first(), i - 1);
    }
}

/// Extending the credited prefix by one allocation credits it at the end.
proof fn lemma_credit_seq_push(
    b: Seq<BalanceEntryV>,
    allocs: Seq<(AccountV, u128)>,
    i: int,
)
    requires
        0 <= i < allocs.len(),
    ensures
        credit_seq(b, allocs.take(i + 1)) == credit_spec(
            credit_seq(b, allocs.take(i)),
            allocs[i].0,
            allocs[i].1,
        ),
    decreases i,
{
    if i == 0 {
        assert(allocs.take(0) =~= Seq::<(AccountV, u128)>::empty());
        assert(allocs.take(1)[0] == allocs[0]);
        assert(allocs.take(1).drop_first() =~= Seq::<(AccountV, u128)>::empty());
        assert(credit_seq(b, allocs.take(0)) == b);
        let c = credit_spec(b, allocs[0].0, allocs[0].1);
        assert(credit_seq(b, allocs.take(1)) == credit_seq(c, allocs.take(1).drop_first()));
        assert(credit_seq(c, Seq::<(AccountV, u128)>::empty()) == c);
    } else {
        let c = credit_spec(b, allocs[0].0, allocs[0].1);
        assert(allocs.take(i + 1)[0] == allocs[0]);
        assert(allocs.take(i)[0] == allocs[0]);
        assert(allocs.take(i + 1).drop_first() =~= allocs.drop_first().take(i));
        assert(allocs.take(i).drop_first() =~= allocs.drop_first().take(i - 1));
        lemma_credit_seq_push(c, allocs.drop_first(), i - 1);
        assert(allocs.drop_first()[i - 1] == allocs[i]);
    }
}

/// Crediting preserves well-formedness and adds exactly the credited
/// amount to the sum.
proof fn lemma_credit(b: Seq<BalanceEntryV>, a: AccountV, amt: u128)
    requires
        entries_wf(b),
        sum_balances(b) + amt <= u128::MAX,
    ensures
        entries_wf(credit_spec(b, a, amt)),
        sum_balances(credit_spec(b, a, amt)) == sum_balances(b) + amt,
{
    if amt != 0 {
        lemma_balance_le_sum(b, a);
        lemma_set_balance(b, a, (balance_of(b, a) + amt) as u128);
    }
}

/// The exact failure `Ledger::init` reports, `None` when the parameters
/// are acceptable.
pub open spec fn init_error(args: TokenInitArgsV) -> Option<SecurityErrorV> {
    let max_supply = match args.max_supply {
        Some(m) => m,
        None => MAX_SUPPLY,
    };
    if args.name.len() == 0 || args.symbol.len() == 0 {
        Some(
            SecurityErrorV::InvalidInput {
                field: "name"@,
                reason: "Token name and symbol cannot be empty"@,
            },
        )
    } else if args.total_supply > MAX_SUPPLY {
        Some(SecurityErrorV::SupplyExceeded)
    } else if args.fee > MAX_FEE {
        Some(SecurityErrorV::InvalidInput { field: "fee"@, reason: "Fee exceeds maximum allowed"@ })
    } else if max_supply > MAX_SUPPLY {
        Some(
            SecurityErrorV::InvalidInput {
                field: "max_supply"@,
                reason: "Max supply exceeds system limit"@,
            },
        )
    } else if args.total_supply > max_supply {
        Some(SecurityErrorV::SupplyExceeded)
    } else if exists|i: int|
        0 <= i < args.initial_balances.len() && !account_acceptable(
            (#[trigger] args.initial_balances[i]).0,
        ) {
        Some(
            SecurityErrorV::InvalidInput {
                field: "initial_balances"@,
                reason: "Invalid account in initial balances"@,
            },
        )
    } else if allocs_sum(args.initial_balances) > args.total_supply {
        Some(
            SecurityErrorV::InvalidInput {
                field: "initial_balances"@,
                reason: "Initial balances exceed total supply"@,
            },
        )
    } else {
        None
    }
}

/// The ledger state `Ledger::init` builds from acceptable parameters:
/// the configuration is written once, the declared allocations are
/// credited in order, and the remainder of the supply is credited to the
/// minting account. The log, the reward ledger and the window start
/// empty.
pub open spec fn init_state(args: TokenInitArgsV, caller: Seq<u8>, now: u64) -> LedgerV {
    let max_supply = match args.max_supply {
        Some(m) => m,
        None => MAX_SUPPLY,
    };
    let distributed = allocs_sum(args.initial_balances);
    let credited = credit_seq(Seq::<BalanceEntryV>::empty(), args.initial_balances);
    let remainder = (args.total_supply - distributed) as u128;
    LedgerV {
        config: TokenDataV {
            name: args.name,
            symbol: args.symbol,
            decimals: args.decimals,
            total_supply: args.total_supply,
            max_supply: max_supply,
            fee: args.fee,
            minting_account: Some(args.minting_account),
            admin: caller,
            fee_change_delay: FEE_CHANGE_DELAY,
            last_fee_change: now,
        },
        balances: credit_spec(credited, args.minting_account, remainder),
        transactions: Seq::<TransactionV>::empty(),
        reward_stats: Seq::<RewardEntryV>::empty(),
        dedup: Seq::<DedupEntryV>::empty(),
    }
}

/// An initialized ledger is well formed: in particular the credited
/// balances sum to exactly the declared total supply.
proof fn lemma_init_wf(args: TokenInitArgsV, caller: Seq<u8>, now: u64)
    requires
        init_error(args) is None,
    ensures
        ledger_wf(init_state(args, caller, now)),
        sum_balances(init_state(args, caller, now).balances) == args.total_supply,
{
    let allocs = args.initial_balances;
    lemma_allocs_sum_prefix(allocs, allocs.len() as int);
    lemma_credit_seq_wf(Seq::<BalanceEntryV>::empty(), allocs);
    let credited = credit_seq(Seq::<BalanceEntryV>::empty(), allocs);
    let remainder = (args.total_supply - allocs_sum(allocs)) as u128;
    lemma_credit(credited, args.minting_account, remainder);
}

/// Crediting a whole sequence of allocations preserves well-formedness
/// and adds exactly their sum.
proof fn lemma_credit_seq_wf(b: Seq<BalanceEntryV>, allocs: Seq<(AccountV, u128)>)
    requires
        entries_wf(b),
        sum_balances(b) + allocs_sum(allocs) <= u128::MAX,
    ensures
        entries_wf(credit_seq(b, allocs)),
        sum_balances(credit_seq(b, allocs)) == sum_balances(b) + allocs_sum(allocs),
    decreases allocs.len(),
{
    if allocs.len() > 0 {
        lemma_allocs_sum_prefix(allocs.drop_first(), allocs.drop_first().len() as int);
        lemma_credit(b, allocs[0].0, allocs[0].1);
        lemma_credit_seq_wf(credit_spec(b, allocs[0].0, allocs[0].1), allocs.drop_first());
    }
}

impl Ledger {
    /// Well-formedness of this ledger's state.
    pub open spec fn wf(&self) -> bool {
        ledger_wf(self@)
    }

    /// One-time initialization. Fails — leaving no ledger behind — when
    /// the name or symbol is empty, the declared supply exceeds its cap
    /// or the system ceiling, the fee exceeds its ceiling, an initial
    /// allocation names an unacceptable account, or the allocations sum
    /// to more than the declared supply. Otherwise the allocations are
    /// credited in order and the remainder of the supply is credited to
    /// the minting account.
    #[verifier::loop_isolation(false)]
    pub fn init(args: TokenInitArgs, caller: &Principal, now: u64) -> (r: Result<
        Ledger,
        SecurityError,
    >)
        ensures
            match r {
                Ok(l) => init_error(args@) is None && l@ == init_state(args@, caller@, now)
                    && l.wf(),
                Err(e) => Some(e@) == init_error(args@),
            },
    {
        let max_supply = match args.max_supply {
            Some(m) => m,
            None => MAX_SUPPLY,
        };
        if args.name.as_str().is_empty() || args.symbol.as_str().is_empty() {
            return Err(
                SecurityError::InvalidInput {
                    field: "name".to_owned(),
                    reason: "Token name and symbol cannot be empty".to_owned(),
                },
            );
        }
        if args.total_supply > MAX_SUPPLY {
            return Err(SecurityError::SupplyExceeded);
        }
        if args.fee > MAX_FEE {
            return Err(
                SecurityError::InvalidInput {
                    field: "fee".to_owned(),
                    reason: "Fee exceeds maximum allowed".to_owned(),
                },
            );
        }
        if max_supply > MAX_SUPPLY {
            return Err(
                SecurityError::InvalidInput {
                    field: "max_supply".to_owned(),
                    reason: "Max supply exceeds system limit".to_owned(),
                },
            );
        }
        if args.total_supply > max_supply {
            return Err(SecurityError::SupplyExceeded);
        }
        let allocs = &args.initial_balances;
        let ghost allocs_v = args@.initial_balances;
        let mut i: usize = 0;
        while i < allocs.len()
            invariant
                i <= allocs.len(),
                allocs_v == allocs@.map_values(|p: (Account, u128)| (p.0@, p.1)),
                allocs_v.len() == allocs@.len(),
                forall|k: int|
                    0 <= k < i ==> account_acceptable((#[trigger] allocs_v[k]).0),
            decreases allocs.len() - i,
        {
            proof {
                assert(allocs_v[i as int] == (allocs@[i as int].0@, allocs@[i as int].1));
            }
            if validate_account(&allocs[i].0).is_err() {
                proof {
                    assert(!account_acceptable(args@.initial_balances[i as int].0));
                }
                return Err(
                    SecurityError::InvalidInput {
                        field: "initial_balances".to_owned(),
                        reason: "Invalid account in initial balances".to_owned(),
                    },
                );
            }
            i += 1;
        }
        // Sum the allocations; a sum past the declared supply — or past
        // the range of the type — is refused.
        let mut distributed: u128 = 0;
        let mut j: usize = 0;
        proof {
            assert(allocs_v.take(0) =~= Seq::<(AccountV, u128)>::empty());
        }
        while j < allocs.len()
            invariant
                j <= allocs.len(),
                allocs_v == allocs@.map_values(|p: (Account, u128)| (p.0@, p.1)),
                allocs_v.len() == allocs@.len(),
                args@.total_supply == args.total_supply,
                distributed == allocs_sum(allocs_v.take(j as int)),
                distributed <= args.total_supply,
            decreases allocs.len() - j,
        {
            proof {
                lemma_allocs_sum_step(allocs_v, j as int);
            }
            let amount = allocs[j].1;
            let next = match safe_add(distributed, amount) {
                Ok(v) => v,
                Err(_) => {
                    proof {
                        lemma_allocs_sum_prefix_full(allocs_v, j + 1);
                        assert(allocs_sum(args@.initial_balances) > args@.total_supply);
                        assert(forall|t: int|
                            0 <= t < args@.initial_balances.len() ==> account_acceptable(
                                (#[trigger] args@.initial_balances[t]).0,
                            ));
                    }
                    return Err(
                        SecurityError::InvalidInput {
                            field: "initial_balances".to_owned(),
                            reason: "Initial balances exceed total supply".to_owned(),
                        },
                    );
                },
            };
            if next > args.total_supply {
                proof {
                    lemma_allocs_sum_prefix_full(allocs_v, j + 1);
                    assert(allocs_sum(args@.initial_balances) > args@.total_supply);
                    assert(forall|t: int|
                        0 <= t < args@.initial_balances.len() ==> account_acceptable(
                            (#[trigger] args@.initial_balances[t]).0,
                        ));
                }
                return Err(
                    SecurityError::InvalidInput {
                        field: "initial_balances".to_owned(),
                        reason: "Initial balances exceed total supply".to_owned(),
                    },
                );
            }
            distributed = next;
            j += 1;
        }
        proof {
            assert(allocs_v.take(allocs_v.len() as int) =~= allocs_v);
        }
        // All checks passed: build the ledger.
        let mut balances = BalanceStore::new();
        let mut k: usize = 0;
        proof {
            assert(allocs_v.take(0) =~= Seq::<(AccountV, u128)>::empty());
        }
        while k < allocs.len()
            invariant
                k <= allocs.len(),
                allocs_v == allocs@.map_values(|p: (Account, u128)| (p.0@, p.1)),
                allocs_v.len() == allocs@.len(),
                args@.total_supply == args.total_supply,
                allocs_sum(allocs_v) == distributed,
                distributed <= args.total_supply,
                args.total_supply <= MAX_SUPPLY,
                balances@ == credit_seq(Seq::<BalanceEntryV>::empty(), allocs_v.take(k as int)),
                entries_wf(balances@),
                sum_balances(balances@) == allocs_sum(allocs_v.take(k as int)),
            decreases allocs.len() - k,
        {
            proof {
                lemma_allocs_sum_step(allocs_v, k as int);
                lemma_allocs_sum_prefix_rest(allocs_v, k as int);
                lemma_credit_seq_push(Seq::<BalanceEntryV>::empty(), allocs_v, k as int);
            }
            let amount = allocs[k].1;
            if amount != 0 {
                let bal = balances.get(&allocs[k].0);
                proof {
                    lemma_balance_le_sum(balances@, allocs_v[k as int].0);
                    lemma_set_balance(
                        balances@,
                        allocs_v[k as int].0,
                        (balance_of(balances@, allocs_v[k as int].0) + allocs_v[k as int].1)
                            as u128,
                    );
                }
                balances.set(&allocs[k].0, bal + amount);
            }
            k += 1;
        }
        proof {
            assert(allocs_v.take(allocs_v.len() as int) =~= allocs_v);
        }
        let remainder = args.total_supply - distributed;
        if remainder != 0 {
            let bal = balances.get(&args.minting_account);
            proof {
                lemma_balance_le_sum(balances@, args.minting_account@);
                lemma_set_balance(
                    balances@,
                    args.minting_account@,
                    (balance_of(balances@, args.minting_account@) + remainder) as u128,
                );
            }
            balances.set(&args.minting_account, bal + remainder);
        }
        let config = TokenData {
            name: args.name,
            symbol: args.symbol,
            decimals: args.decimals,
            total_supply: args.total_supply,
            max_supply,
            fee: args.fee,
            minting_account: Some(args.minting_account),
            admin: caller.clone(),
            fee_change_delay: FEE_CHANGE_DELAY,
            last_fee_change: now,
        };
        let ledger = Ledger {
            config,
            balances,
            transactions: Vec::new(),
            reward_stats: RewardStore::new(),
            dedup: DedupStore::new(),
        };
        proof {
            assert(ledger.transactions@.map_values(|t: Transaction| t@) =~= Seq::<
                TransactionV,
            >::empty());
            assert(ledger@ =~= init_state(args@, caller@, now));
            lemma_init_wf(args@, caller@, now);
        }
        Ok(ledger)
    }

    /// Append a settled transaction to the log, assigning the next id.
    fn append_transaction(
        &mut self,
        from: Account,
        to: Account,
        amount: u128,
        fee: u128,
        memo: Option<Vec<u8>>,
        tx_type: TransactionType,
        tx_hash: Vec<u8>,
        now: u64,
    ) -> (id: u64)
        requires
            old(self)@.transactions.len() < u64::MAX,
        ensures
            id == old(self)@.transactions.len() + 1,
            final(self)@ == (LedgerV {
                transactions: old(self)@.transactions.push(
                    TransactionV {
                        id: id,
                        from: from@,
                        to: to@,
                        amount: amount,
                        fee: fee,
                        timestamp: now,
                        memo: opt_bytes_view(memo),
                        transaction_type: tx_type,
                        tx_hash: tx_hash@,
                    },
                ),
                ..old(self)@
            }),
    {
        let id = self.transactions.len() as u64 + 1;
        let tx = Transaction {
            id,
            from,
            to,
            amount,
            fee,
            timestamp: now,
            memo,
            transaction_type: tx_type,
            tx_hash,
        };
        self.transactions.push(tx);
        proof {
            assert(self.transactions@.map_values(|t: Transaction| t@) =~= old(
                self,
            ).transactions@.map_values(|t: Transaction| t@).push(
                TransactionV {
                    id: id,
                    from: from@,
                    to: to@,
                    amount: amount,
                    fee: fee,
                    timestamp: now,
                    memo: opt_bytes_view(memo),
                    transaction_type: tx_type,
                    tx_hash: tx_hash@,
                },
            ));
            assert(self@ =~= (LedgerV {
                transactions: old(self)@.transactions.push(
                    TransactionV {
                        id: id,
                        from: from@,
                        to: to@,
                        amount: amount,
                        fee: fee,
                        timestamp: now,
                        memo: opt_bytes_view(memo),
                        transaction_type: tx_type,
                        tx_hash: tx_hash@,
                    },
                ),
                ..old(self)@
            }));
        }
        id
    }

    /// The token name.
    pub fn icrc1_name(&self) -> (r: String)
        ensures
            r@ == self@.config.name,
    {
        self.config.name.clone()
    }

    /// The token symbol.
    pub fn icrc1_symbol(&self) -> (r: String)
        ensures
            r@ == self@.config.symbol,
    {
        self.config.symbol.clone()
    }

    /// The number of decimals the token uses.
    pub fn icrc1_decimals(&self) -> (r: u8)
        ensures
            r == self@.config.decimals,
    {
        self.config.decimals
    }

    /// The configured transfer fee.
    pub fn icrc1_fee(&self) -> (r: u128)
        ensures
            r == self@.config.fee,
    {
        self.config.fee
    }

    /// The recorded total supply.
    pub fn icrc1_total_supply(&self) -> (r: u128)
        ensures
            r == self@.config.total_supply,
    {
        self.config.total_supply
    }

    /// The supply cap.
    pub fn get_max_supply(&self) -> (r: u128)
        ensures
            r == self@.config.max_supply,
    {
        self.config.max_supply
    }

    /// The configured minting account.
    pub fn icrc1_minting_account(&self) -> (r: Option<Account>)
        ensures
            match r {
                Some(a) => self@.config.minting_account == Some(a@),
                None => self@.config.minting_account is None,
            },
    {
        match &self.config.minting_account {
            Some(a) => Some(a.clone()),
            None => None,
        }
    }

    /// The balance of the queried account; zero when it has no entry.
    pub fn icrc1_balance_of(&self, args: BalanceArgs) -> (r: u128)
        ensures
            r == balance_of(self@.balances, args.account@),
    {
        self.balances.get(&args.account)
    }

    /// The reward statistics of `user`; all-zero when never rewarded.
    pub fn get_reward_stats(&self, user: Account) -> (r: RewardStats)
        ensures
            r == stats_of(self@.reward_stats, user@),
    {
        self.reward_stats.get(&user)
    }

    /// The ledger's fixed security parameters.
    pub fn get_security_info(&self) -> (r: SecurityInfo)
        ensures
            r == (SecurityInfo {
                max_supply: self@.config.max_supply,
                max_fee: MAX_FEE,
                max_memo_size: MAX_MEMO_SIZE,
                deduplication_window_ns: DEDUPLICATION_WINDOW,
                max_reward_per_call: MAX_REWARD_PER_CALL,
            }),
    {
        SecurityInfo {
            max_supply: self.config.max_supply,
            max_fee: MAX_FEE,
            max_memo_size: MAX_MEMO_SIZE,
            deduplication_window_ns: DEDUPLICATION_WINDOW,
            max_reward_per_call: MAX_REWARD_PER_CALL,
        }
    }

    /// The token metadata: the configuration as key/value pairs.
    pub fn icrc1_metadata(&self) -> (r: Vec<MetadataEntry>)
        ensures
            r@.len() == 6,
            r@[0].0@ == "icrc1:name"@,
            r@[0].1 matches Value::Text(s) && s@ == self@.config.name,
            r@[1].0@ == "icrc1:symbol"@,
            r@[1].1 matches Value::Text(s) && s@ == self@.config.symbol,
            r@[2].0@ == "icrc1:decimals"@,
            r@[2].1 == Value::Nat(self@.config.decimals as u128),
            r@[3].0@ == "icrc1:fee"@,
            r@[3].1 == Value::Nat(self@.config.fee),
            r@[4].0@ == "icrc1:total_supply"@,
            r@[4].1 == Value::Nat(self@.config.total_supply),
            r@[5].0@ == "icrc1:max_supply"@,
            r@[5].1 == Value::Nat(self@.config.max_supply),
    {
        let mut r: Vec<MetadataEntry> = Vec::new();
        r.push(("icrc1:name".to_owned(), Value::Text(self.config.name.clone())));
        r.push(("icrc1:symbol".to_owned(), Value::Text(self.config.symbol.clone())));
        r.push(("icrc1:decimals".to_owned(), Value::Nat(self.config.decimals as u128)));
        r.push(("icrc1:fee".to_owned(), Value::Nat(self.config.fee)));
        r.push(("icrc1:total_supply".to_owned(), Value::Nat(self.config.total_supply)));
        r.push(("icrc1:max_supply".to_owned(), Value::Nat(self.config.max_supply)));
        r
    }

    /// The token standards this ledger implements.
    pub fn icrc1_supported_standards(&self) -> (r: Vec<SupportedStandard>)
        ensures
            r@.len() == 2,
            r@[0].name@ == "ICRC-1"@,
            r@[0].url@ == "https://github.com/dfinity/ICRC-1"@,
            r@[1].name@ == "Legatia-Token"@,
            r@[1].url@ == "https://legatia.family/token"@,
    {
        let mut r: Vec<SupportedStandard> = Vec::new();
        r.push(
            SupportedStandard {
                name: "ICRC-1".to_owned(),
                url: "https://github.com/dfinity/ICRC-1".to_owned(),
            },
        );
        r.push(
            SupportedStandard {
                name: "Legatia-Token".to_owned(),
                url: "https://legatia.family/token".to_owned(),
            },
        );
        r
    }

    /// Change the transfer fee. Admin-gated and cooldown-gated: refused
    /// when the fee exceeds its ceiling, the caller is not the admin, or
    /// the cooldown since the last change has not elapsed.
    pub fn set_fee(&mut self, new_fee: u128, caller: &Principal, now: u64) -> (r: Result<
        (),
        TransferError,
    >)
        requires
            old(self).wf(),
        ensures
            final(self)@ == spec_set_fee(old(self)@, new_fee, caller@, now).0,
            unit_result_view(r) == spec_set_fee(old(self)@, new_fee, caller@, now).1,
            final(self).wf(),
    {
        if new_fee > MAX_FEE {
            return Err(
                TransferError::GenericError {
                    error_code: 1003,
                    message: "Fee exceeds maximum allowed".to_owned(),
                },
            );
        }
        if !(caller == &self.config.admin) {
            return Err(TransferError::Unauthorized);
        }
        if now.saturating_sub(self.config.last_fee_change) < self.config.fee_change_delay {
            return Err(
                TransferError::GenericError {
                    error_code: 1004,
                    message: "Fee change too soon, must wait 24 hours".to_owned(),
                },
            );
        }
        self.config.fee = new_fee;
        self.config.last_fee_change = now;
        proof {
            assert(self@ =~= spec_set_fee(old(self)@, new_fee, caller@, now).0);
        }
        Ok(())
    }

    /// Settle an externally submitted transfer, or return the first
    /// failing check. The source owner is the caller; the fee is the
    /// configured one and is burned from the supply; the request's
    /// fingerprint guards against replay within the deduplication window.
    /// A failing call leaves the ledger unchanged, except that a failure
    /// at or past the replay check retains the eviction of stale window
    /// entries.
    pub fn icrc1_transfer(
        &mut self,
        args: crate::types::TransferArgs,
        caller: &Principal,
        now: u64,
    ) -> (r: TransferResult)
        requires
            old(self).wf(),
            old(self)@.transactions.len() < u64::MAX,
        ensures
            final(self)@ == spec_transfer(old(self)@, args@, caller@, now).0,
            crate::errors::result_view(r) == spec_transfer(old(self)@, args@, caller@, now).1,
            final(self).wf(),
    {
        proof {
            lemma_transfer_preserves_wf(old(self)@, args@, caller@, now);
        }
        if let Err(e) = validate_account(&args.to) {
            return Err(e);
        }
        if let Err(e) = validate_amount(args.amount) {
            return Err(e);
        }
        if let Err(e) = validate_memo(&args.memo) {
            return Err(e);
        }
        let from = Account {
            owner: caller.clone(),
            subaccount: crate::types::clone_opt_bytes(&args.from_subaccount),
        };
        proof {
            assert(from@ == transfer_source(args@, caller@));
        }
        if let Err(e) = validate_account(&from) {
            return Err(e);
        }
        let fee = self.config.fee;
        if let Some(provided) = args.fee {
            if provided != fee {
                return Err(TransferError::BadFee { expected_fee: fee });
            }
        }
        let total = match safe_add(args.amount, fee) {
            Ok(v) => v,
            Err(e) => {
                return Err(e);
            },
        };
        let from_balance = self.balances.get(&from);
        if from_balance < total {
            return Err(TransferError::InsufficientFunds { balance: from_balance });
        }
        let tx_hash = generate_tx_hash(&args, caller, now);
        self.dedup.evict_expired(now);
        let ghost l1 = LedgerV { dedup: evict_spec(old(self)@.dedup, cutoff(now)), ..old(self)@ };
        proof {
            assert(self@ =~= l1);
        }
        if let Some(seen) = self.dedup.lookup(&tx_hash) {
            if now.saturating_sub(seen) < DEDUPLICATION_WINDOW {
                return Err(TransferError::Duplicate { duplicate_of: 0 });
            }
        }
        if let Some(created_at) = args.created_at_time {
            if created_at > now {
                return Err(TransferError::CreatedInFuture { ledger_time: now });
            }
            if now.saturating_sub(created_at) > DEDUPLICATION_WINDOW {
                return Err(TransferError::TooOld);
            }
        }
        let new_from_balance = from_balance - total;
        proof {
            lemma_set_balance(old(self)@.balances, from@, new_from_balance);
        }
        let to_balance = if &from == &args.to {
            new_from_balance
        } else {
            self.balances.get(&args.to)
        };
        let new_to_balance = match safe_add(to_balance, args.amount) {
            Ok(v) => v,
            Err(e) => {
                return Err(e);
            },
        };
        self.balances.set(&from, new_from_balance);
        self.balances.set(&args.to, new_to_balance);
        let fp_copy = tx_hash.clone();
        proof {
            assert(fp_copy@ =~= tx_hash@);
        }
        self.dedup.record(fp_copy, now);
        let new_supply = match safe_sub(self.config.total_supply, fee) {
            Ok(v) => v,
            Err(_) => 0,
        };
        self.config.total_supply = new_supply;
        let id = self.append_transaction(
            from,
            args.to,
            args.amount,
            fee,
            args.memo,
            TransactionType::Transfer,
            tx_hash,
            now,
        );
        proof {
            assert(self@ =~= spec_transfer(old(self)@, args@, caller@, now).0);
        }
        Ok(id)
    }

    /// Mint `amount` new tokens to `to`. Only the owner of the configured
    /// minting account may mint, and never past the supply cap; a failing
    /// call leaves the ledger unchanged.
    pub fn mint(&mut self, to: Account, amount: u128, caller: &Principal, now: u64) -> (r:
        TransferResult)
        requires
            old(self).wf(),
            old(self)@.transactions.len() < u64::MAX,
        ensures
            final(self)@ == spec_mint(old(self)@, to@, amount, caller@, now).0,
            crate::errors::result_view(r) == spec_mint(old(self)@, to@, amount, caller@, now).1,
            final(self).wf(),
    {
        proof {
            lemma_mint_preserves_wf(old(self)@, to@, amount, caller@, now);
        }
        if let Err(e) = validate_account(&to) {
            return Err(e);
        }
        if let Err(e) = validate_amount(amount) {
            return Err(e);
        }
        match &self.config.minting_account {
            None => {
                return Err(
                    TransferError::GenericError {
                        error_code: 2,
                        message: "No minting account set".to_owned(),
                    },
                );
            },
            Some(minter) => {
                if !(caller == &minter.owner) {
                    return Err(TransferError::Unauthorized);
                }
            },
        }
        let new_supply = match safe_add(self.config.total_supply, amount) {
            Ok(v) => v,
            Err(e) => {
                return Err(e);
            },
        };
        if new_supply > self.config.max_supply {
            return Err(TransferError::SupplyExceeded);
        }
        let to_balance = self.balances.get(&to);
        let new_to_balance = match safe_add(to_balance, amount) {
            Ok(v) => v,
            Err(e) => {
                return Err(e);
            },
        };
        self.balances.set(&to, new_to_balance);
        self.config.total_supply = new_supply;
        let id = self.append_transaction(
            Account { owner: Principal::system(), subaccount: None },
            to,
            amount,
            0,
            None,
            TransactionType::Mint,
            crate::fingerprint::zero_hash(),
            now,
        );
        proof {
            assert(self@ =~= spec_mint(old(self)@, to@, amount, caller@, now).0);
        }
        Ok(id)
    }

    /// Burn `amount` tokens from `from`. The account owner or the minting
    /// authority may burn, never more than the stored balance; a failing
    /// call leaves the ledger unchanged.
    pub fn burn(&mut self, from: Account, amount: u128, caller: &Principal, now: u64) -> (r:
        TransferResult)
        requires
            old(self).wf(),
            old(self)@.transactions.len() < u64::MAX,
        ensures
            final(self)@ == spec_burn(old(self)@, from@, amount, caller@, now).0,
            crate::errors::result_view(r) == spec_burn(old(self)@, from@, amount, caller@, now).1,
            final(self).wf(),
    {
        proof {
            lemma_burn_preserves_wf(old(self)@, from@, amount, caller@, now);
        }
        if let Err(e) = validate_account(&from) {
            return Err(e);
        }
        if let Err(e) = validate_amount(amount) {
            return Err(e);
        }
        let authorized = if caller == &from.owner {
            true
        } else {
            match &self.config.minting_account {
                Some(minter) => caller == &minter.owner,
                None => false,
            }
        };
        if !authorized {
            return Err(TransferError::Unauthorized);
        }
        let from_balance = self.balances.get(&from);
        if from_balance < amount {
            return Err(TransferError::InsufficientFunds { balance: from_balance });
        }
        let new_from_balance = from_balance - amount;
        self.balances.set(&from, new_from_balance);
        let new_supply = match safe_sub(self.config.total_supply, amount) {
            Ok(v) => v,
            Err(_) => 0,
        };
        self.config.total_supply = new_supply;
        let id = self.append_transaction(
            from,
            Account { owner: Principal::system(), subaccount: None },
            amount,
            0,
            None,
            TransactionType::Burn,
            crate::fingerprint::zero_hash(),
            now,
        );
        proof {
            assert(self@ =~= spec_burn(old(self)@, from@, amount, caller@, now).0);
        }
        Ok(id)
    }

    /// Grant `amount` tokens to `user` as a reward, with a non-empty
    /// reason of at most 100 characters. The admin or the minting
    /// authority may reward, capped per call and never past the supply
    /// cap. On success the user's reward statistics accumulate
    /// (saturating) and the reason is recorded in the transaction memo; a
    /// failing call leaves the ledger unchanged.
    pub fn reward_user(
        &mut self,
        user: Account,
        amount: u128,
        reason: String,
        caller: &Principal,
        now: u64,
    ) -> (r: TransferResult)
        requires
            old(self).wf(),
            old(self)@.transactions.len() < u64::MAX,
        ensures
            final(self)@ == spec_reward(old(self)@, user@, amount, reason@, caller@, now).0,
            crate::errors::result_view(r) == spec_reward(
                old(self)@,
                user@,
                amount,
                reason@,
                caller@,
                now,
            ).1,
            final(self).wf(),
    {
        proof {
            lemma_reward_preserves_wf(old(self)@, user@, amount, reason@, caller@, now);
        }
        if let Err(e) = validate_account(&user) {
            return Err(e);
        }
        if let Err(e) = validate_amount(amount) {
            return Err(e);
        }
        if amount > MAX_REWARD_PER_CALL {
            return Err(
                TransferError::GenericError {
                    error_code: 1005,
                    message: "Reward amount exceeds maximum allowed per call".to_owned(),
                },
            );
        }
        let reason_len = reason.as_str().unicode_len();
        if reason_len == 0 || reason_len > 100 {
            return Err(
                TransferError::GenericError {
                    error_code: 1006,
                    message: "Invalid reward reason".to_owned(),
                },
            );
        }
        let authorized = if caller == &self.config.admin {
            true
        } else {
            match &self.config.minting_account {
                Some(minter) => caller == &minter.owner,
                None => false,
            }
        };
        if !authorized {
            return Err(TransferError::Unauthorized);
        }
        let new_supply = match safe_add(self.config.total_supply, amount) {
            Ok(v) => v,
            Err(e) => {
                return Err(e);
            },
        };
        if new_supply > self.config.max_supply {
            return Err(TransferError::SupplyExceeded);
        }
        let user_balance = self.balances.get(&user);
        let new_user_balance = match safe_add(user_balance, amount) {
            Ok(v) => v,
            Err(e) => {
                return Err(e);
            },
        };
        self.balances.set(&user, new_user_balance);
        let old_stats = self.reward_stats.get(&user);
        let total_rewards = match safe_add(old_stats.total_rewards, amount) {
            Ok(v) => v,
            Err(_) => u128::MAX,
        };
        let new_stats = RewardStats {
            total_rewards,
            last_reward: Some(now),
            reward_count: old_stats.reward_count.saturating_add(1),
        };
        self.reward_stats.set(&user, new_stats);
        self.config.total_supply = new_supply;
        let mut memo_bytes = "REWARD: ".as_bytes_vec();
        let mut reason_bytes = reason.as_str().as_bytes_vec();
        memo_bytes.append(&mut reason_bytes);
        proof {
            assert(memo_bytes@ =~= reward_memo(reason@));
        }
        let id = self.append_transaction(
            Account { owner: Principal::system(), subaccount: None },
            user,
            amount,
            0,
            Some(memo_bytes),
            TransactionType::Reward,
            crate::fingerprint::zero_hash(),
            now,
        );
        proof {
            assert(self@ =~= spec_reward(old(self)@, user@, amount, reason@, caller@, now).0);
        }
        Ok(id)
    }
}

/// Reject a zero amount.
pub fn validate_amount(amount: u128) -> (r: Result<(), TransferError>)
    ensures
        amount == 0 ==> r == Err::<(), TransferError>(TransferError::InvalidAmount),
        amount != 0 ==> r == Ok::<(), TransferError>(()),
{
    if amount == 0 {
        Err(TransferError::InvalidAmount)
    } else {
        Ok(())
    }
}

/// Whether a memo is acceptable: absent, or within the size ceiling.
pub open spec fn memo_acceptable(memo: Option<Seq<u8>>) -> bool {
    memo matches Some(m) ==> m.len() <= MAX_MEMO_SIZE
}

/// Reject a memo longer than the size ceiling.
pub fn validate_memo(memo: &Option<Vec<u8>>) -> (r: Result<(), TransferError>)
    ensures
        memo_acceptable(opt_bytes_view(*memo)) ==> r == Ok::<(), TransferError>(()),
        !memo_acceptable(opt_bytes_view(*memo)) ==> r == Err::<(), TransferError>(
            TransferError::MemoTooLarge,
        ),
{
    if let Some(m) = memo {
        if m.len() > MAX_MEMO_SIZE {
            return Err(TransferError::MemoTooLarge);
        }
    }
    Ok(())
}

/// The source account a transfer debits: the caller's identity refined by
/// the declared subaccount.
pub open spec fn transfer_source(args: crate::types::TransferArgsV, caller: Seq<u8>) -> AccountV {
    AccountV { owner: caller, subaccount: args.from_subaccount }
}

/// The state transition and result of an externally submitted transfer.
///
/// The checks run in order: destination, amount and memo validity, source
/// validity, fee agreement, arithmetic range of `amount + fee`, funds,
/// replay (after evicting stale window entries), declared creation time.
/// Only when all pass does the state change: the source is debited
/// `amount + fee`, the destination credited `amount`, the fee burned from
/// the total supply, the fingerprint recorded, and the transfer logged
/// under the next transaction id. On every failure the state is unchanged
/// except that a failure at or past the replay check retains the eviction
/// of stale window entries.
pub open spec fn spec_transfer(
    l: LedgerV,
    args: crate::types::TransferArgsV,
    caller: Seq<u8>,
    now: u64,
) -> (LedgerV, Result<u64, TransferErrorV>) {
    let from = transfer_source(args, caller);
    if validate_account_spec(args.to) is Some {
        (l, Err(validate_account_spec(args.to)->Some_0))
    } else if args.amount == 0 {
        (l, Err(TransferErrorV::InvalidAmount))
    } else if !memo_acceptable(args.memo) {
        (l, Err(TransferErrorV::MemoTooLarge))
    } else if validate_account_spec(from) is Some {
        (l, Err(validate_account_spec(from)->Some_0))
    } else if args.fee matches Some(f) && f != l.config.fee {
        (l, Err(TransferErrorV::BadFee { expected_fee: l.config.fee }))
    } else if args.amount + l.config.fee > u128::MAX {
        (l, Err(TransferErrorV::Overflow))
    } else {
        let fee = l.config.fee;
        let total = (args.amount + fee) as u128;
        let from_balance = balance_of(l.balances, from);
        if from_balance < total {
            (l, Err(TransferErrorV::InsufficientFunds { balance: from_balance }))
        } else {
            let fp = fingerprint_spec(caller, args, now);
            let dd1 = evict_spec(l.dedup, cutoff(now));
            let l1 = LedgerV { dedup: dd1, ..l };
            let i = dd_find(dd1, fp);
            if i >= 0 && sat_sub64(now, dd1[i].seen_at) < DEDUPLICATION_WINDOW {
                (l1, Err(TransferErrorV::Duplicate { duplicate_of: 0 }))
            } else if args.created_at_time matches Some(t) && t > now {
                (l1, Err(TransferErrorV::CreatedInFuture { ledger_time: now }))
            } else if args.created_at_time matches Some(t) && sat_sub64(now, t)
                > DEDUPLICATION_WINDOW {
                (l1, Err(TransferErrorV::TooOld))
            } else {
                let new_from_balance = (from_balance - total) as u128;
                let b1 = set_balance_spec(l.balances, from, new_from_balance);
                let to_balance = balance_of(b1, args.to);
                if to_balance + args.amount > u128::MAX {
                    (l1, Err(TransferErrorV::Overflow))
                } else {
                    let b2 = set_balance_spec(b1, args.to, (to_balance + args.amount) as u128);
                    let dd2 = record_spec(dd1, fp, now);
                    let supply = l.config.total_supply;
                    let new_supply = if fee <= supply {
                        (supply - fee) as u128
                    } else {
                        0u128
                    };
                    let id = (l.transactions.len() + 1) as u64;
                    let tx = TransactionV {
                        id: id,
                        from: from,
                        to: args.to,
                        amount: args.amount,
                        fee: fee,
                        timestamp: now,
                        memo: args.memo,
                        transaction_type: TransactionType::Transfer,
                        tx_hash: fp,
                    };
                    (
                        LedgerV {
                            config: TokenDataV { total_supply: new_supply, ..l.config },
                            balances: b2,
                            transactions: l.transactions.push(tx),
                            reward_stats: l.reward_stats,
                            dedup: dd2,
                        },
                        Ok(id),
                    )
                }
            }
        }
    }
}

/// The state transition and result of a mint. Only the owner of the
/// configured minting account may mint; a mint that would push the total
/// supply past the cap is refused before any mutation. On success the
/// destination is credited and the supply raised by the minted amount,
/// and a mint transaction from the system account is logged.
pub open spec fn spec_mint(l: LedgerV, to: AccountV, amount: u128, caller: Seq<u8>, now: u64) -> (
    LedgerV,
    Result<u64, TransferErrorV>,
) {
    if validate_account_spec(to) is Some {
        (l, Err(validate_account_spec(to)->Some_0))
    } else if amount == 0 {
        (l, Err(TransferErrorV::InvalidAmount))
    } else {
        match l.config.minting_account {
            None => (
                l,
                Err(
                    TransferErrorV::GenericError {
                        error_code: 2,
                        message: "No minting account set"@,
                    },
                ),
            ),
            Some(minter) => {
                if caller != minter.owner {
                    (l, Err(TransferErrorV::Unauthorized))
                } else if l.config.total_supply + amount > u128::MAX {
                    (l, Err(TransferErrorV::Overflow))
                } else {
                    let new_supply = (l.config.total_supply + amount) as u128;
                    if new_supply > l.config.max_supply {
                        (l, Err(TransferErrorV::SupplyExceeded))
                    } else {
                        let to_balance = balance_of(l.balances, to);
                        if to_balance + amount > u128::MAX {
                            (l, Err(TransferErrorV::Overflow))
                        } else {
                            let b = set_balance_spec(l.balances, to, (to_balance + amount) as u128);
                            let id = (l.transactions.len() + 1) as u64;
                            let tx = TransactionV {
                                id: id,
                                from: AccountV {
                                    owner: crate::account::system_bytes(),
                                    subaccount: None,
                                },
                                to: to,
                                amount: amount,
                                fee: 0,
                                timestamp: now,
                                memo: None,
                                transaction_type: TransactionType::Mint,
                                tx_hash: crate::fingerprint::zero_fingerprint(),
                            };
                            (
                                LedgerV {
                                    config: TokenDataV { total_supply: new_supply, ..l.config },
                                    balances: b,
                                    transactions: l.transactions.push(tx),
                                    ..l
                                },
                                Ok(id),
                            )
                        }
                    }
                }
            },
        }
    }
}

/// A mint preserves every ledger invariant: the credited amount equals
/// the supply increase, and the cap check keeps the supply bounded.
pub proof fn lemma_mint_preserves_wf(
    l: LedgerV,
    to: AccountV,
    amount: u128,
    caller: Seq<u8>,
    now: u64,
)
    requires
        ledger_wf(l),
        l.transactions.len() < u64::MAX,
    ensures
        ledger_wf(spec_mint(l, to, amount, caller, now).0),
{
    if spec_mint(l, to, amount, caller, now).1 is Ok {
        let to_balance = balance_of(l.balances, to);
        lemma_balance_le_sum(l.balances, to);
        lemma_set_balance(l.balances, to, (to_balance + amount) as u128);
    }
}

/// Whether `caller` may burn from `from`: the account owner may, and so
/// may the owner of the configured minting account.
pub open spec fn burn_authorized(l: LedgerV, from: AccountV, caller: Seq<u8>) -> bool {
    ||| caller == from.owner
    ||| (l.config.minting_account matches Some(m) && caller == m.owner)
}

/// The state transition and result of a burn. The account owner or the
/// minting authority may burn; burning more than the stored balance is
/// refused before any mutation. On success the account is debited and the
/// supply lowered by the burned amount, and a burn transaction to the
/// system account is logged.
pub open spec fn spec_burn(l: LedgerV, from: AccountV, amount: u128, caller: Seq<u8>, now: u64) -> (
    LedgerV,
    Result<u64, TransferErrorV>,
) {
    if validate_account_spec(from) is Some {
        (l, Err(validate_account_spec(from)->Some_0))
    } else if amount == 0 {
        (l, Err(TransferErrorV::InvalidAmount))
    } else if !burn_authorized(l, from, caller) {
        (l, Err(TransferErrorV::Unauthorized))
    } else {
        let from_balance = balance_of(l.balances, from);
        if from_balance < amount {
            (l, Err(TransferErrorV::InsufficientFunds { balance: from_balance }))
        } else {
            let b = set_balance_spec(l.balances, from, (from_balance - amount) as u128);
            let supply = l.config.total_supply;
            let new_supply = if amount <= supply {
                (supply - amount) as u128
            } else {
                0u128
            };
            let id = (l.transactions.len() + 1) as u64;
            let tx = TransactionV {
                id: id,
                from: from,
                to: AccountV { owner: crate::account::system_bytes(), subaccount: None },
                amount: amount,
                fee: 0,
                timestamp: now,
                memo: None,
                transaction_type: TransactionType::Burn,
                tx_hash: crate::fingerprint::zero_fingerprint(),
            };
            (
                LedgerV {
                    config: TokenDataV { total_supply: new_supply, ..l.config },
                    balances: b,
                    transactions: l.transactions.push(tx),
                    ..l
                },
                Ok(id),
            )
        }
    }
}

/// A burn preserves every ledger invariant: under conservation the burned
/// amount never exceeds the supply, so the supply drops by exactly the
/// amount debited.
pub proof fn lemma_burn_preserves_wf(
    l: LedgerV,
    from: AccountV,
    amount: u128,
    caller: Seq<u8>,
    now: u64,
)
    requires
        ledger_wf(l),
        l.transactions.len() < u64::MAX,
    ensures
        ledger_wf(spec_burn(l, from, amount, caller, now).0),
{
    if spec_burn(l, from, amount, caller, now).1 is Ok {
        let from_balance = balance_of(l.balances, from);
        lemma_balance_le_sum(l.balances, from);
        lemma_set_balance(l.balances, from, (from_balance - amount) as u128);
    }
}

/// Whether `caller` may grant rewards: the admin may, and so may the
/// owner of the configured minting account.
pub open spec fn reward_authorized(l: LedgerV, caller: Seq<u8>) -> bool {
    ||| caller == l.config.admin
    ||| (l.config.minting_account matches Some(m) && caller == m.owner)
}

/// The saturated statistics after one more reward of `amount` at `now`.
pub open spec fn bump_stats(st: RewardStats, amount: u128, now: u64) -> RewardStats {
    RewardStats {
        total_rewards: if st.total_rewards + amount > u128::MAX {
            u128::MAX
        } else {
            (st.total_rewards + amount) as u128
        },
        last_reward: Some(now),
        reward_count: if st.reward_count + 1 > u64::MAX {
            u64::MAX
        } else {
            (st.reward_count + 1) as u64
        },
    }
}

/// The memo a reward transaction carries: the reason, UTF-8 encoded and
/// prefixed.
pub open spec fn reward_memo(reason: Seq<char>) -> Seq<u8> {
    vstd::utf8::encode_utf8("REWARD: "@) + vstd::utf8::encode_utf8(reason)
}

/// The state transition and result of a reward. The admin or the minting
/// authority may reward; the amount is capped per call, the reason must
/// be non-empty and at most 100 characters, and the supply-cap check is
/// the same as for a mint. On success the destination is credited, its
/// reward statistics accumulate (saturating: they are monitoring
/// counters, not balances), the supply rises, and a reward transaction
/// carrying the reason is logged.
pub open spec fn spec_reward(
    l: LedgerV,
    user: AccountV,
    amount: u128,
    reason: Seq<char>,
    caller: Seq<u8>,
    now: u64,
) -> (LedgerV, Result<u64, TransferErrorV>) {
    if validate_account_spec(user) is Some {
        (l, Err(validate_account_spec(user)->Some_0))
    } else if amount == 0 {
        (l, Err(TransferErrorV::InvalidAmount))
    } else if amount > MAX_REWARD_PER_CALL {
        (
            l,
            Err(
                TransferErrorV::GenericError {
                    error_code: 1005,
                    message: "Reward amount exceeds maximum allowed per call"@,
                },
            ),
        )
    } else if reason.len() == 0 || reason.len() > 100 {
        (
            l,
            Err(
                TransferErrorV::GenericError {
                    error_code: 1006,
                    message: "Invalid reward reason"@,
                },
            ),
        )
    } else if !reward_authorized(l, caller) {
        (l, Err(TransferErrorV::Unauthorized))
    } else if l.config.total_supply + amount > u128::MAX {
        (l, Err(TransferErrorV::Overflow))
    } else {
        let new_supply = (l.config.total_supply + amount) as u128;
        if new_supply > l.config.max_supply {
            (l, Err(TransferErrorV::SupplyExceeded))
        } else {
            let user_balance = balance_of(l.balances, user);
            if user_balance + amount > u128::MAX {
                (l, Err(TransferErrorV::Overflow))
            } else {
                let b = set_balance_spec(l.balances, user, (user_balance + amount) as u128);
                let st = bump_stats(stats_of(l.reward_stats, user), amount, now);
                let rs = crate::rewards::upsert_spec(l.reward_stats, user, st);
                let id = (l.transactions.len() + 1) as u64;
                let tx = TransactionV {
                    id: id,
                    from: AccountV { owner: crate::account::system_bytes(), subaccount: None },
                    to: user,
                    amount: amount,
                    fee: 0,
                    timestamp: now,
                    memo: Some(reward_memo(reason)),
                    transaction_type: TransactionType::Reward,
                    tx_hash: crate::fingerprint::zero_fingerprint(),
                };
                (
                    LedgerV {
                        config: TokenDataV { total_supply: new_supply, ..l.config },
                        balances: b,
                        transactions: l.transactions.push(tx),
                        reward_stats: rs,
                        dedup: l.dedup,
                    },
                    Ok(id),
                )
            }
        }
    }
}

/// A reward preserves every ledger invariant, exactly as a mint does; the
/// statistics stay uniquely keyed.
pub proof fn lemma_reward_preserves_wf(
    l: LedgerV,
    user: AccountV,
    amount: u128,
    reason: Seq<char>,
    caller: Seq<u8>,
    now: u64,
)
    requires
        ledger_wf(l),
        l.transactions.len() < u64::MAX,
    ensures
        ledger_wf(spec_reward(l, user, amount, reason, caller, now).0),
{
    if spec_reward(l, user, amount, reason, caller, now).1 is Ok {
        let user_balance = balance_of(l.balances, user);
        lemma_balance_le_sum(l.balances, user);
        lemma_set_balance(l.balances, user, (user_balance + amount) as u128);
        crate::rewards::lemma_upsert(
            l.reward_stats,
            user,
            bump_stats(stats_of(l.reward_stats, user), amount, now),
        );
    }
}

/// A transfer preserves every ledger invariant; on success the fee is
/// burned: the balances lose exactly `amount + fee` at the source, gain
/// `amount` at the destination, and the supply drops by the fee.
pub proof fn lemma_transfer_preserves_wf(
    l: LedgerV,
    args: crate::types::TransferArgsV,
    caller: Seq<u8>,
    now: u64,
)
    requires
        ledger_wf(l),
        l.transactions.len() < u64::MAX,
    ensures
        ledger_wf(spec_transfer(l, args, caller, now).0),
{
    let from = transfer_source(args, caller);
    let fee = l.config.fee;
    let dd1 = evict_spec(l.dedup, cutoff(now));
    let fp = fingerprint_spec(caller, args, now);
    lemma_evict(l.dedup, cutoff(now));
    lemma_record(dd1, fp, now);
    lemma_balance_le_sum(l.balances, from);
    if spec_transfer(l, args, caller, now).1 is Ok {
        let total = (args.amount + fee) as u128;
        let from_balance = balance_of(l.balances, from);
        let new_from_balance = (from_balance - total) as u128;
        let b1 = set_balance_spec(l.balances, from, new_from_balance);
        lemma_set_balance(l.balances, from, new_from_balance);
        let to_balance = balance_of(b1, args.to);
        lemma_balance_le_sum(b1, args.to);
        lemma_set_balance(b1, args.to, (to_balance + args.amount) as u128);
    }
}
/// change timestamp are written exactly when the fee respects its
/// ceiling, the caller is the admin, and the cooldown has elapsed.
pub open spec fn spec_set_fee(l: LedgerV, new_fee: u128, caller: Seq<u8>, now: u64) -> (
    LedgerV,
    Result<(), TransferErrorV>,
) {
    if new_fee > MAX_FEE {
        (
            l,
            Err(
                TransferErrorV::GenericError {
                    error_code: 1003,
                    message: "Fee exceeds maximum allowed"@,
                },
            ),
        )
    } else if caller != l.config.admin {
        (l, Err(TransferErrorV::Unauthorized))
    } else if crate::dedup::sat_sub64(now, l.config.last_fee_change) < l.config.fee_change_delay {
        (
            l,
            Err(
                TransferErrorV::GenericError {
                    error_code: 1004,
                    message: "Fee change too soon, must wait 24 hours"@,
                },
            ),
        )
    } else {
        (
            LedgerV {
                config: TokenDataV { fee: new_fee, last_fee_change: now, ..l.config },
                ..l
            },
            Ok(()),
        )
    }
}

/// Unfolding step for prefix sums: one more allocation adds its amount.
proof fn lemma_allocs_sum_step(allocs: Seq<(AccountV, u128)>, i: int)
    requires
        0 <= i < allocs.len(),
    ensures
        allocs_sum(allocs.take(i + 1)) == allocs_sum(allocs.take(i)) + allocs[i].1,
    decreases i,
{
    if i == 0 {
        assert(allocs.take(0) =~= Seq::<(AccountV, u128)>::empty());
        assert(allocs.take(1)[0] == allocs[0]);
        assert(allocs.take(1).drop_first() =~= Seq::<(AccountV, u128)>::empty());
    } else {
        assert(allocs.take(i + 1)[0] == allocs[0]);
        assert(allocs.take(i)[0] == allocs[0]);
        assert(allocs.take(i + 1).drop_first() =~= allocs.drop_first().take(i));
        assert(allocs.take(i).drop_first() =~= allocs.drop_first().take(i - 1));
        lemma_allocs_sum_step(allocs.drop_first(), i - 1);
        assert(allocs.drop_first()[i - 1] == allocs[i]);
    }
}

/// A prefix sum is bounded by the whole sum.
proof fn lemma_allocs_sum_prefix_full(allocs: Seq<(AccountV, u128)>, i: int)
    requires
        0 <= i <= allocs.len(),
    ensures
        allocs_sum(allocs.take(i)) <= allocs_sum(allocs),
{
    lemma_allocs_sum_rest_nonneg(allocs, i);
}

/// The remaining allocations past a prefix sum to a nonnegative amount.
proof fn lemma_allocs_sum_prefix_rest(allocs: Seq<(AccountV, u128)>, i: int)
    requires
        0 <= i < allocs.len(),
    ensures
        allocs_sum(allocs.take(i)) + allocs[i].1 <= allocs_sum(allocs),
{
    lemma_allocs_sum_step(allocs, i);
    lemma_allocs_sum_rest_nonneg(allocs, i + 1);
}

/// Splitting a sum at a prefix: the whole is the prefix plus the rest,
/// and the rest is nonnegative.
proof fn lemma_allocs_sum_rest_nonneg(allocs: Seq<(AccountV, u128)>, i: int)
    requires
        0 <= i <= allocs.len(),
    ensures
        allocs_sum(allocs.take(i)) <= allocs_sum(allocs),
    decreases allocs.len(),
{
    if i == 0 {
        lemma_allocs_sum_nonneg_from(allocs);
        assert(allocs.take(0) =~= Seq::<(AccountV, u128)>::empty());
    } else if allocs.len() > 0 {
        assert(allocs.take(i)[0] == allocs[0]);
        assert(allocs.take(i).drop_first() =~= allocs.drop_first().take(i - 1));
        lemma_allocs_sum_rest_nonneg(allocs.drop_first(), i - 1);
    }
}

/// An allocation sum is nonnegative.
proof fn lemma_allocs_sum_nonneg_from(allocs: Seq<(AccountV, u128)>)
    ensures
        allocs_sum(allocs) >= 0,
    decreases allocs.len(),
{
    if allocs.len() > 0 {
        lemma_allocs_sum_nonneg_from(allocs.drop_first());
    }
}

} // verus!
