//! The ledger's laws, stated and proved once and for all over the
//! transition functions. Together with the well-formedness clause in every
//! operation's contract, these pin down conservation, the supply cap,
//! replay protection, the boundary failures, and the shape of the
//! transaction log.

use vstd::prelude::*;
use crate::account::{AccountV, account_acceptable};
use crate::balances::{balance_of, lemma_balance_le_sum, lemma_set_balance, sum_balances};
use crate::config::DEDUPLICATION_WINDOW;
use crate::dedup::{
    DedupEntryV, cutoff, dd_find, evict_spec, lemma_evict, lemma_evict_all, lemma_evict_noop,
    lemma_record, record_spec, sat_sub64,
};
use crate::errors::TransferErrorV;
use crate::fingerprint::fingerprint_spec;
use crate::ledger::{
    LedgerV, burn_authorized, ledger_wf, spec_burn, spec_mint, spec_reward, spec_set_fee,
    spec_transfer, transfer_source,
};
use crate::types::TransferArgsV;

verus! {

/// Conservation and the supply cap: in every well-formed — hence every
/// reachable — ledger state, the balances sum to exactly the recorded
/// total supply, and the total supply never exceeds the cap. `init`
/// establishes well-formedness and every operation's contract preserves
/// it, so these hold of every reachable state.
pub proof fn lemma_wf_invariants(l: LedgerV)
    requires
        ledger_wf(l),
    ensures
        sum_balances(l.balances) == l.config.total_supply,
        l.config.total_supply <= l.config.max_supply,
{
}

/// Transaction ids are `1, 2, 3, …` in log order, with no gap or repeat,
/// in every well-formed state; each operation appends at most one
/// transaction, so the ids stay gapless across all operation kinds.
pub proof fn lemma_transaction_ids_sequential(l: LedgerV)
    requires
        ledger_wf(l),
    ensures
        forall|i: int| 0 <= i < l.transactions.len() ==> (#[trigger] l.transactions[i]).id == i + 1,
        forall|i: int, j: int|
            0 <= i < j < l.transactions.len() ==> (#[trigger] l.transactions[i]).id != (
            #[trigger] l.transactions[j]).id,
{
}

/// A successful transfer settles exactly one transaction, under the next
/// id; a failing one settles none.
pub proof fn lemma_transfer_log(l: LedgerV, args: TransferArgsV, caller: Seq<u8>, now: u64)
    ensures
        match spec_transfer(l, args, caller, now).1 {
            Ok(id) => spec_transfer(l, args, caller, now).0.transactions.len()
                == l.transactions.len() + 1 && id == (l.transactions.len() + 1) as u64,
            Err(_) => spec_transfer(l, args, caller, now).0.transactions == l.transactions,
        },
{
}

/// A successful mint settles exactly one transaction, under the next id;
/// a failing one settles none.
pub proof fn lemma_mint_log(l: LedgerV, to: AccountV, amount: u128, caller: Seq<u8>, now: u64)
    ensures
        match spec_mint(l, to, amount, caller, now).1 {
            Ok(id) => spec_mint(l, to, amount, caller, now).0.transactions.len()
                == l.transactions.len() + 1 && id == (l.transactions.len() + 1) as u64,
            Err(_) => spec_mint(l, to, amount, caller, now).0.transactions == l.transactions,
        },
{
}

/// A successful burn settles exactly one transaction, under the next id;
/// a failing one settles none.
pub proof fn lemma_burn_log(l: LedgerV, from: AccountV, amount: u128, caller: Seq<u8>, now: u64)
    ensures
        match spec_burn(l, from, amount, caller, now).1 {
            Ok(id) => spec_burn(l, from, amount, caller, now).0.transactions.len()
                == l.transactions.len() + 1 && id == (l.transactions.len() + 1) as u64,
            Err(_) => spec_burn(l, from, amount, caller, now).0.transactions == l.transactions,
        },
{
}

/// A successful reward settles exactly one transaction, under the next
/// id; a failing one settles none.
pub proof fn lemma_reward_log(
    l: LedgerV,
    user: AccountV,
    amount: u128,
    reason: Seq<char>,
    caller: Seq<u8>,
    now: u64,
)
    ensures
        match spec_reward(l, user, amount, reason, caller, now).1 {
            Ok(id) => spec_reward(l, user, amount, reason, caller, now).0.transactions.len()
                == l.transactions.len() + 1 && id == (l.transactions.len() + 1) as u64,
            Err(_) => spec_reward(l, user, amount, reason, caller, now).0.transactions
                == l.transactions,
        },
{
}

/// A fee change never settles a transaction.
pub proof fn lemma_set_fee_log(l: LedgerV, new_fee: u128, caller: Seq<u8>, now: u64)
    ensures
        spec_set_fee(l, new_fee, caller, now).0.transactions == l.transactions,
{
}

/// Conservation of a settled transfer between two distinct accounts: the
/// source loses exactly `amount` plus the fee, the destination gains
/// exactly `amount`. (A transfer from an account to itself nets to the
/// fee alone, so the two differences below cannot both hold of it.)
pub proof fn lemma_transfer_conservation(
    l: LedgerV,
    args: TransferArgsV,
    caller: Seq<u8>,
    now: u64,
)
    requires
        ledger_wf(l),
        spec_transfer(l, args, caller, now).1 is Ok,
        transfer_source(args, caller) != args.to,
    ensures
        balance_of(l.balances, transfer_source(args, caller)) - balance_of(
            spec_transfer(l, args, caller, now).0.balances,
            transfer_source(args, caller),
        ) == args.amount + l.config.fee,
        balance_of(spec_transfer(l, args, caller, now).0.balances, args.to) - balance_of(
            l.balances,
            args.to,
        ) == args.amount,
{
    let from = transfer_source(args, caller);
    let fee = l.config.fee;
    let total = (args.amount + fee) as u128;
    let from_balance = balance_of(l.balances, from);
    let new_from_balance = (from_balance - total) as u128;
    let b1 = crate::balances::set_balance_spec(l.balances, from, new_from_balance);
    lemma_set_balance(l.balances, from, new_from_balance);
    let to_balance = balance_of(b1, args.to);
    lemma_set_balance(b1, args.to, (to_balance + args.amount) as u128);
}

/// The boundary of a burn: burning one token more than the stored
/// balance always fails with `InsufficientFunds`, reporting that balance,
/// and leaves the state unchanged. The account must be acceptable and the
/// caller authorized, or the corresponding earlier check fails instead.
pub proof fn lemma_burn_insufficient(l: LedgerV, from: AccountV, caller: Seq<u8>, now: u64)
    requires
        ledger_wf(l),
        account_acceptable(from),
        burn_authorized(l, from, caller),
        balance_of(l.balances, from) < u128::MAX,
    ensures
        spec_burn(l, from, (balance_of(l.balances, from) + 1) as u128, caller, now) == (
            l,
            Err::<u64, TransferErrorV>(
                TransferErrorV::InsufficientFunds { balance: balance_of(l.balances, from) },
            ),
        ),
{
}

/// The boundary of a mint: a mint that would push the total supply past
/// the cap fails with `SupplyExceeded` and leaves balances and supply
/// unchanged. The destination must be acceptable, the amount nonzero and
/// within the range of the supply type, and the caller the minting
/// authority, or the corresponding earlier check fails instead.
pub proof fn lemma_mint_supply_exceeded(
    l: LedgerV,
    to: AccountV,
    amount: u128,
    caller: Seq<u8>,
    now: u64,
)
    requires
        ledger_wf(l),
        account_acceptable(to),
        amount > 0,
        l.config.minting_account matches Some(m) && caller == m.owner,
        l.config.total_supply + amount <= u128::MAX,
        l.config.total_supply + amount > l.config.max_supply,
    ensures
        spec_mint(l, to, amount, caller, now) == (
            l,
            Err::<u64, TransferErrorV>(TransferErrorV::SupplyExceeded),
        ),
{
}

/// Replay protection, first half: resubmitting the identical transfer
/// request at the same observed time — which gives the identical
/// fingerprint — fails with `Duplicate` and leaves the ledger exactly as
/// the first submission left it. The source must still hold `amount`
/// plus the fee, or the funds check fails first.
#[verifier::rlimit(50)]
pub proof fn lemma_transfer_replay_duplicate(
    l: LedgerV,
    args: TransferArgsV,
    caller: Seq<u8>,
    now: u64,
)
    requires
        ledger_wf(l),
        spec_transfer(l, args, caller, now).1 is Ok,
        balance_of(spec_transfer(l, args, caller, now).0.balances, transfer_source(args, caller))
            >= args.amount + l.config.fee,
    ensures
        spec_transfer(spec_transfer(l, args, caller, now).0, args, caller, now) == (
            spec_transfer(l, args, caller, now).0,
            Err::<u64, TransferErrorV>(TransferErrorV::Duplicate { duplicate_of: 0 }),
        ),
{
    let post = spec_transfer(l, args, caller, now).0;
    let fp = fingerprint_spec(caller, args, now);
    let dd1 = evict_spec(l.dedup, cutoff(now));
    lemma_evict(l.dedup, cutoff(now));
    lemma_record(dd1, fp, now);
    assert(post.dedup == record_spec(dd1, fp, now));
    assert forall|i: int| 0 <= i < post.dedup.len() implies (#[trigger] post.dedup[i]).seen_at
        >= cutoff(now) by {
        let e = DedupEntryV { fingerprint: fp, seen_at: now };
        assert(record_spec(dd1, fp, now)[i] == post.dedup[i]);
        crate::dedup::lemma_dd_find(dd1, fp);
        if post.dedup[i] != e {
            if dd_find(dd1, fp) == -1 && i == dd1.len() {
                assert(dd1.push(e)[i] == e);
                assert(false);
            }
            assert(post.dedup[i] == dd1[i]);
            assert(evict_spec(l.dedup, cutoff(now))[i] == dd1[i]);
            assert(dd1[i].seen_at >= cutoff(now));
        }
    }
    lemma_evict_noop(post.dedup, cutoff(now));
    let j = dd_find(post.dedup, fp);
    assert(post.dedup[j].seen_at == now);
    assert(sat_sub64(now, now) == 0);
    assert(LedgerV { dedup: evict_spec(post.dedup, cutoff(now)), ..post } =~= post);
}

/// Replay protection, second half: once the deduplication window has
/// elapsed — every recorded fingerprint, including the first
/// submission's, is older than the window at the new observed time — the
/// identical request (with no declared creation time) settles again as a
/// new transaction, provided the source still holds `amount` plus the
/// fee.
#[verifier::rlimit(50)]
pub proof fn lemma_transfer_replay_after_window(
    l: LedgerV,
    args: TransferArgsV,
    caller: Seq<u8>,
    now: u64,
    now2: u64,
)
    requires
        ledger_wf(l),
        l.transactions.len() < u64::MAX,
        spec_transfer(l, args, caller, now).1 is Ok,
        args.created_at_time is None,
        forall|i: int|
            0 <= i < spec_transfer(l, args, caller, now).0.dedup.len() ==> (
            #[trigger] spec_transfer(l, args, caller, now).0.dedup[i]).seen_at < cutoff(now2),
        balance_of(spec_transfer(l, args, caller, now).0.balances, transfer_source(args, caller))
            >= args.amount + l.config.fee,
    ensures
        spec_transfer(spec_transfer(l, args, caller, now).0, args, caller, now2).1 is Ok,
{
    let post = spec_transfer(l, args, caller, now).0;
    let from = transfer_source(args, caller);
    let fee = post.config.fee;
    let total = (args.amount + fee) as u128;
    crate::ledger::lemma_transfer_preserves_wf(l, args, caller, now);
    lemma_evict_all(post.dedup, cutoff(now2));
    let fp2 = fingerprint_spec(caller, args, now2);
    assert(dd_find(evict_spec(post.dedup, cutoff(now2)), fp2) == -1);
    let from_balance = balance_of(post.balances, from);
    let new_from_balance = (from_balance - total) as u128;
    let b1 = crate::balances::set_balance_spec(post.balances, from, new_from_balance);
    lemma_balance_le_sum(post.balances, from);
    lemma_set_balance(post.balances, from, new_from_balance);
    lemma_balance_le_sum(b1, args.to);
}

} // verus!
