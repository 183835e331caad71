//! The account balance store: a mapping from account to positive balance.
//! An absent account has balance zero; an entry with value zero is never
//! stored. All balance mutation of the ledger goes through `set`, which is
//! what keeps the no-stored-zero invariant and makes the conservation
//! argument (sum of balances equals total supply) possible.

use vstd::prelude::*;
use crate::account::{Account, AccountV};

verus! {

/// Mathematical image of one stored balance.
#[verifier::ext_equal]
pub struct BalanceEntryV {
    pub account: AccountV,
    pub amount: u128,
}

/// One stored balance.
#[derive(Debug)]
pub struct BalanceEntry {
    pub account: Account,
    pub amount: u128,
}

impl View for BalanceEntry {
    type V = BalanceEntryV;

    open spec fn view(&self) -> BalanceEntryV {
        BalanceEntryV { account: self.account@, amount: self.amount }
    }
}

/// Index of the first entry for `a`, or `-1` when `a` has no entry.
pub open spec fn find_index(s: Seq<BalanceEntryV>, a: AccountV) -> int
    decreases s.len(),
{
    if s.len() == 0 {
        -1
    } else if s[0].account == a {
        0
    } else {
        let r = find_index(s.drop_first(), a);
        if r == -1 {
            -1
        } else {
            r + 1
        }
    }
}

/// The balance of `a`: the stored amount, or zero when absent.
pub open spec fn balance_of(s: Seq<BalanceEntryV>, a: AccountV) -> u128 {
    let i = find_index(s, a);
    if i == -1 {
        0
    } else {
        s[i].amount
    }
}

/// The sum of all stored balances, as a mathematical integer.
pub open spec fn sum_balances(s: Seq<BalanceEntryV>) -> int
    decreases s.len(),
{
    if s.len() == 0 {
        0
    } else {
        s[0].amount + sum_balances(s.drop_first())
    }
}

/// Well-formedness of the store: accounts are distinct and no stored
/// balance is zero.
pub open spec fn entries_wf(s: Seq<BalanceEntryV>) -> bool {
    &&& forall|i: int, j: int|
        0 <= i < j < s.len() ==> #[trigger] s[i].account != #[trigger] s[j].account
    &&& forall|i: int| 0 <= i < s.len() ==> (#[trigger] s[i].amount) > 0
}

/// The store after assigning balance `v` to `a`: the entry is removed when
/// `v` is zero, updated in place when present, appended when absent.
pub open spec fn set_balance_spec(s: Seq<BalanceEntryV>, a: AccountV, v: u128) -> Seq<
    BalanceEntryV,
> {
    let i = find_index(s, a);
    if v == 0 {
        if i == -1 {
            s
        } else {
            s.remove(i)
        }
    } else {
        if i == -1 {
            s.push(BalanceEntryV { account: a, amount: v })
        } else {
            s.update(i, BalanceEntryV { account: a, amount: v })
        }
    }
}

/// `find_index` finds a position holding `a`, before which no entry holds
/// `a`; `-1` means no entry holds `a` at all.
proof fn lemma_find_index(s: Seq<BalanceEntryV>, a: AccountV)
    ensures
        -1 <= find_index(s, a) < s.len(),
        find_index(s, a) >= 0 ==> s[find_index(s, a)].account == a,
        forall|k: int| 0 <= k < s.len() && k < find_index(s, a) ==> (#[trigger] s[k]).account != a,
        find_index(s, a) == -1 ==> forall|k: int|
            0 <= k < s.len() ==> (#[trigger] s[k]).account != a,
    decreases s.len(),
{
    if s.len() > 0 && s[0].account != a {
        lemma_find_index(s.drop_first(), a);
        assert forall|k: int| 0 <= k < s.len() && k < find_index(s, a) implies (
        #[trigger] s[k]).account != a by {
            if k > 0 {
                assert(s.drop_first()[k - 1] == s[k]);
            }
        }
        if find_index(s, a) == -1 {
            assert forall|k: int| 0 <= k < s.len() implies (#[trigger] s[k]).account != a by {
                if k > 0 {
                    assert(s.drop_first()[k - 1] == s[k]);
                }
            }
        }
    }
}

/// A sequence whose position `i` holds `a`, with no entry for `a` before
/// it, has `find_index` exactly `i`.
proof fn lemma_find_index_first(s: Seq<BalanceEntryV>, a: AccountV, i: int)
    requires
        0 <= i < s.len(),
        s[i].account == a,
        forall|k: int| 0 <= k < i ==> (#[trigger] s[k]).account != a,
    ensures
        find_index(s, a) == i,
    decreases s.len(),
{
    if i > 0 {
        assert forall|k: int| 0 <= k < i - 1 implies (#[trigger] s.drop_first()[k]).account
            != a by {
            assert(s.drop_first()[k] == s[k + 1]);
        }
        assert(s.drop_first()[i - 1] == s[i]);
        lemma_find_index_first(s.drop_first(), a, i - 1);
    }
}

/// Summing commutes with `push`.
proof fn lemma_sum_push(s: Seq<BalanceEntryV>, e: BalanceEntryV)
    ensures
        sum_balances(s.push(e)) == sum_balances(s) + e.amount,
    decreases s.len(),
{
    if s.len() == 0 {
        assert(s.push(e)[0] == e);
        assert(s.push(e).drop_first() =~= Seq::<BalanceEntryV>::empty());
        assert(sum_balances(s.push(e).drop_first()) == 0);
        assert(sum_balances(s.push(e)) == e.amount);
    } else {
        assert(s.push(e)[0] == s[0]);
        assert(s.push(e).drop_first() =~= s.drop_first().push(e));
        lemma_sum_push(s.drop_first(), e);
        assert(sum_balances(s.push(e)) == s.push(e)[0].amount + sum_balances(
            s.push(e).drop_first(),
        ));
    }
}

/// Updating position `i` changes the sum by the difference of amounts.
proof fn lemma_sum_update(s: Seq<BalanceEntryV>, i: int, e: BalanceEntryV)
    requires
        0 <= i < s.len(),
    ensures
        sum_balances(s.update(i, e)) == sum_balances(s) - s[i].amount + e.amount,
    decreases s.len(),
{
    if i == 0 {
        assert(s.update(0, e).drop_first() =~= s.drop_first());
    } else {
        assert(s.update(i, e).drop_first() =~= s.drop_first().update(i - 1, e));
        lemma_sum_update(s.drop_first(), i - 1, e);
    }
}

/// Removing position `i` lowers the sum by the removed amount.
proof fn lemma_sum_remove(s: Seq<BalanceEntryV>, i: int)
    requires
        0 <= i < s.len(),
    ensures
        sum_balances(s.remove(i)) == sum_balances(s) - s[i].amount,
    decreases s.len(),
{
    if i == 0 {
        assert(s.remove(0) =~= s.drop_first());
    } else {
        assert(s.remove(i).drop_first() =~= s.drop_first().remove(i - 1));
        assert(s.remove(i)[0] == s[0]);
        lemma_sum_remove(s.drop_first(), i - 1);
    }
}

/// Every stored amount is bounded by the sum of all of them.
proof fn lemma_entry_le_sum(s: Seq<BalanceEntryV>, i: int)
    requires
        0 <= i < s.len(),
    ensures
        s[i].amount <= sum_balances(s),
        sum_balances(s) >= 0,
    decreases s.len(),
{
    lemma_sum_nonneg(s.drop_first());
    if i > 0 {
        assert(s.drop_first()[i - 1] == s[i]);
        lemma_entry_le_sum(s.drop_first(), i - 1);
    }
}

/// The sum of balances is never negative.
proof fn lemma_sum_nonneg(s: Seq<BalanceEntryV>)
    ensures
        sum_balances(s) >= 0,
    decreases s.len(),
{
    if s.len() > 0 {
        lemma_sum_nonneg(s.drop_first());
    }
}

/// Any balance is bounded by the sum of all balances.
pub proof fn lemma_balance_le_sum(s: Seq<BalanceEntryV>, a: AccountV)
    ensures
        balance_of(s, a) <= sum_balances(s),
        sum_balances(s) >= 0,
{
    lemma_find_index(s, a);
    lemma_sum_nonneg(s);
    if find_index(s, a) >= 0 {
        lemma_entry_le_sum(s, find_index(s, a));
    }
}

/// What `set_balance_spec` does to a well-formed store: it stays well
/// formed, the written account reads back, every other account keeps its
/// balance, and the sum shifts by exactly the difference written.
pub proof fn lemma_set_balance(s: Seq<BalanceEntryV>, a: AccountV, v: u128)
    requires
        entries_wf(s),
    ensures
        entries_wf(set_balance_spec(s, a, v)),
        balance_of(set_balance_spec(s, a, v), a) == v,
        forall|b: AccountV|
            b != a ==> balance_of(#[trigger] set_balance_spec(s, a, v), b) == balance_of(s, b),
        sum_balances(set_balance_spec(s, a, v)) == sum_balances(s) - balance_of(s, a) + v,
{
    let i = find_index(s, a);
    let t = set_balance_spec(s, a, v);
    lemma_find_index(s, a);
    if v == 0 {
        if i == -1 {
            assert(balance_of(t, a) == 0);
        } else {
            lemma_sum_remove(s, i);
            assert(entries_wf(t)) by {
                assert forall|p: int, q: int| 0 <= p < q < t.len() implies (#[trigger] t[p]).account
                    != (#[trigger] t[q]).account by {
                    let p0 = if p < i {
                        p
                    } else {
                        p + 1
                    };
                    let q0 = if q < i {
                        q
                    } else {
                        q + 1
                    };
                    assert(t[p] == s[p0] && t[q] == s[q0]);
                }
                assert forall|p: int| 0 <= p < t.len() implies (#[trigger] t[p]).amount > 0 by {
                    let p0 = if p < i {
                        p
                    } else {
                        p + 1
                    };
                    assert(t[p] == s[p0]);
                }
            }
            lemma_find_index(t, a);
            if find_index(t, a) >= 0 {
                let j = find_index(t, a);
                let j0 = if j < i {
                    j
                } else {
                    j + 1
                };
                assert(t[j] == s[j0]);
                assert(false);
            }
        }
    } else {
        let e = BalanceEntryV { account: a, amount: v };
        if i == -1 {
            lemma_sum_push(s, e);
            lemma_find_index_first(t, a, s.len() as int);
        } else {
            lemma_sum_update(s, i, e);
            lemma_find_index_first(t, a, i);
        }
    }
    assert forall|b: AccountV| b != a implies balance_of(#[trigger] set_balance_spec(s, a, v), b)
        == balance_of(s, b) by {
        lemma_other_balance(s, a, v, b);
    }
}

/// Helper for `lemma_set_balance`: accounts other than the written one keep
/// their balance.
proof fn lemma_other_balance(s: Seq<BalanceEntryV>, a: AccountV, v: u128, b: AccountV)
    requires
        entries_wf(s),
        b != a,
    ensures
        balance_of(set_balance_spec(s, a, v), b) == balance_of(s, b),
{
    let i = find_index(s, a);
    let t = set_balance_spec(s, a, v);
    lemma_find_index(s, a);
    lemma_find_index(t, b);
    let j = find_index(s, b);
    lemma_find_index(s, b);
    if v == 0 && i >= 0 {
        // `t` is `s` with position `i` removed.
        if j == -1 {
            if find_index(t, b) >= 0 {
                let k = find_index(t, b);
                let k0 = if k < i {
                    k
                } else {
                    k + 1
                };
                assert(t[k] == s[k0]);
                assert(false);
            }
        } else {
            let j1 = if j < i {
                j
            } else {
                j - 1
            };
            assert(t[j1] == s[j]);
            assert forall|k: int| 0 <= k < j1 implies (#[trigger] t[k]).account != b by {
                let k0 = if k < i {
                    k
                } else {
                    k + 1
                };
                assert(t[k] == s[k0]);
            }
            lemma_find_index_first(t, b, j1);
        }
    } else if v == 0 {
        assert(t == s);
    } else {
        // `t` is `s` with the entry for `a` updated in place or appended.
        if j == -1 {
            if find_index(t, b) >= 0 {
                let k = find_index(t, b);
                if i == -1 {
                    if k < s.len() {
                        assert(t[k] == s[k]);
                    }
                } else {
                    if k != i {
                        assert(t[k] == s[k]);
                    }
                }
                assert(false);
            }
        } else {
            assert forall|k: int| 0 <= k < j implies (#[trigger] t[k]).account != b by {
                if i != k {
                    assert(t[k] == s[k]);
                }
            }
            assert(t[j] == s[j]);
            lemma_find_index_first(t, b, j);
        }
    }
}

/// The account balance store.
#[derive(Debug)]
pub struct BalanceStore {
    pub entries: Vec<BalanceEntry>,
}

impl View for BalanceStore {
    type V = Seq<BalanceEntryV>;

    open spec fn view(&self) -> Seq<BalanceEntryV> {
        self.entries@.map_values(|e: BalanceEntry| e@)
    }
}

impl BalanceStore {
    /// An empty store: every account has balance zero.
    pub fn new() -> (r: BalanceStore)
        ensures
            r@ =~= Seq::<BalanceEntryV>::empty(),
    {
        BalanceStore { entries: Vec::new() }
    }

    /// Position of the entry for `a`, if any.
    fn position(&self, a: &Account) -> (r: Option<usize>)
        ensures
            match r {
                Some(i) => i < self.entries.len() && find_index(self@, a@) == i,
                None => find_index(self@, a@) == -1,
            },
    {
        let mut i: usize = 0;
        while i < self.entries.len()
            invariant
                i <= self.entries.len(),
                forall|k: int| 0 <= k < i ==> (#[trigger] self@[k]).account != a@,
            decreases self.entries.len() - i,
        {
            if &self.entries[i].account == a {
                proof {
                    lemma_find_index_first(self@, a@, i as int);
                }
                return Some(i);
            }
            i += 1;
        }
        proof {
            lemma_find_index(self@, a@);
        }
        None
    }

    /// The balance of `a`; zero when `a` has no entry.
    pub fn get(&self, a: &Account) -> (r: u128)
        ensures
            r == balance_of(self@, a@),
    {
        match self.position(a) {
            Some(i) => self.entries[i].amount,
            None => 0,
        }
    }

    /// Assign balance `v` to `a`: remove the entry when `v` is zero,
    /// update it in place when present, append it when absent.
    pub fn set(&mut self, a: &Account, v: u128)
        ensures
            final(self)@ == set_balance_spec(old(self)@, a@, v),
    {
        let pos = self.position(a);
        match pos {
            Some(i) => {
                if v == 0 {
                    self.entries.remove(i);
                    proof {
                        assert(self@ =~= set_balance_spec(old(self)@, a@, v));
                    }
                } else {
                    let account = a.clone();
                    self.entries.set(i, BalanceEntry { account, amount: v });
                    proof {
                        assert(self@ =~= set_balance_spec(old(self)@, a@, v));
                    }
                }
            },
            None => {
                if v != 0 {
                    let account = a.clone();
                    self.entries.push(BalanceEntry { account, amount: v });
                    proof {
                        assert(self@ =~= set_balance_spec(old(self)@, a@, v));
                    }
                } else {
                    proof {
                        assert(self@ =~= set_balance_spec(old(self)@, a@, v));
                    }
                }
            },
        }
    }
}

} // verus!
