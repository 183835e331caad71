//! The reward ledger: per-account cumulative reward statistics, created
//! lazily on first reward and accumulated monotonically. These are
//! monitoring counters, not balances: they saturate instead of failing.

use vstd::prelude::*;
use crate::account::{Account, AccountV};
use crate::types::{RewardStats, default_reward_stats};

verus! {

/// Mathematical image of one stored statistics record.
#[verifier::ext_equal]
pub struct RewardEntryV {
    pub account: AccountV,
    pub stats: RewardStats,
}

/// One stored statistics record.
#[derive(Debug)]
pub struct RewardEntry {
    pub account: Account,
    pub stats: RewardStats,
}

impl View for RewardEntry {
    type V = RewardEntryV;

    open spec fn view(&self) -> RewardEntryV {
        RewardEntryV { account: self.account@, stats: self.stats }
    }
}

/// Index of the first record for `a`, or `-1`.
pub open spec fn rs_find(s: Seq<RewardEntryV>, a: AccountV) -> int
    decreases s.len(),
{
    if s.len() == 0 {
        -1
    } else if s[0].account == a {
        0
    } else {
        let r = rs_find(s.drop_first(), a);
        if r == -1 {
            -1
        } else {
            r + 1
        }
    }
}

/// The statistics of `a`; all-zero when `a` was never rewarded.
pub open spec fn stats_of(s: Seq<RewardEntryV>, a: AccountV) -> RewardStats {
    let i = rs_find(s, a);
    if i == -1 {
        default_reward_stats()
    } else {
        s[i].stats
    }
}

/// The store after assigning statistics `st` to `a`: updated in place when
/// present, appended when absent.
pub open spec fn upsert_spec(s: Seq<RewardEntryV>, a: AccountV, st: RewardStats) -> Seq<
    RewardEntryV,
> {
    let i = rs_find(s, a);
    if i == -1 {
        s.push(RewardEntryV { account: a, stats: st })
    } else {
        s.update(i, RewardEntryV { account: a, stats: st })
    }
}

/// Well-formedness of the store: accounts are distinct.
pub open spec fn rewards_wf(s: Seq<RewardEntryV>) -> bool {
    forall|i: int, j: int|
        0 <= i < j < s.len() ==> (#[trigger] s[i]).account != (#[trigger] s[j]).account
}

/// `rs_find` finds the position of `a`, before which no record holds `a`;
/// `-1` means no record holds `a` at all.
proof fn lemma_rs_find(s: Seq<RewardEntryV>, a: AccountV)
    ensures
        -1 <= rs_find(s, a) < s.len(),
        rs_find(s, a) >= 0 ==> s[rs_find(s, a)].account == a,
        forall|k: int| 0 <= k < s.len() && k < rs_find(s, a) ==> (#[trigger] s[k]).account != a,
        rs_find(s, a) == -1 ==> forall|k: int|
            0 <= k < s.len() ==> (#[trigger] s[k]).account != a,
    decreases s.len(),
{
    if s.len() > 0 && s[0].account != a {
        lemma_rs_find(s.drop_first(), a);
        assert forall|k: int| 0 <= k < s.len() && k < rs_find(s, a) implies (
        #[trigger] s[k]).account != a by {
            if k > 0 {
                assert(s.drop_first()[k - 1] == s[k]);
            }
        }
        if rs_find(s, a) == -1 {
            assert forall|k: int| 0 <= k < s.len() implies (#[trigger] s[k]).account != a by {
                if k > 0 {
                    assert(s.drop_first()[k - 1] == s[k]);
                }
            }
        }
    }
}

/// A sequence whose position `i` holds `a`, with no record for `a` before
/// it, has `rs_find` exactly `i`.
proof fn lemma_rs_find_first(s: Seq<RewardEntryV>, a: AccountV, i: int)
    requires
        0 <= i < s.len(),
        s[i].account == a,
        forall|k: int| 0 <= k < i ==> (#[trigger] s[k]).account != a,
    ensures
        rs_find(s, a) == i,
    decreases s.len(),
{
    if i > 0 {
        assert forall|k: int| 0 <= k < i - 1 implies (#[trigger] s.drop_first()[k]).account
            != a by {
            assert(s.drop_first()[k] == s[k + 1]);
        }
        assert(s.drop_first()[i - 1] == s[i]);
        lemma_rs_find_first(s.drop_first(), a, i - 1);
    }
}

/// What `upsert_spec` does to a well-formed store: it stays well formed,
/// the written account reads back, every other account keeps its record.
pub proof fn lemma_upsert(s: Seq<RewardEntryV>, a: AccountV, st: RewardStats)
    requires
        rewards_wf(s),
    ensures
        rewards_wf(upsert_spec(s, a, st)),
        stats_of(upsert_spec(s, a, st), a) == st,
        forall|b: AccountV|
            b != a ==> stats_of(#[trigger] upsert_spec(s, a, st), b) == stats_of(s, b),
{
    let i = rs_find(s, a);
    let t = upsert_spec(s, a, st);
    lemma_rs_find(s, a);
    if i == -1 {
        lemma_rs_find_first(t, a, s.len() as int);
    } else {
        lemma_rs_find_first(t, a, i);
    }
    assert forall|b: AccountV| b != a implies stats_of(#[trigger] upsert_spec(s, a, st), b)
        == stats_of(s, b) by {
        let j = rs_find(s, b);
        lemma_rs_find(s, b);
        lemma_rs_find(t, b);
        if j == -1 {
            if rs_find(t, b) >= 0 {
                let k = rs_find(t, b);
                if i == -1 && k < s.len() {
                    assert(t[k] == s[k]);
                }
                if i >= 0 && k != i {
                    assert(t[k] == s[k]);
                }
                assert(false);
            }
        } else {
            assert forall|k: int| 0 <= k < j implies (#[trigger] t[k]).account != b by {
                if i != k {
                    assert(t[k] == s[k]);
                }
            }
            assert(t[j] == s[j]);
            lemma_rs_find_first(t, b, j);
        }
    }
}

/// The reward statistics store.
#[derive(Debug)]
pub struct RewardStore {
    pub entries: Vec<RewardEntry>,
}

impl View for RewardStore {
    type V = Seq<RewardEntryV>;

    open spec fn view(&self) -> Seq<RewardEntryV> {
        self.entries@.map_values(|e: RewardEntry| e@)
    }
}

impl RewardStore {
    /// An empty store: no account has been rewarded.
    pub fn new() -> (r: RewardStore)
        ensures
            r@ =~= Seq::<RewardEntryV>::empty(),
    {
        RewardStore { entries: Vec::new() }
    }

    /// Position of the record for `a`, if any.
    fn position(&self, a: &Account) -> (r: Option<usize>)
        ensures
            match r {
                Some(i) => i < self.entries.len() && rs_find(self@, a@) == i,
                None => rs_find(self@, a@) == -1,
            },
    {
        let mut i: usize = 0;
        while i < self.entries.len()
            invariant
                i <= self.entries.len(),
                forall|k: int| 0 <= k < i ==> (#[trigger] self@[k]).account != a@,
            decreases self.entries.len() - i,
        {
            if &self.entries[i].account == a {
                proof {
                    lemma_rs_find_first(self@, a@, i as int);
                }
                return Some(i);
            }
            i += 1;
        }
        proof {
            lemma_rs_find(self@, a@);
        }
        None
    }

    /// The statistics of `a`; all-zero when `a` was never rewarded.
    pub fn get(&self, a: &Account) -> (r: RewardStats)
        ensures
            r == stats_of(self@, a@),
    {
        match self.position(a) {
            Some(i) => self.entries[i].stats,
            None => RewardStats::default(),
        }
    }

    /// Assign statistics `st` to `a`: update the record in place when
    /// present, append it when absent.
    pub fn set(&mut self, a: &Account, st: RewardStats)
        ensures
            final(self)@ == upsert_spec(old(self)@, a@, st),
    {
        let pos = self.position(a);
        match pos {
            Some(i) => {
                let account = a.clone();
                self.entries.set(i, RewardEntry { account, stats: st });
                proof {
                    assert(self@ =~= upsert_spec(old(self)@, a@, st));
                }
            },
            None => {
                let account = a.clone();
                self.entries.push(RewardEntry { account, stats: st });
                proof {
                    assert(self@ =~= upsert_spec(old(self)@, a@, st));
                }
            },
        }
    }
}

} // verus!
