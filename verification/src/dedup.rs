//! The deduplication window: fingerprints of recently settled transfers,
//! each with the time it was first seen. A resubmitted transfer whose
//! fingerprint is still within the window is refused as a duplicate;
//! entries older than the window are evicted on the next check.

use vstd::prelude::*;
use crate::config::DEDUPLICATION_WINDOW;

verus! {

/// Mathematical image of one window entry.
#[verifier::ext_equal]
pub struct DedupEntryV {
    pub fingerprint: Seq<u8>,
    pub seen_at: u64,
}

/// One window entry: a fingerprint and the time it was first seen.
#[derive(Debug)]
pub struct DedupEntry {
    pub fingerprint: Vec<u8>,
    pub seen_at: u64,
}

impl View for DedupEntry {
    type V = DedupEntryV;

    open spec fn view(&self) -> DedupEntryV {
        DedupEntryV { fingerprint: self.fingerprint@, seen_at: self.seen_at }
    }
}

/// Saturating subtraction on 64-bit times.
pub open spec fn sat_sub64(a: u64, b: u64) -> u64 {
    if a >= b {
        (a - b) as u64
    } else {
        0
    }
}

/// The eviction cutoff at time `now`: entries first seen strictly before
/// it leave the window.
pub open spec fn cutoff(now: u64) -> u64 {
    sat_sub64(now, DEDUPLICATION_WINDOW)
}

/// The window after evicting every entry first seen before `cut`,
/// keeping the order of the rest.
pub open spec fn evict_spec(s: Seq<DedupEntryV>, cut: u64) -> Seq<DedupEntryV>
    decreases s.len(),
{
    if s.len() == 0 {
        s
    } else {
        let rest = evict_spec(s.drop_first(), cut);
        if s[0].seen_at < cut {
            rest
        } else {
            seq![s[0]] + rest
        }
    }
}

/// Index of the first entry with fingerprint `fp`, or `-1`.
pub open spec fn dd_find(s: Seq<DedupEntryV>, fp: Seq<u8>) -> int
    decreases s.len(),
{
    if s.len() == 0 {
        -1
    } else if s[0].fingerprint == fp {
        0
    } else {
        let r = dd_find(s.drop_first(), fp);
        if r == -1 {
            -1
        } else {
            r + 1
        }
    }
}

/// The window after recording `fp` at time `now`: the entry for `fp` is
/// stamped anew when present, appended when absent.
pub open spec fn record_spec(s: Seq<DedupEntryV>, fp: Seq<u8>, now: u64) -> Seq<DedupEntryV> {
    let i = dd_find(s, fp);
    if i == -1 {
        s.push(DedupEntryV { fingerprint: fp, seen_at: now })
    } else {
        s.update(i, DedupEntryV { fingerprint: fp, seen_at: now })
    }
}

/// Well-formedness of the window: fingerprints are distinct.
pub open spec fn dedup_wf(s: Seq<DedupEntryV>) -> bool {
    forall|i: int, j: int|
        0 <= i < j < s.len() ==> (#[trigger] s[i]).fingerprint != (#[trigger] s[j]).fingerprint
}

/// `dd_find` finds the position of `fp`, before which no entry holds it;
/// `-1` means no entry holds it at all.
pub proof fn lemma_dd_find(s: Seq<DedupEntryV>, fp: Seq<u8>)
    ensures
        -1 <= dd_find(s, fp) < s.len(),
        dd_find(s, fp) >= 0 ==> s[dd_find(s, fp)].fingerprint == fp,
        forall|k: int|
            0 <= k < s.len() && k < dd_find(s, fp) ==> (#[trigger] s[k]).fingerprint != fp,
        dd_find(s, fp) == -1 ==> forall|k: int|
            0 <= k < s.len() ==> (#[trigger] s[k]).fingerprint != fp,
    decreases s.len(),
{
    if s.len() > 0 && s[0].fingerprint != fp {
        lemma_dd_find(s.drop_first(), fp);
        assert forall|k: int| 0 <= k < s.len() && k < dd_find(s, fp) implies (
        #[trigger] s[k]).fingerprint != fp by {
            if k > 0 {
                assert(s.drop_first()[k - 1] == s[k]);
            }
        }
        if dd_find(s, fp) == -1 {
            assert forall|k: int| 0 <= k < s.len() implies (#[trigger] s[k]).fingerprint != fp by {
                if k > 0 {
                    assert(s.drop_first()[k - 1] == s[k]);
                }
            }
        }
    }
}

/// A sequence whose position `i` holds `fp`, with no entry for `fp`
/// before it, has `dd_find` exactly `i`.
proof fn lemma_dd_find_first(s: Seq<DedupEntryV>, fp: Seq<u8>, i: int)
    requires
        0 <= i < s.len(),
        s[i].fingerprint == fp,
        forall|k: int| 0 <= k < i ==> (#[trigger] s[k]).fingerprint != fp,
    ensures
        dd_find(s, fp) == i,
    decreases s.len(),
{
    if i > 0 {
        assert forall|k: int| 0 <= k < i - 1 implies (#[trigger] s.drop_first()[k]).fingerprint
            != fp by {
            assert(s.drop_first()[k] == s[k + 1]);
        }
        assert(s.drop_first()[i - 1] == s[i]);
        lemma_dd_find_first(s.drop_first(), fp, i - 1);
    }
}

/// Every surviving entry is an entry of the original window and at or past
/// the cutoff; every original entry at or past the cutoff survives; and a
/// well-formed window stays well formed.
pub proof fn lemma_evict(s: Seq<DedupEntryV>, cut: u64)
    ensures
        forall|i: int|
            0 <= i < evict_spec(s, cut).len() ==> (#[trigger] evict_spec(s, cut)[i]).seen_at >= cut
                && s.contains(evict_spec(s, cut)[i]),
        forall|e: DedupEntryV| s.contains(e) && e.seen_at >= cut ==> evict_spec(s, cut).contains(e),
        dedup_wf(s) ==> dedup_wf(evict_spec(s, cut)),
    decreases s.len(),
{
    if s.len() > 0 {
        let rest = evict_spec(s.drop_first(), cut);
        let t = evict_spec(s, cut);
        lemma_evict(s.drop_first(), cut);
        assert forall|i: int| 0 <= i < t.len() implies (#[trigger] t[i]).seen_at >= cut
            && s.contains(t[i]) by {
            if s[0].seen_at < cut || i > 0 {
                let j = if s[0].seen_at < cut {
                    i
                } else {
                    i - 1
                };
                assert(t[i] == rest[j]);
                let k = choose|k: int| 0 <= k < s.drop_first().len() && s.drop_first()[k] == rest[j];
                assert(s[k + 1] == rest[j]);
            } else {
                assert(t[0] == s[0]);
            }
        }
        assert forall|e: DedupEntryV| s.contains(e) && e.seen_at >= cut implies t.contains(e) by {
            let k = choose|k: int| 0 <= k < s.len() && s[k] == e;
            if k == 0 {
                assert(t[0] == e);
            } else {
                assert(s.drop_first().contains(e)) by {
                    assert(s.drop_first()[k - 1] == e);
                }
                assert(rest.contains(e));
                let j = choose|j: int| 0 <= j < rest.len() && rest[j] == e;
                if s[0].seen_at < cut {
                    assert(t[j] == e);
                } else {
                    assert(t[j + 1] == e);
                }
            }
        }
        if dedup_wf(s) {
            assert(dedup_wf(s.drop_first())) by {
                assert forall|i: int, j: int| 0 <= i < j < s.drop_first().len() implies (
                #[trigger] s.drop_first()[i]).fingerprint != (
                #[trigger] s.drop_first()[j]).fingerprint by {
                    assert(s.drop_first()[i] == s[i + 1] && s.drop_first()[j] == s[j + 1]);
                }
            }
            if s[0].seen_at >= cut {
                assert forall|i: int, j: int| 0 <= i < j < t.len() implies (
                #[trigger] t[i]).fingerprint != (#[trigger] t[j]).fingerprint by {
                    if i == 0 {
                        assert(t[j] == rest[j - 1]);
                        let k = choose|k: int|
                            0 <= k < s.drop_first().len() && s.drop_first()[k] == rest[j - 1];
                        assert(s[k + 1] == rest[j - 1]);
                    } else {
                        assert(t[i] == rest[i - 1] && t[j] == rest[j - 1]);
                    }
                }
            }
        }
    }
}

/// Evicting changes nothing when every entry is already at or past the
/// cutoff.
pub proof fn lemma_evict_noop(s: Seq<DedupEntryV>, cut: u64)
    requires
        forall|i: int| 0 <= i < s.len() ==> (#[trigger] s[i]).seen_at >= cut,
    ensures
        evict_spec(s, cut) == s,
    decreases s.len(),
{
    if s.len() > 0 {
        assert forall|i: int| 0 <= i < s.drop_first().len() implies (
        #[trigger] s.drop_first()[i]).seen_at >= cut by {
            assert(s.drop_first()[i] == s[i + 1]);
        }
        lemma_evict_noop(s.drop_first(), cut);
        assert(seq![s[0]] + s.drop_first() =~= s);
    }
}

/// Evicting clears the window when every entry is before the cutoff.
pub proof fn lemma_evict_all(s: Seq<DedupEntryV>, cut: u64)
    requires
        forall|i: int| 0 <= i < s.len() ==> (#[trigger] s[i]).seen_at < cut,
    ensures
        evict_spec(s, cut) == Seq::<DedupEntryV>::empty(),
    decreases s.len(),
{
    if s.len() > 0 {
        assert forall|i: int| 0 <= i < s.drop_first().len() implies (
        #[trigger] s.drop_first()[i]).seen_at < cut by {
            assert(s.drop_first()[i] == s[i + 1]);
        }
        lemma_evict_all(s.drop_first(), cut);
    } else {
        assert(s =~= Seq::<DedupEntryV>::empty());
    }
}

/// What `record_spec` does to a well-formed window: it stays well formed,
/// the recorded fingerprint is found stamped `now`, and every other entry
/// is untouched.
pub proof fn lemma_record(s: Seq<DedupEntryV>, fp: Seq<u8>, now: u64)
    requires
        dedup_wf(s),
    ensures
        dedup_wf(record_spec(s, fp, now)),
        dd_find(record_spec(s, fp, now), fp) >= 0,
        record_spec(s, fp, now)[dd_find(record_spec(s, fp, now), fp)] == (DedupEntryV {
            fingerprint: fp,
            seen_at: now,
        }),
        forall|i: int|
            0 <= i < record_spec(s, fp, now).len() ==> (#[trigger] record_spec(s, fp, now)[i])
                == (DedupEntryV { fingerprint: fp, seen_at: now }) || (record_spec(s, fp, now)[i]
                == s[i] && s[i].fingerprint != fp),
{
    let i = dd_find(s, fp);
    let t = record_spec(s, fp, now);
    let e = DedupEntryV { fingerprint: fp, seen_at: now };
    lemma_dd_find(s, fp);
    if i == -1 {
        lemma_dd_find_first(t, fp, s.len() as int);
    } else {
        lemma_dd_find_first(t, fp, i);
    }
}

/// The deduplication window store.
#[derive(Debug)]
pub struct DedupStore {
    pub entries: Vec<DedupEntry>,
}

impl View for DedupStore {
    type V = Seq<DedupEntryV>;

    open spec fn view(&self) -> Seq<DedupEntryV> {
        self.entries@.map_values(|e: DedupEntry| e@)
    }
}

/// Byte-string equality, related to the views.
fn bytes_eq(a: &Vec<u8>, b: &Vec<u8>) -> (r: bool)
    ensures
        r == (a@ == b@),
{
    let r = a == b;
    proof {
        if r {
            assert(a@ =~= b@);
        }
    }
    r
}

impl DedupStore {
    /// An empty window.
    pub fn new() -> (r: DedupStore)
        ensures
            r@ =~= Seq::<DedupEntryV>::empty(),
    {
        DedupStore { entries: Vec::new() }
    }

    /// Evict every entry first seen before `now` minus the window.
    pub fn evict_expired(&mut self, now: u64)
        ensures
            final(self)@ == evict_spec(old(self)@, cutoff(now)),
    {
        let cut = if now >= DEDUPLICATION_WINDOW {
            now - DEDUPLICATION_WINDOW
        } else {
            0
        };
        let mut kept: Vec<DedupEntry> = Vec::new();
        let mut i: usize = 0;
        proof {
            assert(kept@.map_values(|e: DedupEntry| e@) =~= Seq::<DedupEntryV>::empty());
            assert(self@.skip(0) =~= self@);
            assert(kept@.map_values(|e: DedupEntry| e@) + evict_spec(self@, cut) =~= evict_spec(
                self@,
                cut,
            ));
        }
        while i < self.entries.len()
            invariant
                i <= self.entries.len(),
                cut == cutoff(now),
                evict_spec(self@, cut) == kept@.map_values(|e: DedupEntry| e@) + evict_spec(
                    self@.skip(i as int),
                    cut,
                ),
            decreases self.entries.len() - i,
        {
            proof {
                assert(self@.skip(i as int)[0] == self@[i as int]);
                assert(self@.skip(i as int).drop_first() =~= self@.skip(i + 1));
            }
            let ghost prev = kept@.map_values(|e: DedupEntry| e@);
            if self.entries[i].seen_at >= cut {
                let fingerprint = self.entries[i].fingerprint.clone();
                proof {
                    assert(fingerprint@ =~= self.entries[i as int].fingerprint@);
                }
                kept.push(DedupEntry { fingerprint, seen_at: self.entries[i].seen_at });
                proof {
                    assert(kept@.map_values(|e: DedupEntry| e@) =~= prev + seq![self@[i as int]]);
                    assert(prev + seq![self@[i as int]] + evict_spec(self@.skip(i + 1), cut) =~= prev
                        + (seq![self@[i as int]] + evict_spec(self@.skip(i + 1), cut)));
                }
            }
            i += 1;
        }
        proof {
            assert(self@.skip(self@.len() as int) =~= Seq::<DedupEntryV>::empty());
            assert(evict_spec(self@, cut) =~= kept@.map_values(|e: DedupEntry| e@));
        }
        self.entries = kept;
    }

    /// The time the fingerprint `fp` was first seen, if it is in the
    /// window.
    pub fn lookup(&self, fp: &Vec<u8>) -> (r: Option<u64>)
        ensures
            match r {
                Some(t) => dd_find(self@, fp@) >= 0 && self@[dd_find(self@, fp@)].seen_at == t,
                None => dd_find(self@, fp@) == -1,
            },
    {
        let mut i: usize = 0;
        while i < self.entries.len()
            invariant
                i <= self.entries.len(),
                forall|k: int| 0 <= k < i ==> (#[trigger] self@[k]).fingerprint != fp@,
            decreases self.entries.len() - i,
        {
            if bytes_eq(&self.entries[i].fingerprint, fp) {
                proof {
                    lemma_dd_find_first(self@, fp@, i as int);
                }
                return Some(self.entries[i].seen_at);
            }
            i += 1;
        }
        proof {
            lemma_dd_find(self@, fp@);
        }
        None
    }

    /// Record fingerprint `fp` as seen at `now`: stamp its entry anew when
    /// present, append it when absent.
    pub fn record(&mut self, fp: Vec<u8>, now: u64)
        ensures
            final(self)@ == record_spec(old(self)@, fp@, now),
    {
        let mut i: usize = 0;
        while i < self.entries.len()
            invariant
                i <= self.entries.len(),
                forall|k: int| 0 <= k < i ==> (#[trigger] self@[k]).fingerprint != fp@,
                self@ == old(self)@,
            decreases self.entries.len() - i,
        {
            if bytes_eq(&self.entries[i].fingerprint, &fp) {
                proof {
                    lemma_dd_find_first(self@, fp@, i as int);
                }
                self.entries.set(i, DedupEntry { fingerprint: fp, seen_at: now });
                proof {
                    assert(self@ =~= record_spec(old(self)@, fp@, now));
                }
                return ;
            }
            i += 1;
        }
        proof {
            lemma_dd_find(self@, fp@);
        }
        self.entries.push(DedupEntry { fingerprint: fp, seen_at: now });
        proof {
            assert(self@ =~= record_spec(old(self)@, fp@, now));
        }
    }
}

} // verus!
