//! Per-account `u64` records: request timestamps, cooldown anchors,
//! last-claim markers and beneficiary accounts.
//!
//! The table is an association list with unique keys; an absent key means
//! "no record".  All contracts over it are stated through [`marker_get`].

use vstd::prelude::*;

verus! {

/// One `key -> val` record.
#[derive(Clone, Copy, Debug, PartialEq, Eq, Structural)]
pub struct MarkerEntry {
    pub key: u64,
    pub val: u64,
}

/// The value recorded for `k`, if any.
pub open spec fn marker_get(s: Seq<MarkerEntry>, k: u64) -> Option<u64>
    decreases s.len(),
{
    if s.len() == 0 {
        Option::None
    } else if s[0].key == k {
        Option::Some(s[0].val)
    } else {
        marker_get(s.drop_first(), k)
    }
}

/// The value recorded for `k`, or zero if absent.
pub open spec fn marker_or_zero(s: Seq<MarkerEntry>, k: u64) -> u64 {
    match marker_get(s, k) {
        Option::Some(v) => v,
        Option::None => 0,
    }
}

/// No two records share a key.
pub open spec fn marker_keys_unique(s: Seq<MarkerEntry>) -> bool {
    forall|i: int, j: int| 0 <= i < j < s.len() ==> s[i].key != s[j].key
}

proof fn lemma_marker_get_found(s: Seq<MarkerEntry>, k: u64, i: int)
    requires
        0 <= i < s.len(),
        s[i].key == k,
        forall|j: int| 0 <= j < i ==> s[j].key != k,
    ensures
        marker_get(s, k) == Option::Some(s[i].val),
    decreases i,
{
    if i > 0 {
        let rest = s.drop_first();
        assert(forall|j: int| 0 <= j < i - 1 ==> rest[j] == s[j + 1]);
        lemma_marker_get_found(rest, k, i - 1);
    }
}

proof fn lemma_marker_get_absent(s: Seq<MarkerEntry>, k: u64)
    requires
        forall|j: int| 0 <= j < s.len() ==> s[j].key != k,
    ensures
        marker_get(s, k) is None,
    decreases s.len(),
{
    if s.len() > 0 {
        let rest = s.drop_first();
        assert(forall|j: int| 0 <= j < rest.len() ==> rest[j] == s[j + 1]);
        lemma_marker_get_absent(rest, k);
    }
}

proof fn lemma_marker_get_push(s: Seq<MarkerEntry>, e: MarkerEntry)
    requires
        forall|j: int| 0 <= j < s.len() ==> s[j].key != e.key,
    ensures
        marker_get(s.push(e), e.key) == Option::Some(e.val),
        forall|k2: u64| k2 != e.key ==> marker_get(s.push(e), k2) == marker_get(s, k2),
    decreases s.len(),
{
    if s.len() == 0 {
        assert(s.push(e)[0] == e);
        assert forall|k2: u64| k2 != e.key implies marker_get(s.push(e), k2) == marker_get(
            s,
            k2,
        ) by {
            assert(s.push(e).drop_first() =~= s);
        }
    } else {
        let rest = s.drop_first();
        assert(forall|j: int| 0 <= j < rest.len() ==> rest[j] == s[j + 1]);
        lemma_marker_get_push(rest, e);
        assert(s.push(e).drop_first() =~= rest.push(e));
        assert(s.push(e)[0] == s[0]);
        assert forall|k2: u64| k2 != e.key implies marker_get(s.push(e), k2) == marker_get(
            s,
            k2,
        ) by {
            if s[0].key != k2 {
                assert(marker_get(s.push(e), k2) == marker_get(rest.push(e), k2));
                assert(marker_get(s, k2) == marker_get(rest, k2));
            }
        }
    }
}

proof fn lemma_marker_absent_all(s: Seq<MarkerEntry>, k: u64)
    requires
        marker_get(s, k) is None,
    ensures
        forall|j: int| 0 <= j < s.len() ==> s[j].key != k,
    decreases s.len(),
{
    if s.len() > 0 {
        let rest = s.drop_first();
        lemma_marker_absent_all(rest, k);
        assert(forall|j: int| 1 <= j < s.len() ==> s[j] == rest[j - 1]);
    }
}

proof fn lemma_marker_get_remove(s: Seq<MarkerEntry>, i: int)
    requires
        marker_keys_unique(s),
        0 <= i < s.len(),
    ensures
        marker_get(s.remove(i), s[i].key) is None,
        forall|k2: u64| k2 != s[i].key ==> marker_get(s.remove(i), k2) == marker_get(s, k2),
        marker_keys_unique(s.remove(i)),
    decreases s.len(),
{
    assert(forall|j: int|
        0 <= j < s.len() - 1 ==> s.remove(i)[j] == (if j < i {
            s[j]
        } else {
            s[j + 1]
        }));
    if i == 0 {
        assert(s.remove(0) =~= s.drop_first());
        lemma_marker_get_absent(s.drop_first(), s[0].key);
    } else {
        let rest = s.drop_first();
        assert(forall|j: int| 0 <= j < rest.len() ==> rest[j] == s[j + 1]);
        lemma_marker_get_remove(rest, i - 1);
        assert(s.remove(i).drop_first() =~= rest.remove(i - 1));
        assert(s.remove(i)[0] == s[0]);
        assert(rest[i - 1] == s[i]);
        assert forall|k2: u64| k2 != s[i].key implies marker_get(s.remove(i), k2) == marker_get(
            s,
            k2,
        ) by {
            if s[0].key != k2 {
                assert(marker_get(s.remove(i), k2) == marker_get(rest.remove(i - 1), k2));
                assert(marker_get(s, k2) == marker_get(rest, k2));
            }
        }
        assert(marker_get(s.remove(i), s[i].key) == marker_get(rest.remove(i - 1), s[i].key));
    }
}

/// Association table from account to a single `u64` record.
pub struct MarkerTable {
    pub entries: Vec<MarkerEntry>,
}

impl View for MarkerTable {
    type V = Seq<MarkerEntry>;

    open spec fn view(&self) -> Seq<MarkerEntry> {
        self.entries@
    }
}

impl MarkerTable {
    /// An empty table.
    pub fn new() -> (r: MarkerTable)
        ensures
            r@ =~= Seq::<MarkerEntry>::empty(),
            marker_keys_unique(r@),
    {
        MarkerTable { entries: Vec::new() }
    }

    /// The position of the record for `k`, if any.
    fn find(&self, k: u64) -> (r: Option<usize>)
        ensures
            match r {
                Option::Some(i) => i < self@.len() && self@[i as int].key == k && forall|j: int|
                    0 <= j < i ==> self@[j].key != k,
                Option::None => forall|j: int| 0 <= j < self@.len() ==> self@[j].key != k,
            },
    {
        let mut i: usize = 0;
        while i < self.entries.len()
            invariant
                i <= self@.len(),
                forall|j: int| 0 <= j < i ==> self@[j].key != k,
            decreases self@.len() - i,
        {
            if self.entries[i].key == k {
                return Some(i);
            }
            i += 1;
        }
        None
    }

    /// The value recorded for `k`, if any.
    pub fn get(&self, k: u64) -> (r: Option<u64>)
        ensures
            r == marker_get(self@, k),
    {
        match self.find(k) {
            Some(i) => {
                proof {
                    lemma_marker_get_found(self@, k, i as int);
                }
                Some(self.entries[i].val)
            },
            None => {
                proof {
                    lemma_marker_get_absent(self@, k);
                }
                None
            },
        }
    }

    /// The value recorded for `k`, or zero if absent.
    pub fn get_or_zero(&self, k: u64) -> (r: u64)
        ensures
            r == marker_or_zero(self@, k),
    {
        match self.get(k) {
            Some(v) => v,
            None => 0,
        }
    }

    /// Remove the record for `k`, if any.
    pub fn remove(&mut self, k: u64)
        requires
            marker_keys_unique(old(self)@),
        ensures
            marker_keys_unique(final(self)@),
            marker_get(final(self)@, k) is None,
            forall|k2: u64| k2 != k ==> marker_get(final(self)@, k2) == marker_get(old(self)@, k2),
    {
        match self.find(k) {
            Some(i) => {
                proof {
                    lemma_marker_get_remove(self@, i as int);
                }
                self.entries.remove(i);
            },
            None => {
                proof {
                    lemma_marker_get_absent(self@, k);
                }
            },
        }
    }

    /// Record `v` for `k`, replacing any previous record.
    pub fn set(&mut self, k: u64, v: u64)
        requires
            marker_keys_unique(old(self)@),
        ensures
            marker_keys_unique(final(self)@),
            marker_get(final(self)@, k) == Option::Some(v),
            forall|k2: u64| k2 != k ==> marker_get(final(self)@, k2) == marker_get(old(self)@, k2),
    {
        self.remove(k);
        let ghost pre = self@;
        proof {
            lemma_marker_absent_all(pre, k);
        }
        self.entries.push(MarkerEntry { key: k, val: v });
        proof {
            lemma_marker_get_push(pre, MarkerEntry { key: k, val: v });
        }
    }

    /// Record `v` for `k` only if `k` has no record yet.
    pub fn set_if_absent(&mut self, k: u64, v: u64)
        requires
            marker_keys_unique(old(self)@),
        ensures
            marker_keys_unique(final(self)@),
            marker_get(old(self)@, k) is None ==> marker_get(final(self)@, k) == Option::Some(v),
            marker_get(old(self)@, k) is Some ==> final(self)@ == old(self)@,
            forall|k2: u64| k2 != k ==> marker_get(final(self)@, k2) == marker_get(old(self)@, k2),
    {
        match self.get(k) {
            Some(_) => {},
            None => {
                self.set(k, v);
            },
        }
    }
}

} // verus!
