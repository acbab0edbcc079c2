//! Per-account storage of the two token identifiers a crafting request
//! consumed, kept until the matching claim clears them.

use vstd::prelude::*;

verus! {

/// One `key -> (first, second)` record.
pub struct PairEntry {
    pub key: u64,
    pub first: Vec<u8>,
    pub second: Vec<u8>,
}

/// Mathematical model of a [`PairEntry`].
pub struct PairEntryModel {
    pub key: u64,
    pub first: Seq<u8>,
    pub second: Seq<u8>,
}

impl View for PairEntry {
    type V = PairEntryModel;

    open spec fn view(&self) -> PairEntryModel {
        PairEntryModel { key: self.key, first: self.first@, second: self.second@ }
    }
}

/// The pair recorded for `k`, if any.
pub open spec fn pair_get(s: Seq<PairEntryModel>, k: u64) -> Option<(Seq<u8>, Seq<u8>)>
    decreases s.len(),
{
    if s.len() == 0 {
        Option::None
    } else if s[0].key == k {
        Option::Some((s[0].first, s[0].second))
    } else {
        pair_get(s.drop_first(), k)
    }
}

/// No two records share a key.
pub open spec fn pair_keys_unique(s: Seq<PairEntryModel>) -> bool {
    forall|i: int, j: int| 0 <= i < j < s.len() ==> s[i].key != s[j].key
}

proof fn lemma_pair_get_absent(s: Seq<PairEntryModel>, k: u64)
    requires
        forall|j: int| 0 <= j < s.len() ==> s[j].key != k,
    ensures
        pair_get(s, k) is None,
    decreases s.len(),
{
    if s.len() > 0 {
        let rest = s.drop_first();
        assert(forall|j: int| 0 <= j < rest.len() ==> rest[j] == s[j + 1]);
        lemma_pair_get_absent(rest, k);
    }
}

proof fn lemma_pair_absent_all(s: Seq<PairEntryModel>, k: u64)
    requires
        pair_get(s, k) is None,
    ensures
        forall|j: int| 0 <= j < s.len() ==> s[j].key != k,
    decreases s.len(),
{
    if s.len() > 0 {
        let rest = s.drop_first();
        lemma_pair_absent_all(rest, k);
        assert(forall|j: int| 1 <= j < s.len() ==> s[j] == rest[j - 1]);
    }
}

proof fn lemma_pair_get_push(s: Seq<PairEntryModel>, e: PairEntryModel)
    requires
        forall|j: int| 0 <= j < s.len() ==> s[j].key != e.key,
    ensures
        pair_get(s.push(e), e.key) == Option::Some((e.first, e.second)),
        forall|k2: u64| k2 != e.key ==> pair_get(s.push(e), k2) == pair_get(s, k2),
    decreases s.len(),
{
    if s.len() == 0 {
        assert(s.push(e)[0] == e);
        assert forall|k2: u64| k2 != e.key implies pair_get(s.push(e), k2) == pair_get(
            s,
            k2,
        ) by {
            assert(s.push(e).drop_first() =~= s);
        }
    } else {
        let rest = s.drop_first();
        assert(forall|j: int| 0 <= j < rest.len() ==> rest[j] == s[j + 1]);
        lemma_pair_get_push(rest, e);
        assert(s.push(e).drop_first() =~= rest.push(e));
        assert(s.push(e)[0] == s[0]);
        assert forall|k2: u64| k2 != e.key implies pair_get(s.push(e), k2) == pair_get(
            s,
            k2,
        ) by {
            if s[0].key != k2 {
                assert(pair_get(s.push(e), k2) == pair_get(rest.push(e), k2));
                assert(pair_get(s, k2) == pair_get(rest, k2));
            }
        }
        assert(pair_get(s.push(e), e.key) == pair_get(rest.push(e), e.key));
    }
}

proof fn lemma_pair_get_remove(s: Seq<PairEntryModel>, i: int)
    requires
        pair_keys_unique(s),
        0 <= i < s.len(),
    ensures
        pair_get(s.remove(i), s[i].key) is None,
        forall|k2: u64| k2 != s[i].key ==> pair_get(s.remove(i), k2) == pair_get(s, k2),
        pair_keys_unique(s.remove(i)),
    decreases s.len(),
{
    assert(forall|j: int|
        0 <= j < s.len() - 1 ==> s.remove(i)[j] == (if j < i {
            s[j]
        } else {
            s[j + 1]
        }));
    if i == 0 {
        assert(s.remove(0) =~= s.drop_first());
        lemma_pair_get_absent(s.drop_first(), s[0].key);
    } else {
        let rest = s.drop_first();
        assert(forall|j: int| 0 <= j < rest.len() ==> rest[j] == s[j + 1]);
        lemma_pair_get_remove(rest, i - 1);
        assert(s.remove(i).drop_first() =~= rest.remove(i - 1));
        assert(s.remove(i)[0] == s[0]);
        assert(rest[i - 1] == s[i]);
        assert forall|k2: u64| k2 != s[i].key implies pair_get(s.remove(i), k2) == pair_get(
            s,
            k2,
        ) by {
            if s[0].key != k2 {
                assert(pair_get(s.remove(i), k2) == pair_get(rest.remove(i - 1), k2));
                assert(pair_get(s, k2) == pair_get(rest, k2));
            }
        }
        assert(pair_get(s.remove(i), s[i].key) == pair_get(rest.remove(i - 1), s[i].key));
    }
}

/// Association table from account to a pair of token identifiers.
pub struct TokenPairTable {
    pub entries: Vec<PairEntry>,
}

impl View for TokenPairTable {
    type V = Seq<PairEntryModel>;

    open spec fn view(&self) -> Seq<PairEntryModel> {
        self.entries@.map_values(|e: PairEntry| e@)
    }
}

impl TokenPairTable {
    /// An empty table.
    pub fn new() -> (r: TokenPairTable)
        ensures
            r@ =~= Seq::<PairEntryModel>::empty(),
            pair_keys_unique(r@),
    {
        let r = TokenPairTable { entries: Vec::new() };
        proof {
            assert(r@ =~= Seq::<PairEntryModel>::empty());
        }
        r
    }

    /// The position of the record for `k`, if any.
    fn find(&self, k: u64) -> (r: Option<usize>)
        ensures
            match r {
                Option::Some(i) => i < self@.len() && self@[i as int].key == k,
                Option::None => forall|j: int| 0 <= j < self@.len() ==> self@[j].key != k,
            },
    {
        let mut i: usize = 0;
        while i < self.entries.len()
            invariant
                i <= self@.len(),
                self@.len() == self.entries@.len(),
                forall|j: int| 0 <= j < i ==> self@[j].key != k,
            decreases self@.len() - i,
        {
            proof {
                assert(self@[i as int] == self.entries@[i as int]@);
            }
            if self.entries[i].key == k {
                return Some(i);
            }
            i += 1;
        }
        None
    }

    /// Remove the record for `k`, if any.
    pub fn remove(&mut self, k: u64)
        requires
            pair_keys_unique(old(self)@),
        ensures
            pair_keys_unique(final(self)@),
            pair_get(final(self)@, k) is None,
            forall|k2: u64| k2 != k ==> pair_get(final(self)@, k2) == pair_get(old(self)@, k2),
    {
        match self.find(k) {
            Some(i) => {
                let ghost pre = self@;
                proof {
                    lemma_pair_get_remove(pre, i as int);
                }
                self.entries.remove(i);
                proof {
                    assert(self@ =~= pre.remove(i as int));
                }
            },
            None => {
                proof {
                    lemma_pair_get_absent(self@, k);
                }
            },
        }
    }

    /// Record `(first, second)` for `k`, replacing any previous record.
    pub fn set(&mut self, k: u64, first: Vec<u8>, second: Vec<u8>)
        requires
            pair_keys_unique(old(self)@),
        ensures
            pair_keys_unique(final(self)@),
            pair_get(final(self)@, k) == Option::Some((first@, second@)),
            forall|k2: u64| k2 != k ==> pair_get(final(self)@, k2) == pair_get(old(self)@, k2),
    {
        self.remove(k);
        let ghost pre = self@;
        proof {
            lemma_pair_absent_all(pre, k);
            lemma_pair_get_push(pre, PairEntryModel { key: k, first: first@, second: second@ });
        }
        self.entries.push(PairEntry { key: k, first, second });
        proof {
            assert(self@ =~= pre.push(
                PairEntryModel { key: k, first: first@, second: second@ },
            ));
        }
    }
}

} // verus!
