//! The staking ledger: balances keyed by `(owner, token identifier)`.
//!
//! Stakes only ever increase (there is no unstake operation), and the
//! reward/yield engines read the ledger through [`payout_total`]: the sum of
//! `floor(amount / divisor)` over one owner's stakes.

use vstd::prelude::*;

use vstd::arithmetic::div_mod::{lemma_div_nonincreasing, lemma_div_pos_is_pos};

use crate::tokens::{bytes_eq, clone_bytes};

verus! {

/// One `(owner, token) -> amount` stake.
#[derive(Debug, PartialEq, Eq)]
pub struct StakeEntry {
    pub owner: u64,
    pub token: Vec<u8>,
    pub amount: u64,
}

/// Mathematical model of a [`StakeEntry`].
pub struct StakeEntryModel {
    pub owner: u64,
    pub token: Seq<u8>,
    pub amount: u64,
}

impl View for StakeEntry {
    type V = StakeEntryModel;

    open spec fn view(&self) -> StakeEntryModel {
        StakeEntryModel { owner: self.owner, token: self.token@, amount: self.amount }
    }
}

/// The amount staked under `(owner, token)` (zero if no entry).
pub open spec fn stake_of(s: Seq<StakeEntryModel>, owner: u64, token: Seq<u8>) -> u64
    decreases s.len(),
{
    if s.len() == 0 {
        0
    } else if s[0].owner == owner && s[0].token == token {
        s[0].amount
    } else {
        stake_of(s.drop_first(), owner, token)
    }
}

/// The sum of all staked amounts.
pub open spec fn stakes_total(s: Seq<StakeEntryModel>) -> int
    decreases s.len(),
{
    if s.len() == 0 {
        0
    } else {
        stakes_total(s.drop_last()) + s.last().amount
    }
}

/// The sum of `floor(amount / divisor)` over the stakes of `owner`.
pub open spec fn payout_total(s: Seq<StakeEntryModel>, owner: u64, divisor: u64) -> int
    decreases s.len(),
{
    if s.len() == 0 {
        0
    } else {
        payout_total(s.drop_last(), owner, divisor) + if s.last().owner == owner {
            s.last().amount as int / divisor as int
        } else {
            0
        }
    }
}

/// No two entries share an `(owner, token)` key.
pub open spec fn stake_keys_unique(s: Seq<StakeEntryModel>) -> bool {
    forall|i: int, j: int|
        0 <= i < j < s.len() ==> !(s[i].owner == s[j].owner && s[i].token == s[j].token)
}

/// Ledger well-formedness: unique keys and a total that fits the machine
/// word, so every derived sum fits too.
pub open spec fn stakes_wf(s: Seq<StakeEntryModel>) -> bool {
    stake_keys_unique(s) && stakes_total(s) <= u64::MAX
}

pub proof fn lemma_stakes_total_nonneg(s: Seq<StakeEntryModel>)
    ensures
        stakes_total(s) >= 0,
    decreases s.len(),
{
    if s.len() > 0 {
        lemma_stakes_total_nonneg(s.drop_last());
    }
}

pub proof fn lemma_payout_total_nonneg(s: Seq<StakeEntryModel>, owner: u64, divisor: u64)
    requires
        divisor >= 1,
    ensures
        payout_total(s, owner, divisor) >= 0,
    decreases s.len(),
{
    if s.len() > 0 {
        lemma_payout_total_nonneg(s.drop_last(), owner, divisor);
        lemma_div_pos_is_pos(s.last().amount as int, divisor as int);
    }
}

/// The payout for any owner is bounded by the ledger total.
pub proof fn lemma_payout_le_total(s: Seq<StakeEntryModel>, owner: u64, divisor: u64)
    requires
        divisor >= 1,
    ensures
        payout_total(s, owner, divisor) <= stakes_total(s),
    decreases s.len(),
{
    if s.len() > 0 {
        lemma_payout_le_total(s.drop_last(), owner, divisor);
        lemma_div_nonincreasing(s.last().amount as int, divisor as int);
        lemma_div_pos_is_pos(s.last().amount as int, divisor as int);
    }
}

/// Any single stake is at most the ledger total.
pub proof fn lemma_stake_le_total(s: Seq<StakeEntryModel>, owner: u64, token: Seq<u8>)
    ensures
        stake_of(s, owner, token) <= stakes_total(s),
    decreases s.len(),
{
    if s.len() > 0 {
        let rest = s.drop_first();
        lemma_stake_le_total(rest, owner, token);
        lemma_stakes_total_nonneg(rest);
        lemma_stakes_total_first(s);
        lemma_stakes_total_nonneg(s.drop_last());
    }
}

/// The total can also be split off at the front.
proof fn lemma_stakes_total_first(s: Seq<StakeEntryModel>)
    requires
        s.len() > 0,
    ensures
        stakes_total(s) == s[0].amount + stakes_total(s.drop_first()),
    decreases s.len(),
{
    if s.len() == 1 {
        assert(s.drop_first() =~= Seq::<StakeEntryModel>::empty());
        assert(s.drop_last() =~= Seq::<StakeEntryModel>::empty());
    } else {
        lemma_stakes_total_first(s.drop_last());
        assert(s.drop_last().drop_first() =~= s.drop_first().drop_last());
        assert(s.drop_last()[0] == s[0]);
        assert(s.drop_first().last() == s.last());
    }
}

proof fn lemma_stake_found(s: Seq<StakeEntryModel>, i: int)
    requires
        0 <= i < s.len(),
        forall|j: int|
            0 <= j < i ==> !(s[j].owner == s[i].owner && s[j].token == s[i].token),
    ensures
        stake_of(s, s[i].owner, s[i].token) == s[i].amount,
    decreases i,
{
    if i > 0 {
        let rest = s.drop_first();
        assert(forall|j: int| 0 <= j < rest.len() ==> rest[j] == s[j + 1]);
        lemma_stake_found(rest, i - 1);
    }
}

proof fn lemma_stake_no_key(s: Seq<StakeEntryModel>, owner: u64, token: Seq<u8>)
    requires
        forall|j: int| 0 <= j < s.len() ==> !(s[j].owner == owner && s[j].token == token),
    ensures
        stake_of(s, owner, token) == 0,
    decreases s.len(),
{
    if s.len() > 0 {
        let rest = s.drop_first();
        assert(forall|j: int| 0 <= j < rest.len() ==> rest[j] == s[j + 1]);
        lemma_stake_no_key(rest, owner, token);
    }
}

proof fn lemma_stake_push(s: Seq<StakeEntryModel>, e: StakeEntryModel)
    requires
        forall|j: int| 0 <= j < s.len() ==> !(s[j].owner == e.owner && s[j].token == e.token),
    ensures
        stake_of(s.push(e), e.owner, e.token) == e.amount,
        forall|o2: u64, t2: Seq<u8>|
            !(o2 == e.owner && t2 == e.token) ==> stake_of(s.push(e), o2, t2) == stake_of(
                s,
                o2,
                t2,
            ),
        stakes_total(s.push(e)) == stakes_total(s) + e.amount,
    decreases s.len(),
{
    assert(s.push(e).drop_last() =~= s);
    if s.len() == 0 {
        assert(s.push(e)[0] == e);
        assert forall|o2: u64, t2: Seq<u8>| !(o2 == e.owner && t2 == e.token) implies stake_of(
            s.push(e),
            o2,
            t2,
        ) == stake_of(s, o2, t2) by {
            assert(s.push(e).drop_first() =~= s);
        }
    } else {
        let rest = s.drop_first();
        assert(forall|j: int| 0 <= j < rest.len() ==> rest[j] == s[j + 1]);
        lemma_stake_push(rest, e);
        assert(s.push(e).drop_first() =~= rest.push(e));
        assert(s.push(e)[0] == s[0]);
        assert forall|o2: u64, t2: Seq<u8>| !(o2 == e.owner && t2 == e.token) implies stake_of(
            s.push(e),
            o2,
            t2,
        ) == stake_of(s, o2, t2) by {
            if !(s[0].owner == o2 && s[0].token == t2) {
                assert(stake_of(s.push(e), o2, t2) == stake_of(rest.push(e), o2, t2));
                assert(stake_of(s, o2, t2) == stake_of(rest, o2, t2));
            }
        }
        assert(stake_of(s.push(e), e.owner, e.token) == stake_of(rest.push(e), e.owner, e.token));
    }
}

proof fn lemma_stake_remove(s: Seq<StakeEntryModel>, i: int)
    requires
        stake_keys_unique(s),
        0 <= i < s.len(),
    ensures
        stake_of(s.remove(i), s[i].owner, s[i].token) == 0,
        forall|o2: u64, t2: Seq<u8>|
            !(o2 == s[i].owner && t2 == s[i].token) ==> stake_of(s.remove(i), o2, t2) == stake_of(
                s,
                o2,
                t2,
            ),
        stakes_total(s.remove(i)) == stakes_total(s) - s[i].amount,
        stake_keys_unique(s.remove(i)),
    decreases s.len(),
{
    assert(forall|j: int|
        0 <= j < s.len() - 1 ==> s.remove(i)[j] == (if j < i {
            s[j]
        } else {
            s[j + 1]
        }));
    lemma_stakes_total_first(s);
    if i == 0 {
        assert(s.remove(0) =~= s.drop_first());
        lemma_stake_no_key(s.drop_first(), s[0].owner, s[0].token);
    } else {
        let rest = s.drop_first();
        assert(forall|j: int| 0 <= j < rest.len() ==> rest[j] == s[j + 1]);
        lemma_stake_remove(rest, i - 1);
        assert(s.remove(i).drop_first() =~= rest.remove(i - 1));
        assert(s.remove(i)[0] == s[0]);
        assert(rest[i - 1] == s[i]);
        assert forall|o2: u64, t2: Seq<u8>| !(o2 == s[i].owner && t2 == s[i].token) implies
            stake_of(s.remove(i), o2, t2) == stake_of(s, o2, t2) by {
            if !(s[0].owner == o2 && s[0].token == t2) {
                assert(stake_of(s.remove(i), o2, t2) == stake_of(rest.remove(i - 1), o2, t2));
                assert(stake_of(s, o2, t2) == stake_of(rest, o2, t2));
            }
        }
        assert(stake_of(s.remove(i), s[i].owner, s[i].token) == stake_of(
            rest.remove(i - 1),
            s[i].owner,
            s[i].token,
        ));
        if s.remove(i).len() > 0 {
            lemma_stakes_total_first(s.remove(i));
        }
    }
}

/// Balances keyed by `(owner, token identifier)`, mutated by addition only.
pub struct TokenLedger {
    pub entries: Vec<StakeEntry>,
}

impl View for TokenLedger {
    type V = Seq<StakeEntryModel>;

    open spec fn view(&self) -> Seq<StakeEntryModel> {
        self.entries@.map_values(|e: StakeEntry| e@)
    }
}

impl TokenLedger {
    /// An empty ledger.
    pub fn new() -> (r: TokenLedger)
        ensures
            r@ =~= Seq::<StakeEntryModel>::empty(),
            stakes_wf(r@),
    {
        let r = TokenLedger { entries: Vec::new() };
        proof {
            assert(r@ =~= Seq::<StakeEntryModel>::empty());
        }
        r
    }

    /// The position of the entry for `(owner, token)`, if any.
    fn find(&self, owner: u64, token: &Vec<u8>) -> (r: Option<usize>)
        ensures
            match r {
                Option::Some(i) => i < self@.len() && self@[i as int].owner == owner
                    && self@[i as int].token == token@ && forall|j: int|
                    0 <= j < i ==> !(self@[j].owner == owner && self@[j].token == token@),
                Option::None => forall|j: int|
                    0 <= j < self@.len() ==> !(self@[j].owner == owner && self@[j].token
                        == token@),
            },
    {
        let mut i: usize = 0;
        while i < self.entries.len()
            invariant
                i <= self@.len(),
                self@.len() == self.entries@.len(),
                forall|j: int|
                    0 <= j < i ==> !(self@[j].owner == owner && self@[j].token == token@),
            decreases self@.len() - i,
        {
            proof {
                assert(self@[i as int] == self.entries@[i as int]@);
            }
            if self.entries[i].owner == owner && bytes_eq(&self.entries[i].token, token) {
                return Some(i);
            }
            i += 1;
        }
        None
    }

    /// The amount staked under `(owner, token)`.
    pub fn amount_of(&self, owner: u64, token: &Vec<u8>) -> (r: u64)
        ensures
            r == stake_of(self@, owner, token@),
    {
        match self.find(owner, token) {
            Some(i) => {
                proof {
                    lemma_stake_found(self@, i as int);
                }
                self.entries[i].amount
            },
            None => {
                proof {
                    lemma_stake_no_key(self@, owner, token@);
                }
                0
            },
        }
    }

    /// Add `amount` to the stake under `(owner, token)`.
    pub fn add(&mut self, owner: u64, token: &Vec<u8>, amount: u64)
        requires
            stakes_wf(old(self)@),
            stakes_total(old(self)@) + amount <= u64::MAX,
        ensures
            stakes_wf(final(self)@),
            stake_of(final(self)@, owner, token@) == stake_of(old(self)@, owner, token@) + amount,
            forall|o2: u64, t2: Seq<u8>|
                !(o2 == owner && t2 == token@) ==> stake_of(final(self)@, o2, t2) == stake_of(
                    old(self)@,
                    o2,
                    t2,
                ),
            stakes_total(final(self)@) == stakes_total(old(self)@) + amount,
    {
        let ghost pre = self@;
        match self.find(owner, token) {
            Some(i) => {
                proof {
                    lemma_stake_found(pre, i as int);
                    lemma_stake_remove(pre, i as int);
                    lemma_stake_le_total(pre, owner, token@);
                    lemma_stakes_total_nonneg(pre.remove(i as int));
                }
                let prev = self.entries[i].amount;
                let tok = clone_bytes(&self.entries[i].token);
                self.entries.remove(i);
                proof {
                    assert(self@ =~= pre.remove(i as int));
                }
                let ghost mid = self@;
                proof {
                    lemma_stake_push(
                        mid,
                        StakeEntryModel {
                            owner,
                            token: token@,
                            amount: (prev + amount) as u64,
                        },
                    );
                }
                self.entries.push(StakeEntry { owner, token: tok, amount: prev + amount });
                proof {
                    assert(self@ =~= mid.push(
                        StakeEntryModel { owner, token: token@, amount: (prev + amount) as u64 },
                    ));
                }
            },
            None => {
                proof {
                    lemma_stake_no_key(pre, owner, token@);
                    lemma_stake_push(pre, StakeEntryModel { owner, token: token@, amount });
                }
                let tok = clone_bytes(token);
                self.entries.push(StakeEntry { owner, token: tok, amount });
                proof {
                    assert(self@ =~= pre.push(
                        StakeEntryModel { owner, token: token@, amount },
                    ));
                }
            },
        }
    }

    /// The sum of `floor(amount / divisor)` over the stakes of `owner`.
    pub fn payout(&self, owner: u64, divisor: u64) -> (r: u64)
        requires
            stakes_wf(self@),
            divisor >= 1,
        ensures
            r as int == payout_total(self@, owner, divisor),
    {
        let ghost s = self@;
        let n = self.entries.len();
        let mut acc: u64 = 0;
        let mut i: usize = 0;
        while i < n
            invariant
                stakes_wf(s),
                divisor >= 1,
                s == self@,
                n == self.entries@.len(),
                s.len() == n,
                i <= n,
                acc as int == payout_total(s.take(i as int), owner, divisor),
            decreases n - i,
        {
            proof {
                assert(s[i as int] == self.entries@[i as int]@);
                assert(s.take(i + 1).drop_last() =~= s.take(i as int));
                assert(s.take(i + 1).last() == s[i as int]);
                lemma_payout_le_total(s.take(i + 1), owner, divisor);
                lemma_stakes_total_take(s, i + 1);
                lemma_stakes_total_nonneg(s.take(i + 1));
                lemma_div_pos_is_pos(s[i as int].amount as int, divisor as int);
                lemma_div_nonincreasing(s[i as int].amount as int, divisor as int);
                lemma_payout_total_nonneg(s.take(i as int), owner, divisor);
            }
            if self.entries[i].owner == owner {
                let share = self.entries[i].amount / divisor;
                acc = acc + share;
            }
            i += 1;
        }
        proof {
            assert(s.take(n as int) =~= s);
        }
        acc
    }

    /// The `(token, amount)` pairs staked by `owner`, in ledger order.
    pub fn tokens_of(&self, owner: u64) -> (r: Vec<StakeEntry>)
        ensures
            r@.map_values(|e: StakeEntry| e@) =~= token_amounts_entries(self@, owner),
    {
        let ghost s = self@;
        let n = self.entries.len();
        let mut out: Vec<StakeEntry> = Vec::new();
        let mut i: usize = 0;
        while i < n
            invariant
                s == self@,
                n == self.entries@.len(),
                s.len() == n,
                i <= n,
                out@.map_values(|e: StakeEntry| e@) =~= token_amounts_entries(
                    s.take(i as int),
                    owner,
                ),
            decreases n - i,
        {
            proof {
                assert(s[i as int] == self.entries@[i as int]@);
                assert(s.take(i + 1).drop_last() =~= s.take(i as int));
                assert(s.take(i + 1).last() == s[i as int]);
            }
            if self.entries[i].owner == owner {
                let tok = clone_bytes(&self.entries[i].token);
                let amt = self.entries[i].amount;
                out.push(StakeEntry { owner, token: tok, amount: amt });
                proof {
                    assert(out@.map_values(|e: StakeEntry| e@) =~= token_amounts_entries(
                        s.take(i + 1),
                        owner,
                    ));
                }
            }
            i += 1;
        }
        proof {
            assert(s.take(n as int) =~= s);
        }
        out
    }
}

/// The stakes of `owner` as full entries, in ledger order.
pub open spec fn token_amounts_entries(s: Seq<StakeEntryModel>, owner: u64) -> Seq<
    StakeEntryModel,
>
    decreases s.len(),
{
    if s.len() == 0 {
        Seq::empty()
    } else if s.last().owner == owner {
        token_amounts_entries(s.drop_last(), owner).push(s.last())
    } else {
        token_amounts_entries(s.drop_last(), owner)
    }
}

proof fn lemma_stakes_total_take(s: Seq<StakeEntryModel>, i: int)
    requires
        0 <= i <= s.len(),
    ensures
        stakes_total(s.take(i)) <= stakes_total(s),
    decreases s.len() - i,
{
    if i == s.len() {
        assert(s.take(i) =~= s);
    } else {
        lemma_stakes_total_take(s, i + 1);
        assert(s.take(i + 1).drop_last() =~= s.take(i));
        assert(stakes_total(s.take(i + 1)) == stakes_total(s.take(i)) + s[i].amount);
    }
}

} // verus!
