//! The escrow ledger: per-account accumulated deposits.
//!
//! Balances only ever grow by [`EscrowLedger::deposit`] and are drained
//! atomically by [`EscrowLedger::settle`], the duel engine's terminal payout
//! step.  The settle contract carries the conservation property: the pot
//! paid out equals both balances, and the ledger total shrinks by exactly
//! the pot.

use vstd::prelude::*;

verus! {

/// One account's accumulated deposit.
#[derive(Clone, Copy, Debug, PartialEq, Eq, Structural)]
pub struct DepositEntry {
    pub owner: u64,
    pub amount: u64,
}

/// The balance held for `owner` (zero if no entry).
pub open spec fn balance_of(s: Seq<DepositEntry>, owner: u64) -> u64
    decreases s.len(),
{
    if s.len() == 0 {
        0
    } else if s[0].owner == owner {
        s[0].amount
    } else {
        balance_of(s.drop_first(), owner)
    }
}

/// The sum of all balances in the ledger.
pub open spec fn escrow_total(s: Seq<DepositEntry>) -> int
    decreases s.len(),
{
    if s.len() == 0 {
        0
    } else {
        s[0].amount + escrow_total(s.drop_first())
    }
}

/// No two entries share an owner.
pub open spec fn escrow_owners_unique(s: Seq<DepositEntry>) -> bool {
    forall|i: int, j: int| 0 <= i < j < s.len() ==> s[i].owner != s[j].owner
}

/// Ledger well-formedness: unique owners, and a total that fits the machine
/// word so that any single payout fits too.
pub open spec fn escrow_wf(s: Seq<DepositEntry>) -> bool {
    escrow_owners_unique(s) && escrow_total(s) <= u64::MAX
}

pub proof fn lemma_escrow_total_nonneg(s: Seq<DepositEntry>)
    ensures
        escrow_total(s) >= 0,
    decreases s.len(),
{
    if s.len() > 0 {
        lemma_escrow_total_nonneg(s.drop_first());
    }
}

proof fn lemma_escrow_found(s: Seq<DepositEntry>, i: int)
    requires
        0 <= i < s.len(),
        forall|j: int| 0 <= j < i ==> s[j].owner != s[i].owner,
    ensures
        balance_of(s, s[i].owner) == s[i].amount,
    decreases i,
{
    if i > 0 {
        let rest = s.drop_first();
        assert(forall|j: int| 0 <= j < rest.len() ==> rest[j] == s[j + 1]);
        lemma_escrow_found(rest, i - 1);
    }
}

proof fn lemma_escrow_no_owner(s: Seq<DepositEntry>, owner: u64)
    requires
        forall|j: int| 0 <= j < s.len() ==> s[j].owner != owner,
    ensures
        balance_of(s, owner) == 0,
    decreases s.len(),
{
    if s.len() > 0 {
        let rest = s.drop_first();
        assert(forall|j: int| 0 <= j < rest.len() ==> rest[j] == s[j + 1]);
        lemma_escrow_no_owner(rest, owner);
    }
}

proof fn lemma_escrow_push(s: Seq<DepositEntry>, e: DepositEntry)
    requires
        forall|j: int| 0 <= j < s.len() ==> s[j].owner != e.owner,
    ensures
        balance_of(s.push(e), e.owner) == e.amount,
        forall|o2: u64| o2 != e.owner ==> balance_of(s.push(e), o2) == balance_of(s, o2),
        escrow_total(s.push(e)) == escrow_total(s) + e.amount,
    decreases s.len(),
{
    if s.len() == 0 {
        assert(s.push(e)[0] == e);
        assert(s.push(e).drop_first() =~= s);
    } else {
        let rest = s.drop_first();
        assert(forall|j: int| 0 <= j < rest.len() ==> rest[j] == s[j + 1]);
        lemma_escrow_push(rest, e);
        assert(s.push(e).drop_first() =~= rest.push(e));
        assert(s.push(e)[0] == s[0]);
        assert forall|o2: u64| o2 != e.owner implies balance_of(s.push(e), o2) == balance_of(
            s,
            o2,
        ) by {
            if s[0].owner != o2 {
                assert(balance_of(s.push(e), o2) == balance_of(rest.push(e), o2));
                assert(balance_of(s, o2) == balance_of(rest, o2));
            }
        }
        assert(balance_of(s.push(e), e.owner) == balance_of(rest.push(e), e.owner));
        assert(escrow_total(s.push(e)) == s[0].amount + escrow_total(rest.push(e)));
    }
}

proof fn lemma_escrow_remove(s: Seq<DepositEntry>, i: int)
    requires
        escrow_owners_unique(s),
        0 <= i < s.len(),
    ensures
        balance_of(s.remove(i), s[i].owner) == 0,
        forall|o2: u64| o2 != s[i].owner ==> balance_of(s.remove(i), o2) == balance_of(s, o2),
        escrow_total(s.remove(i)) == escrow_total(s) - s[i].amount,
        escrow_owners_unique(s.remove(i)),
    decreases s.len(),
{
    assert(forall|j: int|
        0 <= j < s.len() - 1 ==> s.remove(i)[j] == (if j < i {
            s[j]
        } else {
            s[j + 1]
        }));
    if i == 0 {
        assert(s.remove(0) =~= s.drop_first());
        lemma_escrow_no_owner(s.drop_first(), s[0].owner);
    } else {
        let rest = s.drop_first();
        assert(forall|j: int| 0 <= j < rest.len() ==> rest[j] == s[j + 1]);
        lemma_escrow_remove(rest, i - 1);
        assert(s.remove(i).drop_first() =~= rest.remove(i - 1));
        assert(s.remove(i)[0] == s[0]);
        assert(rest[i - 1] == s[i]);
        assert forall|o2: u64| o2 != s[i].owner implies balance_of(s.remove(i), o2) == balance_of(
            s,
            o2,
        ) by {
            if s[0].owner != o2 {
                assert(balance_of(s.remove(i), o2) == balance_of(rest.remove(i - 1), o2));
                assert(balance_of(s, o2) == balance_of(rest, o2));
            }
        }
        assert(balance_of(s.remove(i), s[i].owner) == balance_of(rest.remove(i - 1), s[i].owner));
        assert(escrow_total(s.remove(i)) == s[0].amount + escrow_total(rest.remove(i - 1)));
    }
}

/// Any single balance is at most the ledger total.
pub proof fn lemma_balance_le_total(s: Seq<DepositEntry>, owner: u64)
    ensures
        balance_of(s, owner) <= escrow_total(s),
    decreases s.len(),
{
    if s.len() > 0 {
        lemma_balance_le_total(s.drop_first(), owner);
        lemma_escrow_total_nonneg(s.drop_first());
    }
}

/// Two distinct balances together are at most the ledger total.
pub proof fn lemma_two_balances_le_total(s: Seq<DepositEntry>, a: u64, b: u64)
    requires
        a != b,
    ensures
        balance_of(s, a) + balance_of(s, b) <= escrow_total(s),
    decreases s.len(),
{
    if s.len() > 0 {
        let rest = s.drop_first();
        lemma_two_balances_le_total(rest, a, b);
        if s[0].owner == a {
            lemma_balance_le_total(rest, b);
        } else if s[0].owner == b {
            lemma_balance_le_total(rest, a);
        }
        lemma_escrow_total_nonneg(rest);
    }
}

/// Per-account escrow balances, mutated by addition and drained only by
/// settlement.
pub struct EscrowLedger {
    pub entries: Vec<DepositEntry>,
}

impl View for EscrowLedger {
    type V = Seq<DepositEntry>;

    open spec fn view(&self) -> Seq<DepositEntry> {
        self.entries@
    }
}

impl EscrowLedger {
    /// An empty ledger.
    pub fn new() -> (r: EscrowLedger)
        ensures
            r@ =~= Seq::<DepositEntry>::empty(),
            escrow_wf(r@),
    {
        EscrowLedger { entries: Vec::new() }
    }

    /// The position of the entry for `owner`, if any.
    fn find(&self, owner: u64) -> (r: Option<usize>)
        ensures
            match r {
                Option::Some(i) => i < self@.len() && self@[i as int].owner == owner && forall|
                    j: int,
                |
                    0 <= j < i ==> self@[j].owner != owner,
                Option::None => forall|j: int| 0 <= j < self@.len() ==> self@[j].owner != owner,
            },
    {
        let mut i: usize = 0;
        while i < self.entries.len()
            invariant
                i <= self@.len(),
                forall|j: int| 0 <= j < i ==> self@[j].owner != owner,
            decreases self@.len() - i,
        {
            if self.entries[i].owner == owner {
                return Some(i);
            }
            i += 1;
        }
        None
    }

    /// The balance held for `owner`.
    pub fn balance(&self, owner: u64) -> (r: u64)
        ensures
            r == balance_of(self@, owner),
    {
        match self.find(owner) {
            Some(i) => {
                proof {
                    lemma_escrow_found(self@, i as int);
                }
                self.entries[i].amount
            },
            None => {
                proof {
                    lemma_escrow_no_owner(self@, owner);
                }
                0
            },
        }
    }

    /// The sum of all balances in the ledger.
    pub fn total(&self) -> (r: u64)
        requires
            escrow_wf(self@),
        ensures
            r as int == escrow_total(self@),
    {
        let ghost s = self@;
        let n = self.entries.len();
        let mut acc: u64 = 0;
        let mut i: usize = 0;
        proof {
            assert(s.skip(0) =~= s);
        }
        while i < n
            invariant
                escrow_wf(s),
                s == self@,
                n == self.entries@.len(),
                s.len() == n,
                i <= n,
                acc as int + escrow_total(s.skip(i as int)) == escrow_total(s),
            decreases n - i,
        {
            proof {
                assert(s.skip(i as int)[0] == s[i as int]);
                assert(s.skip(i as int).drop_first() =~= s.skip(i + 1));
                lemma_escrow_total_nonneg(s.skip(i + 1));
            }
            acc = acc + self.entries[i].amount;
            i += 1;
        }
        proof {
            assert(s.skip(n as int) =~= Seq::<DepositEntry>::empty());
        }
        acc
    }

    /// Add `amount` to the balance of `owner`.  Never fails: escrow is pure
    /// additive bookkeeping.
    pub fn deposit(&mut self, owner: u64, amount: u64)
        requires
            escrow_wf(old(self)@),
            escrow_total(old(self)@) + amount <= u64::MAX,
        ensures
            escrow_wf(final(self)@),
            balance_of(final(self)@, owner) == balance_of(old(self)@, owner) + amount,
            forall|o2: u64|
                o2 != owner ==> balance_of(final(self)@, o2) == balance_of(old(self)@, o2),
            escrow_total(final(self)@) == escrow_total(old(self)@) + amount,
    {
        let ghost pre = self@;
        match self.find(owner) {
            Some(i) => {
                proof {
                    lemma_escrow_found(pre, i as int);
                    lemma_escrow_remove(pre, i as int);
                    lemma_balance_le_total(pre, owner);
                    lemma_escrow_total_nonneg(pre.remove(i as int));
                }
                let prev = self.entries[i].amount;
                self.entries.remove(i);
                let ghost mid = self@;
                proof {
                    lemma_escrow_push(mid, DepositEntry { owner, amount: (prev + amount) as u64 });
                }
                self.entries.push(DepositEntry { owner, amount: prev + amount });
            },
            None => {
                proof {
                    lemma_escrow_no_owner(pre, owner);
                    lemma_escrow_push(pre, DepositEntry { owner, amount });
                }
                self.entries.push(DepositEntry { owner, amount });
            },
        }
    }

    /// Drop the entry for `owner`, zeroing its balance.
    fn drain(&mut self, owner: u64)
        requires
            escrow_wf(old(self)@),
        ensures
            escrow_wf(final(self)@),
            balance_of(final(self)@, owner) == 0,
            forall|o2: u64|
                o2 != owner ==> balance_of(final(self)@, o2) == balance_of(old(self)@, o2),
            escrow_total(final(self)@) == escrow_total(old(self)@) - balance_of(old(self)@, owner),
    {
        match self.find(owner) {
            Some(i) => {
                proof {
                    lemma_escrow_found(self@, i as int);
                    lemma_escrow_remove(self@, i as int);
                }
                self.entries.remove(i);
            },
            None => {
                proof {
                    lemma_escrow_no_owner(self@, owner);
                }
            },
        }
    }

    /// Read both parties' balances, pay out their sum and zero both, as one
    /// atomic settlement step.
    ///
    /// Conservation: the pot equals the two balances read, and for distinct
    /// parties the ledger total shrinks by exactly the pot — nothing is
    /// created, nothing is left behind.
    pub fn settle(&mut self, a: u64, b: u64) -> (pot: u64)
        requires
            escrow_wf(old(self)@),
            balance_of(old(self)@, a) + balance_of(old(self)@, b) <= u64::MAX,
        ensures
            escrow_wf(final(self)@),
            pot == balance_of(old(self)@, a) + balance_of(old(self)@, b),
            balance_of(final(self)@, a) == 0,
            balance_of(final(self)@, b) == 0,
            forall|o2: u64|
                o2 != a && o2 != b ==> balance_of(final(self)@, o2) == balance_of(old(self)@, o2),
            a != b ==> escrow_total(final(self)@) == escrow_total(old(self)@) - pot,
    {
        let pot = self.balance(a) + self.balance(b);
        self.drain(a);
        self.drain(b);
        pot
    }
}

} // verus!
