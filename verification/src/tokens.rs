//! Inbound payments and the token validator.
//!
//! A payment is classified by matching its token identifier against an
//! ordered list of accepted class prefixes.  Classification is
//! all-or-nothing: a single payment that matches no accepted class rejects
//! the whole batch, so no unaccounted token residue can accumulate.

use vstd::prelude::*;

use crate::effects::TxError;

verus! {

/// One inbound token payment: identifier bytes, nonce (0 for fungible
/// classes) and amount.
pub struct Payment {
    pub token: Vec<u8>,
    pub nonce: u64,
    pub amount: u64,
}

/// Mathematical model of a [`Payment`].
pub struct PaymentModel {
    pub token: Seq<u8>,
    pub nonce: u64,
    pub amount: u64,
}

impl View for Payment {
    type V = PaymentModel;

    open spec fn view(&self) -> PaymentModel {
        PaymentModel { token: self.token@, nonce: self.nonce, amount: self.amount }
    }
}

/// The models of a list of payments, in order.
pub open spec fn payment_models(s: Seq<Payment>) -> Seq<PaymentModel> {
    s.map_values(|p: Payment| p@)
}

/// The byte sequences of a list of byte vectors, in order.
pub open spec fn byte_models(s: Seq<Vec<u8>>) -> Seq<Seq<u8>> {
    s.map_values(|v: Vec<u8>| v@)
}

/// The byte sequence inside an optional byte vector.
pub open spec fn opt_bytes(o: Option<Vec<u8>>) -> Option<Seq<u8>> {
    match o {
        Option::Some(v) => Option::Some(v@),
        Option::None => Option::None,
    }
}

/// `p` is a prefix of `s`.
pub open spec fn is_prefix_of(p: Seq<u8>, s: Seq<u8>) -> bool {
    p.len() <= s.len() && p == s.subrange(0, p.len() as int)
}

/// Total amount carried by a batch of payments.
pub open spec fn sum_amounts(ps: Seq<PaymentModel>) -> int
    decreases ps.len(),
{
    if ps.len() == 0 {
        0
    } else {
        sum_amounts(ps.drop_last()) + ps.last().amount
    }
}

/// Total amount carried by the payments whose token identifier is exactly
/// `t`.
pub open spec fn token_sum(ps: Seq<PaymentModel>, t: Seq<u8>) -> int
    decreases ps.len(),
{
    if ps.len() == 0 {
        0
    } else {
        token_sum(ps.drop_last(), t) + if ps.last().token == t {
            ps.last().amount as int
        } else {
            0
        }
    }
}

pub proof fn lemma_sum_amounts_nonneg(ps: Seq<PaymentModel>)
    ensures
        sum_amounts(ps) >= 0,
    decreases ps.len(),
{
    if ps.len() > 0 {
        lemma_sum_amounts_nonneg(ps.drop_last());
    }
}

pub proof fn lemma_sum_amounts_take(ps: Seq<PaymentModel>, i: int)
    requires
        0 <= i <= ps.len(),
    ensures
        sum_amounts(ps.take(i)) <= sum_amounts(ps),
    decreases ps.len() - i,
{
    if i == ps.len() {
        assert(ps.take(i) =~= ps);
    } else {
        lemma_sum_amounts_take(ps, i + 1);
        assert(ps.take(i + 1).drop_last() =~= ps.take(i));
        assert(sum_amounts(ps.take(i + 1)) == sum_amounts(ps.take(i)) + ps[i].amount);
    }
}

/// The class of a payment: the index of the first accepted prefix its token
/// identifier starts with, if any.
pub open spec fn class_of(p: PaymentModel, prefixes: Seq<Seq<u8>>) -> Option<int>
    decreases prefixes.len(),
{
    if prefixes.len() == 0 {
        Option::None
    } else if is_prefix_of(prefixes[0], p.token) {
        Option::Some(0)
    } else {
        match class_of(p, prefixes.drop_first()) {
            Option::Some(k) => Option::Some(k + 1),
            Option::None => Option::None,
        }
    }
}

/// Some payment in the batch matches no accepted class.
pub open spec fn has_foreign(ps: Seq<PaymentModel>, prefixes: Seq<Seq<u8>>) -> bool {
    exists|j: int| 0 <= j < ps.len() && class_of(ps[j], prefixes) is None
}

/// Total amount of the payments classified into class `k`.
pub open spec fn class_total(ps: Seq<PaymentModel>, prefixes: Seq<Seq<u8>>, k: int) -> int
    decreases ps.len(),
{
    if ps.len() == 0 {
        0
    } else {
        class_total(ps.drop_last(), prefixes, k) + if class_of(ps.last(), prefixes)
            == Option::Some(k) {
            ps.last().amount as int
        } else {
            0
        }
    }
}

/// The token identifier of the last payment classified into class `k`.
pub open spec fn class_token(ps: Seq<PaymentModel>, prefixes: Seq<Seq<u8>>, k: int) -> Option<
    Seq<u8>,
>
    decreases ps.len(),
{
    if ps.len() == 0 {
        Option::None
    } else if class_of(ps.last(), prefixes) == Option::Some(k) {
        Option::Some(ps.last().token)
    } else {
        class_token(ps.drop_last(), prefixes, k)
    }
}

pub proof fn lemma_class_total_nonneg(ps: Seq<PaymentModel>, prefixes: Seq<Seq<u8>>, k: int)
    ensures
        class_total(ps, prefixes, k) >= 0,
    decreases ps.len(),
{
    if ps.len() > 0 {
        lemma_class_total_nonneg(ps.drop_last(), prefixes, k);
    }
}

pub proof fn lemma_class_total_le_sum(ps: Seq<PaymentModel>, prefixes: Seq<Seq<u8>>, k: int)
    ensures
        class_total(ps, prefixes, k) <= sum_amounts(ps),
    decreases ps.len(),
{
    if ps.len() > 0 {
        lemma_class_total_le_sum(ps.drop_last(), prefixes, k);
    }
}

proof fn lemma_class_of_first_match(p: PaymentModel, prefixes: Seq<Seq<u8>>, i: int)
    requires
        0 <= i < prefixes.len(),
        forall|j: int| 0 <= j < i ==> !is_prefix_of(prefixes[j], p.token),
        is_prefix_of(prefixes[i], p.token),
    ensures
        class_of(p, prefixes) == Option::Some(i),
    decreases prefixes.len(),
{
    if i > 0 {
        let rest = prefixes.drop_first();
        assert(forall|j: int| 0 <= j < i - 1 ==> rest[j] == prefixes[j + 1]);
        lemma_class_of_first_match(p, rest, i - 1);
    }
}

proof fn lemma_class_of_no_match(p: PaymentModel, prefixes: Seq<Seq<u8>>)
    requires
        forall|j: int| 0 <= j < prefixes.len() ==> !is_prefix_of(prefixes[j], p.token),
    ensures
        class_of(p, prefixes) is None,
    decreases prefixes.len(),
{
    if prefixes.len() > 0 {
        let rest = prefixes.drop_first();
        assert(forall|j: int| 0 <= j < rest.len() ==> rest[j] == prefixes[j + 1]);
        lemma_class_of_no_match(p, rest);
    }
}

/// `r` is true exactly when `p` is a prefix of `s`.
pub fn has_prefix(s: &Vec<u8>, p: &Vec<u8>) -> (r: bool)
    ensures
        r == is_prefix_of(p@, s@),
{
    if p.len() > s.len() {
        return false;
    }
    let mut i: usize = 0;
    while i < p.len()
        invariant
            i <= p@.len() <= s@.len(),
            forall|j: int| 0 <= j < i ==> p@[j] == s@[j],
        decreases p@.len() - i,
    {
        if p[i] != s[i] {
            assert(p@ != s@.subrange(0, p@.len() as int));
            return false;
        }
        i += 1;
    }
    proof {
        assert(p@ =~= s@.subrange(0, p@.len() as int));
    }
    true
}

/// `r` is true exactly when `a` and `b` hold the same bytes.
pub fn bytes_eq(a: &Vec<u8>, b: &Vec<u8>) -> (r: bool)
    ensures
        r == (a@ == b@),
{
    let r = a == b;
    proof {
        if r {
            assert(a@ =~= b@);
        } else {
            if a@ == b@ {
                assert(forall|i: int| 0 <= i < a@.len() ==> a@[i] == b@[i]);
                assert(false);
            }
        }
    }
    r
}

/// A copy of `v` holding the same bytes.
pub fn clone_bytes(v: &Vec<u8>) -> (r: Vec<u8>)
    ensures
        r@ == v@,
{
    let r = v.clone();
    proof {
        assert(r@ =~= v@) by {
            assert(forall|i: int| #![all_triggers] 0 <= i < v@.len() ==> cloned::<u8>(v@[i], r@[i]));
            assert(forall|i: int| #![all_triggers] 0 <= i < v@.len() ==> v@[i] == r@[i]);
        }
    }
    r
}

/// The class index of `p` under the accepted `prefixes`, matching the
/// specification [`class_of`].
pub fn find_class(p: &Payment, prefixes: &Vec<Vec<u8>>) -> (r: Option<usize>)
    ensures
        match r {
            Option::Some(k) => k < prefixes@.len() && class_of(p@, byte_models(prefixes@))
                == Option::Some(k as int),
            Option::None => class_of(p@, byte_models(prefixes@)) is None,
        },
{
    let ghost prefv = byte_models(prefixes@);
    let mut k: usize = 0;
    while k < prefixes.len()
        invariant
            k <= prefixes@.len(),
            prefv == byte_models(prefixes@),
            forall|j: int| 0 <= j < k ==> !is_prefix_of(prefv[j], p@.token),
        decreases prefixes@.len() - k,
    {
        if has_prefix(&p.token, &prefixes[k]) {
            proof {
                lemma_class_of_first_match(p@, prefv, k as int);
            }
            return Some(k);
        }
        k += 1;
    }
    proof {
        lemma_class_of_no_match(p@, prefv);
    }
    None
}

/// Validate and classify a batch of payments against the accepted class
/// `prefixes` (specification of the token validator).
///
/// On success, returns for each class the total amount paid in and the token
/// identifier of the last payment of that class.  Fails, changing nothing,
/// as soon as any payment matches no accepted class.
pub fn classify_payments(payments: &Vec<Payment>, prefixes: &Vec<Vec<u8>>) -> (r: Result<
    (Vec<u64>, Vec<Option<Vec<u8>>>),
    TxError,
>)
    requires
        sum_amounts(payment_models(payments@)) <= u64::MAX,
    ensures
        r is Ok <==> !has_foreign(payment_models(payments@), byte_models(prefixes@)),
        r matches Err(e) ==> e == TxError::Validation,
        r matches Ok(c) ==> {
            let pv = payment_models(payments@);
            let prefv = byte_models(prefixes@);
            &&& c.0@.len() == prefixes@.len()
            &&& c.1@.len() == prefixes@.len()
            &&& forall|k: int|
                0 <= k < prefixes@.len() ==> c.0@[k] as int == class_total(pv, prefv, k)
            &&& forall|k: int|
                0 <= k < prefixes@.len() ==> opt_bytes(c.1@[k]) == class_token(pv, prefv, k)
        },
{
    let ghost pv = payment_models(payments@);
    let ghost prefv = byte_models(prefixes@);
    let n = prefixes.len();
    let mut totals: Vec<u64> = Vec::new();
    let mut toks: Vec<Option<Vec<u8>>> = Vec::new();
    let mut k: usize = 0;
    while k < n
        invariant
            n == prefixes@.len(),
            totals@.len() == k,
            toks@.len() == k,
            k <= n,
            forall|j: int| 0 <= j < k ==> totals@[j] == 0,
            forall|j: int| 0 <= j < k ==> toks@[j] is None,
        decreases n - k,
    {
        totals.push(0);
        toks.push(None);
        k += 1;
    }
    let mut i: usize = 0;
    while i < payments.len()
        invariant
            pv == payment_models(payments@),
            prefv == byte_models(prefixes@),
            sum_amounts(pv) <= u64::MAX,
            i <= payments@.len(),
            pv.len() == payments@.len(),
            totals@.len() == prefixes@.len(),
            toks@.len() == prefixes@.len(),
            forall|j: int| 0 <= j < i ==> class_of(pv[j], prefv) is Some,
            forall|j: int|
                0 <= j < prefixes@.len() ==> totals@[j] as int == class_total(
                    pv.take(i as int),
                    prefv,
                    j,
                ),
            forall|j: int|
                0 <= j < prefixes@.len() ==> opt_bytes(toks@[j]) == class_token(
                    pv.take(i as int),
                    prefv,
                    j,
                ),
        decreases payments@.len() - i,
    {
        let p = &payments[i];
        proof {
            assert(pv[i as int] == p@);
        }
        match find_class(p, prefixes) {
            None => {
                return Err(TxError::Validation);
            },
            Some(c) => {
                proof {
                    assert(pv.take(i + 1).drop_last() =~= pv.take(i as int));
                    assert(pv.take(i + 1).last() == pv[i as int]);
                    lemma_class_total_nonneg(pv.take(i as int), prefv, c as int);
                    lemma_class_total_le_sum(pv.take(i + 1), prefv, c as int);
                    lemma_sum_amounts_take(pv, i + 1);
                    assert(class_total(pv.take(i + 1), prefv, c as int) == class_total(
                        pv.take(i as int),
                        prefv,
                        c as int,
                    ) + pv[i as int].amount);
                    assert(totals@[c as int] as int + pv[i as int].amount <= u64::MAX);
                }
                let cur = totals[c];
                let nv = cur + p.amount;
                totals[c] = nv;
                let t = clone_bytes(&p.token);
                toks[c] = Some(t);
                proof {
                    assert forall|j: int| 0 <= j < prefixes@.len() implies totals@[j] as int
                        == class_total(pv.take(i + 1), prefv, j) by {
                        if j != c as int {
                            assert(class_of(pv[i as int], prefv) != Option::Some(j));
                        }
                    }
                    assert forall|j: int| 0 <= j < prefixes@.len() implies opt_bytes(toks@[j])
                        == class_token(pv.take(i + 1), prefv, j) by {
                        if j == c as int {
                            assert(toks@[j] == Option::Some(t));
                            assert(class_token(pv.take(i + 1), prefv, j) == Option::Some(
                                pv[i as int].token,
                            ));
                        } else {
                            assert(class_of(pv[i as int], prefv) != Option::Some(j));
                            assert(class_token(pv.take(i + 1), prefv, j) == class_token(
                                pv.take(i as int),
                                prefv,
                                j,
                            ));
                        }
                    }
                }
            },
        }
        i += 1;
    }
    proof {
        assert(pv.take(pv.len() as int) =~= pv);
    }
    Ok((totals, toks))
}

} // verus!
