//! The resource-minting engine: stake winter tokens against one resource
//! contract, then mint that contract's resource in rounds-gated batches and
//! claim them in a second step.
//!
//! Which resource the engine mints, and how many rounds must pass between
//! mints, is decided by the contract's own identifier (wood, food, stone or
//! gold).  Every pending mint is paid out under that one identifier, so the
//! engine mints the contract identifier directly instead of keeping a
//! per-user copy of it.

use vstd::prelude::*;

use vstd::string::{StrSliceExecFns, StringSliceAdditionalSpecFns};

use crate::effects::{action_models, fails_with, Action, ActionModel, TxError};
use crate::markers::{marker_get, marker_keys_unique, marker_or_zero, MarkerTable};
use crate::stakes::{
    payout_total, stake_of, stakes_total, stakes_wf, TokenLedger,
};
use crate::tokens::{
    clone_bytes, has_prefix, is_prefix_of, lemma_sum_amounts_nonneg, lemma_sum_amounts_take,
    payment_models, sum_amounts, token_sum, Payment, PaymentModel,
};

verus! {

/// One resource unit is minted per this many staked units.
pub const RESOURCE_DIVISOR: u64 = 1000;

/// Rounds between mints for a wood contract.
pub const WOOD_ROUNDS: u64 = 600;

/// Rounds between mints for a food contract.
pub const FOOD_ROUNDS: u64 = 1200;

/// Rounds between mints for a stone contract.
pub const STONE_ROUNDS: u64 = 1800;

/// Rounds between mints for a gold contract.
pub const GOLD_ROUNDS: u64 = 2400;

/// The accepted class prefix for stakeable tokens.
pub open spec fn winter_prefix() -> Seq<u8> {
    "WINTER-".spec_bytes()
}

/// The contract tag of a wood contract.
pub open spec fn wood_tag() -> Seq<u8> {
    "WOOD".spec_bytes()
}

/// The contract tag of a food contract.
pub open spec fn food_tag() -> Seq<u8> {
    "FOOD".spec_bytes()
}

/// The contract tag of a stone contract.
pub open spec fn stone_tag() -> Seq<u8> {
    "STONE".spec_bytes()
}

/// The contract tag of a gold contract.
pub open spec fn gold_tag() -> Seq<u8> {
    "GOLD".spec_bytes()
}

/// The rounds a resource contract must wait between mints, from its own
/// identifier; `None` for an identifier of no known resource class.
pub open spec fn rounds_for_contract(id: Seq<u8>) -> Option<u64> {
    if is_prefix_of(wood_tag(), id) {
        Option::Some(WOOD_ROUNDS)
    } else if is_prefix_of(food_tag(), id) {
        Option::Some(FOOD_ROUNDS)
    } else if is_prefix_of(stone_tag(), id) {
        Option::Some(STONE_ROUNDS)
    } else if is_prefix_of(gold_tag(), id) {
        Option::Some(GOLD_ROUNDS)
    } else {
        Option::None
    }
}

/// A stake batch is valid when it is non-empty and every payment is a
/// positive amount of a winter-class token.
pub open spec fn resource_stake_valid(ps: Seq<PaymentModel>) -> bool {
    &&& ps.len() > 0
    &&& forall|j: int|
        0 <= j < ps.len() ==> (is_prefix_of(winter_prefix(), (#[trigger] ps[j]).token)
            && ps[j].amount > 0)
}

/// The mintable resources owed to `owner` under the ledger `s`.
pub open spec fn mintable_of(s: Seq<crate::stakes::StakeEntryModel>, owner: u64) -> int {
    payout_total(s, owner, RESOURCE_DIVISOR)
}

/// Mint one resource class from staked winter tokens, in two phases.
pub struct ResourceMintingSc {
    pub contract_id: Vec<u8>,
    pub stakes: TokenLedger,
    pub last_minting_round: MarkerTable,
    pub unclaimed_resources: MarkerTable,
}

impl ResourceMintingSc {
    /// Engine well-formedness.
    pub open spec fn wf(&self) -> bool {
        &&& stakes_wf(self.stakes@)
        &&& marker_keys_unique(self.last_minting_round@)
        &&& marker_keys_unique(self.unclaimed_resources@)
    }

    /// A fresh engine for the resource contract identified by
    /// `contract_id`.
    pub fn new(contract_id: Vec<u8>) -> (r: ResourceMintingSc)
        ensures
            r.wf(),
            r.contract_id@ == contract_id@,
            r.stakes@ =~= Seq::<crate::stakes::StakeEntryModel>::empty(),
            r.last_minting_round@ =~= Seq::<crate::markers::MarkerEntry>::empty(),
            r.unclaimed_resources@ =~= Seq::<crate::markers::MarkerEntry>::empty(),
    {
        ResourceMintingSc {
            contract_id,
            stakes: TokenLedger::new(),
            last_minting_round: MarkerTable::new(),
            unclaimed_resources: MarkerTable::new(),
        }
    }

    /// Stake a batch of winter tokens: every payment's amount is added to
    /// the caller's stake under that token; the first stake anchors the
    /// caller's minting round.
    ///
    /// Fails with `Validation`, changing nothing, when the batch is empty
    /// or any payment is not a positive winter-class amount.
    pub fn stake_winter(
        &mut self,
        caller: u64,
        current_round: u64,
        payments: &Vec<Payment>,
    ) -> (r: Result<(), TxError>)
        requires
            old(self).wf(),
            stakes_total(old(self).stakes@) + sum_amounts(payment_models(payments@)) <= u64::MAX,
        ensures
            final(self).wf(),
            r is Ok <==> resource_stake_valid(payment_models(payments@)),
            r matches Err(e) ==> e == TxError::Validation && final(self).stakes@ == old(
                self,
            ).stakes@ && final(self).last_minting_round@ == old(self).last_minting_round@,
            final(self).contract_id@ == old(self).contract_id@,
            final(self).unclaimed_resources@ == old(self).unclaimed_resources@,
            r is Ok ==> forall|t: Seq<u8>|
                stake_of(final(self).stakes@, caller, t) as int == stake_of(
                    old(self).stakes@,
                    caller,
                    t,
                ) + token_sum(payment_models(payments@), t),
            r is Ok ==> forall|o2: u64, t: Seq<u8>|
                o2 != caller ==> stake_of(final(self).stakes@, o2, t) == stake_of(
                    old(self).stakes@,
                    o2,
                    t,
                ),
            r is Ok ==> stakes_total(final(self).stakes@) == stakes_total(old(self).stakes@)
                + sum_amounts(payment_models(payments@)),
            r is Ok ==> marker_get(final(self).last_minting_round@, caller) == (match marker_get(
                old(self).last_minting_round@,
                caller,
            ) {
                Option::Some(e) => Option::Some(e),
                Option::None => Option::Some(current_round),
            }),
            forall|k2: u64|
                k2 != caller ==> marker_get(final(self).last_minting_round@, k2) == marker_get(
                    old(self).last_minting_round@,
                    k2,
                ),
    {
        let ghost pv = payment_models(payments@);
        if payments.len() == 0 {
            return Err(TxError::Validation);
        }
        let winter = "WINTER-".as_bytes_vec();
        let mut i: usize = 0;
        while i < payments.len()
            invariant
                pv == payment_models(payments@),
                pv.len() == payments@.len(),
                i <= pv.len(),
                winter@ == winter_prefix(),
                self.wf(),
                self.contract_id@ == old(self).contract_id@,
                self.stakes@ == old(self).stakes@,
                self.last_minting_round@ == old(self).last_minting_round@,
                self.unclaimed_resources@ == old(self).unclaimed_resources@,
                forall|j: int|
                    0 <= j < i ==> (is_prefix_of(winter_prefix(), (#[trigger] pv[j]).token)
                        && pv[j].amount > 0),
            decreases pv.len() - i,
        {
            let p = &payments[i];
            proof {
                assert(pv[i as int] == p@);
            }
            if !has_prefix(&p.token, &winter) {
                return Err(TxError::Validation);
            }
            if p.amount == 0 {
                return Err(TxError::Validation);
            }
            i += 1;
        }
        let ghost pre = self.stakes@;
        let mut k: usize = 0;
        while k < payments.len()
            invariant
                pv == payment_models(payments@),
                pv.len() == payments@.len(),
                k <= pv.len(),
                resource_stake_valid(pv),
                stakes_wf(self.stakes@),
                pre == old(self).stakes@,
                self.contract_id@ == old(self).contract_id@,
                self.last_minting_round@ == old(self).last_minting_round@,
                self.unclaimed_resources@ == old(self).unclaimed_resources@,
                marker_keys_unique(self.last_minting_round@),
                marker_keys_unique(self.unclaimed_resources@),
                stakes_total(pre) + sum_amounts(pv) <= u64::MAX,
                stakes_total(self.stakes@) == stakes_total(pre) + sum_amounts(
                    pv.take(k as int),
                ),
                forall|t: Seq<u8>|
                    stake_of(#[trigger] self.stakes@, caller, t) as int == stake_of(
                        pre,
                        caller,
                        t,
                    ) + token_sum(pv.take(k as int), t),
                forall|o2: u64, t: Seq<u8>|
                    o2 != caller ==> stake_of(self.stakes@, o2, t) == stake_of(pre, o2, t),
            decreases pv.len() - k,
        {
            let p = &payments[k];
            proof {
                assert(pv[k as int] == p@);
                assert(pv.take(k + 1).drop_last() =~= pv.take(k as int));
                assert(pv.take(k + 1).last() == pv[k as int]);
                lemma_sum_amounts_take(pv, k + 1);
                lemma_sum_amounts_nonneg(pv.take(k as int));
            }
            let ghost before = self.stakes@;
            self.stakes.add(caller, &p.token, p.amount);
            proof {
                assert forall|t: Seq<u8>|
                    stake_of(self.stakes@, caller, t) as int == stake_of(pre, caller, t)
                        + token_sum(pv.take(k + 1), t) by {
                    if t == pv[k as int].token {
                        assert(stake_of(self.stakes@, caller, t) == stake_of(
                            before,
                            caller,
                            t,
                        ) + pv[k as int].amount);
                    } else {
                        assert(stake_of(self.stakes@, caller, t) == stake_of(before, caller, t));
                        assert(token_sum(pv.take(k + 1), t) == token_sum(pv.take(k as int), t));
                    }
                }
            }
            k += 1;
        }
        proof {
            assert(pv.take(pv.len() as int) =~= pv);
        }
        self.last_minting_round.set_if_absent(caller, current_round);
        Ok(())
    }

    /// Mint the caller's accrued resources into the unclaimed slot: once
    /// the contract's round gate has passed, one resource unit per thousand
    /// staked units is recorded for a later claim, and the round anchor is
    /// reset.
    ///
    /// Fails, changing nothing: with `StateConflict` while unclaimed
    /// resources exist, with `Validation` when the contract identifier is
    /// of no resource class or nothing is mintable, and with `TemporalGate`
    /// before the round gate has passed.
    pub fn mint_resources(&mut self, caller: u64, current_round: u64) -> (r: Result<(), TxError>)
        requires
            old(self).wf(),
        ensures
            final(self).wf(),
            r is Ok <==> (marker_or_zero(old(self).unclaimed_resources@, caller) == 0
                && rounds_for_contract(old(self).contract_id@) is Some && current_round
                >= marker_or_zero(old(self).last_minting_round@, caller) + rounds_for_contract(
                old(self).contract_id@,
            )->0 && mintable_of(old(self).stakes@, caller) > 0),
            fails_with(r, TxError::StateConflict) <==> marker_or_zero(
                old(self).unclaimed_resources@,
                caller,
            ) != 0,
            fails_with(r, TxError::Validation) <==> (marker_or_zero(
                old(self).unclaimed_resources@,
                caller,
            ) == 0 && (rounds_for_contract(old(self).contract_id@) is None || (
            rounds_for_contract(old(self).contract_id@) is Some && current_round
                >= marker_or_zero(old(self).last_minting_round@, caller) + rounds_for_contract(
                old(self).contract_id@,
            )->0 && mintable_of(old(self).stakes@, caller) == 0))),
            fails_with(r, TxError::TemporalGate) <==> (marker_or_zero(
                old(self).unclaimed_resources@,
                caller,
            ) == 0 && rounds_for_contract(old(self).contract_id@) is Some && current_round
                < marker_or_zero(old(self).last_minting_round@, caller) + rounds_for_contract(
                old(self).contract_id@,
            )->0),
            r is Err ==> final(self).last_minting_round@ == old(self).last_minting_round@
                && final(self).unclaimed_resources@ == old(self).unclaimed_resources@,
            final(self).contract_id@ == old(self).contract_id@,
            final(self).stakes@ == old(self).stakes@,
            r is Ok ==> marker_get(final(self).unclaimed_resources@, caller) == Option::Some(
                mintable_of(old(self).stakes@, caller) as u64,
            ),
            r is Ok ==> marker_get(final(self).last_minting_round@, caller) == Option::Some(
                current_round,
            ),
            forall|k2: u64|
                k2 != caller ==> marker_get(final(self).unclaimed_resources@, k2) == marker_get(
                    old(self).unclaimed_resources@,
                    k2,
                ),
            forall|k2: u64|
                k2 != caller ==> marker_get(final(self).last_minting_round@, k2) == marker_get(
                    old(self).last_minting_round@,
                    k2,
                ),
    {
        let unclaimed = self.unclaimed_resources.get_or_zero(caller);
        if unclaimed != 0 {
            return Err(TxError::StateConflict);
        }
        let wood = "WOOD".as_bytes_vec();
        let food = "FOOD".as_bytes_vec();
        let stone = "STONE".as_bytes_vec();
        let gold = "GOLD".as_bytes_vec();
        let resource_rounds: u64 = if has_prefix(&self.contract_id, &wood) {
            WOOD_ROUNDS
        } else if has_prefix(&self.contract_id, &food) {
            FOOD_ROUNDS
        } else if has_prefix(&self.contract_id, &stone) {
            STONE_ROUNDS
        } else if has_prefix(&self.contract_id, &gold) {
            GOLD_ROUNDS
        } else {
            return Err(TxError::Validation);
        };
        proof {
            assert(rounds_for_contract(self.contract_id@) == Option::Some(resource_rounds));
        }
        let last_round = self.last_minting_round.get_or_zero(caller);
        if !(current_round >= resource_rounds && last_round <= current_round - resource_rounds) {
            return Err(TxError::TemporalGate);
        }
        let total_mintable = self.stakes.payout(caller, RESOURCE_DIVISOR);
        if total_mintable == 0 {
            return Err(TxError::Validation);
        }
        self.unclaimed_resources.set(caller, total_mintable);
        self.last_minting_round.set(caller, current_round);
        Ok(())
    }

    /// Claim the unclaimed resources: mint them under the contract
    /// identifier, send them to the caller and clear the unclaimed slot.
    ///
    /// Fails with `StateConflict`, changing nothing, when nothing is
    /// unclaimed.
    pub fn claim_resources(&mut self, caller: u64) -> (r: Result<Vec<Action>, TxError>)
        requires
            old(self).wf(),
        ensures
            final(self).wf(),
            r is Ok <==> marker_or_zero(old(self).unclaimed_resources@, caller) > 0,
            r matches Err(e) ==> e == TxError::StateConflict && final(self).unclaimed_resources@
                == old(self).unclaimed_resources@,
            final(self).contract_id@ == old(self).contract_id@,
            final(self).stakes@ == old(self).stakes@,
            final(self).last_minting_round@ == old(self).last_minting_round@,
            r matches Ok(acts) ==> action_models(acts@) =~= seq![
                ActionModel::MintTokens {
                    token: old(self).contract_id@,
                    nonce: 0,
                    amount: marker_or_zero(old(self).unclaimed_resources@, caller),
                },
                ActionModel::SendTokens {
                    to: caller,
                    token: old(self).contract_id@,
                    nonce: 0,
                    amount: marker_or_zero(old(self).unclaimed_resources@, caller),
                },
            ],
            r is Ok ==> marker_get(final(self).unclaimed_resources@, caller) is None,
            forall|k2: u64|
                k2 != caller ==> marker_get(final(self).unclaimed_resources@, k2) == marker_get(
                    old(self).unclaimed_resources@,
                    k2,
                ),
    {
        let unclaimed = self.unclaimed_resources.get_or_zero(caller);
        if unclaimed == 0 {
            return Err(TxError::StateConflict);
        }
        let mut acts: Vec<Action> = Vec::new();
        acts.push(
            Action::MintTokens {
                token: clone_bytes(&self.contract_id),
                nonce: 0,
                amount: unclaimed,
            },
        );
        acts.push(
            Action::SendTokens {
                to: caller,
                token: clone_bytes(&self.contract_id),
                nonce: 0,
                amount: unclaimed,
            },
        );
        self.unclaimed_resources.remove(caller);
        proof {
            assert(action_models(acts@) =~= seq![
                ActionModel::MintTokens {
                    token: old(self).contract_id@,
                    nonce: 0,
                    amount: marker_or_zero(old(self).unclaimed_resources@, caller),
                },
                ActionModel::SendTokens {
                    to: caller,
                    token: old(self).contract_id@,
                    nonce: 0,
                    amount: marker_or_zero(old(self).unclaimed_resources@, caller),
                },
            ]);
        }
        Ok(acts)
    }
}

} // verus!
