//! The winter staking engine: stake winter tokens, accrue a proportional
//! reward once a day, and optionally route rewards to a beneficiary.

use vstd::prelude::*;

use vstd::string::{StrSliceExecFns, StringSliceAdditionalSpecFns};

use crate::effects::{action_models, fails_with, Action, ActionModel, TxError};
use crate::markers::{marker_get, marker_keys_unique, marker_or_zero, MarkerTable};
use crate::stakes::{
    payout_total, stake_of, stakes_total, stakes_wf, TokenLedger,
};
use crate::tokens::{
    has_prefix, is_prefix_of, lemma_sum_amounts_nonneg, lemma_sum_amounts_take, payment_models,
    sum_amounts, token_sum, Payment, PaymentModel,
};

verus! {

/// Seconds between two reward claims.
pub const REWARD_COOLDOWN: u64 = 86400;

/// One reward unit is minted per this many staked units.
pub const REWARD_DIVISOR: u64 = 100;

/// The accepted class prefix for stakeable tokens.
pub open spec fn winter_prefix() -> Seq<u8> {
    "WINTER-".spec_bytes()
}

/// The identifier of the minted reward token.
pub open spec fn snow_reward_token() -> Seq<u8> {
    "SNOW-ab6b96".spec_bytes()
}

/// A stake batch is valid when it is non-empty and every payment is a
/// positive amount of a winter-class token.
pub open spec fn winter_stake_valid(ps: Seq<PaymentModel>) -> bool {
    &&& ps.len() > 0
    &&& forall|j: int|
        0 <= j < ps.len() ==> (is_prefix_of(winter_prefix(), (#[trigger] ps[j]).token)
            && ps[j].amount > 0)
}

/// Where a reward goes: the registered beneficiary, or the caller.
pub open spec fn reward_recipient(benef: Seq<crate::markers::MarkerEntry>, caller: u64) -> u64 {
    match marker_get(benef, caller) {
        Option::Some(b) => b,
        Option::None => caller,
    }
}

/// The reward owed to `owner` under the ledger `s`.
pub open spec fn reward_of(s: Seq<crate::stakes::StakeEntryModel>, owner: u64) -> int {
    payout_total(s, owner, REWARD_DIVISOR)
}

/// Stake winter tokens and claim daily proportional rewards.
pub struct WinterStakingSc {
    pub stakes: TokenLedger,
    pub stake_start_epoch: MarkerTable,
    pub last_reward_claim: MarkerTable,
    pub beneficiary: MarkerTable,
}

impl WinterStakingSc {
    /// Engine well-formedness.
    pub open spec fn wf(&self) -> bool {
        &&& stakes_wf(self.stakes@)
        &&& marker_keys_unique(self.stake_start_epoch@)
        &&& marker_keys_unique(self.last_reward_claim@)
        &&& marker_keys_unique(self.beneficiary@)
    }

    /// A fresh engine with no stakes.
    pub fn new() -> (r: WinterStakingSc)
        ensures
            r.wf(),
            r.stakes@ =~= Seq::<crate::stakes::StakeEntryModel>::empty(),
            r.stake_start_epoch@ =~= Seq::<crate::markers::MarkerEntry>::empty(),
            r.last_reward_claim@ =~= Seq::<crate::markers::MarkerEntry>::empty(),
            r.beneficiary@ =~= Seq::<crate::markers::MarkerEntry>::empty(),
    {
        WinterStakingSc {
            stakes: TokenLedger::new(),
            stake_start_epoch: MarkerTable::new(),
            last_reward_claim: MarkerTable::new(),
            beneficiary: MarkerTable::new(),
        }
    }

    /// Register a beneficiary for the caller's rewards.
    ///
    /// Fails with `Validation`, changing nothing, when the beneficiary is
    /// the caller's own account.
    pub fn set_beneficiary(&mut self, caller: u64, new_beneficiary: u64) -> (r: Result<
        (),
        TxError,
    >)
        requires
            old(self).wf(),
        ensures
            final(self).wf(),
            r is Ok <==> new_beneficiary != caller,
            r matches Err(e) ==> e == TxError::Validation && final(self).beneficiary@ == old(
                self,
            ).beneficiary@,
            r is Ok ==> marker_get(final(self).beneficiary@, caller) == Option::Some(
                new_beneficiary,
            ),
            forall|k2: u64|
                k2 != caller ==> marker_get(final(self).beneficiary@, k2) == marker_get(
                    old(self).beneficiary@,
                    k2,
                ),
            final(self).stakes@ == old(self).stakes@,
            final(self).stake_start_epoch@ == old(self).stake_start_epoch@,
            final(self).last_reward_claim@ == old(self).last_reward_claim@,
    {
        if new_beneficiary == caller {
            return Err(TxError::Validation);
        }
        self.beneficiary.set(caller, new_beneficiary);
        Ok(())
    }

    /// Stake a batch of winter tokens: every payment's amount is added to
    /// the caller's stake under that token; the first stake also anchors
    /// the caller's start epoch and last-claim time.
    ///
    /// Fails with `Validation`, changing nothing, when the batch is empty
    /// or any payment is not a positive winter-class amount.
    pub fn stake_token_winter(
        &mut self,
        caller: u64,
        current_epoch: u64,
        now: u64,
        payments: &Vec<Payment>,
    ) -> (r: Result<(), TxError>)
        requires
            old(self).wf(),
            stakes_total(old(self).stakes@) + sum_amounts(payment_models(payments@)) <= u64::MAX,
        ensures
            final(self).wf(),
            r is Ok <==> winter_stake_valid(payment_models(payments@)),
            r matches Err(e) ==> e == TxError::Validation && final(self).stakes@ == old(
                self,
            ).stakes@ && final(self).stake_start_epoch@ == old(self).stake_start_epoch@
                && final(self).last_reward_claim@ == old(self).last_reward_claim@,
            final(self).beneficiary@ == old(self).beneficiary@,
            r is Ok ==> forall|t: Seq<u8>|
                stake_of(final(self).stakes@, caller, t) as int == stake_of(
                    old(self).stakes@,
                    caller,
                    t,
                ) + token_sum(payment_models(payments@), t),
            r is Ok ==> forall|o2: u64, t: Seq<u8>|
                o2 != caller ==> stake_of(final(self).stakes@, o2, t) == stake_of(
                    old(self).stakes@,
                    o2,
                    t,
                ),
            r is Ok ==> stakes_total(final(self).stakes@) == stakes_total(old(self).stakes@)
                + sum_amounts(payment_models(payments@)),
            r is Ok ==> marker_get(final(self).stake_start_epoch@, caller) == (match marker_get(
                old(self).stake_start_epoch@,
                caller,
            ) {
                Option::Some(e) => Option::Some(e),
                Option::None => Option::Some(current_epoch),
            }),
            r is Ok ==> marker_get(final(self).last_reward_claim@, caller) == (match marker_get(
                old(self).last_reward_claim@,
                caller,
            ) {
                Option::Some(t) => Option::Some(t),
                Option::None => Option::Some(now),
            }),
            forall|k2: u64|
                k2 != caller ==> marker_get(final(self).stake_start_epoch@, k2) == marker_get(
                    old(self).stake_start_epoch@,
                    k2,
                ),
            forall|k2: u64|
                k2 != caller ==> marker_get(final(self).last_reward_claim@, k2) == marker_get(
                    old(self).last_reward_claim@,
                    k2,
                ),
    {
        let ghost pv = payment_models(payments@);
        if payments.len() == 0 {
            return Err(TxError::Validation);
        }
        let winter = "WINTER-".as_bytes_vec();
        let mut i: usize = 0;
        while i < payments.len()
            invariant
                pv == payment_models(payments@),
                pv.len() == payments@.len(),
                i <= pv.len(),
                winter@ == winter_prefix(),
                self.wf(),
                self.stakes@ == old(self).stakes@,
                self.stake_start_epoch@ == old(self).stake_start_epoch@,
                self.last_reward_claim@ == old(self).last_reward_claim@,
                self.beneficiary@ == old(self).beneficiary@,
                forall|j: int|
                    0 <= j < i ==> (is_prefix_of(winter_prefix(), (#[trigger] pv[j]).token)
                        && pv[j].amount > 0),
            decreases pv.len() - i,
        {
            let p = &payments[i];
            proof {
                assert(pv[i as int] == p@);
            }
            if !has_prefix(&p.token, &winter) {
                return Err(TxError::Validation);
            }
            if p.amount == 0 {
                return Err(TxError::Validation);
            }
            i += 1;
        }
        let ghost pre = self.stakes@;
        let mut k: usize = 0;
        while k < payments.len()
            invariant
                pv == payment_models(payments@),
                pv.len() == payments@.len(),
                k <= pv.len(),
                winter_stake_valid(pv),
                stakes_wf(self.stakes@),
                pre == old(self).stakes@,
                self.stake_start_epoch@ == old(self).stake_start_epoch@,
                self.last_reward_claim@ == old(self).last_reward_claim@,
                self.beneficiary@ == old(self).beneficiary@,
                marker_keys_unique(self.stake_start_epoch@),
                marker_keys_unique(self.last_reward_claim@),
                marker_keys_unique(self.beneficiary@),
                stakes_total(pre) + sum_amounts(pv) <= u64::MAX,
                stakes_total(self.stakes@) == stakes_total(pre) + sum_amounts(
                    pv.take(k as int),
                ),
                forall|t: Seq<u8>|
                    stake_of(#[trigger] self.stakes@, caller, t) as int == stake_of(
                        pre,
                        caller,
                        t,
                    ) + token_sum(pv.take(k as int), t),
                forall|o2: u64, t: Seq<u8>|
                    o2 != caller ==> stake_of(self.stakes@, o2, t) == stake_of(pre, o2, t),
            decreases pv.len() - k,
        {
            let p = &payments[k];
            proof {
                assert(pv[k as int] == p@);
                assert(pv.take(k + 1).drop_last() =~= pv.take(k as int));
                assert(pv.take(k + 1).last() == pv[k as int]);
                lemma_sum_amounts_take(pv, k + 1);
                lemma_sum_amounts_nonneg(pv.take(k as int));
            }
            let ghost before = self.stakes@;
            self.stakes.add(caller, &p.token, p.amount);
            proof {
                assert forall|t: Seq<u8>|
                    stake_of(self.stakes@, caller, t) as int == stake_of(pre, caller, t)
                        + token_sum(pv.take(k + 1), t) by {
                    if t == pv[k as int].token {
                        assert(stake_of(self.stakes@, caller, t) == stake_of(
                            before,
                            caller,
                            t,
                        ) + pv[k as int].amount);
                    } else {
                        assert(stake_of(self.stakes@, caller, t) == stake_of(before, caller, t));
                        assert(token_sum(pv.take(k + 1), t) == token_sum(pv.take(k as int), t));
                    }
                }
            }
            k += 1;
        }
        proof {
            assert(pv.take(pv.len() as int) =~= pv);
        }
        self.stake_start_epoch.set_if_absent(caller, current_epoch);
        self.last_reward_claim.set_if_absent(caller, now);
        Ok(())
    }

    /// Claim the daily reward: once the cooldown since the last claim has
    /// elapsed, mint one reward unit per hundred staked units and send the
    /// total to the registered beneficiary or the caller, then restart the
    /// cooldown.
    ///
    /// Fails with `TemporalGate` before the cooldown has elapsed and with
    /// `Validation` when no reward is owed, in both cases changing nothing.
    pub fn claim_rewards(&mut self, caller: u64, now: u64) -> (r: Result<Vec<Action>, TxError>)
        requires
            old(self).wf(),
        ensures
            final(self).wf(),
            r is Ok <==> (now >= marker_or_zero(old(self).last_reward_claim@, caller)
                + REWARD_COOLDOWN && reward_of(old(self).stakes@, caller) > 0),
            fails_with(r, TxError::TemporalGate) <==> now < marker_or_zero(
                old(self).last_reward_claim@,
                caller,
            ) + REWARD_COOLDOWN,
            fails_with(r, TxError::Validation) <==> (now >= marker_or_zero(
                old(self).last_reward_claim@,
                caller,
            ) + REWARD_COOLDOWN && reward_of(old(self).stakes@, caller) == 0),
            r is Err ==> final(self).last_reward_claim@ == old(self).last_reward_claim@,
            final(self).stakes@ == old(self).stakes@,
            final(self).stake_start_epoch@ == old(self).stake_start_epoch@,
            final(self).beneficiary@ == old(self).beneficiary@,
            r matches Ok(acts) ==> action_models(acts@) =~= seq![
                ActionModel::MintTokens {
                    token: snow_reward_token(),
                    nonce: 0,
                    amount: reward_of(old(self).stakes@, caller) as u64,
                },
                ActionModel::SendTokens {
                    to: reward_recipient(old(self).beneficiary@, caller),
                    token: snow_reward_token(),
                    nonce: 0,
                    amount: reward_of(old(self).stakes@, caller) as u64,
                },
            ],
            r is Ok ==> marker_get(final(self).last_reward_claim@, caller) == Option::Some(now),
            forall|k2: u64|
                k2 != caller ==> marker_get(final(self).last_reward_claim@, k2) == marker_get(
                    old(self).last_reward_claim@,
                    k2,
                ),
    {
        let last_claim = self.last_reward_claim.get_or_zero(caller);
        if !(now >= REWARD_COOLDOWN && last_claim <= now - REWARD_COOLDOWN) {
            return Err(TxError::TemporalGate);
        }
        let total_rewards = self.stakes.payout(caller, REWARD_DIVISOR);
        if total_rewards == 0 {
            return Err(TxError::Validation);
        }
        let recipient = match self.beneficiary.get(caller) {
            Some(b) => b,
            None => caller,
        };
        let mut acts: Vec<Action> = Vec::new();
        acts.push(
            Action::MintTokens {
                token: "SNOW-ab6b96".as_bytes_vec(),
                nonce: 0,
                amount: total_rewards,
            },
        );
        acts.push(
            Action::SendTokens {
                to: recipient,
                token: "SNOW-ab6b96".as_bytes_vec(),
                nonce: 0,
                amount: total_rewards,
            },
        );
        self.last_reward_claim.set(caller, now);
        proof {
            assert(action_models(acts@) =~= seq![
                ActionModel::MintTokens {
                    token: snow_reward_token(),
                    nonce: 0,
                    amount: reward_of(old(self).stakes@, caller) as u64,
                },
                ActionModel::SendTokens {
                    to: reward_recipient(old(self).beneficiary@, caller),
                    token: snow_reward_token(),
                    nonce: 0,
                    amount: reward_of(old(self).stakes@, caller) as u64,
                },
            ]);
        }
        Ok(acts)
    }
}

} // verus!
