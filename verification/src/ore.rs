//! The ore workflow: burn raw stone now, claim refined ore an hour later.

use vstd::prelude::*;

use vstd::string::{StrSliceExecFns, StringSliceAdditionalSpecFns};

use crate::effects::{action_models, fails_with, Action, ActionModel, TxError};
use crate::markers::{marker_get, marker_keys_unique, MarkerTable};
use crate::timer::{claim_ready, take_claim};
use crate::tokens::{
    class_token, class_total, classify_payments, has_foreign, payment_models, sum_amounts,
    Payment,
};

verus! {

/// Seconds a mint request must rest before the ore can be claimed.
pub const ORE_CLAIM_DELAY: u64 = 3600;

/// Minimum total of stone that a mint request must burn.
pub const ORE_STONE_MINIMUM: u64 = 20;

/// The accepted class prefix for stone payments.
pub open spec fn stone_prefix() -> Seq<u8> {
    "STONE-".spec_bytes()
}

/// The accepted classes of the ore workflow: stone only.
pub open spec fn ore_prefixes() -> Seq<Seq<u8>> {
    seq![stone_prefix()]
}

/// The identifier of the minted ore token.
pub open spec fn ore_token() -> Seq<u8> {
    "ORE".spec_bytes()
}

/// A request is valid when every payment is stone, some stone payment
/// exists, and the stone total reaches the minimum.
pub open spec fn ore_request_valid(ps: Seq<crate::tokens::PaymentModel>) -> bool {
    &&& !has_foreign(ps, ore_prefixes())
    &&& class_token(ps, ore_prefixes(), 0) is Some
    &&& class_total(ps, ore_prefixes(), 0) >= ORE_STONE_MINIMUM
}

/// Mint ore by burning stone, gated by the request/claim timer.
pub struct OreMintingSc {
    pub mint_requests: MarkerTable,
}

impl OreMintingSc {
    /// Engine well-formedness.
    pub open spec fn wf(&self) -> bool {
        marker_keys_unique(self.mint_requests@)
    }

    /// A fresh engine with no pending requests.
    pub fn new() -> (r: OreMintingSc)
        ensures
            r.wf(),
            r.mint_requests@ =~= Seq::<crate::markers::MarkerEntry>::empty(),
    {
        OreMintingSc { mint_requests: MarkerTable::new() }
    }

    /// Request an ore mint: validate the stone payments, burn the paid
    /// stone under the last stone identifier seen, and record the request
    /// timestamp.
    ///
    /// Fails with `StateConflict` when a request is already pending, and
    /// with `Validation` when a payment is not stone, no stone was sent, or
    /// the stone total is below the minimum; a failure burns nothing and
    /// records nothing.
    pub fn request_mint_ore(&mut self, caller: u64, now: u64, payments: &Vec<Payment>) -> (r:
        Result<Vec<Action>, TxError>)
        requires
            old(self).wf(),
            sum_amounts(payment_models(payments@)) <= u64::MAX,
        ensures
            final(self).wf(),
            r is Ok <==> (marker_get(old(self).mint_requests@, caller) is None
                && ore_request_valid(payment_models(payments@))),
            fails_with(r, TxError::StateConflict) <==> marker_get(
                old(self).mint_requests@,
                caller,
            ) is Some,
            fails_with(r, TxError::Validation) <==> (marker_get(old(self).mint_requests@, caller)
                is None && !ore_request_valid(payment_models(payments@))),
            r is Err ==> final(self).mint_requests@ == old(self).mint_requests@,
            r matches Ok(acts) ==> action_models(acts@) =~= seq![
                ActionModel::BurnTokens {
                    token: class_token(payment_models(payments@), ore_prefixes(), 0)->0,
                    nonce: 0,
                    amount: class_total(payment_models(payments@), ore_prefixes(), 0) as u64,
                },
            ],
            r is Ok ==> marker_get(final(self).mint_requests@, caller) == Option::Some(now),
            forall|k2: u64|
                k2 != caller ==> marker_get(final(self).mint_requests@, k2) == marker_get(
                    old(self).mint_requests@,
                    k2,
                ),
    {
        let ghost pv = payment_models(payments@);
        if self.mint_requests.get(caller).is_some() {
            return Err(TxError::StateConflict);
        }
        let mut prefixes: Vec<Vec<u8>> = Vec::new();
        prefixes.push("STONE-".as_bytes_vec());
        proof {
            assert(crate::tokens::byte_models(prefixes@) =~= ore_prefixes());
        }
        let (totals, mut toks) = match classify_payments(payments, &prefixes) {
            Ok(c) => c,
            Err(e) => {
                return Err(e);
            },
        };
        let stone_id = match toks.remove(0) {
            Some(v) => v,
            None => {
                return Err(TxError::Validation);
            },
        };
        let stone_total = totals[0];
        if stone_total < ORE_STONE_MINIMUM {
            return Err(TxError::Validation);
        }
        let mut acts: Vec<Action> = Vec::new();
        acts.push(Action::BurnTokens { token: stone_id, nonce: 0, amount: stone_total });
        self.mint_requests.set(caller, now);
        proof {
            assert(action_models(acts@) =~= seq![
                ActionModel::BurnTokens {
                    token: class_token(pv, ore_prefixes(), 0)->0,
                    nonce: 0,
                    amount: class_total(pv, ore_prefixes(), 0) as u64,
                },
            ]);
        }
        Ok(acts)
    }

    /// Claim the ore of a matured mint request: clear the request and mint
    /// one ore to the caller.
    ///
    /// Fails with `StateConflict` when no request is pending and with
    /// `TemporalGate` before the delay has elapsed, changing nothing.
    pub fn claim_ore(&mut self, caller: u64, now: u64) -> (r: Result<Vec<Action>, TxError>)
        requires
            old(self).wf(),
        ensures
            final(self).wf(),
            r is Ok <==> claim_ready(
                marker_get(old(self).mint_requests@, caller),
                now,
                ORE_CLAIM_DELAY,
            ),
            fails_with(r, TxError::StateConflict) <==> marker_get(
                old(self).mint_requests@,
                caller,
            ) is None,
            fails_with(r, TxError::TemporalGate) <==> (marker_get(old(self).mint_requests@, caller)
                is Some && !claim_ready(
                marker_get(old(self).mint_requests@, caller),
                now,
                ORE_CLAIM_DELAY,
            )),
            r is Err ==> final(self).mint_requests@ == old(self).mint_requests@,
            r matches Ok(acts) ==> action_models(acts@) =~= seq![
                ActionModel::MintTokens { token: ore_token(), nonce: 0, amount: 1 },
                ActionModel::SendTokens { to: caller, token: ore_token(), nonce: 0, amount: 1 },
            ],
            r is Ok ==> marker_get(final(self).mint_requests@, caller) is None,
            forall|k2: u64|
                k2 != caller ==> marker_get(final(self).mint_requests@, k2) == marker_get(
                    old(self).mint_requests@,
                    k2,
                ),
    {
        match take_claim(&mut self.mint_requests, caller, now, ORE_CLAIM_DELAY) {
            Err(e) => Err(e),
            Ok(()) => {
                let mut acts: Vec<Action> = Vec::new();
                acts.push(
                    Action::MintTokens { token: "ORE".as_bytes_vec(), nonce: 0, amount: 1 },
                );
                acts.push(
                    Action::SendTokens {
                        to: caller,
                        token: "ORE".as_bytes_vec(),
                        nonce: 0,
                        amount: 1,
                    },
                );
                proof {
                    assert(action_models(acts@) =~= seq![
                        ActionModel::MintTokens { token: ore_token(), nonce: 0, amount: 1 },
                        ActionModel::SendTokens {
                            to: caller,
                            token: ore_token(),
                            nonce: 0,
                            amount: 1,
                        },
                    ]);
                }
                Ok(acts)
            },
        }
    }
}

} // verus!
