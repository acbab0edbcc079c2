//! The tool workflows: craft shield and sword non-fungibles from refined
//! resources, each behind the hour-long request/claim timer.

use vstd::prelude::*;

use vstd::string::{StrSliceExecFns, StringSliceAdditionalSpecFns};

use crate::effects::{action_models, fails_with, Action, ActionModel, TxError};
use crate::markers::{marker_get, marker_keys_unique, MarkerTable};
use crate::pairs::{pair_get, pair_keys_unique, TokenPairTable};
use crate::timer::{claim_ready, take_claim};
use crate::tokens::{
    class_token, class_total, classify_payments, has_foreign, payment_models, sum_amounts,
    Payment, PaymentModel,
};

verus! {

/// Seconds a crafting request must rest before the tool can be claimed.
pub const TOOL_CLAIM_DELAY: u64 = 3600;

/// Minimum ore for a shield.
pub const SHIELD_ORE_MINIMUM: u64 = 2;

/// Minimum gold for a sword.
pub const SWORD_GOLD_MINIMUM: u64 = 1;

/// Minimum ore for a sword.
pub const SWORD_ORE_MINIMUM: u64 = 3;

/// The accepted class prefix for ore payments.
pub open spec fn ore_prefix() -> Seq<u8> {
    "ORE-".spec_bytes()
}

/// The accepted class prefix for gold payments.
pub open spec fn gold_prefix() -> Seq<u8> {
    "GOLD-".spec_bytes()
}

/// The accepted classes of shield crafting: ore only.
pub open spec fn shield_prefixes() -> Seq<Seq<u8>> {
    seq![ore_prefix()]
}

/// The accepted classes of sword crafting: gold, then ore.
pub open spec fn sword_prefixes() -> Seq<Seq<u8>> {
    seq![gold_prefix(), ore_prefix()]
}

/// Placeholder stored in the second identifier slot of a shield request.
pub open spec fn default_token() -> Seq<u8> {
    "DEFAULT".spec_bytes()
}

/// The shield token name.
pub open spec fn shield_name() -> Seq<u8> {
    "SHIELD".spec_bytes()
}

/// The sword token name.
pub open spec fn sword_name() -> Seq<u8> {
    "SWORD".spec_bytes()
}

/// A shield request is valid when every payment is ore, some ore payment
/// exists, and the ore total reaches the minimum.
pub open spec fn shield_request_valid(ps: Seq<PaymentModel>) -> bool {
    &&& !has_foreign(ps, shield_prefixes())
    &&& class_token(ps, shield_prefixes(), 0) is Some
    &&& class_total(ps, shield_prefixes(), 0) >= SHIELD_ORE_MINIMUM
}

/// A sword request is valid when every payment is gold or ore, both classes
/// are present, and both totals reach their minimums.
pub open spec fn sword_request_valid(ps: Seq<PaymentModel>) -> bool {
    &&& !has_foreign(ps, sword_prefixes())
    &&& class_token(ps, sword_prefixes(), 0) is Some
    &&& class_token(ps, sword_prefixes(), 1) is Some
    &&& class_total(ps, sword_prefixes(), 0) >= SWORD_GOLD_MINIMUM
    &&& class_total(ps, sword_prefixes(), 1) >= SWORD_ORE_MINIMUM
}

/// Craft shield and sword non-fungibles behind the request/claim timer.
pub struct ToolNftMintingSc {
    pub mint_requests: MarkerTable,
    pub token_identifiers: TokenPairTable,
}

impl ToolNftMintingSc {
    /// Engine well-formedness.
    pub open spec fn wf(&self) -> bool {
        marker_keys_unique(self.mint_requests@) && pair_keys_unique(self.token_identifiers@)
    }

    /// A fresh engine with no pending requests.
    pub fn new() -> (r: ToolNftMintingSc)
        ensures
            r.wf(),
            r.mint_requests@ =~= Seq::<crate::markers::MarkerEntry>::empty(),
            r.token_identifiers@ =~= Seq::<crate::pairs::PairEntryModel>::empty(),
    {
        ToolNftMintingSc {
            mint_requests: MarkerTable::new(),
            token_identifiers: TokenPairTable::new(),
        }
    }

    /// Request a shield: validate the ore payments, burn them under the
    /// last ore identifier seen, store the consumed identifiers and record
    /// the request timestamp.
    ///
    /// Fails with `StateConflict` when a request is already pending, and
    /// with `Validation` when a payment is not ore, no ore was sent, or the
    /// ore total is below the minimum; a failure changes nothing.
    pub fn request_mint_shield(&mut self, caller: u64, now: u64, payments: &Vec<Payment>) -> (r:
        Result<Vec<Action>, TxError>)
        requires
            old(self).wf(),
            sum_amounts(payment_models(payments@)) <= u64::MAX,
        ensures
            final(self).wf(),
            r is Ok <==> (marker_get(old(self).mint_requests@, caller) is None
                && shield_request_valid(payment_models(payments@))),
            fails_with(r, TxError::StateConflict) <==> marker_get(
                old(self).mint_requests@,
                caller,
            ) is Some,
            fails_with(r, TxError::Validation) <==> (marker_get(old(self).mint_requests@, caller)
                is None && !shield_request_valid(payment_models(payments@))),
            r is Err ==> final(self).mint_requests@ == old(self).mint_requests@
                && final(self).token_identifiers@ == old(self).token_identifiers@,
            r matches Ok(acts) ==> action_models(acts@) =~= seq![
                ActionModel::BurnTokens {
                    token: class_token(payment_models(payments@), shield_prefixes(), 0)->0,
                    nonce: 0,
                    amount: class_total(payment_models(payments@), shield_prefixes(), 0) as u64,
                },
            ],
            r is Ok ==> marker_get(final(self).mint_requests@, caller) == Option::Some(now),
            r is Ok ==> pair_get(final(self).token_identifiers@, caller) == Option::Some(
                (class_token(payment_models(payments@), shield_prefixes(), 0)->0, default_token()),
            ),
            forall|k2: u64|
                k2 != caller ==> marker_get(final(self).mint_requests@, k2) == marker_get(
                    old(self).mint_requests@,
                    k2,
                ),
            forall|k2: u64|
                k2 != caller ==> pair_get(final(self).token_identifiers@, k2) == pair_get(
                    old(self).token_identifiers@,
                    k2,
                ),
    {
        let ghost pv = payment_models(payments@);
        if self.mint_requests.get(caller).is_some() {
            return Err(TxError::StateConflict);
        }
        let mut prefixes: Vec<Vec<u8>> = Vec::new();
        prefixes.push("ORE-".as_bytes_vec());
        proof {
            assert(crate::tokens::byte_models(prefixes@) =~= shield_prefixes());
        }
        let (totals, mut toks) = match classify_payments(payments, &prefixes) {
            Ok(c) => c,
            Err(e) => {
                return Err(e);
            },
        };
        let ore_id = match toks.remove(0) {
            Some(v) => v,
            None => {
                return Err(TxError::Validation);
            },
        };
        let ore_total = totals[0];
        if ore_total < SHIELD_ORE_MINIMUM {
            return Err(TxError::Validation);
        }
        let burn_id = crate::tokens::clone_bytes(&ore_id);
        self.token_identifiers.set(caller, ore_id, "DEFAULT".as_bytes_vec());
        let mut acts: Vec<Action> = Vec::new();
        acts.push(Action::BurnTokens { token: burn_id, nonce: 0, amount: ore_total });
        self.mint_requests.set(caller, now);
        proof {
            assert(action_models(acts@) =~= seq![
                ActionModel::BurnTokens {
                    token: class_token(pv, shield_prefixes(), 0)->0,
                    nonce: 0,
                    amount: class_total(pv, shield_prefixes(), 0) as u64,
                },
            ]);
        }
        Ok(acts)
    }

    /// Request a sword: validate the gold and ore payments, burn both
    /// totals, store the consumed identifiers and record the request
    /// timestamp.
    ///
    /// Fails with `StateConflict` when a request is already pending, and
    /// with `Validation` when a payment is neither gold nor ore, either
    /// class is missing, or either total is below its minimum; a failure
    /// changes nothing.
    pub fn request_mint_sword(&mut self, caller: u64, now: u64, payments: &Vec<Payment>) -> (r:
        Result<Vec<Action>, TxError>)
        requires
            old(self).wf(),
            sum_amounts(payment_models(payments@)) <= u64::MAX,
        ensures
            final(self).wf(),
            r is Ok <==> (marker_get(old(self).mint_requests@, caller) is None
                && sword_request_valid(payment_models(payments@))),
            fails_with(r, TxError::StateConflict) <==> marker_get(
                old(self).mint_requests@,
                caller,
            ) is Some,
            fails_with(r, TxError::Validation) <==> (marker_get(old(self).mint_requests@, caller)
                is None && !sword_request_valid(payment_models(payments@))),
            r is Err ==> final(self).mint_requests@ == old(self).mint_requests@
                && final(self).token_identifiers@ == old(self).token_identifiers@,
            r matches Ok(acts) ==> action_models(acts@) =~= seq![
                ActionModel::BurnTokens {
                    token: class_token(payment_models(payments@), sword_prefixes(), 0)->0,
                    nonce: 0,
                    amount: class_total(payment_models(payments@), sword_prefixes(), 0) as u64,
                },
                ActionModel::BurnTokens {
                    token: class_token(payment_models(payments@), sword_prefixes(), 1)->0,
                    nonce: 0,
                    amount: class_total(payment_models(payments@), sword_prefixes(), 1) as u64,
                },
            ],
            r is Ok ==> marker_get(final(self).mint_requests@, caller) == Option::Some(now),
            r is Ok ==> pair_get(final(self).token_identifiers@, caller) == Option::Some(
                (
                    class_token(payment_models(payments@), sword_prefixes(), 0)->0,
                    class_token(payment_models(payments@), sword_prefixes(), 1)->0,
                ),
            ),
            forall|k2: u64|
                k2 != caller ==> marker_get(final(self).mint_requests@, k2) == marker_get(
                    old(self).mint_requests@,
                    k2,
                ),
            forall|k2: u64|
                k2 != caller ==> pair_get(final(self).token_identifiers@, k2) == pair_get(
                    old(self).token_identifiers@,
                    k2,
                ),
    {
        let ghost pv = payment_models(payments@);
        if self.mint_requests.get(caller).is_some() {
            return Err(TxError::StateConflict);
        }
        let mut prefixes: Vec<Vec<u8>> = Vec::new();
        prefixes.push("GOLD-".as_bytes_vec());
        prefixes.push("ORE-".as_bytes_vec());
        proof {
            assert(crate::tokens::byte_models(prefixes@) =~= sword_prefixes());
        }
        let (totals, mut toks) = match classify_payments(payments, &prefixes) {
            Ok(c) => c,
            Err(e) => {
                return Err(e);
            },
        };
        let gold_id = match toks.remove(0) {
            Some(v) => v,
            None => {
                return Err(TxError::Validation);
            },
        };
        let ore_id = match toks.remove(0) {
            Some(v) => v,
            None => {
                return Err(TxError::Validation);
            },
        };
        let gold_total = totals[0];
        let ore_total = totals[1];
        if gold_total < SWORD_GOLD_MINIMUM {
            return Err(TxError::Validation);
        }
        if ore_total < SWORD_ORE_MINIMUM {
            return Err(TxError::Validation);
        }
        let burn_gold = crate::tokens::clone_bytes(&gold_id);
        let burn_ore = crate::tokens::clone_bytes(&ore_id);
        self.token_identifiers.set(caller, gold_id, ore_id);
        let mut acts: Vec<Action> = Vec::new();
        acts.push(Action::BurnTokens { token: burn_gold, nonce: 0, amount: gold_total });
        acts.push(Action::BurnTokens { token: burn_ore, nonce: 0, amount: ore_total });
        self.mint_requests.set(caller, now);
        proof {
            assert(action_models(acts@) =~= seq![
                ActionModel::BurnTokens {
                    token: class_token(pv, sword_prefixes(), 0)->0,
                    nonce: 0,
                    amount: class_total(pv, sword_prefixes(), 0) as u64,
                },
                ActionModel::BurnTokens {
                    token: class_token(pv, sword_prefixes(), 1)->0,
                    nonce: 0,
                    amount: class_total(pv, sword_prefixes(), 1) as u64,
                },
            ]);
        }
        Ok(acts)
    }

    /// Claim a crafted tool of the given name: clear the request and the
    /// stored identifiers, and mint one tool non-fungible to the caller.
    ///
    /// Fails with `StateConflict` when no request is pending and with
    /// `TemporalGate` before the delay has elapsed, changing nothing.
    pub fn claim_tool(&mut self, caller: u64, now: u64, tool_name: &Vec<u8>) -> (r: Result<
        Vec<Action>,
        TxError,
    >)
        requires
            old(self).wf(),
        ensures
            final(self).wf(),
            r is Ok <==> claim_ready(
                marker_get(old(self).mint_requests@, caller),
                now,
                TOOL_CLAIM_DELAY,
            ),
            fails_with(r, TxError::StateConflict) <==> marker_get(
                old(self).mint_requests@,
                caller,
            ) is None,
            fails_with(r, TxError::TemporalGate) <==> (marker_get(old(self).mint_requests@, caller)
                is Some && !claim_ready(
                marker_get(old(self).mint_requests@, caller),
                now,
                TOOL_CLAIM_DELAY,
            )),
            r is Err ==> final(self).mint_requests@ == old(self).mint_requests@
                && final(self).token_identifiers@ == old(self).token_identifiers@,
            r matches Ok(acts) ==> action_models(acts@) =~= seq![
                ActionModel::MintTokens { token: tool_name@, nonce: 1, amount: 1 },
                ActionModel::SendTokens { to: caller, token: tool_name@, nonce: 1, amount: 1 },
            ],
            r is Ok ==> marker_get(final(self).mint_requests@, caller) is None,
            r is Ok ==> pair_get(final(self).token_identifiers@, caller) is None,
            forall|k2: u64|
                k2 != caller ==> marker_get(final(self).mint_requests@, k2) == marker_get(
                    old(self).mint_requests@,
                    k2,
                ),
            forall|k2: u64|
                k2 != caller ==> pair_get(final(self).token_identifiers@, k2) == pair_get(
                    old(self).token_identifiers@,
                    k2,
                ),
    {
        match take_claim(&mut self.mint_requests, caller, now, TOOL_CLAIM_DELAY) {
            Err(e) => Err(e),
            Ok(()) => {
                self.token_identifiers.remove(caller);
                let mut acts: Vec<Action> = Vec::new();
                acts.push(
                    Action::MintTokens {
                        token: crate::tokens::clone_bytes(tool_name),
                        nonce: 1,
                        amount: 1,
                    },
                );
                acts.push(
                    Action::SendTokens {
                        to: caller,
                        token: crate::tokens::clone_bytes(tool_name),
                        nonce: 1,
                        amount: 1,
                    },
                );
                proof {
                    assert(action_models(acts@) =~= seq![
                        ActionModel::MintTokens { token: tool_name@, nonce: 1, amount: 1 },
                        ActionModel::SendTokens {
                            to: caller,
                            token: tool_name@,
                            nonce: 1,
                            amount: 1,
                        },
                    ]);
                }
                Ok(acts)
            },
        }
    }

    /// Claim a crafted shield.
    pub fn claim_shield(&mut self, caller: u64, now: u64) -> (r: Result<Vec<Action>, TxError>)
        requires
            old(self).wf(),
        ensures
            final(self).wf(),
            r is Ok <==> claim_ready(
                marker_get(old(self).mint_requests@, caller),
                now,
                TOOL_CLAIM_DELAY,
            ),
            fails_with(r, TxError::StateConflict) <==> marker_get(
                old(self).mint_requests@,
                caller,
            ) is None,
            fails_with(r, TxError::TemporalGate) <==> (marker_get(old(self).mint_requests@, caller)
                is Some && !claim_ready(
                marker_get(old(self).mint_requests@, caller),
                now,
                TOOL_CLAIM_DELAY,
            )),
            r is Err ==> final(self).mint_requests@ == old(self).mint_requests@
                && final(self).token_identifiers@ == old(self).token_identifiers@,
            r matches Ok(acts) ==> action_models(acts@) =~= seq![
                ActionModel::MintTokens { token: shield_name(), nonce: 1, amount: 1 },
                ActionModel::SendTokens { to: caller, token: shield_name(), nonce: 1, amount: 1 },
            ],
            r is Ok ==> marker_get(final(self).mint_requests@, caller) is None,
            r is Ok ==> pair_get(final(self).token_identifiers@, caller) is None,
            forall|k2: u64|
                k2 != caller ==> marker_get(final(self).mint_requests@, k2) == marker_get(
                    old(self).mint_requests@,
                    k2,
                ),
            forall|k2: u64|
                k2 != caller ==> pair_get(final(self).token_identifiers@, k2) == pair_get(
                    old(self).token_identifiers@,
                    k2,
                ),
    {
        let name = "SHIELD".as_bytes_vec();
        self.claim_tool(caller, now, &name)
    }

    /// Claim a crafted sword.
    pub fn claim_sword(&mut self, caller: u64, now: u64) -> (r: Result<Vec<Action>, TxError>)
        requires
            old(self).wf(),
        ensures
            final(self).wf(),
            r is Ok <==> claim_ready(
                marker_get(old(self).mint_requests@, caller),
                now,
                TOOL_CLAIM_DELAY,
            ),
            fails_with(r, TxError::StateConflict) <==> marker_get(
                old(self).mint_requests@,
                caller,
            ) is None,
            fails_with(r, TxError::TemporalGate) <==> (marker_get(old(self).mint_requests@, caller)
                is Some && !claim_ready(
                marker_get(old(self).mint_requests@, caller),
                now,
                TOOL_CLAIM_DELAY,
            )),
            r is Err ==> final(self).mint_requests@ == old(self).mint_requests@
                && final(self).token_identifiers@ == old(self).token_identifiers@,
            r matches Ok(acts) ==> action_models(acts@) =~= seq![
                ActionModel::MintTokens { token: sword_name(), nonce: 1, amount: 1 },
                ActionModel::SendTokens { to: caller, token: sword_name(), nonce: 1, amount: 1 },
            ],
            r is Ok ==> marker_get(final(self).mint_requests@, caller) is None,
            r is Ok ==> pair_get(final(self).token_identifiers@, caller) is None,
            forall|k2: u64|
                k2 != caller ==> marker_get(final(self).mint_requests@, k2) == marker_get(
                    old(self).mint_requests@,
                    k2,
                ),
            forall|k2: u64|
                k2 != caller ==> pair_get(final(self).token_identifiers@, k2) == pair_get(
                    old(self).token_identifiers@,
                    k2,
                ),
    {
        let name = "SWORD".as_bytes_vec();
        self.claim_tool(caller, now, &name)
    }
}

} // verus!
