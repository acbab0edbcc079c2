//! The citizen workflows: mint a citizen non-fungible from raw resources,
//! upgrade it to a soldier after a time-lock, and upgrade a soldier's stats
//! by consuming tool non-fungibles.

use vstd::prelude::*;

use vstd::string::{StrSliceExecFns, StringSliceAdditionalSpecFns};

use crate::effects::{action_models, fails_with, Action, ActionModel, TxError};
use crate::markers::{marker_get, marker_keys_unique, MarkerTable};
use crate::pairs::{pair_get, pair_keys_unique, TokenPairTable};
use crate::timer::{claim_ready, take_claim};
use crate::tokens::{
    bytes_eq, class_token, class_total, classify_payments, clone_bytes, has_foreign,
    payment_models, sum_amounts, Payment, PaymentModel,
};

verus! {

/// Seconds a mint or upgrade request must rest before it can be claimed.
pub const CITIZEN_CLAIM_DELAY: u64 = 3600;

/// Minimum wood for a citizen.
pub const CITIZEN_WOOD_MINIMUM: u64 = 10;

/// Minimum food for a citizen.
pub const CITIZEN_FOOD_MINIMUM: u64 = 15;

/// Minimum gold for a soldier upgrade.
pub const SOLDIER_GOLD_MINIMUM: u64 = 5;

/// Minimum ore for a soldier upgrade.
pub const SOLDIER_ORE_MINIMUM: u64 = 5;

/// The accepted class prefix for wood payments.
pub open spec fn wood_prefix() -> Seq<u8> {
    "WOOD-".spec_bytes()
}

/// The accepted class prefix for food payments.
pub open spec fn food_prefix() -> Seq<u8> {
    "FOOD-".spec_bytes()
}

/// The accepted class prefix for gold payments.
pub open spec fn gold_prefix() -> Seq<u8> {
    "GOLD-".spec_bytes()
}

/// The accepted class prefix for ore payments.
pub open spec fn ore_prefix() -> Seq<u8> {
    "ORE-".spec_bytes()
}

/// The accepted classes of citizen minting: wood, then food.
pub open spec fn citizen_prefixes() -> Seq<Seq<u8>> {
    seq![wood_prefix(), food_prefix()]
}

/// The accepted classes of the soldier upgrade: gold, then ore.
pub open spec fn soldier_prefixes() -> Seq<Seq<u8>> {
    seq![gold_prefix(), ore_prefix()]
}

/// The citizen token name.
pub open spec fn citizen_token() -> Seq<u8> {
    "CITIZEN".spec_bytes()
}

/// The attribute bytes written by the soldier upgrade.
pub open spec fn soldier_type_attributes() -> Seq<u8> {
    "type:SOLDIER".spec_bytes()
}

/// The attribute bytes written by a shield upgrade.
pub open spec fn defense_upgrade_attributes() -> Seq<u8> {
    "defense:+1".spec_bytes()
}

/// The attribute bytes written by a sword upgrade.
pub open spec fn attack_upgrade_attributes() -> Seq<u8> {
    "attack:+1".spec_bytes()
}

/// A citizen mint request is valid when every payment is wood or food, both
/// classes are present, and both totals reach their minimums.
pub open spec fn citizen_request_valid(ps: Seq<PaymentModel>) -> bool {
    &&& !has_foreign(ps, citizen_prefixes())
    &&& class_token(ps, citizen_prefixes(), 0) is Some
    &&& class_token(ps, citizen_prefixes(), 1) is Some
    &&& class_total(ps, citizen_prefixes(), 0) >= CITIZEN_WOOD_MINIMUM
    &&& class_total(ps, citizen_prefixes(), 1) >= CITIZEN_FOOD_MINIMUM
}

/// A soldier upgrade request is valid when every payment is gold or ore,
/// both classes are present, and both totals reach their minimums.
pub open spec fn soldier_request_valid(ps: Seq<PaymentModel>) -> bool {
    &&& !has_foreign(ps, soldier_prefixes())
    &&& class_token(ps, soldier_prefixes(), 0) is Some
    &&& class_token(ps, soldier_prefixes(), 1) is Some
    &&& class_total(ps, soldier_prefixes(), 0) >= SOLDIER_GOLD_MINIMUM
    &&& class_total(ps, soldier_prefixes(), 1) >= SOLDIER_ORE_MINIMUM
}

/// `p` is exactly the non-fungible `(token, nonce)`.
pub open spec fn matches_nft(p: PaymentModel, token: Seq<u8>, nonce: u64) -> bool {
    p.token == token && p.nonce == nonce
}

/// A stat-upgrade payment batch is valid when it holds exactly two
/// non-fungibles: the one to keep and the one to consume, matched in that
/// order.
pub open spec fn nft_pair_valid(
    ps: Seq<PaymentModel>,
    keep_token: Seq<u8>,
    keep_nonce: u64,
    burn_token: Seq<u8>,
    burn_nonce: u64,
) -> bool {
    &&& ps.len() == 2
    &&& forall|j: int|
        0 <= j < ps.len() ==> (matches_nft(#[trigger] ps[j], keep_token, keep_nonce)
            || matches_nft(ps[j], burn_token, burn_nonce))
    &&& exists|j: int| 0 <= j < ps.len() && matches_nft(#[trigger] ps[j], keep_token, keep_nonce)
    &&& exists|j: int|
        0 <= j < ps.len() && !matches_nft(#[trigger] ps[j], keep_token, keep_nonce)
            && matches_nft(ps[j], burn_token, burn_nonce)
}

/// Validate a two-non-fungible upgrade batch, matching [`nft_pair_valid`].
fn check_nft_pair(
    payments: &Vec<Payment>,
    keep_token: &Vec<u8>,
    keep_nonce: u64,
    burn_token: &Vec<u8>,
    burn_nonce: u64,
) -> (r: Result<(), TxError>)
    ensures
        r is Ok <==> nft_pair_valid(
            payment_models(payments@),
            keep_token@,
            keep_nonce,
            burn_token@,
            burn_nonce,
        ),
        r matches Err(e) ==> e == TxError::Validation,
{
    let ghost pv = payment_models(payments@);
    if payments.len() != 2 {
        return Err(TxError::Validation);
    }
    let mut keep_found = false;
    let mut burn_found = false;
    let mut i: usize = 0;
    while i < payments.len()
        invariant
            pv == payment_models(payments@),
            pv.len() == payments@.len(),
            i <= pv.len(),
            forall|j: int|
                0 <= j < i ==> (matches_nft(#[trigger] pv[j], keep_token@, keep_nonce)
                    || matches_nft(pv[j], burn_token@, burn_nonce)),
            keep_found == exists|j: int|
                0 <= j < i && matches_nft(#[trigger] pv[j], keep_token@, keep_nonce),
            burn_found == exists|j: int|
                0 <= j < i && !matches_nft(#[trigger] pv[j], keep_token@, keep_nonce)
                    && matches_nft(pv[j], burn_token@, burn_nonce),
        decreases pv.len() - i,
    {
        let p = &payments[i];
        proof {
            assert(pv[i as int] == p@);
        }
        if bytes_eq(&p.token, keep_token) && p.nonce == keep_nonce {
            keep_found = true;
        } else if bytes_eq(&p.token, burn_token) && p.nonce == burn_nonce {
            burn_found = true;
        } else {
            return Err(TxError::Validation);
        }
        i += 1;
    }
    if keep_found && burn_found {
        Ok(())
    } else {
        Err(TxError::Validation)
    }
}

/// Mint citizens, upgrade them to soldiers, and upgrade soldier stats.
pub struct CitizenNftMintingSc {
    pub mint_requests: MarkerTable,
    pub upgrade_requests: MarkerTable,
    pub token_identifiers: TokenPairTable,
}

impl CitizenNftMintingSc {
    /// Engine well-formedness.
    pub open spec fn wf(&self) -> bool {
        &&& marker_keys_unique(self.mint_requests@)
        &&& marker_keys_unique(self.upgrade_requests@)
        &&& pair_keys_unique(self.token_identifiers@)
    }

    /// A fresh engine with no pending requests.
    pub fn new() -> (r: CitizenNftMintingSc)
        ensures
            r.wf(),
            r.mint_requests@ =~= Seq::<crate::markers::MarkerEntry>::empty(),
            r.upgrade_requests@ =~= Seq::<crate::markers::MarkerEntry>::empty(),
            r.token_identifiers@ =~= Seq::<crate::pairs::PairEntryModel>::empty(),
    {
        CitizenNftMintingSc {
            mint_requests: MarkerTable::new(),
            upgrade_requests: MarkerTable::new(),
            token_identifiers: TokenPairTable::new(),
        }
    }

    /// Request a citizen mint: validate the wood and food payments, burn
    /// both totals, store the consumed identifiers and record the request
    /// timestamp.
    ///
    /// Fails with `StateConflict` when a request is already pending, and
    /// with `Validation` when a payment is neither wood nor food, either
    /// class is missing, or either total is below its minimum; a failure
    /// changes nothing.
    pub fn request_mint_citizen(&mut self, caller: u64, now: u64, payments: &Vec<Payment>) -> (r:
        Result<Vec<Action>, TxError>)
        requires
            old(self).wf(),
            sum_amounts(payment_models(payments@)) <= u64::MAX,
        ensures
            final(self).wf(),
            r is Ok <==> (marker_get(old(self).mint_requests@, caller) is None
                && citizen_request_valid(payment_models(payments@))),
            fails_with(r, TxError::StateConflict) <==> marker_get(
                old(self).mint_requests@,
                caller,
            ) is Some,
            fails_with(r, TxError::Validation) <==> (marker_get(old(self).mint_requests@, caller)
                is None && !citizen_request_valid(payment_models(payments@))),
            r is Err ==> final(self).mint_requests@ == old(self).mint_requests@
                && final(self).token_identifiers@ == old(self).token_identifiers@,
            final(self).upgrade_requests@ == old(self).upgrade_requests@,
            r matches Ok(acts) ==> action_models(acts@) =~= seq![
                ActionModel::BurnTokens {
                    token: class_token(payment_models(payments@), citizen_prefixes(), 0)->0,
                    nonce: 0,
                    amount: class_total(payment_models(payments@), citizen_prefixes(), 0) as u64,
                },
                ActionModel::BurnTokens {
                    token: class_token(payment_models(payments@), citizen_prefixes(), 1)->0,
                    nonce: 0,
                    amount: class_total(payment_models(payments@), citizen_prefixes(), 1) as u64,
                },
            ],
            r is Ok ==> marker_get(final(self).mint_requests@, caller) == Option::Some(now),
            r is Ok ==> pair_get(final(self).token_identifiers@, caller) == Option::Some(
                (
                    class_token(payment_models(payments@), citizen_prefixes(), 0)->0,
                    class_token(payment_models(payments@), citizen_prefixes(), 1)->0,
                ),
            ),
            forall|k2: u64|
                k2 != caller ==> marker_get(final(self).mint_requests@, k2) == marker_get(
                    old(self).mint_requests@,
                    k2,
                ),
            forall|k2: u64|
                k2 != caller ==> pair_get(final(self).token_identifiers@, k2) == pair_get(
                    old(self).token_identifiers@,
                    k2,
                ),
    {
        let ghost pv = payment_models(payments@);
        if self.mint_requests.get(caller).is_some() {
            return Err(TxError::StateConflict);
        }
        let mut prefixes: Vec<Vec<u8>> = Vec::new();
        prefixes.push("WOOD-".as_bytes_vec());
        prefixes.push("FOOD-".as_bytes_vec());
        proof {
            assert(crate::tokens::byte_models(prefixes@) =~= citizen_prefixes());
        }
        let (totals, mut toks) = match classify_payments(payments, &prefixes) {
            Ok(c) => c,
            Err(e) => {
                return Err(e);
            },
        };
        let wood_id = match toks.remove(0) {
            Some(v) => v,
            None => {
                return Err(TxError::Validation);
            },
        };
        let food_id = match toks.remove(0) {
            Some(v) => v,
            None => {
                return Err(TxError::Validation);
            },
        };
        let wood_total = totals[0];
        let food_total = totals[1];
        if wood_total < CITIZEN_WOOD_MINIMUM {
            return Err(TxError::Validation);
        }
        if food_total < CITIZEN_FOOD_MINIMUM {
            return Err(TxError::Validation);
        }
        let burn_wood = clone_bytes(&wood_id);
        let burn_food = clone_bytes(&food_id);
        self.token_identifiers.set(caller, wood_id, food_id);
        let mut acts: Vec<Action> = Vec::new();
        acts.push(Action::BurnTokens { token: burn_wood, nonce: 0, amount: wood_total });
        acts.push(Action::BurnTokens { token: burn_food, nonce: 0, amount: food_total });
        self.mint_requests.set(caller, now);
        proof {
            assert(action_models(acts@) =~= seq![
                ActionModel::BurnTokens {
                    token: class_token(pv, citizen_prefixes(), 0)->0,
                    nonce: 0,
                    amount: class_total(pv, citizen_prefixes(), 0) as u64,
                },
                ActionModel::BurnTokens {
                    token: class_token(pv, citizen_prefixes(), 1)->0,
                    nonce: 0,
                    amount: class_total(pv, citizen_prefixes(), 1) as u64,
                },
            ]);
        }
        Ok(acts)
    }

    /// Claim a matured citizen mint: clear the request and the stored
    /// identifiers, and mint one citizen non-fungible to the caller.
    ///
    /// Fails with `StateConflict` when no request is pending and with
    /// `TemporalGate` before the delay has elapsed, changing nothing.
    pub fn claim_citizen(&mut self, caller: u64, now: u64) -> (r: Result<Vec<Action>, TxError>)
        requires
            old(self).wf(),
        ensures
            final(self).wf(),
            r is Ok <==> claim_ready(
                marker_get(old(self).mint_requests@, caller),
                now,
                CITIZEN_CLAIM_DELAY,
            ),
            fails_with(r, TxError::StateConflict) <==> marker_get(
                old(self).mint_requests@,
                caller,
            ) is None,
            fails_with(r, TxError::TemporalGate) <==> (marker_get(old(self).mint_requests@, caller)
                is Some && !claim_ready(
                marker_get(old(self).mint_requests@, caller),
                now,
                CITIZEN_CLAIM_DELAY,
            )),
            r is Err ==> final(self).mint_requests@ == old(self).mint_requests@
                && final(self).token_identifiers@ == old(self).token_identifiers@,
            final(self).upgrade_requests@ == old(self).upgrade_requests@,
            r matches Ok(acts) ==> action_models(acts@) =~= seq![
                ActionModel::MintTokens { token: citizen_token(), nonce: 1, amount: 1 },
                ActionModel::SendTokens { to: caller, token: citizen_token(), nonce: 1, amount: 1 },
            ],
            r is Ok ==> marker_get(final(self).mint_requests@, caller) is None,
            r is Ok ==> pair_get(final(self).token_identifiers@, caller) is None,
            forall|k2: u64|
                k2 != caller ==> marker_get(final(self).mint_requests@, k2) == marker_get(
                    old(self).mint_requests@,
                    k2,
                ),
            forall|k2: u64|
                k2 != caller ==> pair_get(final(self).token_identifiers@, k2) == pair_get(
                    old(self).token_identifiers@,
                    k2,
                ),
    {
        match take_claim(&mut self.mint_requests, caller, now, CITIZEN_CLAIM_DELAY) {
            Err(e) => Err(e),
            Ok(()) => {
                self.token_identifiers.remove(caller);
                let mut acts: Vec<Action> = Vec::new();
                acts.push(
                    Action::MintTokens { token: "CITIZEN".as_bytes_vec(), nonce: 1, amount: 1 },
                );
                acts.push(
                    Action::SendTokens {
                        to: caller,
                        token: "CITIZEN".as_bytes_vec(),
                        nonce: 1,
                        amount: 1,
                    },
                );
                proof {
                    assert(action_models(acts@) =~= seq![
                        ActionModel::MintTokens { token: citizen_token(), nonce: 1, amount: 1 },
                        ActionModel::SendTokens {
                            to: caller,
                            token: citizen_token(),
                            nonce: 1,
                            amount: 1,
                        },
                    ]);
                }
                Ok(acts)
            },
        }
    }

    /// Request an upgrade from citizen to soldier: validate the gold and
    /// ore payments, burn both totals and record the upgrade timestamp.
    ///
    /// Fails with `StateConflict` when an upgrade request is already
    /// pending, and with `Validation` when a payment is neither gold nor
    /// ore, either class is missing, or either total is below its minimum;
    /// a failure changes nothing.
    pub fn request_upgrade_to_soldier(
        &mut self,
        caller: u64,
        now: u64,
        citizen_nonce: u64,
        payments: &Vec<Payment>,
    ) -> (r: Result<Vec<Action>, TxError>)
        requires
            old(self).wf(),
            sum_amounts(payment_models(payments@)) <= u64::MAX,
        ensures
            final(self).wf(),
            r is Ok <==> (marker_get(old(self).upgrade_requests@, caller) is None
                && soldier_request_valid(payment_models(payments@))),
            fails_with(r, TxError::StateConflict) <==> marker_get(
                old(self).upgrade_requests@,
                caller,
            ) is Some,
            fails_with(r, TxError::Validation) <==> (marker_get(old(self).upgrade_requests@, caller)
                is None && !soldier_request_valid(payment_models(payments@))),
            r is Err ==> final(self).upgrade_requests@ == old(self).upgrade_requests@,
            final(self).mint_requests@ == old(self).mint_requests@,
            final(self).token_identifiers@ == old(self).token_identifiers@,
            r matches Ok(acts) ==> action_models(acts@) =~= seq![
                ActionModel::BurnTokens {
                    token: class_token(payment_models(payments@), soldier_prefixes(), 0)->0,
                    nonce: 0,
                    amount: class_total(payment_models(payments@), soldier_prefixes(), 0) as u64,
                },
                ActionModel::BurnTokens {
                    token: class_token(payment_models(payments@), soldier_prefixes(), 1)->0,
                    nonce: 0,
                    amount: class_total(payment_models(payments@), soldier_prefixes(), 1) as u64,
                },
            ],
            r is Ok ==> marker_get(final(self).upgrade_requests@, caller) == Option::Some(now),
            forall|k2: u64|
                k2 != caller ==> marker_get(final(self).upgrade_requests@, k2) == marker_get(
                    old(self).upgrade_requests@,
                    k2,
                ),
    {
        let ghost pv = payment_models(payments@);
        if self.upgrade_requests.get(caller).is_some() {
            return Err(TxError::StateConflict);
        }
        let mut prefixes: Vec<Vec<u8>> = Vec::new();
        prefixes.push("GOLD-".as_bytes_vec());
        prefixes.push("ORE-".as_bytes_vec());
        proof {
            assert(crate::tokens::byte_models(prefixes@) =~= soldier_prefixes());
        }
        let (totals, mut toks) = match classify_payments(payments, &prefixes) {
            Ok(c) => c,
            Err(e) => {
                return Err(e);
            },
        };
        let gold_id = match toks.remove(0) {
            Some(v) => v,
            None => {
                return Err(TxError::Validation);
            },
        };
        let ore_id = match toks.remove(0) {
            Some(v) => v,
            None => {
                return Err(TxError::Validation);
            },
        };
        let gold_total = totals[0];
        let ore_total = totals[1];
        if gold_total < SOLDIER_GOLD_MINIMUM {
            return Err(TxError::Validation);
        }
        if ore_total < SOLDIER_ORE_MINIMUM {
            return Err(TxError::Validation);
        }
        let mut acts: Vec<Action> = Vec::new();
        acts.push(Action::BurnTokens { token: gold_id, nonce: 0, amount: gold_total });
        acts.push(Action::BurnTokens { token: ore_id, nonce: 0, amount: ore_total });
        self.upgrade_requests.set(caller, now);
        proof {
            assert(action_models(acts@) =~= seq![
                ActionModel::BurnTokens {
                    token: class_token(pv, soldier_prefixes(), 0)->0,
                    nonce: 0,
                    amount: class_total(pv, soldier_prefixes(), 0) as u64,
                },
                ActionModel::BurnTokens {
                    token: class_token(pv, soldier_prefixes(), 1)->0,
                    nonce: 0,
                    amount: class_total(pv, soldier_prefixes(), 1) as u64,
                },
            ]);
        }
        Ok(acts)
    }

    /// Claim a matured soldier upgrade: clear the request and rewrite the
    /// citizen non-fungible's attributes to the soldier type.
    ///
    /// Fails with `StateConflict` when no upgrade request is pending and
    /// with `TemporalGate` before the delay has elapsed, changing nothing.
    pub fn claim_soldier(&mut self, caller: u64, now: u64, citizen_nonce: u64) -> (r: Result<
        Vec<Action>,
        TxError,
    >)
        requires
            old(self).wf(),
        ensures
            final(self).wf(),
            r is Ok <==> claim_ready(
                marker_get(old(self).upgrade_requests@, caller),
                now,
                CITIZEN_CLAIM_DELAY,
            ),
            fails_with(r, TxError::StateConflict) <==> marker_get(
                old(self).upgrade_requests@,
                caller,
            ) is None,
            fails_with(r, TxError::TemporalGate) <==> (marker_get(
                old(self).upgrade_requests@,
                caller,
            ) is Some && !claim_ready(
                marker_get(old(self).upgrade_requests@, caller),
                now,
                CITIZEN_CLAIM_DELAY,
            )),
            r is Err ==> final(self).upgrade_requests@ == old(self).upgrade_requests@,
            final(self).mint_requests@ == old(self).mint_requests@,
            final(self).token_identifiers@ == old(self).token_identifiers@,
            r matches Ok(acts) ==> action_models(acts@) =~= seq![
                ActionModel::SetTokenAttributes {
                    token: citizen_token(),
                    nonce: citizen_nonce,
                    attributes: soldier_type_attributes(),
                },
            ],
            r is Ok ==> marker_get(final(self).upgrade_requests@, caller) is None,
            forall|k2: u64|
                k2 != caller ==> marker_get(final(self).upgrade_requests@, k2) == marker_get(
                    old(self).upgrade_requests@,
                    k2,
                ),
    {
        match take_claim(&mut self.upgrade_requests, caller, now, CITIZEN_CLAIM_DELAY) {
            Err(e) => Err(e),
            Ok(()) => {
                let mut acts: Vec<Action> = Vec::new();
                acts.push(
                    Action::SetTokenAttributes {
                        token: "CITIZEN".as_bytes_vec(),
                        nonce: citizen_nonce,
                        attributes: "type:SOLDIER".as_bytes_vec(),
                    },
                );
                proof {
                    assert(action_models(acts@) =~= seq![
                        ActionModel::SetTokenAttributes {
                            token: citizen_token(),
                            nonce: citizen_nonce,
                            attributes: soldier_type_attributes(),
                        },
                    ]);
                }
                Ok(acts)
            },
        }
    }

    /// Upgrade a soldier with a shield for +1 defense: the caller hands in
    /// exactly the citizen and shield non-fungibles; the shield is burned
    /// and the citizen's attributes are rewritten.  Stateless: only the
    /// payment batch is validated.
    ///
    /// Fails with `Validation`, changing nothing, on any other batch.
    pub fn upgrade_soldier_with_shield(
        &mut self,
        caller: u64,
        payments: &Vec<Payment>,
        citizen_token_id: &Vec<u8>,
        citizen_nonce: u64,
        shield_token_id: &Vec<u8>,
        shield_nonce: u64,
    ) -> (r: Result<Vec<Action>, TxError>)
        requires
            old(self).wf(),
        ensures
            final(self).wf(),
            final(self).mint_requests@ == old(self).mint_requests@,
            final(self).upgrade_requests@ == old(self).upgrade_requests@,
            final(self).token_identifiers@ == old(self).token_identifiers@,
            r is Ok <==> nft_pair_valid(
                payment_models(payments@),
                citizen_token_id@,
                citizen_nonce,
                shield_token_id@,
                shield_nonce,
            ),
            r matches Err(e) ==> e == TxError::Validation,
            r matches Ok(acts) ==> action_models(acts@) =~= seq![
                ActionModel::BurnTokens {
                    token: shield_token_id@,
                    nonce: shield_nonce,
                    amount: 1,
                },
                ActionModel::SetTokenAttributes {
                    token: citizen_token_id@,
                    nonce: citizen_nonce,
                    attributes: defense_upgrade_attributes(),
                },
            ],
    {
        match check_nft_pair(payments, citizen_token_id, citizen_nonce, shield_token_id,
            shield_nonce) {
            Err(e) => Err(e),
            Ok(()) => {
                let mut acts: Vec<Action> = Vec::new();
                acts.push(
                    Action::BurnTokens {
                        token: clone_bytes(shield_token_id),
                        nonce: shield_nonce,
                        amount: 1,
                    },
                );
                acts.push(
                    Action::SetTokenAttributes {
                        token: clone_bytes(citizen_token_id),
                        nonce: citizen_nonce,
                        attributes: "defense:+1".as_bytes_vec(),
                    },
                );
                proof {
                    assert(action_models(acts@) =~= seq![
                        ActionModel::BurnTokens {
                            token: shield_token_id@,
                            nonce: shield_nonce,
                            amount: 1,
                        },
                        ActionModel::SetTokenAttributes {
                            token: citizen_token_id@,
                            nonce: citizen_nonce,
                            attributes: defense_upgrade_attributes(),
                        },
                    ]);
                }
                Ok(acts)
            },
        }
    }

    /// Upgrade a soldier with a sword for +1 attack: the caller hands in
    /// exactly the soldier and sword non-fungibles; the sword is burned and
    /// the soldier's attributes are rewritten.  Stateless: only the payment
    /// batch is validated.
    ///
    /// Fails with `Validation`, changing nothing, on any other batch.
    pub fn upgrade_soldier_with_sword(
        &mut self,
        caller: u64,
        payments: &Vec<Payment>,
        soldier_token_id: &Vec<u8>,
        soldier_nonce: u64,
        sword_token_id: &Vec<u8>,
        sword_nonce: u64,
    ) -> (r: Result<Vec<Action>, TxError>)
        requires
            old(self).wf(),
        ensures
            final(self).wf(),
            final(self).mint_requests@ == old(self).mint_requests@,
            final(self).upgrade_requests@ == old(self).upgrade_requests@,
            final(self).token_identifiers@ == old(self).token_identifiers@,
            r is Ok <==> nft_pair_valid(
                payment_models(payments@),
                soldier_token_id@,
                soldier_nonce,
                sword_token_id@,
                sword_nonce,
            ),
            r matches Err(e) ==> e == TxError::Validation,
            r matches Ok(acts) ==> action_models(acts@) =~= seq![
                ActionModel::BurnTokens { token: sword_token_id@, nonce: sword_nonce, amount: 1 },
                ActionModel::SetTokenAttributes {
                    token: soldier_token_id@,
                    nonce: soldier_nonce,
                    attributes: attack_upgrade_attributes(),
                },
            ],
    {
        match check_nft_pair(payments, soldier_token_id, soldier_nonce, sword_token_id,
            sword_nonce) {
            Err(e) => Err(e),
            Ok(()) => {
                let mut acts: Vec<Action> = Vec::new();
                acts.push(
                    Action::BurnTokens {
                        token: clone_bytes(sword_token_id),
                        nonce: sword_nonce,
                        amount: 1,
                    },
                );
                acts.push(
                    Action::SetTokenAttributes {
                        token: clone_bytes(soldier_token_id),
                        nonce: soldier_nonce,
                        attributes: "attack:+1".as_bytes_vec(),
                    },
                );
                proof {
                    assert(action_models(acts@) =~= seq![
                        ActionModel::BurnTokens {
                            token: sword_token_id@,
                            nonce: sword_nonce,
                            amount: 1,
                        },
                        ActionModel::SetTokenAttributes {
                            token: soldier_token_id@,
                            nonce: soldier_nonce,
                            attributes: attack_upgrade_attributes(),
                        },
                    ]);
                }
                Ok(acts)
            },
        }
    }
}

} // verus!
