//! The generalized request -> time-lock -> claim pattern.
//!
//! Every crafting and minting workflow records a request timestamp for the
//! owner (Idle -> Pending) and releases its output only once a minimum
//! delay has elapsed.  [`take_claim`] is the claim half of that state
//! machine (Pending -> Idle), shared by all workflows; a request is
//! recorded by the workflow itself after its inputs validate.

use vstd::prelude::*;

use crate::effects::TxError;
use crate::markers::{marker_get, marker_keys_unique, MarkerEntry, MarkerTable};

verus! {

/// A pending request made at time `t` may be claimed at time `now` exactly
/// when the minimum `delay` has elapsed.
pub open spec fn claim_ready(req: Option<u64>, now: u64, delay: u64) -> bool {
    match req {
        Option::Some(t) => now >= t + delay,
        Option::None => false,
    }
}

/// Resolve a claim for `owner` at time `now` against the minimum `delay`.
///
/// Succeeds exactly when a request is pending and the delay has elapsed; the
/// request is then cleared, so an immediate second claim fails.  Fails with
/// `StateConflict` when no request is pending and with `TemporalGate` when
/// the delay has not elapsed, in both cases changing nothing.
pub fn take_claim(m: &mut MarkerTable, owner: u64, now: u64, delay: u64) -> (r: Result<
    (),
    TxError,
>)
    requires
        marker_keys_unique(old(m)@),
    ensures
        marker_keys_unique(final(m)@),
        r is Ok <==> claim_ready(marker_get(old(m)@, owner), now, delay),
        r == Err::<(), TxError>(TxError::StateConflict) <==> marker_get(old(m)@, owner) is None,
        r == Err::<(), TxError>(TxError::TemporalGate) <==> (marker_get(old(m)@, owner) is Some
            && !claim_ready(marker_get(old(m)@, owner), now, delay)),
        r is Ok ==> marker_get(final(m)@, owner) is None,
        r is Err ==> final(m)@ == old(m)@,
        forall|k2: u64| k2 != owner ==> marker_get(final(m)@, k2) == marker_get(old(m)@, k2),
{
    match m.get(owner) {
        None => Err(TxError::StateConflict),
        Some(t) => {
            if now >= delay && t <= now - delay {
                m.remove(owner);
                Ok(())
            } else {
                Err(TxError::TemporalGate)
            }
        },
    }
}

/// Temporal gate correctness: given a pending request, a claim is possible
/// for every `now` at or past the request time plus the delay, and for no
/// earlier `now`.
pub proof fn lemma_temporal_gate(t: u64, now: u64, delay: u64)
    ensures
        now < t + delay ==> !claim_ready(Option::Some(t), now, delay),
        now >= t + delay ==> claim_ready(Option::Some(t), now, delay),
{
}

/// Idempotent claim: once a claim has cleared the pending request, no second
/// claim can succeed at any later time until a new request is recorded.
pub proof fn lemma_claim_idempotent(m: Seq<MarkerEntry>, owner: u64, now2: u64, delay: u64)
    requires
        marker_get(m, owner) is None,
    ensures
        !claim_ready(marker_get(m, owner), now2, delay),
{
}

} // verus!
