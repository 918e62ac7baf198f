//! The Metropolis acceptance rule.

use vstd::prelude::*;
use crate::binary32::Binary32;

verus! {

/// What the rule makes of a proposal before any random draw.
#[derive(Clone, Copy, Debug, PartialEq, Eq, Structural)]
pub enum Verdict {
    /// The proposed energy is a NaN: the proposal is dropped and nothing is drawn.
    Reject,
    /// The proposed energy is strictly lower: the proposal is taken and nothing is drawn.
    Improve,
    /// Any other case: one draw decides, with probability
    /// `exp((current - proposed) / (k * temperature))`.
    Uphill,
}

pub open spec fn verdict_of(current: Binary32, proposed: Binary32) -> Verdict {
    if proposed.is_nan_spec() {
        Verdict::Reject
    } else if proposed.lt_spec(current) {
        Verdict::Improve
    } else {
        Verdict::Uphill
    }
}

/// Whether the proposal is taken; `draw` is the outcome of the uphill draw,
/// consulted on an uphill verdict alone.
pub open spec fn accepts(current: Binary32, proposed: Binary32, draw: bool) -> bool {
    match verdict_of(current, proposed) {
        Verdict::Reject => false,
        Verdict::Improve => true,
        Verdict::Uphill => draw,
    }
}

/// Classifies a proposal with energy `proposed` against the current energy.
pub fn classify(current: &Binary32, proposed: &Binary32) -> (v: Verdict)
    ensures
        v == verdict_of(*current, *proposed),
{
    if proposed.is_nan() {
        Verdict::Reject
    } else if proposed.lt(current) {
        Verdict::Improve
    } else {
        Verdict::Uphill
    }
}

/// A proposal whose energy ties the current one (a constant energy function)
/// is never rejected and never an improvement: it goes to the draw, whose
/// probability there is `exp(0) = 1`.
pub proof fn lemma_tie_goes_to_draw(current: Binary32, proposed: Binary32)
    requires
        !current.is_nan_spec(),
        !proposed.is_nan_spec(),
        order_key_eq(current, proposed),
    ensures
        verdict_of(current, proposed) == Verdict::Uphill,
        accepts(current, proposed, true),
{
}

/// The two values lie at the same point of the real line (`+0.0` and `-0.0` do).
pub open spec fn order_key_eq(a: Binary32, b: Binary32) -> bool {
    crate::binary32::order_key(a.bits) == crate::binary32::order_key(b.bits)
}

/// A NaN energy never gets a proposal accepted, whatever the draw.
pub proof fn lemma_nan_never_accepted(current: Binary32, proposed: Binary32, draw: bool)
    requires
        proposed.is_nan_spec(),
    ensures
        verdict_of(current, proposed) == Verdict::Reject,
        !accepts(current, proposed, draw),
{
}

/// A strictly lower energy is accepted whatever the draw.
pub proof fn lemma_improvement_always_accepted(current: Binary32, proposed: Binary32, draw: bool)
    requires
        proposed.lt_spec(current),
    ensures
        verdict_of(current, proposed) == Verdict::Improve,
        accepts(current, proposed, draw),
{
}

} // verus!
