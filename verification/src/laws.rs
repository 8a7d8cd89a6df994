//! The library's cross-function laws, stated and proved once over the spec
//! functions the executable contracts are pinned to.

use crate::track::{
    point_in_model, sample_result_spec, PropagatedPoint, PropagationFailure, Sample,
    SampleResult, Window,
};
use vstd::arithmetic::div_mod::lemma_div_plus_one;
use vstd::prelude::*;

verus! {

/// A window's sample count is the ceiling of its length over its step.
pub proof fn lemma_count_is_ceil(w: Window)
    requires
        0 < w.step_ticks,
    ensures
        w.count_spec() == if w.end.ticks - w.start.ticks <= 0 {
            0int
        } else {
            (w.end.ticks - w.start.ticks + w.step_ticks - 1) / (w.step_ticks as int)
        },
{
    let d: int = w.end.ticks - w.start.ticks;
    if d > 0 {
        lemma_div_plus_one(d - 1, w.step_ticks as int);
    }
}

/// Failure isolation: when exactly one outcome of a window fails, that
/// instant's sample carries the failure, and every other instant's sample
/// is still a geodetic position — one failure never drops or poisons the
/// rest of the track.
pub proof fn lemma_failure_isolation(
    w: Window,
    outcomes: Seq<Result<PropagatedPoint, PropagationFailure>>,
    j: int,
    f: PropagationFailure,
)
    requires
        outcomes.len() == w.count_spec(),
        0 <= j < outcomes.len(),
        outcomes[j] == Result::<PropagatedPoint, PropagationFailure>::Err(f),
        forall|i: int|
            0 <= i < outcomes.len() && i != j ==> ((#[trigger] outcomes[i]) matches Result::Ok(p)
                && point_in_model(p)),
    ensures
        sample_result_spec(outcomes[j], w.instant_ticks(j)) == SampleResult::Failure(f),
        forall|i: int|
            0 <= i < outcomes.len() && i != j ==> (#[trigger] sample_result_spec(
                outcomes[i],
                w.instant_ticks(i),
            )) is Position,
{
}

/// Determinism: the sampler's contract pins its result completely, so any
/// two sample sequences it admits for the same window and the same
/// outcomes are equal — no hidden time-of-call dependency.
pub proof fn lemma_sampler_deterministic(
    w: Window,
    outcomes: Seq<Result<PropagatedPoint, PropagationFailure>>,
    t1: Seq<Sample>,
    t2: Seq<Sample>,
)
    requires
        t1.len() == w.count_spec(),
        t2.len() == w.count_spec(),
        forall|i: int|
            0 <= i < t1.len() ==> (#[trigger] t1[i]).at.ticks == w.instant_ticks(i)
                && t1[i].result == sample_result_spec(outcomes[i], w.instant_ticks(i)),
        forall|i: int|
            0 <= i < t2.len() ==> (#[trigger] t2[i]).at.ticks == w.instant_ticks(i)
                && t2[i].result == sample_result_spec(outcomes[i], w.instant_ticks(i)),
    ensures
        t1 == t2,
{
    assert forall|i: int| 0 <= i < t1.len() implies t1[i] == t2[i] by {
        assert(t1[i].at == t2[i].at);
    }
    assert(t1 =~= t2);
}

} // verus!
