//! Windowed ground-track sampling.
//!
//! A [`Window`] asks for samples at `start`, `start + step`, … strictly
//! below `end`.  Each requested instant yields exactly one [`Sample`]: a
//! geodetic position when propagation succeeded and its values lie inside
//! the model, a typed failure otherwise — one satellite's or one instant's
//! trouble never drops or aborts the other samples.

use crate::frame::{
    to_geodetic, to_spherical, wrap_lon_spec, sidereal_udeg_spec, GeodeticPosition,
    InertialPosition, HALF_TURN_UDEG, MAX_COORD_UM, QUARTER_TURN_UDEG,
};
use crate::time::Instant;
use vstd::arithmetic::div_mod::{lemma_div_pos_is_pos, lemma_fundamental_div_mod, lemma_mod_division_less_than_divisor};
use vstd::arithmetic::mul::{
    lemma_mul_inequality, lemma_mul_is_distributive_add_other_way, lemma_mul_nonnegative,
};
use vstd::prelude::*;

verus! {

/// A typed failure of one propagation request.
#[derive(Clone, Copy, Debug, PartialEq, Eq, Structural)]
pub enum PropagationFailure {
    /// The propagation service reported a domain failure (a numerically
    /// divergent propagation, a decayed orbit, ...).
    ServiceError,
    /// The propagation produced values the model rejects: a non-finite
    /// number, or a coordinate or angle outside its range.
    InvalidValue,
}

/// What one propagation call produced: inertial coordinates and the
/// spherical angles derived from them, still unchecked against the model.
#[derive(Clone, Copy, Debug, PartialEq, Eq, Structural)]
pub struct PropagatedPoint {
    pub x_um: i64,
    pub y_um: i64,
    pub z_um: i64,
    pub theta_udeg: i64,
    pub phi_udeg: i64,
}

/// The point's coordinates and angles all lie inside the model's ranges.
pub open spec fn point_in_model(p: PropagatedPoint) -> bool {
    &&& -MAX_COORD_UM <= p.x_um <= MAX_COORD_UM
    &&& -MAX_COORD_UM <= p.y_um <= MAX_COORD_UM
    &&& -MAX_COORD_UM <= p.z_um <= MAX_COORD_UM
    &&& -HALF_TURN_UDEG < p.theta_udeg <= HALF_TURN_UDEG
    &&& 0 <= p.phi_udeg <= HALF_TURN_UDEG
}

/// One requested instant's outcome: a geodetic position, or the failure
/// that instant ran into.
#[derive(Clone, Copy, Debug, PartialEq, Eq, Structural)]
pub enum SampleResult {
    Position(GeodeticPosition),
    Failure(PropagationFailure),
}

/// A sample: the instant it was requested for, never dropped, and what it
/// yielded.
#[derive(Clone, Copy, Debug, PartialEq, Eq, Structural)]
pub struct Sample {
    pub at: Instant,
    pub result: SampleResult,
}

/// The ordered samples of one satellite over one window.
#[derive(Clone, Debug)]
pub struct GroundTrack {
    pub samples: Vec<Sample>,
}

/// A half-open sampling window `[start, end)` walked in steps of
/// `step_ticks`.
#[derive(Clone, Copy, Debug, PartialEq, Eq, Structural)]
pub struct Window {
    pub start: Instant,
    pub end: Instant,
    pub step_ticks: i64,
}

impl Window {
    /// Number of requested instants: `ceil((end - start) / step)`.
    pub open spec fn count_spec(self) -> int {
        let d = self.end.ticks - self.start.ticks;
        if d <= 0 {
            0
        } else {
            (d - 1) / (self.step_ticks as int) + 1
        }
    }

    /// The i-th requested instant, `start + i * step`.
    pub open spec fn instant_ticks(self, i: int) -> int {
        self.start.ticks + i * self.step_ticks
    }

    /// Both ends inside the model's span, a positive step, and a sample
    /// count a vector can hold on any machine.
    pub open spec fn wf(self) -> bool {
        &&& self.start.wf()
        &&& self.end.wf()
        &&& 0 < self.step_ticks
        &&& self.count_spec() <= 0xFFFF_FFFF
    }

    /// Number of requested instants.
    pub fn count(&self) -> (n: usize)
        requires
            self.wf(),
        ensures
            n == self.count_spec(),
    {
        if self.end.ticks <= self.start.ticks {
            0
        } else {
            let d: i64 = self.end.ticks - self.start.ticks;
            let q: i64 = match (d - 1).checked_div_euclid(self.step_ticks) {
                Some(v) => v,
                None => 0,
            };
            proof {
                lemma_div_pos_is_pos(d - 1, self.step_ticks as int);
            }
            (q + 1) as usize
        }
    }
}

/// Every requested index of a well-formed window lands inside the window:
/// `start <= start + i * step < end`.
pub proof fn lemma_instant_in_window(w: Window, i: int)
    requires
        w.wf(),
        0 <= i < w.count_spec(),
    ensures
        w.start.ticks <= w.instant_ticks(i) < w.end.ticks,
{
    let d: int = w.end.ticks - w.start.ticks;
    let step: int = w.step_ticks as int;
    assert(d >= 1);
    let q: int = (d - 1) / step;
    lemma_fundamental_div_mod(d - 1, step);
    lemma_mod_division_less_than_divisor(d - 1, step);
    assert(step * q <= d - 1);
    lemma_mul_inequality(i, q, step);
    assert(i * step <= q * step);
    lemma_mul_nonnegative(i, step);
}

/// The requested instants of a window, in ascending order: `start`,
/// `start + step`, …, all strictly below `end`.
pub fn sample_instants(w: &Window) -> (r: Vec<Instant>)
    requires
        w.wf(),
    ensures
        r@.len() == w.count_spec(),
        forall|i: int| 0 <= i < r@.len() ==> (#[trigger] r@[i]).ticks == w.instant_ticks(i),
        forall|i: int|
            0 <= i < r@.len() ==> (#[trigger] r@[i]).wf() && w.start.ticks <= r@[i].ticks
                < w.end.ticks,
        forall|i: int| 0 <= i < r@.len() - 1 ==> (#[trigger] r@[i]).ticks < r@[i + 1].ticks,
{
    let n: usize = w.count();
    let mut r: Vec<Instant> = Vec::new();
    let mut i: usize = 0;
    while i < n
        invariant
            w.wf(),
            n == w.count_spec(),
            i <= n,
            r@.len() == i,
            forall|k: int| 0 <= k < i ==> (#[trigger] r@[k]).ticks == w.instant_ticks(k),
        decreases n - i,
    {
        proof {
            lemma_instant_in_window(*w, i as int);
        }
        let t: i64 = w.start.ticks + (i as i64) * w.step_ticks;
        r.push(Instant { ticks: t });
        i += 1;
    }
    proof {
        assert forall|k: int| 0 <= k < r@.len() implies (#[trigger] r@[k]).wf()
            && w.start.ticks <= r@[k].ticks < w.end.ticks by {
            lemma_instant_in_window(*w, k);
        }
        assert forall|k: int| 0 <= k < r@.len() - 1 implies (#[trigger] r@[k]).ticks < r@[k
            + 1].ticks by {
            lemma_mul_is_distributive_add_other_way(w.step_ticks as int, k, 1);
        }
    }
    r
}

/// What a requested instant's sample holds, as a function of the
/// propagation outcome and the instant: the failure itself, the model's
/// rejection, or the geodetic position the frame transform yields.
pub open spec fn sample_result_spec(
    o: Result<PropagatedPoint, PropagationFailure>,
    et: int,
) -> SampleResult {
    match o {
        Result::Err(f) => SampleResult::Failure(f),
        Result::Ok(p) => if !point_in_model(p) {
            SampleResult::Failure(PropagationFailure::InvalidValue)
        } else {
            SampleResult::Position(
                GeodeticPosition {
                    lat_udeg: (QUARTER_TURN_UDEG - p.phi_udeg) as i64,
                    lon_udeg: wrap_lon_spec(p.theta_udeg - sidereal_udeg_spec(et)) as i64,
                },
            )
        },
    }
}

/// Assembles one satellite's ground track from the window's outcomes: one
/// sample per requested instant, in ascending instant order, each pinned by
/// [`sample_result_spec`].  A failed outcome fills only its own slot;
/// sampling continues for the rest.  The result is a pure function of
/// `(w, outcomes)`.
pub fn build_track(
    w: &Window,
    outcomes: &Vec<Result<PropagatedPoint, PropagationFailure>>,
) -> (t: GroundTrack)
    requires
        w.wf(),
        outcomes@.len() == w.count_spec(),
    ensures
        t.samples@.len() == w.count_spec(),
        forall|i: int|
            0 <= i < t.samples@.len() ==> (#[trigger] t.samples@[i]).at.ticks
                == w.instant_ticks(i) && t.samples@[i].result == sample_result_spec(
                outcomes@[i],
                w.instant_ticks(i),
            ),
{
    let instants: Vec<Instant> = sample_instants(w);
    let n: usize = instants.len();
    let mut samples: Vec<Sample> = Vec::new();
    let mut i: usize = 0;
    while i < n
        invariant
            w.wf(),
            outcomes@.len() == w.count_spec(),
            instants@.len() == w.count_spec(),
            forall|k: int|
                0 <= k < instants@.len() ==> (#[trigger] instants@[k]).ticks
                    == w.instant_ticks(k) && instants@[k].wf(),
            n == instants@.len(),
            i <= n,
            samples@.len() == i,
            forall|k: int|
                0 <= k < i ==> (#[trigger] samples@[k]).at.ticks == w.instant_ticks(k)
                    && samples@[k].result == sample_result_spec(
                    outcomes@[k],
                    w.instant_ticks(k),
                ),
        decreases n - i,
    {
        let at: Instant = instants[i];
        let o: Result<PropagatedPoint, PropagationFailure> = outcomes[i];
        let result: SampleResult = match o {
            Err(f) => SampleResult::Failure(f),
            Ok(p) => {
                match InertialPosition::new(p.x_um, p.y_um, p.z_um) {
                    None => SampleResult::Failure(PropagationFailure::InvalidValue),
                    Some(pos) => {
                        match to_spherical(&pos, p.theta_udeg, p.phi_udeg) {
                            None => SampleResult::Failure(PropagationFailure::InvalidValue),
                            Some(s) => SampleResult::Position(to_geodetic(&s, &at)),
                        }
                    },
                }
            },
        };
        samples.push(Sample { at, result });
        i += 1;
    }
    GroundTrack { samples }
}

impl GroundTrack {
    /// Number of samples.
    pub fn len(&self) -> (n: usize)
        ensures
            n == self.samples@.len(),
    {
        self.samples.len()
    }

    /// The i-th sample, when the track has one.
    pub fn get(&self, i: usize) -> (r: Option<&Sample>)
        ensures
            if i < self.samples@.len() {
                r matches Some(s) && *s == self.samples@[i as int]
            } else {
                r is None
            },
    {
        if i < self.samples.len() {
            Some(&self.samples[i])
        } else {
            None
        }
    }
}

} // verus!
