//! The satellite roster and the per-cycle snapshot aggregator.
//!
//! An [`ElementSet`] carries what the core reads of one satellite: catalog
//! id, display name, and the reference epoch of its orbital parameters (the
//! parameters themselves belong to the propagation service).  Each refresh
//! cycle builds one [`Snapshot`]: the full roster paired with freshly
//! sampled ground tracks, a complete independent value with no state shared
//! across cycles.

use crate::time::{has_wide_subseconds, Instant, MAX_INSTANT_TICKS, utc_epoch_ns_of, parse_epoch};
use crate::track::{GroundTrack, Window};
use vstd::prelude::*;

verus! {

/// Default refresh window length: one estimated near-circular low-orbit
/// period, 94.5 minutes of ticks.
pub const DEFAULT_WINDOW_TICKS: i64 = 56_700_000_000;

/// Default sampling step: 2.5 minutes of ticks.
pub const DEFAULT_STEP_TICKS: i64 = 1_500_000_000;

/// One satellite's identity and reference epoch, immutable for a run.
#[derive(Debug)]
pub struct ElementSet {
    /// Catalog number.
    pub norad_id: u64,
    /// Display name, as bytes.
    pub name: Vec<u8>,
    /// Reference epoch of the orbital parameters.
    pub epoch: Instant,
}

impl ElementSet {
    /// The reference epoch lies within the model's span.
    pub open spec fn wf(self) -> bool {
        self.epoch.wf()
    }

    /// Builds an element set, parsing the reference epoch from its datetime
    /// text; `None` when the text holds an over-wide fractional-second
    /// field, does not parse, or falls outside the model's span.
    pub fn new(norad_id: u64, name: Vec<u8>, epoch_text: &str) -> (r: Option<ElementSet>)
        ensures
            has_wide_subseconds(epoch_text@) ==> r is None,
            !has_wide_subseconds(epoch_text@) ==> match utc_epoch_ns_of(epoch_text@) {
                Option::None => r is None,
                Option::Some(ns) => {
                    let t = (ns as int) / 100;
                    if -MAX_INSTANT_TICKS <= t <= MAX_INSTANT_TICKS {
                        r matches Some(e) && e.norad_id == norad_id && e.name@ == name@
                            && e.epoch.ticks == t && e.wf()
                    } else {
                        r is None
                    }
                },
            },
    {
        match parse_epoch(epoch_text) {
            None => None,
            Some(epoch) => Some(ElementSet { norad_id, name, epoch }),
        }
    }
}

/// `prefix` is an initial segment of `name`.
pub open spec fn is_name_prefix(prefix: Seq<u8>, name: Seq<u8>) -> bool {
    prefix.len() <= name.len() && name.subrange(0, prefix.len() as int) == prefix
}

/// The roster filter's predicate: the element set's display name starts
/// with the prefix.
pub open spec fn matches_prefix(prefix: Seq<u8>) -> spec_fn(ElementSet) -> bool {
    |e: ElementSet| is_name_prefix(prefix, e.name@)
}

/// Whether `name` starts with `prefix`, byte for byte.
pub fn name_starts_with(name: &Vec<u8>, prefix: &Vec<u8>) -> (b: bool)
    ensures
        b == is_name_prefix(prefix@, name@),
{
    if prefix.len() > name.len() {
        return false;
    }
    let mut i: usize = 0;
    while i < prefix.len()
        invariant
            i <= prefix@.len() <= name@.len(),
            forall|k: int| 0 <= k < i ==> name@[k] == prefix@[k],
        decreases prefix@.len() - i,
    {
        if name[i] != prefix[i] {
            proof {
                assert(name@.subrange(0, prefix@.len() as int)[i as int] == name@[i as int]);
            }
            return false;
        }
        i += 1;
    }
    proof {
        assert(name@.subrange(0, prefix@.len() as int) =~= prefix@);
    }
    true
}

/// Appending one element filters to the old result, plus the element when
/// the predicate holds of it.
proof fn lemma_filter_push<A>(s: Seq<A>, pred: spec_fn(A) -> bool, e: A)
    ensures
        s.push(e).filter(pred) == if pred(e) {
            s.filter(pred).push(e)
        } else {
            s.filter(pred)
        },
{
    reveal(Seq::filter);
    let t = s.push(e);
    assert(t.len() == s.len() + 1);
    assert(t.last() == e);
    assert(t.drop_last() =~= s);
}

/// Keeps exactly the element sets whose display name starts with `prefix`,
/// in their original relative order: names that merely contain the prefix
/// do not pass.
pub fn filter_roster(roster: Vec<ElementSet>, prefix: &Vec<u8>) -> (r: Vec<ElementSet>)
    ensures
        r@ == roster@.filter(matches_prefix(prefix@)),
{
    let ghost orig: Seq<ElementSet> = roster@;
    let ghost pred = matches_prefix(prefix@);
    let mut rest: Vec<ElementSet> = roster;
    let mut out: Vec<ElementSet> = Vec::new();
    proof {
        reveal(Seq::filter);
        assert(orig.subrange(0, 0) =~= Seq::<ElementSet>::empty());
        assert(out@ == orig.subrange(0, 0).filter(pred));
    }
    while rest.len() > 0
        invariant
            rest@.len() <= orig.len(),
            rest@ == orig.subrange(orig.len() - rest@.len(), orig.len() as int),
            out@ == orig.subrange(0, orig.len() - rest@.len()).filter(pred),
            pred == matches_prefix(prefix@),
        decreases rest@.len(),
    {
        let ghost k: int = orig.len() - rest@.len();
        proof {
            assert(rest@[0] == orig[k]);
        }
        let e: ElementSet = rest.remove(0);
        proof {
            assert(rest@ =~= orig.subrange(k + 1, orig.len() as int));
            assert(orig.subrange(0, k + 1) =~= orig.subrange(0, k).push(orig[k]));
            lemma_filter_push(orig.subrange(0, k), pred, orig[k]);
        }
        if name_starts_with(&e.name, prefix) {
            proof {
                assert(pred(e));
            }
            out.push(e);
        } else {
            proof {
                assert(!pred(e));
            }
        }
    }
    proof {
        assert(orig.subrange(0, orig.len() as int) =~= orig);
    }
    out
}

/// A byte-for-byte copy.
fn copy_bytes(v: &Vec<u8>) -> (r: Vec<u8>)
    ensures
        r@ == v@,
{
    let mut r: Vec<u8> = Vec::new();
    let mut i: usize = 0;
    while i < v.len()
        invariant
            i <= v@.len(),
            r@ == v@.subrange(0, i as int),
        decreases v@.len() - i,
    {
        r.push(v[i]);
        proof {
            assert(r@ =~= v@.subrange(0, i + 1));
        }
        i += 1;
    }
    proof {
        assert(v@.subrange(0, v@.len() as int) =~= v@);
    }
    r
}

/// One roster entry of a snapshot: the satellite's identity and its
/// freshly sampled ground track.
#[derive(Debug)]
pub struct TrackedSatellite {
    pub norad_id: u64,
    pub name: Vec<u8>,
    pub track: GroundTrack,
}

/// One refresh cycle's result: every tracked satellite mapped to its
/// current ground track, in roster order.
#[derive(Debug)]
pub struct Snapshot {
    pub entries: Vec<TrackedSatellite>,
}

/// The refresh window of one cycle: `[now, now + period)`, stepped by
/// `step`.
pub fn refresh_window(now: &Instant, period_ticks: i64, step_ticks: i64) -> (w: Window)
    requires
        now.wf(),
        0 < period_ticks,
        0 < step_ticks,
        now.ticks + period_ticks <= MAX_INSTANT_TICKS,
        (period_ticks - 1) / (step_ticks as int) + 1 <= 0xFFFF_FFFF,
    ensures
        w.start == *now,
        w.end.ticks == now.ticks + period_ticks,
        w.step_ticks == step_ticks,
        w.wf(),
{
    let end = Instant { ticks: now.ticks + period_ticks };
    Window { start: *now, end, step_ticks }
}

/// Pairs every roster entry with its sampled track, in roster order; the
/// sole artifact a cycle exposes.  Entries share nothing: each track slots
/// in unchanged, whatever the others hold.
pub fn build_snapshot(roster: &Vec<ElementSet>, tracks: Vec<GroundTrack>) -> (s: Snapshot)
    requires
        tracks@.len() == roster@.len(),
    ensures
        s.entries@.len() == roster@.len(),
        forall|i: int|
            0 <= i < roster@.len() ==> (#[trigger] s.entries@[i]).norad_id
                == roster@[i].norad_id && s.entries@[i].name@ == roster@[i].name@
                && s.entries@[i].track.samples@ == tracks@[i].samples@,
{
    let ghost orig_tracks: Seq<GroundTrack> = tracks@;
    let mut rest: Vec<GroundTrack> = tracks;
    let mut entries: Vec<TrackedSatellite> = Vec::new();
    let mut i: usize = 0;
    while i < roster.len()
        invariant
            roster@.len() == orig_tracks.len(),
            i <= roster@.len(),
            entries@.len() == i,
            rest@ =~= orig_tracks.subrange(i as int, orig_tracks.len() as int),
            forall|k: int|
                0 <= k < i ==> (#[trigger] entries@[k]).norad_id == roster@[k].norad_id
                    && entries@[k].name@ == roster@[k].name@ && entries@[k].track.samples@
                    == orig_tracks[k].samples@,
        decreases roster@.len() - i,
    {
        proof {
            assert(rest@[0] == orig_tracks[i as int]);
        }
        let track: GroundTrack = rest.remove(0);
        proof {
            assert(rest@ =~= orig_tracks.subrange(i + 1, orig_tracks.len() as int));
        }
        let name: Vec<u8> = copy_bytes(&roster[i].name);
        let norad_id: u64 = roster[i].norad_id;
        entries.push(TrackedSatellite { norad_id, name, track });
        i += 1;
    }
    Snapshot { entries }
}

impl Snapshot {
    /// Number of tracked satellites.
    pub fn len(&self) -> (n: usize)
        ensures
            n == self.entries@.len(),
    {
        self.entries.len()
    }

    /// Looks a satellite up by identity: an entry with that catalog number,
    /// exactly when the snapshot holds one.
    pub fn find(&self, norad_id: u64) -> (r: Option<&TrackedSatellite>)
        ensures
            (r is Some) == exists|i: int|
                0 <= i < self.entries@.len() && (#[trigger] self.entries@[i]).norad_id
                    == norad_id,
            r matches Some(e) ==> e.norad_id == norad_id && exists|i: int|
                0 <= i < self.entries@.len() && #[trigger] self.entries@[i] == *e,
    {
        let mut i: usize = 0;
        while i < self.entries.len()
            invariant
                i <= self.entries@.len(),
                forall|k: int|
                    0 <= k < i ==> (#[trigger] self.entries@[k]).norad_id != norad_id,
            decreases self.entries@.len() - i,
        {
            if self.entries[i].norad_id == norad_id {
                proof {
                    assert(self.entries@[i as int].norad_id == norad_id);
                }
                return Some(&self.entries[i]);
            }
            i += 1;
        }
        None
    }
}

} // verus!
