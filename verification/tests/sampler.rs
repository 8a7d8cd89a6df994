use groundtrack::snapshot::{refresh_window, DEFAULT_STEP_TICKS, DEFAULT_WINDOW_TICKS};
use groundtrack::time::Instant;
use groundtrack::track::{
    build_track, sample_instants, PropagatedPoint, PropagationFailure, SampleResult, Window,
};

fn good_point() -> PropagatedPoint {
    PropagatedPoint {
        x_um: 7_000_000_000,
        y_um: 0,
        z_um: 0,
        theta_udeg: 45_000_000,
        phi_udeg: 90_000_000,
    }
}

fn default_window(t0: i64) -> Window {
    refresh_window(&Instant { ticks: t0 }, DEFAULT_WINDOW_TICKS, DEFAULT_STEP_TICKS)
}

#[test]
fn default_window_yields_thirty_eight_samples() {
    // A 94.5 minute window stepped by 2.5 minutes.
    let t0 = 7_573_824_000_000_000i64;
    let w = default_window(t0);
    let instants = sample_instants(&w);
    assert_eq!(instants.len(), 38);
    assert_eq!(instants[0].ticks, t0);
    // The last instant is 37 steps (92.5 minutes) after t0, before the end.
    assert_eq!(instants[37].ticks, t0 + 37 * DEFAULT_STEP_TICKS);
    assert!(instants[37].ticks < w.end.ticks);
    for i in 1..38 {
        assert_eq!(instants[i].ticks - instants[i - 1].ticks, DEFAULT_STEP_TICKS);
    }
}

#[test]
fn window_count_edge_cases() {
    // Empty when the window has no width, exact when the step divides it.
    let z = Window { start: Instant { ticks: 5 }, end: Instant { ticks: 5 }, step_ticks: 10 };
    assert_eq!(z.count(), 0);
    assert_eq!(sample_instants(&z).len(), 0);
    let inv = Window { start: Instant { ticks: 9 }, end: Instant { ticks: 2 }, step_ticks: 10 };
    assert_eq!(inv.count(), 0);
    let exact = Window {
        start: Instant { ticks: 0 },
        end: Instant { ticks: 100 },
        step_ticks: 10,
    };
    assert_eq!(exact.count(), 10);
    let ragged = Window {
        start: Instant { ticks: 0 },
        end: Instant { ticks: 101 },
        step_ticks: 10,
    };
    assert_eq!(ragged.count(), 11);
    let one = Window { start: Instant { ticks: 0 }, end: Instant { ticks: 1 }, step_ticks: 10 };
    assert_eq!(one.count(), 1);
}

#[test]
fn tenth_instant_failure_stays_isolated() {
    // The 10th requested instant fails; the other 37 still carry positions.
    let w = default_window(0);
    let mut outcomes: Vec<Result<PropagatedPoint, PropagationFailure>> = Vec::new();
    for i in 0..38 {
        if i == 9 {
            outcomes.push(Err(PropagationFailure::ServiceError));
        } else {
            outcomes.push(Ok(good_point()));
        }
    }
    let track = build_track(&w, &outcomes);
    assert_eq!(track.len(), 38);
    for (i, sample) in track.samples.iter().enumerate() {
        assert_eq!(sample.at.ticks, (i as i64) * DEFAULT_STEP_TICKS);
        if i == 9 {
            assert!(matches!(
                sample.result,
                SampleResult::Failure(PropagationFailure::ServiceError)
            ));
        } else {
            assert!(matches!(sample.result, SampleResult::Position(_)));
        }
    }
}

#[test]
fn out_of_model_values_become_invalid_value_failures() {
    let w = Window { start: Instant { ticks: 0 }, end: Instant { ticks: 3 }, step_ticks: 1 };
    let mut bad_coord = good_point();
    bad_coord.x_um = groundtrack::frame::MAX_COORD_UM + 1;
    let mut bad_angle = good_point();
    bad_angle.phi_udeg = 180_000_001;
    let outcomes = vec![Ok(bad_coord), Ok(bad_angle), Ok(good_point())];
    let track = build_track(&w, &outcomes);
    assert_eq!(track.len(), 3);
    assert!(matches!(
        track.samples[0].result,
        SampleResult::Failure(PropagationFailure::InvalidValue)
    ));
    assert!(matches!(
        track.samples[1].result,
        SampleResult::Failure(PropagationFailure::InvalidValue)
    ));
    assert!(matches!(track.samples[2].result, SampleResult::Position(_)));
}

#[test]
fn sampling_twice_is_identical() {
    // Same (elements, window) arguments, identical output sequences.
    let w = default_window(7_573_824_000_000_000);
    let mut outcomes: Vec<Result<PropagatedPoint, PropagationFailure>> = Vec::new();
    for i in 0..38i64 {
        if i % 7 == 3 {
            outcomes.push(Err(PropagationFailure::ServiceError));
        } else {
            let mut p = good_point();
            p.theta_udeg = -170_000_000 + i * 9_000_000;
            outcomes.push(Ok(p));
        }
    }
    let first = build_track(&w, &outcomes);
    let second = build_track(&w, &outcomes);
    assert_eq!(first.samples, second.samples);
    assert_eq!(sample_instants(&w), sample_instants(&w));
}

#[test]
fn geodetic_samples_match_frame_transform() {
    let w = Window { start: Instant { ticks: 0 }, end: Instant { ticks: 1 }, step_ticks: 1 };
    let outcomes = vec![Ok(good_point())];
    let track = build_track(&w, &outcomes);
    match track.samples[0].result {
        SampleResult::Position(g) => {
            assert_eq!(g.lat_udeg, 0);
            // theta 45° minus the reference epoch's 280.172351° rotation.
            assert_eq!(g.lon_udeg, 45_000_000 - 280_172_351 + 360_000_000);
        },
        SampleResult::Failure(_) => panic!("expected a position"),
    }
}

#[test]
fn track_samples_are_indexable() {
    let w = Window { start: Instant { ticks: 0 }, end: Instant { ticks: 5 }, step_ticks: 2 };
    let outcomes = vec![Ok(good_point()), Err(PropagationFailure::ServiceError), Ok(good_point())];
    let track = build_track(&w, &outcomes);
    assert_eq!(track.len(), 3);
    assert_eq!(track.get(1).unwrap().at.ticks, 2);
    assert!(matches!(
        track.get(1).unwrap().result,
        SampleResult::Failure(PropagationFailure::ServiceError)
    ));
    assert!(track.get(3).is_none());
}
