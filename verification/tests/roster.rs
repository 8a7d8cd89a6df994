use groundtrack::snapshot::{
    build_snapshot, filter_roster, name_starts_with, refresh_window, ElementSet,
    DEFAULT_STEP_TICKS, DEFAULT_WINDOW_TICKS,
};
use groundtrack::time::Instant;
use groundtrack::track::{build_track, PropagatedPoint, PropagationFailure};

const EPOCH_TEXT: &str = "2024-03-01T12:00:00.000000";

fn entry(id: u64, name: &str) -> ElementSet {
    ElementSet::new(id, name.as_bytes().to_vec(), EPOCH_TEXT).expect("epoch should parse")
}

#[test]
fn element_set_parses_its_epoch() {
    let e = entry(63_000, "KUIPER-00010");
    assert_eq!(e.norad_id, 63_000);
    assert_eq!(e.name, b"KUIPER-00010".to_vec());
    // Roughly 24 years after the reference epoch.
    assert!(e.epoch.ticks > 7_000_000_000_000_000);
    assert!(ElementSet::new(1, vec![], "no epoch here").is_none());
}

#[test]
fn prefix_test_is_exact() {
    let name = b"KUIPER-00010".to_vec();
    assert!(name_starts_with(&name, &b"KUIPER".to_vec()));
    assert!(name_starts_with(&name, &b"".to_vec()));
    assert!(name_starts_with(&name, &name.clone()));
    assert!(!name_starts_with(&name, &b"KUIPER-00010X".to_vec()));
    assert!(!name_starts_with(&name, &b"UIPER".to_vec()));
    assert!(!name_starts_with(&b"AKUIPER".to_vec(), &b"KUIPER".to_vec()));
}

#[test]
fn roster_filter_keeps_matches_in_order() {
    // Names that merely contain the prefix must not pass.
    let roster = vec![
        entry(1, "KUIPER-00010"),
        entry(2, "AKUIPER-1"),
        entry(3, "STARLINK-3550"),
        entry(4, "KUIPER-00020"),
        entry(5, "KUI"),
        entry(6, "KUIPER"),
    ];
    let kept = filter_roster(roster, &b"KUIPER".to_vec());
    let ids: Vec<u64> = kept.iter().map(|e| e.norad_id).collect();
    assert_eq!(ids, vec![1, 4, 6]);
    assert_eq!(kept[0].name, b"KUIPER-00010".to_vec());
}

#[test]
fn roster_filter_empty_prefix_keeps_all() {
    let roster = vec![entry(1, "A"), entry(2, "")];
    let kept = filter_roster(roster, &b"".to_vec());
    assert_eq!(kept.len(), 2);
}

#[test]
fn roster_filter_can_keep_nothing() {
    let roster = vec![entry(1, "STARLINK-1"), entry(2, "ISS (ZARYA)")];
    let kept = filter_roster(roster, &b"KUIPER".to_vec());
    assert_eq!(kept.len(), 0);
}

#[test]
fn snapshot_pairs_every_roster_entry() {
    let roster = vec![entry(7, "KUIPER-00007"), entry(8, "KUIPER-00008")];
    let now = Instant { ticks: 7_600_000_000_000_000 };
    let w = refresh_window(&now, DEFAULT_WINDOW_TICKS, DEFAULT_STEP_TICKS);
    let mut tracks = Vec::new();
    for i in 0..roster.len() {
        let mut outcomes: Vec<Result<PropagatedPoint, PropagationFailure>> = Vec::new();
        for _ in 0..38 {
            outcomes.push(if i == 0 {
                Ok(PropagatedPoint {
                    x_um: 7_000_000_000,
                    y_um: 0,
                    z_um: 0,
                    theta_udeg: 0,
                    phi_udeg: 90_000_000,
                })
            } else {
                Err(PropagationFailure::ServiceError)
            });
        }
        tracks.push(build_track(&w, &outcomes));
    }
    let expected: Vec<Vec<groundtrack::track::Sample>> =
        tracks.iter().map(|t| t.samples.clone()).collect();
    let snap = build_snapshot(&roster, tracks);
    assert_eq!(snap.len(), 2);
    assert_eq!(snap.entries[0].norad_id, 7);
    assert_eq!(snap.entries[1].norad_id, 8);
    assert_eq!(snap.entries[0].name, b"KUIPER-00007".to_vec());
    assert_eq!(snap.entries[1].name, b"KUIPER-00008".to_vec());
    // One satellite's failures never leak into another entry's track.
    assert_eq!(snap.entries[0].track.samples, expected[0]);
    assert_eq!(snap.entries[1].track.samples, expected[1]);
}

#[test]
fn refresh_window_spans_one_period() {
    let now = Instant { ticks: 42 };
    let w = refresh_window(&now, DEFAULT_WINDOW_TICKS, DEFAULT_STEP_TICKS);
    assert_eq!(w.start.ticks, 42);
    assert_eq!(w.end.ticks, 42 + DEFAULT_WINDOW_TICKS);
    assert_eq!(w.step_ticks, DEFAULT_STEP_TICKS);
}

#[test]
fn snapshot_lookup_by_identity() {
    let roster = vec![entry(11, "KUIPER-A"), entry(22, "KUIPER-B")];
    let w = refresh_window(&Instant { ticks: 0 }, DEFAULT_WINDOW_TICKS, DEFAULT_STEP_TICKS);
    let empty: Vec<Result<PropagatedPoint, PropagationFailure>> =
        vec![Err(PropagationFailure::ServiceError); 38];
    let tracks = vec![build_track(&w, &empty), build_track(&w, &empty)];
    let snap = build_snapshot(&roster, tracks);
    assert_eq!(snap.find(22).unwrap().name, b"KUIPER-B".to_vec());
    assert_eq!(snap.find(11).unwrap().norad_id, 11);
    assert!(snap.find(33).is_none());
}

#[test]
fn element_set_rejects_wide_subsecond_epoch() {
    assert!(ElementSet::new(9, b"KUIPER-X".to_vec(), "2024-01-01T00:00:00.1234567890").is_none());
    assert!(ElementSet::new(9, b"KUIPER-X".to_vec(), "2024-01-01T00:00:00.123456789").is_some());
}
