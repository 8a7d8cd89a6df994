use core::str::FromStr;
use groundtrack::time::{parse_epoch, sidereal_ticks, Instant, DAY_TICKS, MAX_INSTANT_TICKS};

/// The float rendition of the same Greenwich mean sidereal time series, for
/// cross-checking the fixed-point computation.
fn sidereal_seconds_f64(et_sec: f64) -> f64 {
    let s = et_sec.rem_euclid(86400.0) - 43269.1839244;
    let t = (et_sec - s) / 86400.0 / 36525.0;
    let h0 = 24110.54841 + 8640184.812866 * t + 0.093104 * t * t;
    let h1 = 1.00273790935 + 5.9e-11 * t;
    (h0 + h1 * s).rem_euclid(86400.0)
}

#[test]
fn sidereal_range_over_many_instants() {
    // 1000 instants spanning nearly six centuries around J2000.
    for k in 0..1000i64 {
        let ticks = -300_000_000_000_000_000 + k * 600_000_000_000_000;
        assert!(ticks.abs() <= MAX_INSTANT_TICKS);
        let r = sidereal_ticks(&Instant { ticks });
        assert!(0 <= r && r < DAY_TICKS);
    }
}

#[test]
fn sidereal_exact_at_reference_epoch() {
    let r = sidereal_ticks(&Instant { ticks: 0 });
    assert_eq!(r, 672_413_644_769);
}

#[test]
fn sidereal_exact_twenty_four_years_on() {
    // 757382400 seconds after the reference epoch.
    let r = sidereal_ticks(&Instant { ticks: 7_573_824_000_000_000 });
    assert_eq!(r, 672_857_249_277);
}

#[test]
fn sidereal_matches_float_series() {
    for k in 0..400i64 {
        let ticks = -3_000_000_000_000_000 + k * 98_765_432_100_000;
        let r = sidereal_ticks(&Instant { ticks });
        let want = sidereal_seconds_f64(ticks as f64 / 1.0e7);
        let got = r as f64 / 1.0e7;
        let diff = (got - want).abs();
        // Both may sit on either side of the day wrap.
        let diff = diff.min((diff - 86400.0).abs());
        assert!(diff < 1.0e-3, "ticks {ticks}: got {got}, want {want}");
    }
}

#[test]
fn parse_epoch_matches_hifitime() {
    let text = "2020-12-20T13:30:01.123456";
    let parsed = parse_epoch(text).expect("datetime should parse");
    let ns = hifitime::Epoch::from_str("2020-12-20T13:30:01.123456 UTC")
        .unwrap()
        .to_et_duration()
        .total_nanoseconds();
    assert_eq!(parsed.ticks as i128, ns.div_euclid(100));
}

#[test]
fn parse_epoch_rejects_garbage() {
    assert!(parse_epoch("not a datetime").is_none());
    assert!(parse_epoch("").is_none());
}

#[test]
fn parse_epoch_rejects_far_past() {
    // Far outside the model's ten-century span.
    assert!(parse_epoch("0100-01-01T00:00:00").is_none());
}

#[test]
fn instant_bounds() {
    assert!(Instant::from_ticks(MAX_INSTANT_TICKS).is_some());
    assert!(Instant::from_ticks(-MAX_INSTANT_TICKS).is_some());
    assert!(Instant::from_ticks(MAX_INSTANT_TICKS + 1).is_none());
    let a = Instant { ticks: 500 };
    let b = Instant { ticks: -200 };
    assert_eq!(a.elapsed_since(&b), 700);
}

#[test]
fn parse_epoch_rejects_wide_subsecond_fields() {
    // A ten-digit fractional-second field; the parser cannot take it.
    assert!(parse_epoch("2024-01-01T00:00:00.1234567890").is_none());
    assert!(parse_epoch("2024-01-01T00:00:00.123456789012345").is_none());
    // Nine digits are the widest field that parses.
    assert!(parse_epoch("2024-01-01T00:00:00.123456789").is_some());
}
