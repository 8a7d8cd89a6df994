//! Absolute instants and the sidereal time calculator.
//!
//! An [`Instant`] is a count of 100 ns ticks of ephemeris (terrestrial) time
//! since the J2000 reference epoch (Julian date 2451545.0).  Sidereal time —
//! the rotation angle of the Earth against the inertial frame — is computed
//! from an instant alone, in the same fixed-point ticks.

use crate::num::{div_e, lemma_div_range, mod_e};
use vstd::string::StrSliceExecFns;
use core::str::FromStr;
use vstd::arithmetic::div_mod::{
    lemma_fundamental_div_mod, lemma_mod_division_less_than_divisor,
};
use vstd::prelude::*;

verus! {

/// Ticks per second: one tick is 100 ns.
pub const TICKS_PER_SECOND: i64 = 10_000_000;

/// Ticks per day of 86400 seconds.
pub const DAY_TICKS: i64 = 864_000_000_000;

/// Largest magnitude of an instant the model admits: ten centuries of days
/// (36525 days each) on either side of J2000, far beyond any element-set
/// epoch, and small enough that every intermediate product below fits `i128`.
pub const MAX_INSTANT_TICKS: i64 = 315_576_000_000_000_000;

/// Seconds (in ticks) between terrestrial-time midnight and the sidereal
/// reference: 43269.1839244 s.
pub const GMST_REF_OFFSET_TICKS: i64 = 432_691_839_244;

/// One Julian century (36525 days) in ticks.
pub const CENTURY_TICKS: i64 = 31_557_600_000_000_000;

/// Sidereal seconds at the preceding midnight, constant term: 24110.54841 s.
pub const GMST_POLY_BASE: i64 = 241_105_484_100;

/// Linear term of the midnight polynomial: 8640184.812866 s per century.
pub const GMST_POLY_T1: i64 = 86_401_848_128_660;

/// Quadratic term of the midnight polynomial: 0.093104 s per century².
pub const GMST_POLY_T2: i64 = 931_040;

/// Sidereal-to-solar rate ratio 1.00273790935, scaled by 10¹¹.
pub const GMST_RATE_BASE_E11: i64 = 100_273_790_935;

/// An absolute point in time: ticks of ephemeris time since J2000.
#[derive(Clone, Copy, Debug, PartialEq, Eq, Structural)]
pub struct Instant {
    pub ticks: i64,
}

impl Instant {
    /// The instant lies within the model's ten-century span around J2000.
    pub open spec fn wf(self) -> bool {
        -MAX_INSTANT_TICKS <= self.ticks <= MAX_INSTANT_TICKS
    }

    /// Admits a tick count only within the model's span.
    pub fn from_ticks(ticks: i64) -> (r: Option<Instant>)
        ensures
            if -MAX_INSTANT_TICKS <= ticks <= MAX_INSTANT_TICKS {
                r matches Some(i) && i.ticks == ticks && i.wf()
            } else {
                r is None
            },
    {
        if -MAX_INSTANT_TICKS <= ticks && ticks <= MAX_INSTANT_TICKS {
            Some(Instant { ticks })
        } else {
            None
        }
    }

    /// Signed duration, in ticks, from `epoch` to `self`.
    pub fn elapsed_since(&self, epoch: &Instant) -> (d: i64)
        requires
            self.wf(),
            epoch.wf(),
        ensures
            d == self.ticks - epoch.ticks,
    {
        self.ticks - epoch.ticks
    }
}

/// Sidereal time at instant `et` (ticks since J2000), in ticks of a sidereal
/// day clock, always in `[0, DAY_TICKS)`.
///
/// Mirrors the classical Greenwich mean sidereal time series: with `T` the
/// Julian centuries of terrestrial time since J2000 taken at the preceding
/// midnight, the sidereal seconds at midnight are
/// `24110.54841 + 8640184.812866·T + 0.093104·T²`, advanced by the seconds
/// of day times the rate `1.00273790935 + 5.9×10⁻¹¹·T`, all reduced modulo
/// one day.  Scale factors (10¹² on `T`, 10¹¹ on the rate) carry the
/// fractional constants exactly.
pub open spec fn sidereal_ticks_spec(et: int) -> int {
    let day = et / (DAY_TICKS as int);
    let sod = et % (DAY_TICKS as int);
    let s = sod - GMST_REF_OFFSET_TICKS;
    let tn = day * (DAY_TICKS as int) + GMST_REF_OFFSET_TICKS;
    let t_fp = (tn * 1_000_000_000_000) / (CENTURY_TICKS as int);
    let h0 = GMST_POLY_BASE + (GMST_POLY_T1 * t_fp) / 1_000_000_000_000 + (GMST_POLY_T2
        * t_fp * t_fp) / 1_000_000_000_000_000_000_000_000;
    let h1s = ((GMST_RATE_BASE_E11 + (59 * t_fp) / 10_000_000_000_000) * s) / 100_000_000_000;
    (h0 + h1s) % (DAY_TICKS as int)
}

/// Computes [`sidereal_ticks_spec`] exactly; a deterministic pure function of
/// the instant, with its result always inside one day.
pub fn sidereal_ticks(at: &Instant) -> (r: i64)
    requires
        at.wf(),
    ensures
        r == sidereal_ticks_spec(at.ticks as int),
        0 <= r < DAY_TICKS,
{
    let et: i128 = at.ticks as i128;
    let sod: i128 = mod_e(et, DAY_TICKS as i128);
    proof {
        lemma_fundamental_div_mod(et as int, DAY_TICKS as int);
    }
    let s: i128 = sod - (GMST_REF_OFFSET_TICKS as i128);
    // day * DAY_TICKS == et - sod, so the century numerator needs no
    // explicit quotient.
    let tn: i128 = et - sod + (GMST_REF_OFFSET_TICKS as i128);
    let t_fp: i128 = div_e(tn * 1_000_000_000_000, CENTURY_TICKS as i128);
    proof {
        lemma_div_range(
            tn as int * 1_000_000_000_000,
            CENTURY_TICKS as int,
            10_020_000_000_000,
        );
    }
    let q1: i128 = div_e((GMST_POLY_T1 as i128) * t_fp, 1_000_000_000_000);
    proof {
        lemma_div_range(
            GMST_POLY_T1 as int * t_fp as int,
            1_000_000_000_000,
            870_000_000_000_000,
        );
    }
    proof {
        assert((t_fp as int) * (t_fp as int) <= 10_020_000_000_000 * 10_020_000_000_000)
            by (nonlinear_arith)
            requires
                -10_020_000_000_000 <= (t_fp as int) <= 10_020_000_000_000,
        ;
        assert(0 <= (t_fp as int) * (t_fp as int)) by (nonlinear_arith);
    }
    let tsq: i128 = t_fp * t_fp;
    let q2: i128 = div_e((GMST_POLY_T2 as i128) * tsq, 1_000_000_000_000_000_000_000_000);
    proof {
        lemma_div_range(
            GMST_POLY_T2 as int * tsq as int,
            1_000_000_000_000_000_000_000_000,
            100_000_000,
        );
    }
    let h0: i128 = (GMST_POLY_BASE as i128) + q1 + q2;
    let qr: i128 = div_e(59 * t_fp, 10_000_000_000_000);
    proof {
        lemma_div_range(59 * t_fp as int, 10_000_000_000_000, 100);
    }
    let rate: i128 = (GMST_RATE_BASE_E11 as i128) + qr;
    proof {
        assert((rate as int) * (s as int) <= 110_000_000_000 * 864_000_000_000
            && -(110_000_000_000 * 864_000_000_000) <= (rate as int) * (s as int))
            by (nonlinear_arith)
            requires
                0 <= (rate as int) <= 110_000_000_000,
                -864_000_000_000 <= (s as int) <= 864_000_000_000,
        ;
    }
    let prod: i128 = rate * s;
    let h1s: i128 = div_e(prod, 100_000_000_000);
    proof {
        lemma_div_range(prod as int, 100_000_000_000, 1_000_000_000_000);
    }
    let rot: i128 = mod_e(h0 + h1s, DAY_TICKS as i128);
    proof {
        let eti: int = at.ticks as int;
        let dayi: int = eti / (DAY_TICKS as int);
        let sodi: int = eti % (DAY_TICKS as int);
        let si: int = sodi - GMST_REF_OFFSET_TICKS;
        let tni: int = dayi * (DAY_TICKS as int) + GMST_REF_OFFSET_TICKS;
        let t_fpi: int = (tni * 1_000_000_000_000) / (CENTURY_TICKS as int);
        let h0i: int = GMST_POLY_BASE + (GMST_POLY_T1 * t_fpi) / 1_000_000_000_000 + (
        GMST_POLY_T2 * t_fpi * t_fpi) / 1_000_000_000_000_000_000_000_000;
        let h1si: int = ((GMST_RATE_BASE_E11 + (59 * t_fpi) / 10_000_000_000_000) * si)
            / 100_000_000_000;
        assert(sod == sodi);
        assert((DAY_TICKS as int) * dayi == eti - sodi);
        assert(tn == tni);
        assert(t_fp == t_fpi);
        assert(tsq == t_fpi * t_fpi);
        assert((GMST_POLY_T2 as int) * (tsq as int) == GMST_POLY_T2 * t_fpi * t_fpi)
            by (nonlinear_arith)
            requires
                tsq == t_fpi * t_fpi,
        ;
        assert(h0 == h0i);
        assert(s == si);
        assert(prod == (GMST_RATE_BASE_E11 + (59 * t_fpi) / 10_000_000_000_000) * si);
        assert(h1s == h1si);
        assert(rot == (h0i + h1si) % (DAY_TICKS as int));
        assert(rot == sidereal_ticks_spec(eti));
    }
    rot as i64
}

/// The character is an ASCII decimal digit.
pub open spec fn is_decimal_digit(c: char) -> bool {
    48 <= (c as u32) && (c as u32) <= 57
}

/// Position `i` of `s` starts a decimal point followed by ten or more
/// digits: a fractional-second field wider than the parser's nine places.
pub open spec fn wide_subsecond_at(s: Seq<char>, i: int) -> bool {
    &&& i + 10 < s.len()
    &&& s[i] == '.'
    &&& forall|k: int| i < k <= i + 10 ==> is_decimal_digit(#[trigger] s[k])
}

/// The text holds, somewhere, a decimal point followed by ten or more
/// digits.
pub open spec fn has_wide_subseconds(s: Seq<char>) -> bool {
    exists|i: int| 0 <= i < s.len() && wide_subsecond_at(s, i)
}

/// Whether the text holds a decimal point followed by ten or more digits.
pub fn text_has_wide_subseconds(text: &str) -> (b: bool)
    ensures
        b == has_wide_subseconds(text@),
{
    let n: usize = text.unicode_len();
    let mut i: usize = 0;
    while i < n
        invariant
            n == text@.len(),
            i <= n,
            forall|j: int| 0 <= j < i ==> !wide_subsecond_at(text@, j),
        decreases n - i,
    {
        if n - i > 10 && text.get_char(i) == '.' {
            let mut k: usize = 1;
            let mut all_digits: bool = true;
            while k <= 10
                invariant
                    n == text@.len(),
                    i + 10 < n,
                    1 <= k <= 11,
                    text@[i as int] == '.',
                    all_digits == (forall|m: int|
                        i < m < i + k ==> is_decimal_digit(#[trigger] text@[m])),
                decreases 11 - k,
            {
                let c: char = text.get_char(i + k);
                let cv: u32 = c as u32;
                if cv < 48 || cv > 57 {
                    all_digits = false;
                }
                k += 1;
            }
            if all_digits {
                proof {
                    assert(wide_subsecond_at(text@, i as int));
                }
                return true;
            }
        }
        proof {
            assert(!wide_subsecond_at(text@, i as int));
        }
        i += 1;
    }
    false
}

/// Names what hifitime computes for a datetime text: the ephemeris-time
/// nanoseconds since J2000 of the UTC instant the text denotes, or nothing
/// when the text does not parse.
pub uninterp spec fn utc_epoch_ns_of(s: Seq<char>) -> Option<i128>;

/// Relies on hifitime's `Epoch::from_str` (on the text with a ` UTC` suffix
/// appended), `Epoch::to_et_duration` and `Duration::total_nanoseconds`: the
/// result is a function of the text alone.  Its gregorian parser cannot take
/// a fractional-second field of ten or more digits (the subsecond width
/// arithmetic leaves `usize`), so `requires` leaves such texts out.
#[verifier::external_body]
fn utc_epoch_ns(text: &str) -> (r: Option<i128>)
    requires
        !has_wide_subseconds(text@),
    ensures
        r == utc_epoch_ns_of(text@),
{
    let tagged = format!("{} UTC", text);
    match hifitime::Epoch::from_str(&tagged) {
        Ok(epoch) => Some(epoch.to_et_duration().total_nanoseconds()),
        Err(_) => None,
    }
}

/// Parses a UTC datetime text into an [`Instant`], rounding the
/// ephemeris-time nanosecond count down to ticks; `None` when the text
/// holds a fractional-second field wider than nine digits, does not parse,
/// or denotes an instant outside the model's span.
pub fn parse_epoch(text: &str) -> (r: Option<Instant>)
    ensures
        has_wide_subseconds(text@) ==> r is None,
        !has_wide_subseconds(text@) ==> match utc_epoch_ns_of(text@) {
            Option::None => r is None,
            Option::Some(ns) => {
                let t = ns as int / 100;
                if -MAX_INSTANT_TICKS <= t <= MAX_INSTANT_TICKS {
                    r matches Some(i) && i.ticks == t && i.wf()
                } else {
                    r is None
                }
            },
        },
{
    if text_has_wide_subseconds(text) {
        return None;
    }
    match utc_epoch_ns(text) {
        None => None,
        Some(ns) => {
            if ns < -32_000_000_000_000_000_000 || ns > 32_000_000_000_000_000_000 {
                proof {
                    lemma_fundamental_div_mod(ns as int, 100);
                    lemma_mod_division_less_than_divisor(ns as int, 100);
                    assert((ns as int) / 100 < -MAX_INSTANT_TICKS || (ns as int) / 100
                        > MAX_INSTANT_TICKS) by (nonlinear_arith)
                        requires
                            (ns as int) < -32_000_000_000_000_000_000 || (ns as int)
                                > 32_000_000_000_000_000_000,
                            100 * (ns as int / 100) == ns as int - ns as int % 100,
                            0 <= ns as int % 100 < 100,
                    ;
                }
                None
            } else {
                let t128: i128 = div_e(ns, 100);
                proof {
                    lemma_div_range(ns as int, 100, 400_000_000_000_000_000);
                }
                let t: i64 = t128 as i64;
                Instant::from_ticks(t)
            }
        },
    }
}

} // verus!
