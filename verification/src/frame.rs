//! Frame transforms: inertial position to spherical representation, and
//! spherical representation plus absolute time to geodetic
//! latitude/longitude on a rotating spherical Earth.
//!
//! Positions are micrometers, angles microdegrees.

use crate::num::{isqrt, lemma_div_range, mod_e};
use crate::time::{sidereal_ticks, sidereal_ticks_spec, Instant};
use vstd::arithmetic::div_mod::{lemma_fundamental_div_mod, lemma_mod_multiples_basic};
use vstd::prelude::*;

verus! {

/// Microdegrees per degree.
pub const MICRODEG_PER_DEG: i64 = 1_000_000;

/// 90° in microdegrees.
pub const QUARTER_TURN_UDEG: i64 = 90_000_000;

/// 180° in microdegrees.
pub const HALF_TURN_UDEG: i64 = 180_000_000;

/// 360° in microdegrees.
pub const FULL_TURN_UDEG: i64 = 360_000_000;

/// Sidereal ticks per microdegree of Earth rotation: one day of ticks spread
/// over a full turn.
pub const TICKS_PER_UDEG: i64 = 2400;

/// Largest coordinate magnitude the model admits: 100 000 km, far above any
/// Earth orbit, and small enough that a sum of three squares fits `u128`.
pub const MAX_COORD_UM: i64 = 100_000_000_000;

/// A 3-D position in the Earth-centered inertial frame, micrometers.
#[derive(Clone, Copy, Debug, PartialEq, Eq, Structural)]
pub struct InertialPosition {
    pub x_um: i64,
    pub y_um: i64,
    pub z_um: i64,
}

/// A spherical representation of an inertial position: radius `rho`,
/// inertial azimuth `theta` in `(-180°, 180°]`, polar angle `phi` in
/// `[0°, 180°]` measured from the frame's +z axis.
#[derive(Clone, Copy, Debug, PartialEq, Eq, Structural)]
pub struct SphericalPosition {
    pub rho_um: u64,
    pub theta_udeg: i64,
    pub phi_udeg: i64,
}

/// A geodetic position: latitude in `[-90°, 90°]`, longitude in
/// `(-180°, 180°]`, microdegrees.
#[derive(Clone, Copy, Debug, PartialEq, Eq, Structural)]
pub struct GeodeticPosition {
    pub lat_udeg: i64,
    pub lon_udeg: i64,
}

impl InertialPosition {
    /// Every coordinate lies within the model's bound.
    pub open spec fn wf(self) -> bool {
        &&& -MAX_COORD_UM <= self.x_um <= MAX_COORD_UM
        &&& -MAX_COORD_UM <= self.y_um <= MAX_COORD_UM
        &&& -MAX_COORD_UM <= self.z_um <= MAX_COORD_UM
    }

    /// Squared Euclidean norm.
    pub open spec fn norm_sq(self) -> int {
        self.x_um * self.x_um + self.y_um * self.y_um + self.z_um * self.z_um
    }

    /// Admits coordinates only within the model's bound.
    pub fn new(x_um: i64, y_um: i64, z_um: i64) -> (r: Option<InertialPosition>)
        ensures
            if -MAX_COORD_UM <= x_um <= MAX_COORD_UM && -MAX_COORD_UM <= y_um <= MAX_COORD_UM
                && -MAX_COORD_UM <= z_um <= MAX_COORD_UM {
                r matches Some(p) && p.x_um == x_um && p.y_um == y_um && p.z_um == z_um && p.wf()
            } else {
                r is None
            },
    {
        if -MAX_COORD_UM <= x_um && x_um <= MAX_COORD_UM && -MAX_COORD_UM <= y_um && y_um
            <= MAX_COORD_UM && -MAX_COORD_UM <= z_um && z_um <= MAX_COORD_UM {
            Some(InertialPosition { x_um, y_um, z_um })
        } else {
            None
        }
    }
}

/// Square of a bounded coordinate, as an unsigned wide value.
fn coord_sq(v: i64) -> (r: u128)
    requires
        -MAX_COORD_UM <= v <= MAX_COORD_UM,
    ensures
        r == v * v,
        r <= MAX_COORD_UM * MAX_COORD_UM,
{
    let a: u128 = if v >= 0 {
        v as u128
    } else {
        (-v) as u128
    };
    proof {
        assert((a as int) * (a as int) == (v as int) * (v as int) && (a as int) * (a as int)
            <= MAX_COORD_UM * MAX_COORD_UM) by (nonlinear_arith)
            requires
                -MAX_COORD_UM <= v <= MAX_COORD_UM,
                a == if v >= 0 { v as int } else { -(v as int) },
        ;
    }
    a * a
}

/// Radius of the spherical representation: the integer floor of
/// `sqrt(x² + y² + z²)`.
pub fn rho_floor_um(p: &InertialPosition) -> (r: u64)
    requires
        p.wf(),
    ensures
        r * r <= p.norm_sq() < (r + 1) * (r + 1),
{
    let sx: u128 = coord_sq(p.x_um);
    let sy: u128 = coord_sq(p.y_um);
    let sz: u128 = coord_sq(p.z_um);
    isqrt(sx + sy + sz)
}

/// Builds the spherical representation of `p` from its radius and the two
/// azimuth/polar angles; rejects angles outside their ranges.
///
/// The angles themselves are transcendental in the coordinates and are
/// supplied by the caller; the radius is computed and pinned here.
pub fn to_spherical(p: &InertialPosition, theta_udeg: i64, phi_udeg: i64) -> (r: Option<
    SphericalPosition,
>)
    requires
        p.wf(),
    ensures
        if -HALF_TURN_UDEG < theta_udeg <= HALF_TURN_UDEG && 0 <= phi_udeg <= HALF_TURN_UDEG {
            r matches Some(s) && s.theta_udeg == theta_udeg && s.phi_udeg == phi_udeg && s.wf()
                && s.rho_um * s.rho_um <= p.norm_sq() < (s.rho_um + 1) * (s.rho_um + 1)
        } else {
            r is None
        },
{
    if -HALF_TURN_UDEG < theta_udeg && theta_udeg <= HALF_TURN_UDEG && 0 <= phi_udeg && phi_udeg
        <= HALF_TURN_UDEG {
        let rho_um: u64 = rho_floor_um(p);
        Some(SphericalPosition { rho_um, theta_udeg, phi_udeg })
    } else {
        None
    }
}

impl SphericalPosition {
    /// Azimuth in `(-180°, 180°]`, polar angle in `[0°, 180°]`.
    pub open spec fn wf(self) -> bool {
        &&& -HALF_TURN_UDEG < self.theta_udeg <= HALF_TURN_UDEG
        &&& 0 <= self.phi_udeg <= HALF_TURN_UDEG
    }
}

impl GeodeticPosition {
    /// Latitude in `[-90°, 90°]`, longitude in `(-180°, 180°]`.
    pub open spec fn wf(self) -> bool {
        &&& -QUARTER_TURN_UDEG <= self.lat_udeg <= QUARTER_TURN_UDEG
        &&& -HALF_TURN_UDEG < self.lon_udeg <= HALF_TURN_UDEG
    }
}

/// The representative of `x` modulo a full turn inside `(-180°, 180°]`.
pub open spec fn wrap_lon_spec(x: int) -> int {
    HALF_TURN_UDEG - ((HALF_TURN_UDEG - x) % (FULL_TURN_UDEG as int))
}

/// Wraps an angle into `(-180°, 180°]` by a true reduction modulo 360°, so
/// any skew — however many turns — normalizes correctly.
pub fn wrap_lon(x: i64) -> (r: i64)
    ensures
        r == wrap_lon_spec(x as int),
        -HALF_TURN_UDEG < r <= HALF_TURN_UDEG,
        (x - r) % (FULL_TURN_UDEG as int) == 0,
{
    let m: i128 = mod_e((HALF_TURN_UDEG as i128) - (x as i128), FULL_TURN_UDEG as i128);
    let r: i64 = ((HALF_TURN_UDEG as i128) - m) as i64;
    proof {
        let xi: int = x as int;
        let d: int = HALF_TURN_UDEG - xi;
        lemma_fundamental_div_mod(d, FULL_TURN_UDEG as int);
        let q: int = d / (FULL_TURN_UDEG as int);
        assert(xi - r == -q * (FULL_TURN_UDEG as int)) by (nonlinear_arith)
            requires
                d == HALF_TURN_UDEG - xi,
                d == (FULL_TURN_UDEG as int) * q + m,
                r == HALF_TURN_UDEG - m,
        ;
        lemma_mod_multiples_basic(-q, FULL_TURN_UDEG as int);
    }
    r
}

/// Earth's rotation angle at `et`, in microdegrees, in `[0°, 360°)`.
pub open spec fn sidereal_udeg_spec(et: int) -> int {
    sidereal_ticks_spec(et) / (TICKS_PER_UDEG as int)
}

/// Geodetic latitude/longitude of a spherical position at an instant:
/// latitude is 90° minus the polar angle; longitude is the inertial azimuth
/// minus the Earth's rotation angle, wrapped into `(-180°, 180°]`.
pub fn to_geodetic(s: &SphericalPosition, at: &Instant) -> (g: GeodeticPosition)
    requires
        s.wf(),
        at.wf(),
    ensures
        g.lat_udeg == QUARTER_TURN_UDEG - s.phi_udeg,
        g.lon_udeg == wrap_lon_spec(s.theta_udeg - sidereal_udeg_spec(at.ticks as int)),
        g.wf(),
{
    let sid: i64 = sidereal_ticks(at);
    let sid_udeg: i64 = match sid.checked_div_euclid(TICKS_PER_UDEG) {
        Some(v) => v,
        None => 0,
    };
    proof {
        lemma_div_range(sid as int, TICKS_PER_UDEG as int, FULL_TURN_UDEG as int);
    }
    let lat: i64 = QUARTER_TURN_UDEG - s.phi_udeg;
    let lon: i64 = wrap_lon(s.theta_udeg - sid_udeg);
    GeodeticPosition { lat_udeg: lat, lon_udeg: lon }
}

} // verus!
