//! Satellite ground-track library.
//!
//! Turns a satellite's inertial-frame position at an instant into a
//! latitude/longitude on a rotating spherical Earth, and assembles, per
//! refresh cycle, a bounded time-series of such positions for every tracked
//! satellite.  All quantities are carried in fixed-point integer units:
//! instants in 100 ns ticks of ephemeris time since the J2000 epoch,
//! positions in micrometers, angles in microdegrees.

pub mod frame;
pub mod laws;
pub mod num;
pub mod snapshot;
pub mod time;
pub mod track;
