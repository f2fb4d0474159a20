//! Core of a side-scrolling motorcycle game: procedurally generated rolling
//! terrain, grounded/airborne rider physics, a crash state machine, scoring,
//! and the sound/music cues the simulation emits, advanced one tick at a time.
//!
//! All world quantities (positions, speeds, angles) are kept in fixed-point
//! milli-units: an `i64` holds one thousandth of a pixel, of a radian, or of
//! a unit of scroll speed. Every step of the simulation is specified exactly
//! over these integers, so a game is a deterministic function of its seed and
//! of the command fed in at each tick.

pub mod fixed;
pub mod laws;
pub mod model;
pub mod trig;
