//! Verified core of a munitions-effects simulation engine.
//!
//! The engine tracks in-flight ordnance for a host world simulation,
//! predicts impacts, computes cascading blast damage, suppresses false
//! chain detonations near live ordnance, and schedules timed "cook-off"
//! effect sequences (explosions, smoke, flares, debris) for damaged
//! vehicles, all under an adaptive per-tick latency budget.
//!
//! The host world (object queries, terrain lookups, rendering) is an
//! outside collaborator: every decision the engine makes is a function
//! from its own state and plain values supplied by the host to a new
//! state and a list of requested effects.  Quantities are carried in
//! fixed point: positions in centimetres, times in milliseconds, and
//! scalars (power, probabilities, multipliers, health percentages) in
//! thousandths ("milli" units).

pub mod blast;
pub mod config;
pub mod cookoff;
pub mod defaults;
pub mod effects;
pub mod engine;
pub mod governor;
pub mod idmap;
pub mod missions;
pub mod movement;
pub mod names;
pub mod rng;
pub mod table;
pub mod units;
