//! Movement gating for cook-off effects.
//!
//! A damaged vehicle that is still moving should not burst into a
//! cook-off sequence where it stood when it was hit.  Each deferred
//! effect therefore tracks its unit: once a second the host attempts to
//! relocate the unit, and the effect fires only after the unit has
//! displaced less than a threshold for a configured number of
//! consecutive samples, or at once when the unit cannot be relocated
//! (it is presumed destroyed).

use vstd::prelude::*;

use crate::units::{pos_ok, spec_dist_sq_cm2, dist_sq_cm2, Pos, MAX_COORD_CM};

verus! {

/// Milliseconds between two movement samples of one unit.
pub const SAMPLE_PERIOD_MS: i64 = 1_000;

/// Largest engine time (milliseconds) the engine accepts.
pub const MAX_TIME_MS: i64 = 4_000_000_000_000;

/// An engine timestamp within the accepted range.
pub open spec fn time_ok(t: i64) -> bool {
    0 <= t <= MAX_TIME_MS
}

/// The movement state of one unit awaiting its cook-off.
#[derive(Clone, Copy, Debug, PartialEq)]
pub struct MovementTracker {
    /// The unit being tracked.
    pub unit_id: u64,
    /// Where the unit was at the last sample.
    pub last_position: Pos,
    /// When the last sample was taken, in engine time milliseconds.
    pub last_update_ms: i64,
    /// How many consecutive samples stayed below the threshold.
    pub stationary_checks: u32,
    /// How many consecutive stationary samples fire the effects.
    pub max_stationary_checks: u32,
    /// Displacement (centimetres) from which a unit counts as moving.
    pub movement_threshold_cm: i64,
}

impl MovementTracker {
    pub open spec fn valid(self) -> bool {
        &&& pos_ok(self.last_position)
        &&& time_ok(self.last_update_ms)
        &&& 1 <= self.max_stationary_checks <= 1000
        &&& self.stationary_checks <= self.max_stationary_checks
        &&& 0 < self.movement_threshold_cm <= MAX_COORD_CM
    }

    /// A fresh tracker: three one-second samples below one metre of
    /// displacement fire the effects.
    pub fn new(unit_id: u64, position: Pos, now_ms: i64) -> (r: MovementTracker)
        requires
            pos_ok(position),
            time_ok(now_ms),
        ensures
            r == (MovementTracker {
                unit_id,
                last_position: position,
                last_update_ms: now_ms,
                stationary_checks: 0,
                max_stationary_checks: 3,
                movement_threshold_cm: 100,
            }),
            r.valid(),
    {
        MovementTracker {
            unit_id,
            last_position: position,
            last_update_ms: now_ms,
            stationary_checks: 0,
            max_stationary_checks: 3,
            movement_threshold_cm: 100,
        }
    }
}

/// What one movement sample decided.
#[derive(Clone, Copy, Debug, PartialEq, Eq, Structural)]
pub enum MovementDecision {
    /// Less than a sample period has passed; nothing was decided.
    TooSoon,
    /// Keep tracking.
    Stay,
    /// Fire the deferred effects now and stop tracking.
    Trigger,
}

/// One movement sample: how a tracker changes when the host reports
/// `found` for its unit at time `now_ms`.
///
/// A displacement strictly below the threshold raises the consecutive
/// count, and the count reaching the configured maximum triggers; a
/// displacement at or above the threshold resets the count to zero.  A
/// unit the host cannot relocate triggers at once.
pub open spec fn spec_movement_step(t: MovementTracker, found: Option<Pos>, now_ms: i64) -> (
    MovementTracker,
    MovementDecision,
) {
    if now_ms - t.last_update_ms < SAMPLE_PERIOD_MS {
        (t, MovementDecision::TooSoon)
    } else {
        match found {
            None => (t, MovementDecision::Trigger),
            Some(p) => {
                if spec_dist_sq_cm2(t.last_position, p) < t.movement_threshold_cm
                    * t.movement_threshold_cm {
                    if t.stationary_checks + 1 >= t.max_stationary_checks {
                        (t, MovementDecision::Trigger)
                    } else {
                        (
                            MovementTracker {
                                stationary_checks: (t.stationary_checks + 1) as u32,
                                last_position: p,
                                last_update_ms: now_ms,
                                ..t
                            },
                            MovementDecision::Stay,
                        )
                    }
                } else {
                    (
                        MovementTracker {
                            stationary_checks: 0,
                            last_position: p,
                            last_update_ms: now_ms,
                            ..t
                        },
                        MovementDecision::Stay,
                    )
                }
            },
        }
    }
}

/// Apply one movement sample to a tracker.
pub fn movement_step(t: &mut MovementTracker, found: Option<Pos>, now_ms: i64) -> (r:
    MovementDecision)
    requires
        old(t).valid(),
        time_ok(now_ms),
        found matches Some(p) ==> pos_ok(p),
    ensures
        (*final(t), r) == spec_movement_step(*old(t), found, now_ms),
        final(t).valid(),
        final(t).unit_id == old(t).unit_id,
{
    if now_ms - t.last_update_ms < SAMPLE_PERIOD_MS {
        return MovementDecision::TooSoon;
    }
    match found {
        None => MovementDecision::Trigger,
        Some(p) => {
            let d2 = dist_sq_cm2(&t.last_position, &p);
            let threshold = t.movement_threshold_cm;
            proof {
                crate::units::lemma_mul_le(
                    threshold as int,
                    threshold as int,
                    MAX_COORD_CM as int,
                    MAX_COORD_CM as int,
                );
            }
            if d2 < (threshold * threshold) as u64 {
                if t.stationary_checks + 1 >= t.max_stationary_checks {
                    MovementDecision::Trigger
                } else {
                    t.stationary_checks = t.stationary_checks + 1;
                    t.last_position = p;
                    t.last_update_ms = now_ms;
                    MovementDecision::Stay
                }
            } else {
                t.stationary_checks = 0;
                t.last_position = p;
                t.last_update_ms = now_ms;
                MovementDecision::Stay
            }
        },
    }
}

/// The tracker after `k` one-second samples that relocate the unit
/// exactly where it already stood.
pub open spec fn spec_stationary_run(t: MovementTracker, k: nat) -> MovementTracker
    decreases k,
{
    if k == 0 {
        t
    } else {
        let prev = spec_stationary_run(t, (k - 1) as nat);
        spec_movement_step(
            prev,
            Some(prev.last_position),
            (prev.last_update_ms + SAMPLE_PERIOD_MS) as i64,
        ).0
    }
}

/// Movement gating, settled case: a unit that keeps displacing less
/// than the threshold accumulates one stationary check per sample, and
/// the sample that makes the count reach `max_stationary_checks`
/// triggers the effects.  Stated here for a unit that does not move at
/// all between samples; the per-sample contract of `movement_step`
/// covers arbitrary displacements below the threshold, and the reset
/// to zero on any displacement at or above the threshold.
pub proof fn lemma_movement_gating(t: MovementTracker, k: nat)
    requires
        t.valid(),
        t.stationary_checks == 0,
        k < t.max_stationary_checks,
        t.last_update_ms + SAMPLE_PERIOD_MS * (k + 1) <= MAX_TIME_MS,
    ensures
        spec_stationary_run(t, k).stationary_checks == k,
        spec_stationary_run(t, k).valid(),
        spec_stationary_run(t, k).last_update_ms == t.last_update_ms + SAMPLE_PERIOD_MS * k,
        spec_stationary_run(t, k).max_stationary_checks == t.max_stationary_checks,
        spec_stationary_run(t, k).movement_threshold_cm == t.movement_threshold_cm,
        spec_stationary_run(t, k).last_position == t.last_position,
        spec_stationary_run(t, k).unit_id == t.unit_id,
        k + 1 == t.max_stationary_checks ==> spec_movement_step(
            spec_stationary_run(t, k),
            Some(spec_stationary_run(t, k).last_position),
            (spec_stationary_run(t, k).last_update_ms + SAMPLE_PERIOD_MS) as i64,
        ).1 == MovementDecision::Trigger,
    decreases k,
{
    if k == 0 {
        assert(spec_stationary_run(t, 0) == t);
    } else {
        lemma_movement_gating(t, (k - 1) as nat);
        let prev = spec_stationary_run(t, (k - 1) as nat);
        let d2 = spec_dist_sq_cm2(prev.last_position, prev.last_position);
        assert(d2 == 0);
        assert(0 < prev.movement_threshold_cm * prev.movement_threshold_cm) by (nonlinear_arith)
            requires
                0 < prev.movement_threshold_cm,
        ;
        let now2 = (prev.last_update_ms + SAMPLE_PERIOD_MS) as i64;
        assert(now2 == prev.last_update_ms + SAMPLE_PERIOD_MS);
        assert(now2 - prev.last_update_ms >= SAMPLE_PERIOD_MS);
        assert(d2 < prev.movement_threshold_cm * prev.movement_threshold_cm);
        assert(prev.stationary_checks == k - 1);
        assert(prev.stationary_checks + 1 < prev.max_stationary_checks);
        let stepped = spec_movement_step(prev, Some(prev.last_position), now2);
        assert(stepped.0.stationary_checks == prev.stationary_checks + 1);
        assert(spec_stationary_run(t, k) == stepped.0);
    }
    let fin = spec_stationary_run(t, k);
    if k + 1 == t.max_stationary_checks {
        let d2 = spec_dist_sq_cm2(fin.last_position, fin.last_position);
        assert(d2 == 0);
        assert(0 < fin.movement_threshold_cm * fin.movement_threshold_cm) by (nonlinear_arith)
            requires
                0 < fin.movement_threshold_cm,
        ;
    }
}

} // verus!
