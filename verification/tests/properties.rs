//! Scenario tests for the engine's stated behaviour.

use splash::blast::{blast_damage, cascade_decision, final_power};
use splash::config::SplashConfig;
use splash::cookoff::{CookOff, HitOutcome};
use splash::engine::{SplashDamage, WeaponObservation};
use splash::governor::{interval_ms_for, mode_for_avg_us, PerformanceMode};
use splash::movement::{movement_step, MovementDecision, MovementTracker};
use splash::units::Pos;

fn p(x: i64, y: i64, z: i64) -> Pos {
    Pos { x, y, z }
}

/// A configured weapon reported gone resolves to one impact at the
/// predicted impact point.
#[test]
fn impact_at_predicted_point() {
    let mut engine = SplashDamage::new(0);
    let fired = engine.handle_weapon_shot(7, "Mk_84", p(0, 100_000, 0), p(0, -100, 0), 100, true, 0);
    assert!(fired);
    let predicted = p(1_000, 0, 2_000);
    // one flight update carrying the host's terrain-ray prediction
    let obs = WeaponObservation::Seen {
        position: p(0, 50_000, 0),
        velocity: p(0, -100, 0),
        speed_cm_s: 100,
        predicted_impact: Some(predicted),
    };
    assert!(engine.observe_weapon(7, &obs, 1_000).is_none());
    // the weapon disappears: exactly one impact, at the prediction
    let impact = engine.observe_weapon(7, &WeaponObservation::Gone, 2_000);
    let impact = impact.expect("a configured weapon must produce an impact");
    assert_eq!(impact.point, predicted);
    assert_eq!(impact.base_power_milli, 582_000);
    assert_eq!(impact.weapon_type, b"Mk_84".to_vec());
    // and the weapon has left tracking
    assert!(engine.observe_weapon(7, &WeaponObservation::Gone, 3_000).is_none());
}

/// Without a prediction the impact falls back to the last known
/// position.
#[test]
fn impact_falls_back_to_last_position() {
    let mut engine = SplashDamage::new(0);
    assert!(engine.handle_weapon_shot(9, "Mk_82", p(500, 700, 900), p(0, 0, 0), 0, true, 0));
    let impact = engine.observe_weapon(9, &WeaponObservation::Gone, 1_000).unwrap();
    assert_eq!(impact.point, p(500, 700, 900));
    assert_eq!(impact.base_power_milli, 100_000);
}

/// An explosion attempted within the protection radius of a recent
/// explosion is suppressed entirely.
#[test]
fn ordnance_protection_suppresses() {
    let mut engine = SplashDamage::new(0);
    engine.add_recent_explosion(p(0, 0, 0), 3_000, 1_000);
    // 10 m from the record, within the default 20 m protection radius
    let near = engine.create_explosion("Mk_82", p(1_000, 0, 0), 0, 2_000);
    assert!(near.is_empty());
    // 50 m away the explosion goes through
    let far = engine.create_explosion("Mk_82", p(5_000, 0, 0), 0, 2_000);
    assert!(!far.is_empty());
}

/// Blast damage follows the inverse square law and the cascade fires
/// exactly at its thresholds.
#[test]
fn cascade_thresholds() {
    // power 100.0 at 10 m: damage 100 / 100 = 1.0
    assert_eq!(blast_damage(100_000, 1_000_000), 1_000);
    // point-blank clamps to the full power
    assert_eq!(blast_damage(100_000, 0), 100_000);
    let cfg = SplashConfig::default();
    // default thresholds: damage >= 50 milli, health <= 80%
    assert_eq!(cascade_decision(&cfg, 1_000, 50_000), Some(2_000));
    assert_eq!(cascade_decision(&cfg, 49, 50_000), None);
    assert_eq!(cascade_decision(&cfg, 50, 80_000), Some(100));
    assert_eq!(cascade_decision(&cfg, 1_000, 80_001), None);
}

/// A unit that already produced a pending effect produces no second
/// one within the retention window, and qualifies again after it.
#[test]
fn pending_effect_is_idempotent() {
    let mut cookoff = CookOff::new(SplashConfig::default().cookoff, 0);
    let first = cookoff.process_unit_hit(4, "truck", "Ural-4320", p(0, 0, 0), 10_000, false, 1_000);
    assert_eq!(first, HitOutcome::Pending);
    assert_eq!(cookoff.pending_effects_count(), 1);
    let again = cookoff.process_unit_hit(4, "truck", "Ural-4320", p(0, 0, 0), 5_000, true, 2_000);
    assert_eq!(again, HitOutcome::AlreadyProcessed);
    assert_eq!(cookoff.pending_effects_count(), 1);
    // five minutes later the record expires and the unit qualifies again
    let _ = cookoff.update(302_000);
    let third = cookoff.process_unit_hit(4, "truck", "Ural-4320", p(0, 0, 0), 5_000, false, 303_000);
    assert_eq!(third, HitOutcome::Pending);
}

/// Exactly `max_stationary_checks` consecutive stationary one-second
/// samples trigger the effects; any larger displacement resets the
/// counter to zero.
#[test]
fn movement_gating() {
    let start = p(0, 0, 0);
    let mut t = MovementTracker::new(11, start, 0);
    assert_eq!(t.max_stationary_checks, 3);
    assert_eq!(t.movement_threshold_cm, 100);
    // sample before a second has passed decides nothing
    assert_eq!(movement_step(&mut t, Some(start), 500), MovementDecision::TooSoon);
    // three one-second stationary samples: the third triggers
    assert_eq!(movement_step(&mut t, Some(p(0, 0, 50)), 1_000), MovementDecision::Stay);
    assert_eq!(t.stationary_checks, 1);
    assert_eq!(movement_step(&mut t, Some(p(0, 0, 50)), 2_000), MovementDecision::Stay);
    assert_eq!(t.stationary_checks, 2);
    assert_eq!(movement_step(&mut t, Some(p(0, 0, 50)), 3_000), MovementDecision::Trigger);
    // a displacement at the threshold resets the counter
    let mut t2 = MovementTracker::new(12, start, 0);
    assert_eq!(movement_step(&mut t2, Some(p(0, 0, 90)), 1_000), MovementDecision::Stay);
    assert_eq!(t2.stationary_checks, 1);
    assert_eq!(movement_step(&mut t2, Some(p(100, 0, 90)), 2_000), MovementDecision::Stay);
    assert_eq!(t2.stationary_checks, 0);
    // a unit the host cannot relocate triggers at once
    let mut t3 = MovementTracker::new(13, start, 0);
    assert_eq!(movement_step(&mut t3, None, 1_000), MovementDecision::Trigger);
}

/// Power 100 with overall scaling 1.5 and no other flags realizes 150.
#[test]
fn overall_scaling_realizes_power() {
    let cfg = SplashConfig::default();
    assert_eq!(cfg.overall_scaling_milli, 1_500);
    assert_eq!(cfg.get_weapon_power("Mk_82"), Some(100_000));
    assert_eq!(final_power(&cfg, "Mk_82", 100_000), 150_000);
}

/// A HEAT-flagged weapon of base power 80 with shaped-charge
/// multiplier 0.2 and overall scaling 1.0 realizes 16.
#[test]
fn shaped_charge_attenuates_power() {
    let mut cfg = SplashConfig::default();
    cfg.overall_scaling_milli = 1_000;
    assert_eq!(cfg.shaped_charge.multiplier_milli, 200);
    assert_eq!(final_power(&cfg, "AGM_65D", 80_000), 16_000);
}

/// A unit at 30% health with a 25% damage threshold gets no pending
/// effect while it is not dead.
#[test]
fn above_threshold_gets_no_effect() {
    let mut cookoff = CookOff::new(SplashConfig::default().cookoff, 0);
    let outcome = cookoff.process_unit_hit(5, "truck", "Ural-4320", p(0, 0, 0), 30_000, false, 1_000);
    assert_eq!(outcome, HitOutcome::AboveThreshold);
    assert_eq!(cookoff.pending_effects_count(), 0);
    assert_eq!(cookoff.processed_units_count(), 0);
    // the same health with the unit reported dead bypasses the threshold
    let dead = cookoff.process_unit_hit(5, "truck", "Ural-4320", p(0, 0, 0), 30_000, true, 2_000);
    assert_eq!(dead, HitOutcome::Pending);
}

/// Five tick costs averaging 18 ms put the governor in its minimal
/// mode with a 400 ms interval.
#[test]
fn governor_minimal_mode() {
    assert_eq!(mode_for_avg_us(18_000), PerformanceMode::Minimal);
    assert_eq!(interval_ms_for(PerformanceMode::Minimal), 400);
    let mut cookoff = CookOff::new(SplashConfig::default().cookoff, 0);
    for _ in 0..5 {
        cookoff.update_performance_monitoring(18_000);
    }
    assert_eq!(cookoff.performance_mode, PerformanceMode::Minimal);
    assert_eq!(cookoff.adaptive_update_interval_ms, 400);
    // a tick arriving 300 ms after the last executed one is shed
    assert!(cookoff.should_skip_update(300));
    assert!(!cookoff.should_skip_update(400));
}
