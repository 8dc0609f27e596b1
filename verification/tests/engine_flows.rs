//! End-to-end flows through the engine and the cook-off scheduler.

use splash::config::{SplashConfig, UnitProperties};
use splash::cookoff::{CookOff, HitOutcome};
use splash::effects::{Effect, ExplosionType, Offset, SmokePreset, Snap};
use splash::engine::{ScannedUnit, SplashDamage, WeaponObservation};
use splash::missions::{Objective, ObjectiveError, ObjectiveType};
use splash::rng::EngineRng;
use splash::units::Pos;

fn p(x: i64, y: i64, z: i64) -> Pos {
    Pos { x, y, z }
}

#[test]
fn disabled_engine_tracks_nothing() {
    let mut engine = SplashDamage::new(0);
    engine.update_from_main_config(false);
    assert!(!engine.handle_weapon_shot(1, "Mk_84", p(0, 0, 0), p(0, 0, 0), 0, true, 0));
    engine.update_from_main_config(true);
    assert!(engine.handle_weapon_shot(1, "Mk_84", p(0, 0, 0), p(0, 0, 0), 0, true, 0));
}

#[test]
fn player_weapon_gating() {
    let mut engine = SplashDamage::new(0);
    let mut cfg = SplashConfig::default();
    cfg.only_players_weapons = true;
    engine.config = cfg;
    assert!(!engine.handle_weapon_shot(1, "Mk_84", p(0, 0, 0), p(0, 0, 0), 0, false, 0));
    assert!(engine.handle_weapon_shot(1, "Mk_84", p(0, 0, 0), p(0, 0, 0), 0, true, 0));
    // an unconfigured weapon type is never tracked
    assert!(!engine.handle_weapon_shot(2, "Slingshot", p(0, 0, 0), p(0, 0, 0), 0, true, 0));
}

#[test]
fn plain_explosion_effects() {
    let engine = SplashDamage::new(0);
    let effects = engine.create_explosion("Mk_82", p(0, 5_000, 0), 200, 1_000);
    // one explosion and its fire plume, at the ground-snapped position
    assert_eq!(effects.len(), 2);
    match &effects[0] {
        Effect::Explosion { base, offset, snap, power_milli } => {
            assert_eq!(*base, p(0, 210, 0));
            assert_eq!(*offset, Offset::Zero);
            assert_eq!(*snap, Snap::AsIs);
            assert_eq!(*power_milli, 150_000);
        },
        other => panic!("expected an explosion, got {:?}", other),
    }
    match &effects[1] {
        Effect::BigSmoke { preset, .. } => assert_eq!(*preset, SmokePreset::LargeSmokeAndFire),
        other => panic!("expected smoke, got {:?}", other),
    }
}

#[test]
fn zero_power_weapon_explodes_nothing() {
    let engine = SplashDamage::new(0);
    // cluster shells carry power zero in the table: no primary explosion
    let effects = engine.create_explosion("M26", p(0, 0, 0), 0, 1_000);
    assert!(effects.is_empty());
    let unknown = engine.create_explosion("Slingshot", p(0, 0, 0), 0, 1_000);
    assert!(unknown.is_empty());
}

#[test]
fn cluster_weapon_spreads_bomblets() {
    let engine = SplashDamage::new(0);
    // CBU_87 has table power 0, so give the realized power directly
    // through a configured cluster weapon: GBU powers are not cluster,
    // so use a custom configuration
    let mut custom = SplashDamage::new(0);
    let mut cfg = SplashConfig::default();
    splash::config::add_power(&mut cfg.weapon_powers, "CBU_87", 100_000);
    custom.config = cfg;
    let effects = custom.create_explosion("CBU_87", p(0, 0, 0), 0, 1_000);
    // realized power 150: seven bomblets (15 halved, floor, min 1),
    // each an explosion plus smoke, then the primary pair
    let realized = 150_000u64;
    let n = (realized / 10_000 / 2) as usize;
    assert_eq!(effects.len(), 2 * n + 2);
    match &effects[0] {
        Effect::Explosion { offset, power_milli, .. } => {
            // the first bomblet sits at the spiral's centre
            assert_eq!(*offset, Offset::Radial { dist_cm: 0, azimuth_mdeg: 0, up_cm: 0 });
            // submunition power for the BLU-97B bomblet
            assert_eq!(*power_milli, 3_000);
        },
        other => panic!("expected a bomblet explosion, got {:?}", other),
    }
    // the engine variable keeps its default table: CBU_87 stays at zero
    assert!(engine.create_explosion("CBU_87", p(0, 0, 0), 0, 1_000).is_empty());
}

#[test]
fn wave_explosion_records_and_scans() {
    let mut engine = SplashDamage::new(0);
    let (effects, radius) = engine.create_wave_explosion("Mk_82", p(0, 0, 0), 100_000, 0, 1_000);
    // dynamic radius: cube root of 100 is 4 (floor), times ten metres,
    // times the default modifier of 2
    assert_eq!(radius, Some(8_000));
    assert_eq!(effects.len(), 2);
    assert_eq!(engine.recent_explosions.len(), 1);
    // the scan results feed the cascade pass
    let scanned = vec![
        ScannedUnit { position: p(1_000, 0, 0), health_milli_pct: 50_000 },
        ScannedUnit { position: p(0, 0, 2_000), health_milli_pct: 95_000 },
    ];
    let cascades = engine.execute_blast_wave(&p(0, 0, 0), &scanned, 100_000);
    // the first unit cascades (damage 1.0 at 10 m, health 50% <= 80%),
    // the second is too healthy
    assert_eq!(cascades.len(), 2);
    match &cascades[0] {
        Effect::Explosion { base, power_milli, .. } => {
            assert_eq!(*base, p(1_000, 0, 0));
            assert_eq!(*power_milli, 2_000);
        },
        other => panic!("expected a cascade explosion, got {:?}", other),
    }
}

#[test]
fn dead_unit_fires_immediately_through_update() {
    let mut cookoff = CookOff::new(SplashConfig::default().cookoff, 0);
    let outcome = cookoff.process_unit_hit(8, "tanker", "Ural-4320T", p(0, 0, 0), 5_000, true, 1_000);
    assert_eq!(outcome, HitOutcome::Pending);
    // the pending effect rests its minimum delay, then fires at once
    let effects = cookoff.update(3_100);
    assert!(!effects.is_empty());
    match &effects[0] {
        Effect::Explosion { base, power_milli, .. } => {
            assert_eq!(*base, p(0, 0, 0));
            // the tanker's configured primary explosion
            assert_eq!(*power_milli, 60_000);
        },
        other => panic!("expected the primary explosion, got {:?}", other),
    }
    assert_eq!(cookoff.pending_effects_count(), 0);
    assert_eq!(cookoff.effect_queue_count(), 0);
    // the cook-off sub-explosions are queued for later
    assert!(cookoff.timed_explosions_count() > 0);
    // draining far in the future realizes every queued sub-effect
    let later = cookoff.process_timed_explosions(500_000);
    assert!(!later.is_empty());
    assert_eq!(cookoff.timed_explosions_count(), 0);
}

#[test]
fn live_unit_waits_for_rest() {
    let mut cookoff = CookOff::new(SplashConfig::default().cookoff, 0);
    let outcome = cookoff.process_unit_hit(3, "truck", "Ural-4320", p(0, 0, 0), 5_000, false, 1_000);
    assert_eq!(outcome, HitOutcome::Pending);
    let effects = cookoff.update(3_100);
    // nothing fires yet: the unit is being watched for movement
    assert!(effects.is_empty());
    assert_eq!(cookoff.effect_queue_count(), 1);
    assert_eq!(cookoff.pending_effects_count(), 0);
    // three stationary one-second samples settle the unit
    let samples = vec![(3u64, Some(p(0, 0, 0)))];
    assert!(cookoff.update_movement_tracking(&samples, 4_200).is_empty());
    assert!(cookoff.update_movement_tracking(&samples, 5_300).is_empty());
    let fired = cookoff.update_movement_tracking(&samples, 6_400);
    assert!(!fired.is_empty());
    assert_eq!(cookoff.effect_queue_count(), 0);
}

#[test]
fn timed_queue_drains_from_the_head() {
    let mut cookoff = CookOff::new(SplashConfig::default().cookoff, 0);
    let entry = |t: i64| splash::effects::TimedExplosion {
        position: p(0, 0, 0),
        offset: Offset::Zero,
        snap: Snap::AsIs,
        power_milli: 1_000,
        trigger_time_ms: t,
        effect_type: ExplosionType::Cookoff,
        azimuth: None,
    };
    cookoff.timed_explosions.push(entry(1_000));
    cookoff.timed_explosions.push(entry(5_000));
    cookoff.timed_explosions.push(entry(2_000));
    // at t=2.5s the first two head entries are ready; the drain stops
    // at the un-ready third entry even though a later one is ready
    let fired = cookoff.process_timed_explosions(2_500);
    assert_eq!(fired.len(), 2);
    assert_eq!(cookoff.timed_explosions_count(), 2);
    assert_eq!(cookoff.timed_explosions[0].trigger_time_ms, 5_000);
}

#[test]
fn unit_table_management() {
    let mut cookoff = CookOff::new(SplashConfig::default().cookoff, 0);
    assert_eq!(cookoff.units_count(), 6);
    assert!(cookoff.is_unit("Ural-4320T"));
    assert!(cookoff.is_unit("Barrel"));
    assert!(!cookoff.is_unit("M35"));
    let props = cookoff.get_unit_properties("Ural-4320T").unwrap();
    assert_eq!(props.explosion.power_milli, 60_000);
    assert_eq!(props.cookoff.count, 6);
    assert_eq!(props.smoke.size, 5);
    cookoff.add_unit("M35", UnitProperties::default());
    assert!(cookoff.is_unit("M35"));
    cookoff.remove_unit("M35");
    assert!(!cookoff.is_unit("M35"));
}

#[test]
fn periodic_cleanup_keeps_stock_units() {
    let mut engine = SplashDamage::new(0);
    assert!(engine.cookoff.units.has(b"M35"));
    engine.cleanup_unused_units();
    assert!(!engine.cookoff.units.has(b"M35"));
    assert!(engine.cookoff.units.has(b"Ural-4320T"));
    assert!(engine.cookoff.units.has(b"M978 HEMTT Tanker"));
    assert!(engine.cookoff.units.has(b"Ammo_crate"));
    assert!(engine.cookoff.units.has(b"Barrel"));
}

#[test]
fn full_tick_resolves_impacts() {
    let mut engine = SplashDamage::new(0);
    assert!(engine.handle_weapon_shot(21, "Mk_84", p(0, 0, 0), p(0, 0, 0), 0, true, 0));
    let observations = vec![(21u64, WeaponObservation::Gone)];
    let samples: Vec<(u64, Option<Pos>)> = Vec::new();
    let (impacts, _effects) = engine.cleanup(&observations, &samples, 1_000);
    assert_eq!(impacts.len(), 1);
    assert_eq!(impacts[0].base_power_milli, 582_000);
    // a disabled engine does nothing
    engine.update_from_main_config(false);
    let (none, _e) = engine.cleanup(&observations, &samples, 2_000);
    assert!(none.is_empty());
}

#[test]
fn mission_settings_scale_cookoff_tuning() {
    let mut engine = SplashDamage::new(0);
    // the stock settings leave the defaults in place
    assert_eq!(engine.cookoff.config.effects_chance_milli, 1_000);
    assert_eq!(engine.cookoff.config.damage_threshold_milli, 25_000);
    // half difficulty halves the chance and raises the threshold
    engine.apply_mission_settings(500);
    assert_eq!(engine.cookoff.config.effects_chance_milli, 500);
    assert_eq!(engine.cookoff.config.damage_threshold_milli, 37_500);
}

#[test]
fn chance_draws_stay_in_range() {
    let mut rng = EngineRng::new();
    for _ in 0..100 {
        let d = rng.draw_u64(3, 9);
        assert!((3..=9).contains(&d));
        let m = rng.draw_milli();
        assert!(m < 1_000);
    }
    assert_eq!(rng.draw_u64(5, 5), 5);
}

#[test]
fn zero_effects_chance_never_schedules() {
    let mut cfg = SplashConfig::default().cookoff;
    cfg.effects_chance_milli = 0;
    let mut cookoff = CookOff::new(cfg, 0);
    for unit in 0..20u64 {
        let outcome =
            cookoff.process_unit_hit(unit, "truck", "Ural-4320", p(0, 0, 0), 5_000, false, 1_000);
        assert_eq!(outcome, HitOutcome::ChanceFailed);
    }
    assert_eq!(cookoff.pending_effects_count(), 0);
}

#[test]
fn objective_status_is_unavailable() {
    let objective = Objective {
        name: String::from("hold the bridge"),
        objective_type: ObjectiveType::ProtectVehicles,
        units_to_kill: Vec::new(),
        units_to_protect: vec![String::from("convoy")],
        target_points_radius: vec![(p(0, 0, 0), 500)],
        cargo_to_deliver: None,
    };
    assert_eq!(objective.check_status(), Err(ObjectiveError::EvaluationUnavailable));
}

#[test]
fn non_candidates_and_disabled_scheduler() {
    let mut cfg = SplashConfig::default().cookoff;
    cfg.all_vehicles.enabled = false;
    let mut cookoff = CookOff::new(cfg, 0);
    // an unconfigured type without the marker token is no candidate
    let outcome = cookoff.process_unit_hit(1, "sedan", "Car", p(0, 0, 0), 5_000, false, 1_000);
    assert_eq!(outcome, HitOutcome::NotCandidate);
    // the marker token in the unit name makes it a candidate
    let marked =
        cookoff.process_unit_hit(2, "CookoffTarget 1", "Car", p(0, 0, 0), 5_000, false, 1_000);
    assert_eq!(marked, HitOutcome::Pending);
    // a disabled scheduler ignores everything
    let mut off = SplashConfig::default().cookoff;
    off.enabled = false;
    let mut disabled = CookOff::new(off, 0);
    let ignored =
        disabled.process_unit_hit(3, "truck", "Ural-4320", p(0, 0, 0), 5_000, true, 1_000);
    assert_eq!(ignored, HitOutcome::Disabled);
    assert!(disabled.update(10_000).is_empty());
}

#[test]
fn scheduled_sub_effects_respect_their_draw_ranges() {
    let mut cfg = SplashConfig::default().cookoff;
    // force flares (certain chance, exactly two instant ones) and pin
    // the debris count
    cfg.flares.timing.chance_milli = 1_000;
    cfg.flares.instant.min = 2;
    cfg.flares.instant.max = 2;
    cfg.debris.count.min = 3;
    cfg.debris.count.max = 3;
    let mut cookoff = CookOff::new(cfg, 0);
    let outcome =
        cookoff.process_unit_hit(9, "tanker", "Ural-4320T", p(0, 0, 0), 5_000, true, 1_000);
    assert_eq!(outcome, HitOutcome::Pending);
    // promote and fire; capture the queue before anything drains by
    // looking at what remains plus what already fired
    let now = 3_100i64;
    let _ = cookoff.update(now);
    let remaining: Vec<_> = cookoff.timed_explosions.iter().cloned().collect();
    // every remaining cook-off entry fires within the configured
    // duration, every debris entry lands half a second to three
    // seconds out
    let mut debris = 0;
    for e in &remaining {
        match e.effect_type {
            ExplosionType::Cookoff => {
                assert!(e.trigger_time_ms >= now);
                assert!(e.trigger_time_ms <= now + 45_000);
            }
            ExplosionType::Debris => {
                debris += 1;
                assert!(e.trigger_time_ms >= now + 500);
                assert!(e.trigger_time_ms <= now + 3_000);
                match e.offset {
                    Offset::Radial { dist_cm, azimuth_mdeg, up_cm } => {
                        assert!((0..=800).contains(&dist_cm));
                        assert!(azimuth_mdeg < 360_000);
                        assert!((0..=800).contains(&up_cm));
                    }
                    other => panic!("debris must carry a radial offset, got {:?}", other),
                }
            }
            ExplosionType::Flare => {
                // instant flares fire at once, so any remaining one
                // was scheduled at the firing time
                assert_eq!(e.trigger_time_ms, now);
                assert!(e.azimuth.is_some());
            }
        }
    }
    // exactly three debris pieces were drawn (instant flares at the
    // head of the queue drained within the same tick)
    assert_eq!(debris, 3);
}

#[test]
fn recent_explosions_roll_off_after_ten_seconds() {
    let mut engine = SplashDamage::new(0);
    engine.add_recent_explosion(p(0, 0, 0), 1_000, 1_000);
    engine.add_recent_explosion(p(5_000, 0, 0), 1_000, 5_000);
    assert_eq!(engine.recent_explosions.len(), 2);
    // twelve seconds in, the first record has aged out of the window
    engine.add_recent_explosion(p(9_000, 0, 0), 1_000, 12_000);
    assert_eq!(engine.recent_explosions.len(), 2);
    assert_eq!(engine.recent_explosions[0].time_ms, 5_000);
    assert_eq!(engine.recent_explosions[1].time_ms, 12_000);
}
