//! Tests of the blast model's formulas and classifications.

use splash::blast::{
    blast_radius_cm, bomblet_count, bomblet_polar, bomblet_power, bomblet_spread_cm,
    is_cluster_bomb, rocket_name, scale_power, submunition_name,
};
use splash::config::SplashConfig;
use splash::cookoff::{cook_delay_ms, cook_power_milli, flare_azimuth_deg, uniform_share_ms};
use splash::units::{clamp_coord, dist_sq_cm2, icbrt, mul_milli, within_radius, Pos};

#[test]
fn integer_cube_root() {
    assert_eq!(icbrt(0), 0);
    assert_eq!(icbrt(1), 1);
    assert_eq!(icbrt(26), 2);
    assert_eq!(icbrt(27), 3);
    assert_eq!(icbrt(1_000_000_000), 1_000);
}

#[test]
fn fixed_point_multiplication() {
    assert_eq!(mul_milli(100_000, 1_500), 150_000);
    assert_eq!(mul_milli(80_000, 200), 16_000);
    assert_eq!(mul_milli(7, 500), 3);
}

#[test]
fn distances() {
    let a = Pos { x: 0, y: 0, z: 0 };
    let b = Pos { x: 300, y: 400, z: 0 };
    assert_eq!(dist_sq_cm2(&a, &b), 250_000);
    assert!(within_radius(&a, &b, 500));
    assert!(!within_radius(&a, &b, 499));
    assert_eq!(clamp_coord(200_000_000), 100_000_000);
    assert_eq!(clamp_coord(-200_000_000), -100_000_000);
    assert_eq!(clamp_coord(42), 42);
}

#[test]
fn rocket_and_cluster_names() {
    assert!(rocket_name("3xM8_ROCKETS_IN_TUBES"));
    assert!(!rocket_name("Mk_84"));
    assert!(is_cluster_bomb("CBU_87"));
    assert!(is_cluster_bomb("RBK_500AO"));
    assert!(is_cluster_bomb("M26"));
    // the anti-runway penetrator shares a substring with a cluster
    // family but is excluded
    assert!(!is_cluster_bomb("BLU107B_DURANDAL"));
    assert!(!is_cluster_bomb("Mk_82"));
}

#[test]
fn submunition_names() {
    assert_eq!(submunition_name("CBU_99"), "Mk 118");
    assert_eq!(submunition_name("ROCKEYE"), "Mk 118");
    assert_eq!(submunition_name("AGM_154A"), "BLU-97/B");
    assert_eq!(submunition_name("M30"), "M77 submunitions");
    assert_eq!(submunition_name("Mk_82"), "Generic");
}

#[test]
fn power_scaling_saturates() {
    assert_eq!(scale_power(100_000, 1_500), 150_000);
    assert_eq!(scale_power(1_000_000_000_000, 1_000_000), 1_000_000_000_000);
}

#[test]
fn dynamic_blast_radius() {
    let cfg = SplashConfig::default();
    // 1000 host units of power: cube root 10, times ten metres, times
    // the default modifier of 2: 200 m
    assert_eq!(blast_radius_cm(&cfg, 1_000_000), 20_000);
    let mut fixed = SplashConfig::default();
    fixed.blast_wave.use_dynamic_radius = false;
    assert_eq!(blast_radius_cm(&fixed, 1_000_000), 9_000);
}

#[test]
fn bomblet_formulas() {
    // 100 host units of power: ten bomblets, halved by the reduction
    assert_eq!(bomblet_count(100_000, true), 5);
    assert_eq!(bomblet_count(100_000, false), 10);
    assert_eq!(bomblet_count(5_000, true), 1);
    let cfg = SplashConfig::default().cluster_bombs;
    // full growth at 100 host units: the forward spread reaches its max
    assert_eq!(bomblet_spread_cm(&cfg, 100_000, true), 30_000);
    assert_eq!(bomblet_spread_cm(&cfg, 0, true), 15_000);
    // bomblet 2 of 5 with spreads 300 m and 400 m: distance 2*(70000)/10
    let (dist, az) = bomblet_polar(2, 5, 30_000, 40_000);
    assert_eq!(dist, 14_000);
    assert_eq!(az, 144_000);
    // a configured submunition uses its table power
    assert_eq!(bomblet_power(&cfg, "CBU_87", 100_000), 3_000);
    // an unknown one falls back to the scaled parent power
    assert_eq!(bomblet_power(&cfg, "Mk_82", 100_000), 200_000);
}

#[test]
fn cook_off_sub_effect_formulas() {
    let mut c = SplashConfig::default().cookoff.all_vehicles.cookoff;
    c.random_timing = false;
    c.count = 4;
    c.duration_ms = 30_000;
    // evenly spaced: index 2 of 4 over 30 s fires at 15 s
    assert_eq!(cook_delay_ms(&c, 2, 0), 15_000);
    c.random_timing = true;
    // random timing: a draw of 500 milli lands mid-duration
    assert_eq!(cook_delay_ms(&c, 2, 500), 15_000);
    assert_eq!(uniform_share_ms(30_000, 999), 29_970);
    // zero variance keeps the base power exact
    assert_eq!(cook_power_milli(10_000, 0, 999), 10_000);
    // 50% variance at the extreme draws
    assert_eq!(cook_power_milli(10_000, 50_000, 999), 14_995);
    assert_eq!(cook_power_milli(10_000, 50_000, 0), 5_005);
    // flare fan: flare 1 of 4 with the largest forward jitter
    assert_eq!(flare_azimuth_deg(1, 4, 73), 130);
    // a negative jittered azimuth collapses to zero
    assert_eq!(flare_azimuth_deg(0, 4, 0), 0);
}
