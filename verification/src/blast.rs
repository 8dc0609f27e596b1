//! The blast model.
//!
//! Scaling of a weapon's configured power into the realized explosion
//! power, classification of weapons by name, the inverse-square damage
//! model with its cascade rule, the blast search radius, and the
//! expansion of cluster munitions into bomblets.

use vstd::prelude::*;
use vstd::string::StringSliceAdditionalSpecFns;

use crate::config::{ClusterBombConfig, SplashConfig};
use crate::names::{bytes_contains, bytes_eq, contains_seq};
use crate::units::{
    icbrt, milli_of, mul_milli, lemma_mul_le, spec_icbrt, MAX_COORD_CM, MAX_FACTOR_MILLI,
    MAX_POWER_MILLI,
};

verus! {

/// Largest blast damage value: full power at point-blank range.
pub const MAX_DAMAGE_MILLI: u64 = 10_000_000_000_000_000;

/// Whether a weapon name reads as a rocket.
pub open spec fn is_rocket_name(s: Seq<u8>) -> bool {
    contains_seq(s, "ROCKET".spec_bytes()) || contains_seq(s, "rocket".spec_bytes())
}

/// Whether a weapon name reads as a rocket.
pub fn rocket_name_bytes(b: &[u8]) -> (r: bool)
    ensures
        r == is_rocket_name(b@),
{
    bytes_contains(b, "ROCKET".as_bytes()) || bytes_contains(b, "rocket".as_bytes())
}

/// Whether a weapon name reads as a rocket.
pub fn rocket_name(name: &str) -> (r: bool)
    ensures
        r == is_rocket_name(name.spec_bytes()),
{
    rocket_name_bytes(name.as_bytes())
}

/// Whether a weapon name reads as a cluster munition.  The known
/// cluster families are matched by substring, except that anti-runway
/// penetrators sharing a substring with one family are excluded.
pub open spec fn is_cluster_name(s: Seq<u8>) -> bool {
    ||| contains_seq(s, "CBU".spec_bytes())
    ||| (contains_seq(s, "BLU".spec_bytes()) && !contains_seq(s, "DURANDAL".spec_bytes()))
    ||| contains_seq(s, "RBK".spec_bytes())
    ||| contains_seq(s, "BK90".spec_bytes())
    ||| s == "AGM_154A".spec_bytes()
    ||| s == "AGM_154B".spec_bytes()
    ||| contains_seq(s, "cluster".spec_bytes())
    ||| contains_seq(s, "Cluster".spec_bytes())
    ||| contains_seq(s, "bomblet".spec_bytes())
    ||| contains_seq(s, "submunition".spec_bytes())
    ||| s == "M26".spec_bytes()
    ||| s == "M39A1".spec_bytes()
    ||| s == "9M723".spec_bytes()
    ||| s == "M30".spec_bytes()
}

/// Whether a weapon name reads as a cluster munition.
pub fn is_cluster_bomb(name: &str) -> (r: bool)
    ensures
        r == is_cluster_name(name.spec_bytes()),
{
    is_cluster_bomb_bytes(name.as_bytes())
}

/// Whether a weapon name reads as a cluster munition.
pub fn is_cluster_bomb_bytes(b: &[u8]) -> (r: bool)
    ensures
        r == is_cluster_name(b@),
{
    ||| bytes_contains(b, "CBU".as_bytes())
    ||| (bytes_contains(b, "BLU".as_bytes()) && !bytes_contains(b, "DURANDAL".as_bytes()))
    ||| bytes_contains(b, "RBK".as_bytes())
    ||| bytes_contains(b, "BK90".as_bytes())
    ||| bytes_eq(b, "AGM_154A".as_bytes())
    ||| bytes_eq(b, "AGM_154B".as_bytes())
    ||| bytes_contains(b, "cluster".as_bytes())
    ||| bytes_contains(b, "Cluster".as_bytes())
    ||| bytes_contains(b, "bomblet".as_bytes())
    ||| bytes_contains(b, "submunition".as_bytes())
    ||| bytes_eq(b, "M26".as_bytes())
    ||| bytes_eq(b, "M39A1".as_bytes())
    ||| bytes_eq(b, "9M723".as_bytes())
    ||| bytes_eq(b, "M30".as_bytes())
}

/// The submunition a cluster weapon disperses, by weapon name.
pub open spec fn spec_submunition_name(s: Seq<u8>) -> Seq<u8> {
    if s == "CBU_99".spec_bytes() || s == "ROCKEYE".spec_bytes() {
        "Mk 118".spec_bytes()
    } else if s == "CBU_87".spec_bytes() || s == "CBU_103".spec_bytes() {
        "BLU-97B".spec_bytes()
    } else if s == "AGM_154A".spec_bytes() {
        "BLU-97/B".spec_bytes()
    } else if s == "AGM_154B".spec_bytes() {
        "BLU-108/B".spec_bytes()
    } else if s == "RBK_500AO".spec_bytes() {
        "AO-2-5".spec_bytes()
    } else if s == "BLU_3B_GROUP".spec_bytes() {
        "BLU-3B".spec_bytes()
    } else if s == "BL_755".spec_bytes() {
        "HEAT".spec_bytes()
    } else if s == "BK90_MJ2".spec_bytes() {
        "MJ2".spec_bytes()
    } else if s == "BK90_MJ1".spec_bytes() {
        "MJ1".spec_bytes()
    } else if s == "BK90_MJ1_MJ2".spec_bytes() {
        "MJ1-MJ2".spec_bytes()
    } else if s == "BELOUGA".spec_bytes() || s == "BLG66_BELOUGA".spec_bytes() {
        "GR_66_AC".spec_bytes()
    } else if s == "RBK_500U_OAB_2_5RT".spec_bytes() {
        "OAB-2-5RT".spec_bytes()
    } else if s == "RBK_250_275_AO_1SCH".spec_bytes() {
        "AO-1SCh".spec_bytes()
    } else if s == "GB-6-SFW".spec_bytes() {
        "MM-06".spec_bytes()
    } else if s == "M26".spec_bytes() {
        "M77".spec_bytes()
    } else if s == "M39A1".spec_bytes() {
        "M74".spec_bytes()
    } else if s == "9M723".spec_bytes() {
        "9N722".spec_bytes()
    } else if s == "M30".spec_bytes() {
        "M77 submunitions".spec_bytes()
    } else if s == "AB_250_2_SD_2".spec_bytes() {
        "SD-2".spec_bytes()
    } else {
        "Generic".spec_bytes()
    }
}

/// The submunition a cluster weapon disperses, by weapon name.
pub fn submunition_name(name: &str) -> (r: &'static str)
    ensures
        r.spec_bytes() == spec_submunition_name(name.spec_bytes()),
{
    submunition_name_bytes(name.as_bytes())
}

/// The submunition a cluster weapon disperses, by weapon name.
pub fn submunition_name_bytes(b: &[u8]) -> (r: &'static str)
    ensures
        r.spec_bytes() == spec_submunition_name(b@),
{
    if bytes_eq(b, "CBU_99".as_bytes()) || bytes_eq(b, "ROCKEYE".as_bytes()) {
        "Mk 118"
    } else if bytes_eq(b, "CBU_87".as_bytes()) || bytes_eq(b, "CBU_103".as_bytes()) {
        "BLU-97B"
    } else if bytes_eq(b, "AGM_154A".as_bytes()) {
        "BLU-97/B"
    } else if bytes_eq(b, "AGM_154B".as_bytes()) {
        "BLU-108/B"
    } else if bytes_eq(b, "RBK_500AO".as_bytes()) {
        "AO-2-5"
    } else if bytes_eq(b, "BLU_3B_GROUP".as_bytes()) {
        "BLU-3B"
    } else if bytes_eq(b, "BL_755".as_bytes()) {
        "HEAT"
    } else if bytes_eq(b, "BK90_MJ2".as_bytes()) {
        "MJ2"
    } else if bytes_eq(b, "BK90_MJ1".as_bytes()) {
        "MJ1"
    } else if bytes_eq(b, "BK90_MJ1_MJ2".as_bytes()) {
        "MJ1-MJ2"
    } else if bytes_eq(b, "BELOUGA".as_bytes()) || bytes_eq(b, "BLG66_BELOUGA".as_bytes()) {
        "GR_66_AC"
    } else if bytes_eq(b, "RBK_500U_OAB_2_5RT".as_bytes()) {
        "OAB-2-5RT"
    } else if bytes_eq(b, "RBK_250_275_AO_1SCH".as_bytes()) {
        "AO-1SCh"
    } else if bytes_eq(b, "GB-6-SFW".as_bytes()) {
        "MM-06"
    } else if bytes_eq(b, "M26".as_bytes()) {
        "M77"
    } else if bytes_eq(b, "M39A1".as_bytes()) {
        "M74"
    } else if bytes_eq(b, "9M723".as_bytes()) {
        "9N722"
    } else if bytes_eq(b, "M30".as_bytes()) {
        "M77 submunitions"
    } else if bytes_eq(b, "AB_250_2_SD_2".as_bytes()) {
        "SD-2"
    } else {
        "Generic"
    }
}

/// One fixed-point scaling step of a power value, saturating at the
/// power cap.
pub open spec fn spec_scale_power(p: u64, factor_milli: u64) -> u64 {
    if milli_of(p as int, factor_milli as int) > MAX_POWER_MILLI {
        MAX_POWER_MILLI
    } else {
        milli_of(p as int, factor_milli as int) as u64
    }
}

/// One fixed-point scaling step of a power value.
pub fn scale_power(p: u64, factor_milli: u64) -> (r: u64)
    requires
        p <= MAX_POWER_MILLI,
        factor_milli <= MAX_FACTOR_MILLI,
    ensures
        r == spec_scale_power(p, factor_milli),
        r <= MAX_POWER_MILLI,
{
    proof {
        lemma_mul_le(
            p as int,
            factor_milli as int,
            MAX_POWER_MILLI as int,
            MAX_FACTOR_MILLI as int,
        );
    }
    let m = mul_milli(p, factor_milli);
    if m > MAX_POWER_MILLI {
        MAX_POWER_MILLI
    } else {
        m
    }
}

/// Whether a weapon is classified as a HEAT (shaped-charge) warhead.
pub open spec fn spec_heat_weapon(cfg: SplashConfig, name: Seq<u8>) -> bool {
    cfg.heat_weapons.spec_get(name) == Some(true)
}

/// The realized power of a weapon's primary explosion: the configured
/// base power scaled by the overall factor, then by the rocket
/// multiplier for rocket-named weapons, then by the shaped-charge
/// multiplier for HEAT-classified weapons when that attenuation is
/// enabled.
pub open spec fn spec_final_power(cfg: SplashConfig, name: Seq<u8>, base: u64) -> u64 {
    let p1 = spec_scale_power(base, cfg.overall_scaling_milli);
    let p2 = if is_rocket_name(name) {
        spec_scale_power(p1, cfg.rocket_multiplier_milli)
    } else {
        p1
    };
    if cfg.shaped_charge.enabled && spec_heat_weapon(cfg, name) {
        spec_scale_power(p2, cfg.shaped_charge.multiplier_milli)
    } else {
        p2
    }
}

/// The realized power of a weapon's primary explosion.
pub fn final_power(cfg: &SplashConfig, name: &str, base: u64) -> (r: u64)
    requires
        cfg.valid(),
        base <= MAX_POWER_MILLI,
    ensures
        r == spec_final_power(*cfg, name.spec_bytes(), base),
        r <= MAX_POWER_MILLI,
{
    final_power_bytes(cfg, name.as_bytes(), base)
}

/// The realized power of a weapon's primary explosion, by name bytes.
pub fn final_power_bytes(cfg: &SplashConfig, name: &[u8], base: u64) -> (r: u64)
    requires
        cfg.valid(),
        base <= MAX_POWER_MILLI,
    ensures
        r == spec_final_power(*cfg, name@, base),
        r <= MAX_POWER_MILLI,
{
    let p1 = scale_power(base, cfg.overall_scaling_milli);
    let p2 = if rocket_name_bytes(name) {
        scale_power(p1, cfg.rocket_multiplier_milli)
    } else {
        p1
    };
    let heat = match cfg.heat_weapons.get(name) {
        Some(flag) => flag,
        None => false,
    };
    if cfg.shaped_charge.enabled && heat {
        scale_power(p2, cfg.shaped_charge.multiplier_milli)
    } else {
        p2
    }
}

/// Blast damage at a squared distance: the full power at point-blank
/// range, and `power / d²` (distance in metres) further out.  With the
/// distance in centimetres, `power · 10⁴ / dist²` is exactly that.
pub open spec fn spec_blast_damage(power_milli: u64, dist_sq_cm2: u64) -> int {
    if dist_sq_cm2 == 0 {
        power_milli as int
    } else {
        ((power_milli as int) * 10_000) / (dist_sq_cm2 as int)
    }
}

/// Blast damage at a squared distance.
pub fn blast_damage(power_milli: u64, dist_sq_cm2: u64) -> (r: u64)
    requires
        power_milli <= MAX_POWER_MILLI,
    ensures
        r == spec_blast_damage(power_milli, dist_sq_cm2),
        r <= MAX_DAMAGE_MILLI,
{
    if dist_sq_cm2 == 0 {
        power_milli
    } else {
        let num = power_milli * 10_000;
        proof {
            vstd::arithmetic::div_mod::lemma_div_is_ordered_by_denominator(
                num as int,
                1,
                dist_sq_cm2 as int,
            );
        }
        num / dist_sq_cm2
    }
}

/// Whether a blast of the given damage cascades at a unit with the
/// given health, and with what power: the damage must reach the
/// cascade damage threshold and the unit's health percentage must not
/// exceed the cascade health threshold; the cascade's power is the
/// damage scaled by the cascade factor.
pub open spec fn spec_cascade(cfg: SplashConfig, damage_milli: u64, health_milli_pct: u64) -> Option<
    u64,
> {
    if damage_milli >= cfg.cascade_damage_threshold_milli && health_milli_pct
        <= cfg.cascade_explode_threshold_milli {
        Some(milli_of(damage_milli as int, cfg.cascade_scaling_milli as int) as u64)
    } else {
        None
    }
}

/// Decide a cascade for one scanned unit.
pub fn cascade_decision(cfg: &SplashConfig, damage_milli: u64, health_milli_pct: u64) -> (r: Option<
    u64,
>)
    requires
        cfg.valid(),
        damage_milli <= MAX_DAMAGE_MILLI,
    ensures
        r == spec_cascade(*cfg, damage_milli, health_milli_pct),
{
    if damage_milli >= cfg.cascade_damage_threshold_milli && health_milli_pct
        <= cfg.cascade_explode_threshold_milli {
        proof {
            lemma_mul_le(
                damage_milli as int,
                cfg.cascade_scaling_milli as int,
                MAX_DAMAGE_MILLI as int,
                MAX_FACTOR_MILLI as int,
            );
        }
        Some(mul_milli(damage_milli, cfg.cascade_scaling_milli))
    } else {
        None
    }
}

/// The blast search radius for a realized power: a configured fixed
/// radius, or the cube root of the power (in host units) times ten
/// metres times the configured modifier, capped at the world bound.
pub open spec fn spec_blast_radius_cm(cfg: SplashConfig, power_milli: u64) -> i64 {
    if cfg.blast_wave.use_dynamic_radius {
        let r = spec_icbrt((power_milli / 1000) as int) * cfg.blast_wave.dynamic_radius_modifier_milli;
        if r > MAX_COORD_CM {
            MAX_COORD_CM
        } else {
            r as i64
        }
    } else {
        cfg.blast_wave.search_radius_cm
    }
}

/// The blast search radius for a realized power.
pub fn blast_radius_cm(cfg: &SplashConfig, power_milli: u64) -> (r: i64)
    requires
        cfg.valid(),
        power_milli <= MAX_POWER_MILLI,
    ensures
        r == spec_blast_radius_cm(*cfg, power_milli),
        0 <= r <= MAX_COORD_CM,
{
    if cfg.blast_wave.use_dynamic_radius {
        let c = icbrt(power_milli / 1000);
        proof {
            lemma_mul_le(
                c as int,
                cfg.blast_wave.dynamic_radius_modifier_milli as int,
                10_000,
                MAX_FACTOR_MILLI as int,
            );
        }
        let prod = c * cfg.blast_wave.dynamic_radius_modifier_milli;
        if prod > MAX_COORD_CM as u64 {
            MAX_COORD_CM
        } else {
            prod as i64
        }
    } else {
        cfg.blast_wave.search_radius_cm
    }
}

/// How many bomblets a cluster munition of the given realized power
/// disperses: one per ten host units of power, halved when the
/// reduction toggle is set, and at least one.
pub open spec fn spec_bomblet_count(power_milli: u64, reduction: bool) -> u32 {
    let base = power_milli / 10_000;
    let reduced = if reduction {
        base / 2
    } else {
        base
    };
    if reduced >= 1 {
        reduced as u32
    } else {
        1
    }
}

/// How many bomblets a cluster munition disperses.
pub fn bomblet_count(power_milli: u64, reduction: bool) -> (r: u32)
    requires
        power_milli <= MAX_POWER_MILLI,
    ensures
        r == spec_bomblet_count(power_milli, reduction),
        1 <= r <= 100_000_000,
{
    let base = power_milli / 10_000;
    let reduced = if reduction {
        base / 2
    } else {
        base
    };
    if reduced >= 1 {
        reduced as u32
    } else {
        1
    }
}

/// The bomblet spread envelope: the base spread grown towards the
/// maximum with power (full growth at one hundred host units), then
/// clamped between the configured minimum and maximum.
pub open spec fn spec_bomblet_spread_cm(cfg: ClusterBombConfig, power_milli: u64, forward: bool) -> i64 {
    let base = if forward {
        cfg.base_length_cm
    } else {
        cfg.base_width_cm
    };
    let maxs = if forward {
        cfg.max_length_cm
    } else {
        cfg.max_width_cm
    };
    let mins = if forward {
        cfg.min_length_cm
    } else {
        cfg.min_width_cm
    };
    let f = if power_milli / 100 > 1000 {
        1000int
    } else {
        (power_milli / 100) as int
    };
    let spread = base + (maxs - base) * f / 1000;
    let lo = if spread < mins {
        mins as int
    } else {
        spread
    };
    if lo > maxs {
        maxs
    } else {
        lo as i64
    }
}

/// The bomblet spread envelope.
pub fn bomblet_spread_cm(cfg: &ClusterBombConfig, power_milli: u64, forward: bool) -> (r: i64)
    requires
        cfg.valid(),
    ensures
        r == spec_bomblet_spread_cm(*cfg, power_milli, forward),
        0 <= r <= MAX_COORD_CM,
{
    let base = if forward {
        cfg.base_length_cm
    } else {
        cfg.base_width_cm
    };
    let maxs = if forward {
        cfg.max_length_cm
    } else {
        cfg.max_width_cm
    };
    let mins = if forward {
        cfg.min_length_cm
    } else {
        cfg.min_width_cm
    };
    let fq = power_milli / 100;
    let f: i64 = if fq > 1000 {
        1000
    } else {
        fq as i64
    };
    proof {
        lemma_mul_le((maxs - base) as int, f as int, MAX_COORD_CM as int, 1000);
    }
    let spread = base + (maxs - base) * f / 1000;
    let lo = if spread < mins {
        mins
    } else {
        spread
    };
    if lo > maxs {
        maxs
    } else {
        lo
    }
}

/// The polar place of bomblet `i` of `n`: it steps outward along a
/// spiral, reaching half the combined spread at the last bomblet, and
/// advances one full turn of azimuth across the batch.
pub open spec fn spec_bomblet_polar(i: u32, n: u32, length_cm: i64, width_cm: i64) -> (i64, u64) {
    (
        ((i as int) * (length_cm + width_cm) / (2 * n as int)) as i64,
        ((i as int) * 360_000 / (n as int)) as u64,
    )
}

/// The polar place of bomblet `i` of `n`.
pub fn bomblet_polar(i: u32, n: u32, length_cm: i64, width_cm: i64) -> (r: (i64, u64))
    requires
        1 <= n,
        i < n,
        0 <= length_cm <= MAX_COORD_CM,
        0 <= width_cm <= MAX_COORD_CM,
    ensures
        r == spec_bomblet_polar(i, n, length_cm, width_cm),
        0 <= r.0 <= MAX_COORD_CM,
        r.1 < 360_000,
{
    proof {
        lemma_mul_le(i as int, (length_cm + width_cm) as int, u32::MAX as int, 2 * MAX_COORD_CM as int);
        assert((i as int) * (length_cm + width_cm) / (2 * n as int) <= MAX_COORD_CM) by (nonlinear_arith)
            requires
                0 <= i < n,
                0 <= length_cm + width_cm <= 2 * MAX_COORD_CM,
        ;
        assert((i as int) * 360_000 / (n as int) < 360_000) by (nonlinear_arith)
            requires
                0 <= i < n,
        ;
    }
    let dist = (i as i64) * (length_cm + width_cm) / (2 * (n as i64));
    let az = (i as u64) * 360_000 / (n as u64);
    (dist, az)
}

/// The power of one bomblet: the configured submunition power of the
/// weapon's submunition, or the realized power scaled by the fallback
/// modifier when the submunition is not configured.
pub open spec fn spec_bomblet_power(cfg: ClusterBombConfig, weapon: Seq<u8>, power_milli: u64) -> int {
    match cfg.submunition_powers.spec_get(spec_submunition_name(weapon)) {
        Some(p) => p as int,
        None => milli_of(power_milli as int, cfg.bomblet_damage_modifier_milli as int),
    }
}

/// The power of one bomblet.
pub fn bomblet_power(cfg: &ClusterBombConfig, weapon: &str, power_milli: u64) -> (r: u64)
    requires
        cfg.valid(),
        power_milli <= MAX_POWER_MILLI,
    ensures
        r == spec_bomblet_power(*cfg, weapon.spec_bytes(), power_milli),
{
    bomblet_power_bytes(cfg, weapon.as_bytes(), power_milli)
}

/// The power of one bomblet, by weapon name bytes.
pub fn bomblet_power_bytes(cfg: &ClusterBombConfig, weapon: &[u8], power_milli: u64) -> (r: u64)
    requires
        cfg.valid(),
        power_milli <= MAX_POWER_MILLI,
    ensures
        r == spec_bomblet_power(*cfg, weapon@, power_milli),
{
    let sub = submunition_name_bytes(weapon);
    match cfg.submunition_powers.get(sub.as_bytes()) {
        Some(p) => p,
        None => {
            proof {
                lemma_mul_le(
                    power_milli as int,
                    cfg.bomblet_damage_modifier_milli as int,
                    MAX_POWER_MILLI as int,
                    MAX_FACTOR_MILLI as int,
                );
            }
            mul_milli(power_milli, cfg.bomblet_damage_modifier_milli)
        },
    }
}

} // verus!
