//! Engine configuration.
//!
//! The configuration mirrors the tuning surface of the engine: a weapon
//! power table, cook-off thresholds and per-vehicle property overrides,
//! and the cascade, blast-wave, cluster-munition and ordnance-protection
//! constants.  It is immutable within a tick and replaceable as a whole
//! at runtime.
//!
//! All scalars are fixed point: powers and probabilities in milli units
//! (`100.0` host units of power is `100_000`), health percentages in
//! milli percent (`25%` is `25_000`), distances in centimetres and times
//! in milliseconds.

use vstd::prelude::*;
use vstd::string::StringSliceAdditionalSpecFns;

use crate::table::KeyedTable;
use crate::units::{MAX_COORD_CM, MAX_FACTOR_MILLI, MAX_POWER_MILLI, MILLI};

verus! {

/// Largest health-percentage threshold (milli percent) a configuration
/// may hold.
pub const MAX_THRESHOLD_MILLI: u64 = 1_000_000;

/// Largest effect count a configuration may hold.
pub const MAX_EFFECT_COUNT: u32 = 10_000;

/// Largest effect duration (milliseconds) a configuration may hold.
pub const MAX_DURATION_MS: u64 = 86_400_000;

/// Every value of a power table is a power within bounds.
pub open spec fn powers_bounded(t: KeyedTable<u64>) -> bool {
    forall|k: Seq<u8>| (#[trigger] t.spec_get(k)) matches Some(v) ==> v <= MAX_POWER_MILLI
}

/// Primary explosion effect settings for a vehicle.
#[derive(Clone, Copy, Debug, PartialEq)]
pub struct ExplosionConfig {
    /// Power of the initial explosion, in milli units.
    pub power_milli: u64,
    /// Whether to trigger the explosion at all.
    pub enabled: bool,
}

impl ExplosionConfig {
    pub open spec fn valid(self) -> bool {
        self.power_milli <= MAX_POWER_MILLI
    }
}

/// Cook-off sub-explosion settings for a vehicle.
#[derive(Clone, Copy, Debug, PartialEq)]
pub struct CookOffEffectConfig {
    /// Whether to trigger cook-off sub-explosions.
    pub enabled: bool,
    /// Number of cook-off sub-explosions.
    pub count: u32,
    /// Power of each sub-explosion, in milli units.
    pub power_milli: u64,
    /// Length of the whole cook-off sequence, in milliseconds.
    pub duration_ms: u64,
    /// Uniformly random delays when set; evenly spaced otherwise.
    pub random_timing: bool,
    /// Variation of sub-explosion power, in milli percent of the base.
    pub power_random_pct_milli: u64,
}

impl CookOffEffectConfig {
    pub open spec fn valid(self) -> bool {
        &&& self.count <= MAX_EFFECT_COUNT
        &&& self.power_milli <= MAX_POWER_MILLI
        &&& self.duration_ms <= MAX_DURATION_MS
        &&& self.power_random_pct_milli <= 100_000
    }
}

/// Smoke and flame effect settings for a vehicle.
#[derive(Clone, Copy, Debug, PartialEq)]
pub struct SmokeConfig {
    /// Whether the vehicle burns like a tanker (produces smoke and fire).
    pub is_tanker: bool,
    /// Size class of the flame and smoke effect (1 small to 8 huge).
    pub size: u8,
    /// Duration of the effect, in seconds.
    pub duration_s: u32,
}

/// Resolved effect properties for one vehicle type.
#[derive(Clone, Copy, Debug, PartialEq)]
pub struct UnitProperties {
    pub explosion: ExplosionConfig,
    pub cookoff: CookOffEffectConfig,
    pub smoke: SmokeConfig,
}

impl UnitProperties {
    pub open spec fn valid(self) -> bool {
        self.explosion.valid() && self.cookoff.valid()
    }
}

/// Every value of a unit-property table is valid.
pub open spec fn units_bounded(t: KeyedTable<UnitProperties>) -> bool {
    forall|k: Seq<u8>| (#[trigger] t.spec_get(k)) matches Some(p) ==> p.valid()
}

/// Debris explosion settings.
#[derive(Clone, Copy, Debug, PartialEq)]
pub struct DebrisExplosionConfig {
    /// Power of each debris explosion, in milli units.
    pub power_milli: u64,
    /// Maximum distance debris can travel, in centimetres.
    pub max_distance_cm: i64,
}

impl DebrisExplosionConfig {
    pub open spec fn valid(self) -> bool {
        self.power_milli <= MAX_POWER_MILLI && 0 <= self.max_distance_cm <= MAX_COORD_CM
    }
}

/// Debris count settings.
#[derive(Clone, Copy, Debug, PartialEq)]
pub struct DebrisCountConfig {
    /// Minimum debris pieces per cook-off.
    pub min: u32,
    /// Maximum debris pieces per cook-off.
    pub max: u32,
}

impl DebrisCountConfig {
    pub open spec fn valid(self) -> bool {
        self.min <= self.max <= MAX_EFFECT_COUNT
    }
}

/// Debris effect settings.
#[derive(Clone, Copy, Debug, PartialEq)]
pub struct DebrisConfig {
    /// Whether cook-offs throw debris.
    pub enabled: bool,
    pub explosion: DebrisExplosionConfig,
    pub count: DebrisCountConfig,
}

impl DebrisConfig {
    pub open spec fn valid(self) -> bool {
        self.explosion.valid() && self.count.valid()
    }
}

/// Instant-flare settings.
#[derive(Clone, Copy, Debug, PartialEq)]
pub struct FlareInstantConfig {
    /// Spawn flares instantly when set; spread them over time otherwise.
    pub enabled: bool,
    /// Minimum number of instant flares.
    pub min: u32,
    /// Maximum number of instant flares.
    pub max: u32,
}

impl FlareInstantConfig {
    pub open spec fn valid(self) -> bool {
        self.min <= self.max <= MAX_EFFECT_COUNT
    }
}

/// Timed-flare settings.
#[derive(Clone, Copy, Debug, PartialEq)]
pub struct FlareTimingConfig {
    /// Multiplier for the non-instant flare count, in milli units.
    pub count_modifier_milli: u64,
    /// Maximum horizontal offset of a flare, in centimetres.
    pub offset_cm: i64,
    /// Chance of flares firing at all, in milli units.
    pub chance_milli: u64,
}

impl FlareTimingConfig {
    pub open spec fn valid(self) -> bool {
        &&& self.count_modifier_milli <= MAX_FACTOR_MILLI
        &&& 0 <= self.offset_cm <= MAX_COORD_CM
        &&& self.chance_milli <= MILLI
    }
}

/// Flare effect settings.
#[derive(Clone, Copy, Debug, PartialEq)]
pub struct FlareConfig {
    /// Whether cook-offs launch signal flares.
    pub enabled: bool,
    /// Flare colour code handed to the host.
    pub color: u8,
    pub instant: FlareInstantConfig,
    pub timing: FlareTimingConfig,
}

impl FlareConfig {
    pub open spec fn valid(self) -> bool {
        self.instant.valid() && self.timing.valid()
    }
}

/// Fallback settings applied to vehicles without an explicit entry in
/// the unit-property table.
#[derive(Clone, Copy, Debug, PartialEq)]
pub struct AllVehiclesConfig {
    /// Whether vehicles outside the unit table get effects at all.
    pub enabled: bool,
    /// Health percentage threshold, in milli percent.
    pub damage_threshold_milli: u64,
    pub explosion: ExplosionConfig,
    pub cookoff: CookOffEffectConfig,
    pub smoke: SmokeConfig,
    /// Chance of cook-off effects, in milli units.
    pub cookoff_chance_milli: u64,
    /// Chance of a smoke effect, in milli units.
    pub smoke_chance_milli: u64,
    /// Smoke always accompanies a cook-off when set.
    pub smoke_with_cookoff: bool,
    /// Add a finishing explosion to smoke-only outcomes when set.
    pub explode_on_smoke_only: bool,
}

impl AllVehiclesConfig {
    pub open spec fn valid(self) -> bool {
        &&& self.damage_threshold_milli <= MAX_THRESHOLD_MILLI
        &&& self.explosion.valid()
        &&& self.cookoff.valid()
        &&& self.cookoff_chance_milli <= MILLI
        &&& self.smoke_chance_milli <= MILLI
    }
}

/// Cook-off subsystem settings.
#[derive(Clone, Copy, Debug, PartialEq)]
pub struct CookOffConfig {
    /// Whether the cook-off subsystem runs at all.
    pub enabled: bool,
    /// Chance that a qualifying hit produces effects, in milli units.
    pub effects_chance_milli: u64,
    /// Health percentage threshold for configured units, in milli percent.
    pub damage_threshold_milli: u64,
    pub debris: DebrisConfig,
    pub flares: FlareConfig,
    pub all_vehicles: AllVehiclesConfig,
}

impl CookOffConfig {
    pub open spec fn valid(self) -> bool {
        &&& self.effects_chance_milli <= MILLI
        &&& self.damage_threshold_milli <= MAX_THRESHOLD_MILLI
        &&& self.debris.valid()
        &&& self.flares.valid()
        &&& self.all_vehicles.valid()
    }
}

/// Wave-explosion settings.
#[derive(Clone, Copy, Debug, PartialEq)]
pub struct WaveExplosionConfig {
    /// Whether impacts radiate secondary wave explosions.
    pub enabled: bool,
    /// Scaling factor for wave explosion power, in milli units.
    pub scaling_milli: u64,
    /// Damage threshold for the always-on wave cascade, in milli units.
    pub damage_threshold_milli: u64,
    /// Always attempt one fixed-offset cascade explosion when set.
    pub always_cascade_explode: bool,
}

impl WaveExplosionConfig {
    pub open spec fn valid(self) -> bool {
        self.scaling_milli <= MAX_FACTOR_MILLI && self.damage_threshold_milli <= MAX_POWER_MILLI
    }
}

/// Blast-wave damage model settings.
#[derive(Clone, Copy, Debug, PartialEq)]
pub struct BlastWaveConfig {
    /// Fixed blast search radius, in centimetres.
    pub search_radius_cm: i64,
    /// Derive the blast radius from the power when set.
    pub use_dynamic_radius: bool,
    /// Multiplier for the dynamic blast radius, in milli units.
    pub dynamic_radius_modifier_milli: u64,
}

impl BlastWaveConfig {
    pub open spec fn valid(self) -> bool {
        &&& 0 <= self.search_radius_cm <= MAX_COORD_CM
        &&& self.dynamic_radius_modifier_milli <= MAX_FACTOR_MILLI
    }
}

/// Shaped-charge settings.
#[derive(Clone, Copy, Debug, PartialEq)]
pub struct ShapedChargeConfig {
    /// Whether HEAT warheads get their blast attenuated.
    pub enabled: bool,
    /// Attenuation multiplier, in milli units.
    pub multiplier_milli: u64,
}

impl ShapedChargeConfig {
    pub open spec fn valid(self) -> bool {
        self.multiplier_milli <= MAX_FACTOR_MILLI
    }
}

/// Cluster-munition settings.
#[derive(Debug)]
pub struct ClusterBombConfig {
    /// Whether cluster munitions expand into bomblet explosions.
    pub enabled: bool,
    /// Base forward spread, in centimetres.
    pub base_length_cm: i64,
    /// Base lateral spread, in centimetres.
    pub base_width_cm: i64,
    /// Maximum forward spread, in centimetres.
    pub max_length_cm: i64,
    /// Maximum lateral spread, in centimetres.
    pub max_width_cm: i64,
    /// Minimum forward spread, in centimetres.
    pub min_length_cm: i64,
    /// Minimum lateral spread, in centimetres.
    pub min_width_cm: i64,
    /// Halve the bomblet count for performance when set.
    pub bomblet_reduction_modifier: bool,
    /// Fallback multiplier for bomblet power, in milli units.
    pub bomblet_damage_modifier_milli: u64,
    /// Submunition power table, keyed by submunition name.
    pub submunition_powers: KeyedTable<u64>,
}

impl ClusterBombConfig {
    pub open spec fn valid(self) -> bool {
        &&& 0 <= self.base_length_cm <= self.max_length_cm <= MAX_COORD_CM
        &&& 0 <= self.base_width_cm <= self.max_width_cm <= MAX_COORD_CM
        &&& 0 <= self.min_length_cm <= MAX_COORD_CM
        &&& 0 <= self.min_width_cm <= MAX_COORD_CM
        &&& self.bomblet_damage_modifier_milli <= MAX_FACTOR_MILLI
        &&& self.submunition_powers.wf()
        &&& powers_bounded(self.submunition_powers)
    }
}

/// Ordnance-protection settings.
#[derive(Clone, Copy, Debug, PartialEq)]
pub struct OrdnanceProtectionConfig {
    /// Whether explosion creation near live ordnance is suppressed.
    pub enabled: bool,
    /// Distance within which nearby ordnance suppresses an explosion,
    /// in centimetres.
    pub protection_radius_cm: i64,
    /// Detect ordnance destroyed by large explosions (advisory only).
    pub detect_ordnance_destruction: bool,
    /// Snap destroyed ordnance to the ground (advisory only).
    pub snap_to_ground_if_destroyed: bool,
    /// Maximum height to snap from, in centimetres.
    pub max_snapped_height_cm: i64,
    /// Whether recent large explosions also suppress.
    pub recent_large_explosion_snap: bool,
    /// Range within which a recent large explosion suppresses,
    /// in centimetres.
    pub recent_large_explosion_range_cm: i64,
    /// Age limit of a suppressing large explosion, in milliseconds.
    pub recent_large_explosion_time_ms: i64,
}

impl OrdnanceProtectionConfig {
    pub open spec fn valid(self) -> bool {
        &&& 0 <= self.protection_radius_cm <= MAX_COORD_CM
        &&& 0 <= self.max_snapped_height_cm <= MAX_COORD_CM
        &&& 0 <= self.recent_large_explosion_range_cm <= MAX_COORD_CM
        &&& 0 <= self.recent_large_explosion_time_ms
    }
}

/// The whole tuning surface of the engine.
#[derive(Debug)]
pub struct SplashConfig {
    /// Whether the engine runs at all.
    pub enabled: bool,
    /// Explosion powers by weapon type name, in milli units.
    pub weapon_powers: KeyedTable<u64>,
    pub cookoff: CookOffConfig,
    pub wave_explosions: WaveExplosionConfig,
    pub blast_wave: BlastWaveConfig,
    pub shaped_charge: ShapedChargeConfig,
    pub cluster_bombs: ClusterBombConfig,
    pub ordnance_protection: OrdnanceProtectionConfig,
    /// Overall scaling for explosive power, in milli units.
    pub overall_scaling_milli: u64,
    /// Multiplier for rocket explosive power, in milli units.
    pub rocket_multiplier_milli: u64,
    /// Track only weapons launched by recognised players when set.
    pub only_players_weapons: bool,
    /// Weapon types classified as HEAT (shaped-charge) warheads.
    pub heat_weapons: KeyedTable<bool>,
    /// Least blast damage that can start a cascade, in milli units.
    pub cascade_damage_threshold_milli: u64,
    /// Largest health percentage that still cascades, in milli percent.
    pub cascade_explode_threshold_milli: u64,
    /// Scaling from blast damage to cascade power, in milli units.
    pub cascade_scaling_milli: u64,
}

impl SplashConfig {
    pub open spec fn valid(self) -> bool {
        &&& self.weapon_powers.wf()
        &&& powers_bounded(self.weapon_powers)
        &&& self.cookoff.valid()
        &&& self.wave_explosions.valid()
        &&& self.blast_wave.valid()
        &&& self.shaped_charge.valid()
        &&& self.cluster_bombs.valid()
        &&& self.ordnance_protection.valid()
        &&& self.overall_scaling_milli <= MAX_FACTOR_MILLI
        &&& self.rocket_multiplier_milli <= MAX_FACTOR_MILLI
        &&& self.heat_weapons.wf()
        &&& self.cascade_damage_threshold_milli <= MAX_POWER_MILLI
        &&& self.cascade_explode_threshold_milli <= MAX_THRESHOLD_MILLI
        &&& self.cascade_scaling_milli <= MAX_FACTOR_MILLI
    }

    /// The configured explosion power of a weapon, if there is one.
    pub fn get_weapon_power(&self, weapon_name: &str) -> (r: Option<u64>)
        requires
            self.weapon_powers.wf(),
        ensures
            r == self.weapon_powers.spec_get(weapon_name.spec_bytes()),
    {
        self.weapon_powers.get(weapon_name.as_bytes())
    }

    /// Whether a weapon type is configured for splash damage.
    pub fn has_weapon(&self, weapon_name: &str) -> (r: bool)
        requires
            self.weapon_powers.wf(),
        ensures
            r == self.weapon_powers.spec_has(weapon_name.spec_bytes()),
    {
        self.weapon_powers.has(weapon_name.as_bytes())
    }
}

/// Store one weapon power, keeping the table's bounds intact.
pub fn add_power(t: &mut KeyedTable<u64>, name: &str, power_milli: u64)
    requires
        old(t).wf(),
        powers_bounded(*old(t)),
        power_milli <= MAX_POWER_MILLI,
    ensures
        final(t).wf(),
        powers_bounded(*final(t)),
        final(t).spec_get(name.spec_bytes()) == Some(power_milli),
        forall|k: Seq<u8>| k != name.spec_bytes() ==> final(t).spec_get(k) == old(t).spec_get(k),
{
    t.set(name.as_bytes(), power_milli);
    proof {
        assert forall|k: Seq<u8>| (#[trigger] t.spec_get(k)) is Some implies t.spec_get(
            k,
        )->Some_0 <= MAX_POWER_MILLI by {
            if k != name.spec_bytes() {
                assert(t.spec_get(k) == old(t).spec_get(k));
            }
        }
        assert(powers_bounded(*t));
    }
}

/// Mark one weapon name as a HEAT warhead.
pub fn add_heat(t: &mut KeyedTable<bool>, name: &str)
    requires
        old(t).wf(),
    ensures
        final(t).wf(),
        final(t).spec_get(name.spec_bytes()) == Some(true),
        forall|k: Seq<u8>| k != name.spec_bytes() ==> final(t).spec_get(k) == old(t).spec_get(k),
{
    t.set(name.as_bytes(), true);
    proof {
        assert(final(t).spec_get(name.spec_bytes()) == Some(true));
    }
}

impl Default for ExplosionConfig {
    fn default() -> (r: Self)
        ensures
            r == (ExplosionConfig { power_milli: 40_000, enabled: true }),
    {
        ExplosionConfig { power_milli: 40_000, enabled: true }
    }
}

impl Default for CookOffEffectConfig {
    fn default() -> (r: Self)
        ensures
            r == (CookOffEffectConfig {
                enabled: true,
                count: 4,
                power_milli: 10_000,
                duration_ms: 30_000,
                random_timing: true,
                power_random_pct_milli: 50_000,
            }),
    {
        CookOffEffectConfig {
            enabled: true,
            count: 4,
            power_milli: 10_000,
            duration_ms: 30_000,
            random_timing: true,
            power_random_pct_milli: 50_000,
        }
    }
}

impl Default for SmokeConfig {
    fn default() -> (r: Self)
        ensures
            r == (SmokeConfig { is_tanker: false, size: 6, duration_s: 240 }),
    {
        SmokeConfig { is_tanker: false, size: 6, duration_s: 240 }
    }
}

impl Default for UnitProperties {
    fn default() -> (r: Self)
        ensures
            r.valid(),
            r.explosion == (ExplosionConfig { power_milli: 40_000, enabled: true }),
    {
        UnitProperties {
            explosion: ExplosionConfig::default(),
            cookoff: CookOffEffectConfig::default(),
            smoke: SmokeConfig::default(),
        }
    }
}

impl Default for DebrisExplosionConfig {
    fn default() -> (r: Self)
        ensures
            r == (DebrisExplosionConfig { power_milli: 1_000, max_distance_cm: 800 }),
    {
        DebrisExplosionConfig { power_milli: 1_000, max_distance_cm: 800 }
    }
}

impl Default for DebrisCountConfig {
    fn default() -> (r: Self)
        ensures
            r == (DebrisCountConfig { min: 6, max: 12 }),
    {
        DebrisCountConfig { min: 6, max: 12 }
    }
}

impl Default for DebrisConfig {
    fn default() -> (r: Self)
        ensures
            r.valid(),
            r.enabled,
    {
        DebrisConfig {
            enabled: true,
            explosion: DebrisExplosionConfig::default(),
            count: DebrisCountConfig::default(),
        }
    }
}

impl Default for FlareInstantConfig {
    fn default() -> (r: Self)
        ensures
            r == (FlareInstantConfig { enabled: true, min: 2, max: 5 }),
    {
        FlareInstantConfig { enabled: true, min: 2, max: 5 }
    }
}

impl Default for FlareTimingConfig {
    fn default() -> (r: Self)
        ensures
            r == (FlareTimingConfig { count_modifier_milli: 1_000, offset_cm: 50, chance_milli: 500 }),
    {
        FlareTimingConfig { count_modifier_milli: 1_000, offset_cm: 50, chance_milli: 500 }
    }
}

impl Default for FlareConfig {
    fn default() -> (r: Self)
        ensures
            r.valid(),
            r.enabled,
            r.color == 2,
    {
        FlareConfig {
            enabled: true,
            color: 2,
            instant: FlareInstantConfig::default(),
            timing: FlareTimingConfig::default(),
        }
    }
}

impl Default for AllVehiclesConfig {
    fn default() -> (r: Self)
        ensures
            r.valid(),
            r.enabled,
            r.damage_threshold_milli == 25_000,
            r.cookoff_chance_milli == 400,
            r.smoke_chance_milli == 700,
            r.smoke_with_cookoff,
            r.explode_on_smoke_only,
    {
        AllVehiclesConfig {
            enabled: true,
            damage_threshold_milli: 25_000,
            explosion: ExplosionConfig { power_milli: 40_000, enabled: true },
            cookoff: CookOffEffectConfig {
                enabled: true,
                count: 4,
                power_milli: 10_000,
                duration_ms: 30_000,
                random_timing: true,
                power_random_pct_milli: 50_000,
            },
            smoke: SmokeConfig { is_tanker: true, size: 4, duration_s: 180 },
            cookoff_chance_milli: 400,
            smoke_chance_milli: 700,
            smoke_with_cookoff: true,
            explode_on_smoke_only: true,
        }
    }
}

impl Default for CookOffConfig {
    fn default() -> (r: Self)
        ensures
            r.valid(),
            r.enabled,
            r.effects_chance_milli == MILLI,
            r.damage_threshold_milli == 25_000,
    {
        CookOffConfig {
            enabled: true,
            effects_chance_milli: MILLI,
            damage_threshold_milli: 25_000,
            debris: DebrisConfig::default(),
            flares: FlareConfig::default(),
            all_vehicles: AllVehiclesConfig::default(),
        }
    }
}

} // verus!
