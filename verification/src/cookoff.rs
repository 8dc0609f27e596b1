//! The cook-off scheduler.
//!
//! A vehicle that takes qualifying damage may "cook off": its onboard
//! ordnance and fuel burn down in a timed sequence of explosions,
//! smoke, flares and debris.  Each unit runs through a small state
//! machine: a qualifying damage notification makes it pending; a
//! pending unit is promoted to movement tracking (or fires at once
//! when the damage event reported it dead); once the unit is confirmed
//! stationary its scheduled effects fire, filling a time-ordered queue
//! of sub-effects that drain as engine time passes.  A processed-unit
//! record suppresses duplicate sequences for five minutes.

use vstd::prelude::*;
use vstd::string::StrSliceExecFns;
use vstd::string::StringSliceAdditionalSpecFns;

use crate::config::{
    units_bounded, CookOffConfig, CookOffEffectConfig, ExplosionConfig, SmokeConfig,
    UnitProperties,
};
use crate::effects::{
    smoke_preset_for_size, spec_smoke_preset_for_size, Effect, ExplosionType, Offset, SmokePreset,
    Snap, TimedExplosion,
};
use crate::governor::{
    average_us, interval_ms_for, mode_for_avg_us, push_sample, spec_avg, spec_interval_ms_for,
    spec_mode_for_avg_us, PerformanceMode, MIN_SAMPLES, SAMPLE_WINDOW,
};
use crate::idmap::IdMap;
use crate::movement::{time_ok, MovementTracker, MAX_TIME_MS};
use crate::names::{bytes_contains, contains_seq};
use crate::rng::EngineRng;
use crate::table::KeyedTable;
use crate::units::{pos_ok, Pos, MILLI};

verus! {

/// Milliseconds a processed-unit record suppresses duplicates.
pub const PROCESSED_RETENTION_MS: i64 = 300_000;

/// Milliseconds a pending effect rests before it is promoted.
pub const MIN_EFFECT_DELAY_MS: i64 = 2_000;

/// Ground clearance of cook-off explosions, in centimetres.
pub const COOKOFF_GROUND_CLEARANCE_CM: i64 = 10;

/// Ground clearance of smoke plumes, in centimetres.
pub const SMOKE_GROUND_CLEARANCE_CM: i64 = 200;

/// A unit's first qualifying damage notification, waiting to be
/// promoted.
#[derive(Clone, Debug, PartialEq)]
pub struct PendingCookOffEffect {
    pub unit_id: u64,
    pub unit_name: Vec<u8>,
    pub unit_type: Vec<u8>,
    pub position: Pos,
    pub start_time_ms: i64,
    pub is_cookoff: bool,
    pub is_dead: bool,
    pub properties: UnitProperties,
}

impl PendingCookOffEffect {
    pub open spec fn valid(self) -> bool {
        pos_ok(self.position) && time_ok(self.start_time_ms) && self.properties.valid()
    }
}

/// A unit's resolved effect parameters, waiting for the unit to come
/// to rest.
#[derive(Clone, Debug, PartialEq)]
pub struct ScheduledCookOffEffect {
    pub unit_id: u64,
    pub unit_name: Vec<u8>,
    pub unit_type: Vec<u8>,
    pub position: Pos,
    pub explosion: ExplosionConfig,
    pub cookoff: CookOffEffectConfig,
    pub smoke: SmokeConfig,
}

impl ScheduledCookOffEffect {
    pub open spec fn valid(self) -> bool {
        pos_ok(self.position) && self.explosion.valid() && self.cookoff.valid()
    }
}

/// The scheduled effect a pending effect resolves to, given the two
/// drawn intents: whether cook-off sub-explosions fire, and whether
/// the vehicle smokes.
pub open spec fn spec_scheduled_of(
    p: PendingCookOffEffect,
    should_cookoff: bool,
    should_smoke: bool,
) -> ScheduledCookOffEffect {
    ScheduledCookOffEffect {
        unit_id: p.unit_id,
        unit_name: p.unit_name,
        unit_type: p.unit_type,
        position: p.position,
        explosion: p.properties.explosion,
        cookoff: CookOffEffectConfig { enabled: should_cookoff, ..p.properties.cookoff },
        smoke: SmokeConfig { is_tanker: should_smoke, ..p.properties.smoke },
    }
}

/// Everything a unit-damage notification decides and changes, stated
/// over the scheduler before (`pre`) and after (`post`) the call: each
/// outcome holds exactly for its condition, a negative outcome changes
/// nothing but the random generator, and a `Pending` outcome creates
/// exactly the unit's pending effect and processed-unit record.
pub open spec fn spec_unit_hit_post(
    pre: CookOff,
    post: CookOff,
    r: HitOutcome,
    unit_id: u64,
    unit_name: Seq<u8>,
    unit_type: Seq<u8>,
    position: Pos,
    health_milli_pct: u64,
    is_dead: bool,
    now_ms: i64,
) -> bool {
    &&& (post.same_but_rng(pre) || r == HitOutcome::Pending)
    &&& (r == HitOutcome::Disabled) == !pre.config.enabled
    &&& (r == HitOutcome::AlreadyProcessed) == (pre.config.enabled
        && pre.processed_units.spec_has(unit_id))
    &&& (r == HitOutcome::NotCandidate) == (pre.config.enabled && !pre.processed_units.spec_has(
        unit_id,
    ) && !pre.spec_is_candidate(unit_type, unit_name))
    &&& (r == HitOutcome::AboveThreshold) == (pre.config.enabled && !pre.processed_units.spec_has(
        unit_id,
    ) && pre.spec_is_candidate(unit_type, unit_name) && health_milli_pct > pre.spec_threshold(
        unit_type,
    ) && !is_dead)
    &&& (pre.config.effects_chance_milli == MILLI && pre.config.enabled
        && !pre.processed_units.spec_has(unit_id) && pre.spec_is_candidate(unit_type, unit_name)
        && (health_milli_pct <= pre.spec_threshold(unit_type) || is_dead) ==> r
        == HitOutcome::Pending)
    &&& (pre.config.effects_chance_milli == 0 ==> r != HitOutcome::Pending)
    &&& (r == HitOutcome::Pending ==> {
        &&& post.pending_effects.spec_get(unit_id) is Some
        &&& ({
            let p = post.pending_effects.spec_get(unit_id)->Some_0;
            &&& p.unit_id == unit_id
            &&& p.unit_name@ == unit_name
            &&& p.unit_type@ == unit_type
            &&& p.position == position
            &&& p.start_time_ms == now_ms
            &&& p.is_cookoff
            &&& p.is_dead == is_dead
            &&& p.properties == pre.spec_properties(unit_type)
        })
        &&& post.processed_units.spec_get(unit_id) == Some(now_ms)
        &&& forall|k: u64|
            k != unit_id ==> post.pending_effects.spec_get(k) == pre.pending_effects.spec_get(k)
        &&& forall|k: u64|
            k != unit_id ==> post.processed_units.spec_get(k) == pre.processed_units.spec_get(k)
        &&& post.effect_queue == pre.effect_queue
        &&& post.movement_tracking == pre.movement_tracking
        &&& post.timed_explosions == pre.timed_explosions
        &&& post.processed_smoke == pre.processed_smoke
        &&& post.config == pre.config
        &&& post.units == pre.units
        &&& post.update_times == pre.update_times
        &&& post.last_update_time_ms == pre.last_update_time_ms
        &&& post.adaptive_update_interval_ms == pre.adaptive_update_interval_ms
        &&& post.performance_mode == pre.performance_mode
    })
}

/// What a damage notification decided.
#[derive(Clone, Copy, Debug, PartialEq, Eq, Structural)]
pub enum HitOutcome {
    /// The subsystem is disabled; nothing happened.
    Disabled,
    /// The unit already has a live processed-unit record.
    AlreadyProcessed,
    /// The unit is not a cook-off candidate.
    NotCandidate,
    /// The unit's health is above the applicable threshold and the
    /// unit is not dead.
    AboveThreshold,
    /// The effects-chance draw failed.
    ChanceFailed,
    /// A pending effect was created.
    Pending,
}

/// The cook-off scheduler.
pub struct CookOff {
    pub config: CookOffConfig,
    /// Effect properties of explicitly configured vehicle types.
    pub units: KeyedTable<UnitProperties>,
    /// Units whose first qualifying damage awaits promotion.
    pub pending_effects: IdMap<PendingCookOffEffect>,
    /// When each unit was processed, for duplicate suppression.
    pub processed_units: IdMap<i64>,
    /// Units that already got their smoke effect.
    pub processed_smoke: IdMap<bool>,
    /// Resolved effects waiting for their unit to come to rest.
    pub effect_queue: IdMap<ScheduledCookOffEffect>,
    /// Timed sub-effects waiting for their trigger time.
    pub timed_explosions: Vec<TimedExplosion>,
    /// Running number for smoke effect names on the host side.
    pub effect_smoke_id: u32,
    /// Movement state of units with deferred effects.
    pub movement_tracking: IdMap<MovementTracker>,
    /// The engine's random draws.
    pub rng: EngineRng,
    /// Wall-clock cost of recent ticks, in microseconds.
    pub update_times: Vec<u64>,
    /// When the last executed tick ran, in engine time milliseconds.
    pub last_update_time_ms: i64,
    /// Minimum interval between executed ticks, in milliseconds.
    pub adaptive_update_interval_ms: i64,
    /// The governor's current mode.
    pub performance_mode: PerformanceMode,
}

impl CookOff {
    /// The scheduler's invariant.
    pub open spec fn wf(self) -> bool {
        &&& self.config.valid()
        &&& self.units.wf()
        &&& units_bounded(self.units)
        &&& self.pending_effects.wf()
        &&& forall|k: u64|
            (#[trigger] self.pending_effects.spec_get(k)) matches Some(p) ==> p.valid()
                && p.unit_id == k
        &&& self.processed_units.wf()
        &&& self.processed_smoke.wf()
        &&& self.effect_queue.wf()
        &&& forall|k: u64|
            (#[trigger] self.effect_queue.spec_get(k)) matches Some(q) ==> q.valid()
                && q.unit_id == k
        &&& self.movement_tracking.wf()
        &&& forall|k: u64|
            (#[trigger] self.movement_tracking.spec_get(k)) matches Some(t) ==> t.valid()
                && t.unit_id == k
        &&& forall|i: int|
            0 <= i < self.timed_explosions@.len() ==> {
                &&& pos_ok((#[trigger] self.timed_explosions@[i]).position)
                &&& time_ok(self.timed_explosions@[i].trigger_time_ms)
                &&& (self.timed_explosions@[i].effect_type == ExplosionType::Flare
                    ==> self.timed_explosions@[i].azimuth is Some)
            }
        &&& self.update_times@.len() <= SAMPLE_WINDOW
        &&& time_ok(self.last_update_time_ms)
        &&& self.adaptive_update_interval_ms == spec_interval_ms_for(self.performance_mode)
    }

    /// Everything but the random generator is unchanged.
    pub open spec fn same_but_rng(self, other: CookOff) -> bool {
        &&& self.config == other.config
        &&& self.units == other.units
        &&& self.pending_effects == other.pending_effects
        &&& self.processed_units == other.processed_units
        &&& self.processed_smoke == other.processed_smoke
        &&& self.effect_queue == other.effect_queue
        &&& self.timed_explosions == other.timed_explosions
        &&& self.effect_smoke_id == other.effect_smoke_id
        &&& self.movement_tracking == other.movement_tracking
        &&& self.update_times == other.update_times
        &&& self.last_update_time_ms == other.last_update_time_ms
        &&& self.adaptive_update_interval_ms == other.adaptive_update_interval_ms
        &&& self.performance_mode == other.performance_mode
    }

    /// Everything but the timed queue and the random generator is
    /// unchanged.
    pub open spec fn same_but_timed_rng(self, other: CookOff) -> bool {
        &&& self.config == other.config
        &&& self.units == other.units
        &&& self.pending_effects == other.pending_effects
        &&& self.processed_units == other.processed_units
        &&& self.processed_smoke == other.processed_smoke
        &&& self.effect_queue == other.effect_queue
        &&& self.effect_smoke_id == other.effect_smoke_id
        &&& self.movement_tracking == other.movement_tracking
        &&& self.update_times == other.update_times
        &&& self.last_update_time_ms == other.last_update_time_ms
        &&& self.adaptive_update_interval_ms == other.adaptive_update_interval_ms
        &&& self.performance_mode == other.performance_mode
    }

    /// Whether a unit qualifies for cook-off effects at all: its type
    /// is explicitly configured, or its name carries the marker token,
    /// or the catch-all vehicle mode is on.
    pub open spec fn spec_is_candidate(self, unit_type: Seq<u8>, unit_name: Seq<u8>) -> bool {
        ||| self.units.spec_has(unit_type)
        ||| contains_seq(unit_name, "CookoffTarget".spec_bytes())
        ||| self.config.all_vehicles.enabled
    }

    /// The damage threshold that applies to a unit type, in milli
    /// percent.
    pub open spec fn spec_threshold(self, unit_type: Seq<u8>) -> u64 {
        if self.units.spec_has(unit_type) {
            self.config.damage_threshold_milli
        } else {
            self.config.all_vehicles.damage_threshold_milli
        }
    }

    /// The effect properties that apply to a unit type: its configured
    /// entry, or the catch-all defaults.
    pub open spec fn spec_properties(self, unit_type: Seq<u8>) -> UnitProperties {
        match self.units.spec_get(unit_type) {
            Some(p) => p,
            None => UnitProperties {
                explosion: self.config.all_vehicles.explosion,
                cookoff: self.config.all_vehicles.cookoff,
                smoke: self.config.all_vehicles.smoke,
            },
        }
    }

    /// The effect properties that apply to a unit type.
    pub fn get_properties(&self, unit_type: &str) -> (r: UnitProperties)
        requires
            self.units.wf(),
        ensures
            r == self.spec_properties(unit_type.spec_bytes()),
    {
        match self.units.get(unit_type.as_bytes()) {
            Some(p) => p,
            None => UnitProperties {
                explosion: self.config.all_vehicles.explosion,
                cookoff: self.config.all_vehicles.cookoff,
                smoke: self.config.all_vehicles.smoke,
            },
        }
    }

    /// Whether a unit qualifies for cook-off effects.
    pub fn is_candidate(&self, unit_type: &str, unit_name: &str) -> (r: bool)
        requires
            self.units.wf(),
        ensures
            r == self.spec_is_candidate(unit_type.spec_bytes(), unit_name.spec_bytes()),
    {
        if self.units.has(unit_type.as_bytes()) {
            return true;
        }
        if bytes_contains(unit_name.as_bytes(), "CookoffTarget".as_bytes()) {
            return true;
        }
        self.config.all_vehicles.enabled
    }

    /// Handle a unit-damage notification.
    ///
    /// A unit produces at most one pending effect per retention window:
    /// a unit with a live processed-unit record is skipped.  A
    /// candidate below the applicable damage threshold (or reported
    /// dead) passes an effects-chance draw; only then are a pending
    /// effect and a processed-unit record created.
    pub fn process_unit_hit(
        &mut self,
        unit_id: u64,
        unit_name: &str,
        unit_type: &str,
        position: Pos,
        health_milli_pct: u64,
        is_dead: bool,
        now_ms: i64,
    ) -> (r: HitOutcome)
        requires
            old(self).wf(),
            pos_ok(position),
            time_ok(now_ms),
        ensures
            final(self).wf(),
            spec_unit_hit_post(
                *old(self),
                *final(self),
                r,
                unit_id,
                unit_name.spec_bytes(),
                unit_type.spec_bytes(),
                position,
                health_milli_pct,
                is_dead,
                now_ms,
            ),
    {
        if !self.config.enabled {
            return HitOutcome::Disabled;
        }
        if self.processed_units.has(unit_id) {
            return HitOutcome::AlreadyProcessed;
        }
        if !self.is_candidate(unit_type, unit_name) {
            return HitOutcome::NotCandidate;
        }
        let threshold = if self.units.has(unit_type.as_bytes()) {
            self.config.damage_threshold_milli
        } else {
            self.config.all_vehicles.damage_threshold_milli
        };
        if health_milli_pct > threshold && !is_dead {
            return HitOutcome::AboveThreshold;
        }
        let draw = self.rng.draw_milli();
        if draw >= self.config.effects_chance_milli {
            return HitOutcome::ChanceFailed;
        }
        let properties = self.get_properties(unit_type);
        let pending = PendingCookOffEffect {
            unit_id,
            unit_name: unit_name.as_bytes_vec(),
            unit_type: unit_type.as_bytes_vec(),
            position,
            start_time_ms: now_ms,
            is_cookoff: true,
            is_dead,
            properties,
        };
        self.pending_effects.set(unit_id, pending);
        self.processed_units.set(unit_id, now_ms);
        proof {
            assert forall|k: u64| (#[trigger] self.pending_effects.spec_get(k)) is Some
                implies self.pending_effects.spec_get(k)->Some_0.valid()
                && self.pending_effects.spec_get(k)->Some_0.unit_id == k by {
                if k != unit_id {
                    assert(self.pending_effects.spec_get(k) == old(self).pending_effects.spec_get(k));
                }
            }
        }
        HitOutcome::Pending
    }
}

/// Engine times that leave headroom for the longest effect schedule.
pub open spec fn sched_time_ok(t: i64) -> bool {
    0 <= t <= MAX_TIME_MS - 100_000_000
}

impl CookOff {
    /// A fresh scheduler with the stock vehicle table.
    pub fn new(config: CookOffConfig, now_ms: i64) -> (r: CookOff)
        requires
            config.valid(),
            time_ok(now_ms),
        ensures
            r.wf(),
            r.config == config,
            r.units.entries@.len() == 6,
            r.units.spec_get("Ural-4320T".spec_bytes()) == Some(
                UnitProperties {
                    explosion: ExplosionConfig { power_milli: 60_000, enabled: true },
                    cookoff: CookOffEffectConfig {
                        enabled: true,
                        count: 6,
                        power_milli: 15_000,
                        duration_ms: 45_000,
                        random_timing: true,
                        power_random_pct_milli: 50_000,
                    },
                    smoke: SmokeConfig { is_tanker: true, size: 5, duration_s: 150 },
                },
            ),
            r.units.spec_get("M978 HEMTT Tanker".spec_bytes()) == Some(
                UnitProperties {
                    explosion: ExplosionConfig { power_milli: 60_000, enabled: true },
                    cookoff: CookOffEffectConfig {
                        enabled: true,
                        count: 6,
                        power_milli: 15_000,
                        duration_ms: 45_000,
                        random_timing: true,
                        power_random_pct_milli: 50_000,
                    },
                    smoke: SmokeConfig { is_tanker: true, size: 5, duration_s: 150 },
                },
            ),
            r.units.spec_get("Ural-4320".spec_bytes()) == Some(
                UnitProperties {
                    explosion: ExplosionConfig { power_milli: 80_000, enabled: true },
                    cookoff: CookOffEffectConfig {
                        enabled: true,
                        count: 8,
                        power_milli: 20_000,
                        duration_ms: 60_000,
                        random_timing: true,
                        power_random_pct_milli: 50_000,
                    },
                    smoke: SmokeConfig { is_tanker: false, size: 4, duration_s: 120 },
                },
            ),
            r.units.spec_get("M939 Heavy".spec_bytes()) == Some(
                UnitProperties {
                    explosion: ExplosionConfig { power_milli: 80_000, enabled: true },
                    cookoff: CookOffEffectConfig {
                        enabled: true,
                        count: 8,
                        power_milli: 20_000,
                        duration_ms: 60_000,
                        random_timing: true,
                        power_random_pct_milli: 50_000,
                    },
                    smoke: SmokeConfig { is_tanker: false, size: 4, duration_s: 120 },
                },
            ),
            r.units.spec_get("Ammo_crate".spec_bytes()) == Some(
                UnitProperties {
                    explosion: ExplosionConfig { power_milli: 30_000, enabled: true },
                    cookoff: CookOffEffectConfig {
                        enabled: true,
                        count: 3,
                        power_milli: 8_000,
                        duration_ms: 20_000,
                        random_timing: true,
                        power_random_pct_milli: 50_000,
                    },
                    smoke: SmokeConfig { is_tanker: false, size: 4, duration_s: 120 },
                },
            ),
            r.units.spec_get("Barrel".spec_bytes()) == Some(
                UnitProperties {
                    explosion: ExplosionConfig { power_milli: 25_000, enabled: true },
                    cookoff: CookOffEffectConfig {
                        enabled: true,
                        count: 2,
                        power_milli: 6_000,
                        duration_ms: 15_000,
                        random_timing: true,
                        power_random_pct_milli: 50_000,
                    },
                    smoke: SmokeConfig { is_tanker: false, size: 3, duration_s: 90 },
                },
            ),
            r.pending_effects.entries@.len() == 0,
            r.processed_units.entries@.len() == 0,
            r.processed_smoke.entries@.len() == 0,
            r.effect_queue.entries@.len() == 0,
            r.timed_explosions@.len() == 0,
            r.movement_tracking.entries@.len() == 0,
            r.update_times@.len() == 0,
            r.last_update_time_ms == now_ms,
            r.adaptive_update_interval_ms == 100,
            r.performance_mode == PerformanceMode::Normal,
    {
        CookOff {
            config,
            units: default_cookoff_units(),
            pending_effects: IdMap::new(),
            processed_units: IdMap::new(),
            processed_smoke: IdMap::new(),
            effect_queue: IdMap::new(),
            timed_explosions: Vec::new(),
            effect_smoke_id: 1,
            movement_tracking: IdMap::new(),
            rng: EngineRng::new(),
            update_times: Vec::new(),
            last_update_time_ms: now_ms,
            adaptive_update_interval_ms: 100,
            performance_mode: PerformanceMode::Normal,
        }
    }

    /// The scheduler's configuration.
    pub fn config(&self) -> (r: &CookOffConfig)
        ensures
            *r == self.config,
    {
        &self.config
    }

    /// Replace the configuration wholesale.
    pub fn update_config(&mut self, config: CookOffConfig)
        requires
            old(self).wf(),
            config.valid(),
        ensures
            final(self).wf(),
            *final(self) == (CookOff { config, ..*old(self) }),
    {
        self.config = config;
    }

    /// Add or replace one vehicle type's effect properties.
    pub fn add_unit(&mut self, unit_type: &str, properties: UnitProperties)
        requires
            old(self).wf(),
            properties.valid(),
        ensures
            final(self).wf(),
            final(self).units.spec_get(unit_type.spec_bytes()) == Some(properties),
            forall|k: Seq<u8>|
                k != unit_type.spec_bytes() ==> final(self).units.spec_get(k) == old(self).units.spec_get(k),
            final(self).same_but_rng(
                CookOff { units: final(self).units, rng: final(self).rng, ..*old(self) },
            ),
    {
        add_unit_props(&mut self.units, unit_type, properties);
    }

    /// Remove one vehicle type's effect properties.
    pub fn remove_unit(&mut self, unit_type: &str)
        requires
            old(self).wf(),
        ensures
            final(self).wf(),
            final(self).units.spec_get(unit_type.spec_bytes()) is None,
            forall|k: Seq<u8>|
                k != unit_type.spec_bytes() ==> final(self).units.spec_get(k) == old(self).units.spec_get(k),
            final(self).same_but_rng(
                CookOff { units: final(self).units, rng: final(self).rng, ..*old(self) },
            ),
    {
        self.units.unset(unit_type.as_bytes());
        proof {
            assert forall|k: Seq<u8>| (#[trigger] self.units.spec_get(k)) is Some implies self
                .units.spec_get(k)->Some_0.valid() by {
                if k != unit_type.spec_bytes() {
                    assert(self.units.spec_get(k) == old(self).units.spec_get(k));
                }
            }
            assert(units_bounded(self.units));
        }
    }

    /// How many pending effects exist.
    pub fn pending_effects_count(&self) -> (r: usize)
        ensures
            r == self.pending_effects.entries@.len(),
    {
        self.pending_effects.len()
    }

    /// How many vehicle types are configured.
    pub fn units_count(&self) -> (r: usize)
        ensures
            r == self.units.entries@.len(),
    {
        self.units.len()
    }

    /// How many processed-unit records are live.
    pub fn processed_units_count(&self) -> (r: usize)
        ensures
            r == self.processed_units.entries@.len(),
    {
        self.processed_units.len()
    }

    /// How many resolved effects await their unit's rest.
    pub fn effect_queue_count(&self) -> (r: usize)
        ensures
            r == self.effect_queue.entries@.len(),
    {
        self.effect_queue.len()
    }

    /// How many timed sub-effects are queued.
    pub fn timed_explosions_count(&self) -> (r: usize)
        ensures
            r == self.timed_explosions@.len(),
    {
        self.timed_explosions.len()
    }

    /// Whether a vehicle type is configured for cook-off effects.
    pub fn is_unit(&self, unit_type: &str) -> (r: bool)
        requires
            self.units.wf(),
        ensures
            r == self.units.spec_has(unit_type.spec_bytes()),
    {
        self.units.has(unit_type.as_bytes())
    }

    /// One vehicle type's effect properties, when configured.
    pub fn get_unit_properties(&self, unit_type: &str) -> (r: Option<UnitProperties>)
        requires
            self.units.wf(),
        ensures
            r == self.units.spec_get(unit_type.spec_bytes()),
    {
        self.units.get(unit_type.as_bytes())
    }

    /// Record one tick's wall-clock cost and adapt the governor: once
    /// at least five samples exist, their average selects the mode,
    /// and the mode its minimum inter-tick interval.
    pub fn update_performance_monitoring(&mut self, update_duration_us: u64)
        requires
            old(self).wf(),
        ensures
            final(self).wf(),
            final(self).update_times@ == if old(self).update_times@.len() < SAMPLE_WINDOW {
                old(self).update_times@.push(update_duration_us)
            } else {
                old(self).update_times@.push(update_duration_us).subrange(
                    1,
                    old(self).update_times@.len() as int + 1,
                )
            },
            final(self).update_times@.len() >= MIN_SAMPLES ==> final(self).performance_mode
                == spec_mode_for_avg_us(spec_avg(final(self).update_times@) as u64),
            final(self).update_times@.len() < MIN_SAMPLES ==> final(self).performance_mode == old(self).performance_mode,
            final(self).adaptive_update_interval_ms == spec_interval_ms_for(
                final(self).performance_mode,
            ),
            final(self).same_but_rng(
                CookOff {
                    update_times: final(self).update_times,
                    performance_mode: final(self).performance_mode,
                    adaptive_update_interval_ms: final(self).adaptive_update_interval_ms,
                    rng: final(self).rng,
                    ..*old(self)
                },
            ),
    {
        push_sample(&mut self.update_times, update_duration_us);
        if self.update_times.len() >= MIN_SAMPLES {
            let avg = average_us(&self.update_times);
            let new_mode = mode_for_avg_us(avg);
            self.performance_mode = new_mode;
            self.adaptive_update_interval_ms = interval_ms_for(new_mode);
        }
    }

    /// Whether the coming tick should be shed: less time than the
    /// adaptive interval has passed since the last executed tick.
    pub fn should_skip_update(&self, now_ms: i64) -> (r: bool)
        requires
            self.wf(),
            time_ok(now_ms),
        ensures
            r == (now_ms - self.last_update_time_ms < self.adaptive_update_interval_ms),
    {
        now_ms - self.last_update_time_ms < self.adaptive_update_interval_ms
    }

    /// Record that a tick executed now.
    pub fn update_last_update_time(&mut self, now_ms: i64)
        requires
            old(self).wf(),
            time_ok(now_ms),
        ensures
            final(self).wf(),
            final(self).last_update_time_ms == now_ms,
            final(self).same_but_rng(
                CookOff { last_update_time_ms: now_ms, rng: final(self).rng, ..*old(self) },
            ),
    {
        self.last_update_time_ms = now_ms;
    }
}

/// The delay of cook-off sub-explosion `index`: a uniformly random
/// share of the configured duration under random timing, and an even
/// spacing `index · duration / count` otherwise.
pub open spec fn spec_cook_delay_ms(cfg: CookOffEffectConfig, index: u32, draw: u64) -> int {
    if cfg.random_timing {
        ((draw as int) * (cfg.duration_ms as int)) / 1000
    } else {
        ((index as int) * (cfg.duration_ms as int)) / (cfg.count as int)
    }
}

/// The delay of cook-off sub-explosion `index`.
pub fn cook_delay_ms(cfg: &CookOffEffectConfig, index: u32, draw: u64) -> (r: u64)
    requires
        cfg.valid(),
        draw < MILLI,
        index < cfg.count,
    ensures
        r == spec_cook_delay_ms(*cfg, index, draw),
        r <= cfg.duration_ms,
{
    if cfg.random_timing {
        proof {
            crate::units::lemma_mul_le(
                draw as int,
                cfg.duration_ms as int,
                1000,
                crate::config::MAX_DURATION_MS as int,
            );
            crate::units::lemma_mul_le(draw as int, cfg.duration_ms as int, 1000, cfg.duration_ms as int);
        }
        let num = draw * cfg.duration_ms;
        proof {
            vstd::arithmetic::div_mod::lemma_div_is_ordered(
                num as int,
                1000 * (cfg.duration_ms as int),
                1000,
            );
            vstd::arithmetic::div_mod::lemma_div_multiples_vanish(cfg.duration_ms as int, 1000);
        }
        num / 1000
    } else {
        proof {
            crate::units::lemma_mul_le(
                index as int,
                cfg.duration_ms as int,
                10_000,
                crate::config::MAX_DURATION_MS as int,
            );
            crate::units::lemma_mul_le(
                index as int,
                cfg.duration_ms as int,
                cfg.count as int,
                cfg.duration_ms as int,
            );
            vstd::arithmetic::div_mod::lemma_div_is_ordered(
                (index as int) * (cfg.duration_ms as int),
                (cfg.count as int) * (cfg.duration_ms as int),
                cfg.count as int,
            );
            vstd::arithmetic::div_mod::lemma_div_multiples_vanish(
                cfg.duration_ms as int,
                cfg.count as int,
            );
        }
        (index as u64) * cfg.duration_ms / (cfg.count as u64)
    }
}

/// The power of one cook-off sub-explosion: the base power displaced
/// by up to the configured percentage, the displacement drawn
/// uniformly; a zero percentage leaves the base power exact.
pub open spec fn spec_cook_power_milli(base: u64, pr_pct_milli: u64, draw: u64) -> int {
    if pr_pct_milli == 0 {
        base as int
    } else if 2 * (draw as int) >= 999 {
        base + ((base as int) * (pr_pct_milli as int) * (2 * (draw as int) - 999)) / 100_000_000
    } else {
        base - ((base as int) * (pr_pct_milli as int) * (999 - 2 * (draw as int))) / 100_000_000
    }
}

/// Displacements stay below the base power itself.
proof fn lemma_cook_power_bound(base: int, pr: int, delta: int)
    requires
        0 <= base,
        0 <= pr <= 100_000,
        0 <= delta <= 999,
    ensures
        0 <= base * pr * delta / 100_000_000 <= base,
{
    assert(base * pr * delta <= base * 100_000_000 && 0 <= base * pr * delta)
        by (nonlinear_arith)
        requires
            0 <= base,
            0 <= pr <= 100_000,
            0 <= delta <= 999,
    ;
    vstd::arithmetic::div_mod::lemma_div_is_ordered(
        base * pr * delta,
        base * 100_000_000,
        100_000_000,
    );
    assert((100_000_000 * base) / 100_000_000 == base) by {
        vstd::arithmetic::div_mod::lemma_div_multiples_vanish(base, 100_000_000);
    }
    assert(base * 100_000_000 == 100_000_000 * base);
    vstd::arithmetic::div_mod::lemma_div_pos_is_pos(base * pr * delta, 100_000_000);
}

/// The power of one cook-off sub-explosion.
pub fn cook_power_milli(base: u64, pr_pct_milli: u64, draw: u64) -> (r: u64)
    requires
        base <= crate::units::MAX_POWER_MILLI,
        pr_pct_milli <= 100_000,
        draw < MILLI,
    ensures
        r == spec_cook_power_milli(base, pr_pct_milli, draw),
        r <= 2 * base,
{
    if pr_pct_milli == 0 {
        return base;
    }
    let d2 = 2 * draw;
    if d2 >= 999 {
        let delta = d2 - 999;
        proof {
            lemma_cook_power_bound(base as int, pr_pct_milli as int, delta as int);
            crate::units::lemma_mul_le(
                base as int,
                pr_pct_milli as int,
                crate::units::MAX_POWER_MILLI as int,
                100_000,
            );
            crate::units::lemma_mul_le(
                (base as int) * (pr_pct_milli as int),
                delta as int,
                (crate::units::MAX_POWER_MILLI as int) * 100_000,
                999,
            );
        }
        let boost = ((base as u128) * (pr_pct_milli as u128) * (delta as u128)
            / 100_000_000u128) as u64;
        base + boost
    } else {
        let delta = 999 - d2;
        proof {
            lemma_cook_power_bound(base as int, pr_pct_milli as int, delta as int);
            crate::units::lemma_mul_le(
                base as int,
                pr_pct_milli as int,
                crate::units::MAX_POWER_MILLI as int,
                100_000,
            );
            crate::units::lemma_mul_le(
                (base as int) * (pr_pct_milli as int),
                delta as int,
                (crate::units::MAX_POWER_MILLI as int) * 100_000,
                999,
            );
        }
        let cut = ((base as u128) * (pr_pct_milli as u128) * (delta as u128)
            / 100_000_000u128) as u64;
        base - cut
    }
}

/// The azimuth of instant flare `i` of `cnt`: the flares fan out
/// around a full circle, each jittered by a draw of up to 33 degrees
/// backward or 40 forward; a negative result collapses to zero, as a
/// host azimuth is unsigned.
pub open spec fn spec_flare_azimuth_deg(i: u32, cnt: u32, draw73: u64) -> u16 {
    let base = (i as int) * 360 / (cnt as int);
    let v = base + draw73 - 33;
    if v < 0 {
        0
    } else {
        (v % 360) as u16
    }
}

/// The azimuth of instant flare `i` of `cnt`.
pub fn flare_azimuth_deg(i: u32, cnt: u32, draw73: u64) -> (r: u16)
    requires
        1 <= cnt,
        i < cnt,
        draw73 <= 73,
    ensures
        r == spec_flare_azimuth_deg(i, cnt, draw73),
        r < 400,
{
    proof {
        assert((i as int) * 360 / (cnt as int) < 360) by (nonlinear_arith)
            requires
                0 <= i < cnt,
        ;
        assert((i as int) * 360 / (cnt as int) >= 0) by (nonlinear_arith)
            requires
                0 <= i < cnt,
        ;
        crate::units::lemma_mul_le(i as int, 360, u32::MAX as int, 360);
    }
    let base = (i as u64) * 360 / (cnt as u64);
    let v = base as i64 + draw73 as i64 - 33;
    if v < 0 {
        0
    } else {
        (v % 360) as u16
    }
}

/// The six stock vehicle names are pairwise distinct as byte strings.
proof fn lemma_default_unit_names_distinct()
    ensures
        "Ural-4320T".spec_bytes() != "M978 HEMTT Tanker".spec_bytes(),
        "Ural-4320T".spec_bytes() != "Ural-4320".spec_bytes(),
        "Ural-4320T".spec_bytes() != "M939 Heavy".spec_bytes(),
        "Ural-4320T".spec_bytes() != "Ammo_crate".spec_bytes(),
        "Ural-4320T".spec_bytes() != "Barrel".spec_bytes(),
        "M978 HEMTT Tanker".spec_bytes() != "Ural-4320".spec_bytes(),
        "M978 HEMTT Tanker".spec_bytes() != "M939 Heavy".spec_bytes(),
        "M978 HEMTT Tanker".spec_bytes() != "Ammo_crate".spec_bytes(),
        "M978 HEMTT Tanker".spec_bytes() != "Barrel".spec_bytes(),
        "Ural-4320".spec_bytes() != "M939 Heavy".spec_bytes(),
        "Ural-4320".spec_bytes() != "Ammo_crate".spec_bytes(),
        "Ural-4320".spec_bytes() != "Barrel".spec_bytes(),
        "M939 Heavy".spec_bytes() != "Ammo_crate".spec_bytes(),
        "M939 Heavy".spec_bytes() != "Barrel".spec_bytes(),
        "Ammo_crate".spec_bytes() != "Barrel".spec_bytes(),
{
    broadcast use vstd::string::is_ascii_spec_bytes;

    reveal_strlit("Ural-4320T");
    reveal_strlit("M978 HEMTT Tanker");
    reveal_strlit("Ural-4320");
    reveal_strlit("M939 Heavy");
    reveal_strlit("Ammo_crate");
    reveal_strlit("Barrel");
    assert(vstd::string::is_ascii("Ural-4320T"));
    assert(vstd::string::is_ascii("M978 HEMTT Tanker"));
    assert(vstd::string::is_ascii("Ural-4320"));
    assert(vstd::string::is_ascii("M939 Heavy"));
    assert(vstd::string::is_ascii("Ammo_crate"));
    assert(vstd::string::is_ascii("Barrel"));
    assert("Ural-4320T".spec_bytes().len() == 10);
    assert("M978 HEMTT Tanker".spec_bytes().len() == 17);
    assert("Ural-4320".spec_bytes().len() == 9);
    assert("M939 Heavy".spec_bytes().len() == 10);
    assert("Ammo_crate".spec_bytes().len() == 10);
    assert("Barrel".spec_bytes().len() == 6);
    assert("Ural-4320T".spec_bytes()[0] != "M939 Heavy".spec_bytes()[0]);
    assert("Ural-4320T".spec_bytes()[0] != "Ammo_crate".spec_bytes()[0]);
    assert("M939 Heavy".spec_bytes()[0] != "Ammo_crate".spec_bytes()[0]);
}

/// The default vehicle-property table: fuel tankers, ammunition
/// trucks, ammunition crates and barrels.
pub fn default_cookoff_units() -> (t: KeyedTable<UnitProperties>)
    ensures
        t.wf(),
        units_bounded(t),
        t.entries@.len() == 6,
        t.spec_has("Ural-4320T".spec_bytes()),
        t.spec_has("M978 HEMTT Tanker".spec_bytes()),
        t.spec_has("Ural-4320".spec_bytes()),
        t.spec_has("M939 Heavy".spec_bytes()),
        t.spec_has("Ammo_crate".spec_bytes()),
        t.spec_has("Barrel".spec_bytes()),
        t.spec_get("Ural-4320T".spec_bytes()) == Some(
            UnitProperties {
                explosion: ExplosionConfig { power_milli: 60_000, enabled: true },
                cookoff: CookOffEffectConfig {
                    enabled: true,
                    count: 6,
                    power_milli: 15_000,
                    duration_ms: 45_000,
                    random_timing: true,
                    power_random_pct_milli: 50_000,
                },
                smoke: SmokeConfig { is_tanker: true, size: 5, duration_s: 150 },
            },
        ),
        t.spec_get("M978 HEMTT Tanker".spec_bytes()) == Some(
            UnitProperties {
                explosion: ExplosionConfig { power_milli: 60_000, enabled: true },
                cookoff: CookOffEffectConfig {
                    enabled: true,
                    count: 6,
                    power_milli: 15_000,
                    duration_ms: 45_000,
                    random_timing: true,
                    power_random_pct_milli: 50_000,
                },
                smoke: SmokeConfig { is_tanker: true, size: 5, duration_s: 150 },
            },
        ),
        t.spec_get("Ural-4320".spec_bytes()) == Some(
            UnitProperties {
                explosion: ExplosionConfig { power_milli: 80_000, enabled: true },
                cookoff: CookOffEffectConfig {
                    enabled: true,
                    count: 8,
                    power_milli: 20_000,
                    duration_ms: 60_000,
                    random_timing: true,
                    power_random_pct_milli: 50_000,
                },
                smoke: SmokeConfig { is_tanker: false, size: 4, duration_s: 120 },
            },
        ),
        t.spec_get("M939 Heavy".spec_bytes()) == Some(
            UnitProperties {
                explosion: ExplosionConfig { power_milli: 80_000, enabled: true },
                cookoff: CookOffEffectConfig {
                    enabled: true,
                    count: 8,
                    power_milli: 20_000,
                    duration_ms: 60_000,
                    random_timing: true,
                    power_random_pct_milli: 50_000,
                },
                smoke: SmokeConfig { is_tanker: false, size: 4, duration_s: 120 },
            },
        ),
        t.spec_get("Ammo_crate".spec_bytes()) == Some(
            UnitProperties {
                explosion: ExplosionConfig { power_milli: 30_000, enabled: true },
                cookoff: CookOffEffectConfig {
                    enabled: true,
                    count: 3,
                    power_milli: 8_000,
                    duration_ms: 20_000,
                    random_timing: true,
                    power_random_pct_milli: 50_000,
                },
                smoke: SmokeConfig { is_tanker: false, size: 4, duration_s: 120 },
            },
        ),
        t.spec_get("Barrel".spec_bytes()) == Some(
            UnitProperties {
                explosion: ExplosionConfig { power_milli: 25_000, enabled: true },
                cookoff: CookOffEffectConfig {
                    enabled: true,
                    count: 2,
                    power_milli: 6_000,
                    duration_ms: 15_000,
                    random_timing: true,
                    power_random_pct_milli: 50_000,
                },
                smoke: SmokeConfig { is_tanker: false, size: 3, duration_s: 90 },
            },
        ),
{
    proof {
        lemma_default_unit_names_distinct();
    }
    let mut t: KeyedTable<UnitProperties> = KeyedTable::new();
    add_unit_props(
        &mut t,
        "Ural-4320T",
        UnitProperties {
            explosion: ExplosionConfig { power_milli: 60_000, enabled: true },
            cookoff: CookOffEffectConfig {
                enabled: true,
                count: 6,
                power_milli: 15_000,
                duration_ms: 45_000,
                random_timing: true,
                power_random_pct_milli: 50_000,
            },
            smoke: SmokeConfig { is_tanker: true, size: 5, duration_s: 150 },
        },
    );
    add_unit_props(
        &mut t,
        "M978 HEMTT Tanker",
        UnitProperties {
            explosion: ExplosionConfig { power_milli: 60_000, enabled: true },
            cookoff: CookOffEffectConfig {
                enabled: true,
                count: 6,
                power_milli: 15_000,
                duration_ms: 45_000,
                random_timing: true,
                power_random_pct_milli: 50_000,
            },
            smoke: SmokeConfig { is_tanker: true, size: 5, duration_s: 150 },
        },
    );
    add_unit_props(
        &mut t,
        "Ural-4320",
        UnitProperties {
            explosion: ExplosionConfig { power_milli: 80_000, enabled: true },
            cookoff: CookOffEffectConfig {
                enabled: true,
                count: 8,
                power_milli: 20_000,
                duration_ms: 60_000,
                random_timing: true,
                power_random_pct_milli: 50_000,
            },
            smoke: SmokeConfig { is_tanker: false, size: 4, duration_s: 120 },
        },
    );
    add_unit_props(
        &mut t,
        "M939 Heavy",
        UnitProperties {
            explosion: ExplosionConfig { power_milli: 80_000, enabled: true },
            cookoff: CookOffEffectConfig {
                enabled: true,
                count: 8,
                power_milli: 20_000,
                duration_ms: 60_000,
                random_timing: true,
                power_random_pct_milli: 50_000,
            },
            smoke: SmokeConfig { is_tanker: false, size: 4, duration_s: 120 },
        },
    );
    add_unit_props(
        &mut t,
        "Ammo_crate",
        UnitProperties {
            explosion: ExplosionConfig { power_milli: 30_000, enabled: true },
            cookoff: CookOffEffectConfig {
                enabled: true,
                count: 3,
                power_milli: 8_000,
                duration_ms: 20_000,
                random_timing: true,
                power_random_pct_milli: 50_000,
            },
            smoke: SmokeConfig { is_tanker: false, size: 4, duration_s: 120 },
        },
    );
    add_unit_props(
        &mut t,
        "Barrel",
        UnitProperties {
            explosion: ExplosionConfig { power_milli: 25_000, enabled: true },
            cookoff: CookOffEffectConfig {
                enabled: true,
                count: 2,
                power_milli: 6_000,
                duration_ms: 15_000,
                random_timing: true,
                power_random_pct_milli: 50_000,
            },
            smoke: SmokeConfig { is_tanker: false, size: 3, duration_s: 90 },
        },
    );
    t
}

/// Store one vehicle's properties, keeping the table's bounds intact.
pub fn add_unit_props(t: &mut KeyedTable<UnitProperties>, name: &str, props: UnitProperties)
    requires
        old(t).wf(),
        units_bounded(*old(t)),
        props.valid(),
    ensures
        final(t).wf(),
        units_bounded(*final(t)),
        final(t).spec_get(name.spec_bytes()) == Some(props),
        forall|k: Seq<u8>| k != name.spec_bytes() ==> final(t).spec_get(k) == old(t).spec_get(k),
        final(t).entries@.len() == old(t).entries@.len() + if old(t).spec_has(name.spec_bytes()) {
            0int
        } else {
            1int
        },
{
    let ghost had = old(t).spec_has(name.spec_bytes());
    let ghost oldlen = old(t).entries@.len();
    t.set(name.as_bytes(), props);
    proof {
        assert forall|k: Seq<u8>| (#[trigger] t.spec_get(k)) is Some implies t.spec_get(
            k,
        )->Some_0.valid() by {
            if k != name.spec_bytes() {
                assert(t.spec_get(k) == old(t).spec_get(k));
            }
        }
        assert(units_bounded(*t));
assert(t.entries@.len() == oldlen + if had {
            0int
        } else {
            1int
        });
    }
}


/// A uniformly random share of a duration: `draw · duration / 1000`.
pub fn uniform_share_ms(duration_ms: u64, draw: u64) -> (r: u64)
    requires
        duration_ms <= crate::config::MAX_DURATION_MS,
        draw < MILLI,
    ensures
        r == ((draw as int) * (duration_ms as int)) / 1000,
        r <= duration_ms,
{
    proof {
        crate::units::lemma_mul_le(
            draw as int,
            duration_ms as int,
            1000,
            crate::config::MAX_DURATION_MS as int,
        );
        crate::units::lemma_mul_le(draw as int, duration_ms as int, 1000, duration_ms as int);
    }
    let num = draw * duration_ms;
    proof {
        vstd::arithmetic::div_mod::lemma_div_is_ordered(
            num as int,
            1000 * (duration_ms as int),
            1000,
        );
        vstd::arithmetic::div_mod::lemma_div_multiples_vanish(duration_ms as int, 1000);
    }
    num / 1000
}

/// How the flare scheduler left the timed queue.
#[derive(Clone, Copy, Debug, PartialEq, Eq, Structural)]
pub enum FlareScheduleKind {
    /// The chance draw failed or no flares were due.
    Skipped,
    /// An instant radial burst was queued.
    Instant,
    /// Flares spread over the cook-off duration were queued.
    Spread,
}

impl CookOff {
    /// Queue the cook-off sub-explosions of one scheduled effect: one
    /// entry per configured count, each at the unit's position, with
    /// its delay drawn or evenly spaced and its power displaced by the
    /// configured variance.
    fn schedule_cook_entries(&mut self, eff: &ScheduledCookOffEffect, now_ms: i64)
        requires
            old(self).wf(),
            eff.valid(),
            sched_time_ok(now_ms),
            1 <= eff.cookoff.count,
        ensures
            final(self).wf(),
            final(self).same_but_timed_rng(*old(self)),
            final(self).timed_explosions@.len() == old(self).timed_explosions@.len()
                + eff.cookoff.count,
            forall|idx: int|
                0 <= idx < old(self).timed_explosions@.len() ==> final(self).timed_explosions@[idx]
                    == old(self).timed_explosions@[idx],
            forall|j: int|
                0 <= j < eff.cookoff.count ==> {
                    let e = #[trigger] final(self).timed_explosions@[old(self).timed_explosions@.len() + j];
                    &&& e.effect_type == ExplosionType::Cookoff
                    &&& e.position == eff.position
                    &&& e.offset == Offset::Zero
                    &&& e.snap == (Snap::AboveGround { clearance_cm: COOKOFF_GROUND_CLEARANCE_CM })
                    &&& e.azimuth is None
                    &&& now_ms <= e.trigger_time_ms <= now_ms + eff.cookoff.duration_ms
                    &&& e.power_milli <= 2 * eff.cookoff.power_milli
                    &&& (!eff.cookoff.random_timing ==> e.trigger_time_ms == now_ms + (j
                        * (eff.cookoff.duration_ms as int)) / (eff.cookoff.count as int))
                    &&& (eff.cookoff.power_random_pct_milli == 0 ==> e.power_milli
                        == eff.cookoff.power_milli)
                },
    {
        let ghost base = *self;
        let old_len = self.timed_explosions.len();
        let count = eff.cookoff.count;
        let mut i: u32 = 0;
        while i < count
            invariant
                base.wf(),
                self.same_but_timed_rng(base),
                eff.valid(),
                sched_time_ok(now_ms),
                1 <= count == eff.cookoff.count,
                i <= count,
                old_len == base.timed_explosions@.len(),
                self.timed_explosions@.len() == old_len + i,
                forall|idx: int|
                    0 <= idx < old_len ==> self.timed_explosions@[idx]
                        == base.timed_explosions@[idx],
                forall|j: int|
                    0 <= j < i ==> {
                        let e = #[trigger] self.timed_explosions@[old_len + j];
                        &&& e.effect_type == ExplosionType::Cookoff
                        &&& e.position == eff.position
                        &&& e.offset == Offset::Zero
                        &&& e.snap == (Snap::AboveGround {
                            clearance_cm: COOKOFF_GROUND_CLEARANCE_CM,
                        })
                        &&& e.azimuth is None
                        &&& now_ms <= e.trigger_time_ms <= now_ms + eff.cookoff.duration_ms
                        &&& e.power_milli <= 2 * eff.cookoff.power_milli
                        &&& (!eff.cookoff.random_timing ==> e.trigger_time_ms == now_ms + (j
                            * (eff.cookoff.duration_ms as int)) / (eff.cookoff.count as int))
                        &&& (eff.cookoff.power_random_pct_milli == 0 ==> e.power_milli
                            == eff.cookoff.power_milli)
                    },
            decreases count - i,
        {
            let draw_t = self.rng.draw_milli();
            let delay = cook_delay_ms(&eff.cookoff, i, draw_t);
            let draw_p = self.rng.draw_milli();
            let power = cook_power_milli(
                eff.cookoff.power_milli,
                eff.cookoff.power_random_pct_milli,
                draw_p,
            );
            let entry = TimedExplosion {
                position: eff.position,
                offset: Offset::Zero,
                snap: Snap::AboveGround { clearance_cm: COOKOFF_GROUND_CLEARANCE_CM },
                power_milli: power,
                trigger_time_ms: now_ms + delay as i64,
                effect_type: ExplosionType::Cookoff,
                azimuth: None,
            };
            self.timed_explosions.push(entry);
            i = i + 1;
        }
        proof {
            assert forall|idx: int|
                0 <= idx < self.timed_explosions@.len() implies {
                &&& pos_ok((#[trigger] self.timed_explosions@[idx]).position)
                &&& time_ok(self.timed_explosions@[idx].trigger_time_ms)
                &&& (self.timed_explosions@[idx].effect_type == ExplosionType::Flare
                    ==> self.timed_explosions@[idx].azimuth is Some)
            } by {
                if idx < old_len {
                    assert(self.timed_explosions@[idx] == base.timed_explosions@[idx]);
                } else {
                    assert(0 <= idx - old_len < count);
                    assert(self.timed_explosions@[old_len + (idx - old_len)].effect_type
                        == ExplosionType::Cookoff);
                }
            }
        }
    }

    /// Queue the flares of one scheduled effect: an instant radial
    /// burst fanned around a full circle, or flares spread uniformly
    /// over the cook-off duration, subject to the flare chance.
    fn schedule_flares(&mut self, eff: &ScheduledCookOffEffect, now_ms: i64) -> (r:
        FlareScheduleKind)
        requires
            old(self).wf(),
            eff.valid(),
            sched_time_ok(now_ms),
        ensures
            final(self).wf(),
            final(self).same_but_timed_rng(*old(self)),
            forall|idx: int|
                0 <= idx < old(self).timed_explosions@.len() ==> final(self).timed_explosions@[idx]
                    == old(self).timed_explosions@[idx],
            r == FlareScheduleKind::Skipped ==> final(self).timed_explosions@ == old(self).timed_explosions@,
            old(self).timed_explosions@.len() <= final(self).timed_explosions@.len(),
            old(self).config.flares.timing.chance_milli == 0 ==> r == FlareScheduleKind::Skipped,
            old(self).config.flares.timing.chance_milli == MILLI && crate::units::milli_of(
                eff.cookoff.count as int,
                old(self).config.flares.timing.count_modifier_milli as int,
            ) >= 1 ==> r != FlareScheduleKind::Skipped,
            r == FlareScheduleKind::Instant ==> old(self).config.flares.instant.enabled && final(self).timed_explosions@.len() >= old(self).timed_explosions@.len() + old(self).config.flares.instant.min,
            r == FlareScheduleKind::Spread ==> !old(self).config.flares.instant.enabled && final(self).timed_explosions@.len() == old(self).timed_explosions@.len()
                + crate::units::milli_of(
                eff.cookoff.count as int,
                old(self).config.flares.timing.count_modifier_milli as int,
            ),
            forall|j: int|
                0 <= j < final(self).timed_explosions@.len() - old(self).timed_explosions@.len()
                    ==> {
                    let e = #[trigger] final(self).timed_explosions@[old(self).timed_explosions@.len() + j];
                    &&& e.effect_type == ExplosionType::Flare
                    &&& e.power_milli == 0
                    &&& e.azimuth is Some
                    &&& now_ms <= e.trigger_time_ms <= now_ms + eff.cookoff.duration_ms
                    &&& pos_ok(e.position)
                },
            r == FlareScheduleKind::Instant ==> final(self).timed_explosions@.len() <= old(self).timed_explosions@.len() + old(self).config.flares.instant.max,
    {
        let chance_draw = self.rng.draw_milli();
        if chance_draw >= self.config.flares.timing.chance_milli {
            return FlareScheduleKind::Skipped;
        }
        proof {
            crate::units::lemma_mul_le(
                eff.cookoff.count as int,
                self.config.flares.timing.count_modifier_milli as int,
                10_000,
                crate::units::MAX_FACTOR_MILLI as int,
            );
        }
        let flare_count64 = crate::units::mul_milli(
            eff.cookoff.count as u64,
            self.config.flares.timing.count_modifier_milli,
        );
        if flare_count64 == 0 {
            return FlareScheduleKind::Skipped;
        }
        let ghost base = *self;
        let old_len = self.timed_explosions.len();
        if self.config.flares.instant.enabled {
            let cnt64 = self.rng.draw_u64(
                self.config.flares.instant.min as u64,
                self.config.flares.instant.max as u64,
            );
            let cnt = cnt64 as u32;
            if cnt == 0 {
                return FlareScheduleKind::Instant;
            }
            let mut i: u32 = 0;
            while i < cnt
                invariant
                    base.wf(),
                    self.same_but_timed_rng(base),
                    eff.valid(),
                    sched_time_ok(now_ms),
                    1 <= cnt,
                    i <= cnt,
                    old_len == base.timed_explosions@.len(),
                    self.timed_explosions@.len() == old_len + i,
                    self.config == base.config,
                    forall|idx: int|
                        0 <= idx < old_len ==> self.timed_explosions@[idx]
                            == base.timed_explosions@[idx],
                    forall|j: int|
                        0 <= j < i ==> {
                            let e = #[trigger] self.timed_explosions@[old_len + j];
                            &&& e.effect_type == ExplosionType::Flare
                            &&& e.power_milli == 0
                            &&& e.azimuth is Some
                            &&& e.trigger_time_ms == now_ms
                            &&& pos_ok(e.position)
                        },
                decreases cnt - i,
            {
                let draw_az = self.rng.draw_u64(0, 73);
                let az = flare_azimuth_deg(i, cnt, draw_az);
                let off = self.config.flares.timing.offset_cm;
                let dx = self.rng.draw_u64(0, 2 * off as u64) as i64 - off;
                let dz = self.rng.draw_u64(0, 2 * off as u64) as i64 - off;
                let entry = TimedExplosion {
                    position: Pos {
                        x: crate::units::clamp_coord(eff.position.x + dx),
                        y: eff.position.y,
                        z: crate::units::clamp_coord(eff.position.z + dz),
                    },
                    offset: Offset::Zero,
                    snap: Snap::AsIs,
                    power_milli: 0,
                    trigger_time_ms: now_ms,
                    effect_type: ExplosionType::Flare,
                    azimuth: Some(az),
                };
                self.timed_explosions.push(entry);
                i = i + 1;
            }
            proof {
                assert(self.timed_explosions@.len() <= old_len
                    + self.config.flares.instant.max);
                lemma_timed_wf_extend(base, *self, old_len as int);
            }
            FlareScheduleKind::Instant
        } else {
            let cnt = flare_count64;
            let mut i: u64 = 0;
            while i < cnt
                invariant
                    base.wf(),
                    self.same_but_timed_rng(base),
                    eff.valid(),
                    sched_time_ok(now_ms),
                    i <= cnt,
                    old_len == base.timed_explosions@.len(),
                    self.timed_explosions@.len() == old_len + i,
                    self.config == base.config,
                    forall|idx: int|
                        0 <= idx < old_len ==> self.timed_explosions@[idx]
                            == base.timed_explosions@[idx],
                    forall|j: int|
                        0 <= j < i ==> {
                            let e = #[trigger] self.timed_explosions@[old_len + j];
                            &&& e.effect_type == ExplosionType::Flare
                            &&& e.power_milli == 0
                            &&& e.azimuth is Some
                            &&& now_ms <= e.trigger_time_ms <= now_ms + eff.cookoff.duration_ms
                            &&& pos_ok(e.position)
                        },
                decreases cnt - i,
            {
                let draw_d = self.rng.draw_milli();
                let delay = uniform_share_ms(eff.cookoff.duration_ms, draw_d);
                let az64 = self.rng.draw_u64(1, 360);
                let off = self.config.flares.timing.offset_cm;
                let dx = self.rng.draw_u64(0, 2 * off as u64) as i64 - off;
                let dz = self.rng.draw_u64(0, 2 * off as u64) as i64 - off;
                let entry = TimedExplosion {
                    position: Pos {
                        x: crate::units::clamp_coord(eff.position.x + dx),
                        y: eff.position.y,
                        z: crate::units::clamp_coord(eff.position.z + dz),
                    },
                    offset: Offset::Zero,
                    snap: Snap::AboveGround { clearance_cm: 0 },
                    power_milli: 0,
                    trigger_time_ms: now_ms + delay as i64,
                    effect_type: ExplosionType::Flare,
                    azimuth: Some(az64 as u16),
                };
                self.timed_explosions.push(entry);
                i = i + 1;
            }
            proof {
                lemma_timed_wf_extend(base, *self, old_len as int);
            }
            FlareScheduleKind::Spread
        }
    }

    /// Queue the debris of one scheduled effect: a drawn number of
    /// pieces, each thrown a drawn distance on a drawn azimuth with a
    /// drawn upward component, landing after a short drawn delay.
    fn schedule_debris(&mut self, eff: &ScheduledCookOffEffect, now_ms: i64)
        requires
            old(self).wf(),
            eff.valid(),
            sched_time_ok(now_ms),
        ensures
            final(self).wf(),
            final(self).same_but_timed_rng(*old(self)),
            forall|idx: int|
                0 <= idx < old(self).timed_explosions@.len() ==> final(self).timed_explosions@[idx]
                    == old(self).timed_explosions@[idx],
            old(self).config.debris.count.min <= final(self).timed_explosions@.len() - old(self).timed_explosions@.len() <= old(self).config.debris.count.max,
            forall|j: int|
                0 <= j < final(self).timed_explosions@.len() - old(self).timed_explosions@.len()
                    ==> {
                    let e = #[trigger] final(self).timed_explosions@[old(self).timed_explosions@.len() + j];
                    &&& e.effect_type == ExplosionType::Debris
                    &&& e.position == eff.position
                    &&& e.power_milli == old(self).config.debris.explosion.power_milli
                    &&& now_ms + 500 <= e.trigger_time_ms <= now_ms + 3000
                    &&& e.snap == (Snap::AboveGround { clearance_cm: COOKOFF_GROUND_CLEARANCE_CM })
                    &&& (e.offset matches Offset::Radial { dist_cm, azimuth_mdeg, up_cm }
                        && 0 <= dist_cm <= old(self).config.debris.explosion.max_distance_cm
                        && azimuth_mdeg < 360_000 && 0 <= up_cm <= old(self).config.debris.explosion.max_distance_cm)
                },
    {
        let ghost base = *self;
        let old_len = self.timed_explosions.len();
        let cnt64 = self.rng.draw_u64(
            self.config.debris.count.min as u64,
            self.config.debris.count.max as u64,
        );
        let cnt = cnt64 as u32;
        let max_d = self.config.debris.explosion.max_distance_cm;
        let power = self.config.debris.explosion.power_milli;
        let mut i: u32 = 0;
        while i < cnt
            invariant
                base.wf(),
                self.same_but_timed_rng(base),
                eff.valid(),
                sched_time_ok(now_ms),
                i <= cnt,
                old_len == base.timed_explosions@.len(),
                self.timed_explosions@.len() == old_len + i,
                self.config == base.config,
                max_d == base.config.debris.explosion.max_distance_cm,
                power == base.config.debris.explosion.power_milli,
                forall|idx: int|
                    0 <= idx < old_len ==> self.timed_explosions@[idx]
                        == base.timed_explosions@[idx],
                forall|j: int|
                    0 <= j < i ==> {
                        let e = #[trigger] self.timed_explosions@[old_len + j];
                        &&& e.effect_type == ExplosionType::Debris
                        &&& e.position == eff.position
                        &&& e.power_milli == base.config.debris.explosion.power_milli
                        &&& now_ms + 500 <= e.trigger_time_ms <= now_ms + 3000
                        &&& e.snap == (Snap::AboveGround {
                            clearance_cm: COOKOFF_GROUND_CLEARANCE_CM,
                        })
                        &&& (e.offset matches Offset::Radial { dist_cm, azimuth_mdeg, up_cm }
                            && 0 <= dist_cm <= base.config.debris.explosion.max_distance_cm
                            && azimuth_mdeg < 360_000 && 0 <= up_cm
                            <= base.config.debris.explosion.max_distance_cm)
                    },
            decreases cnt - i,
        {
            let az = self.rng.draw_u64(0, 359);
            let dist = self.rng.draw_u64(0, max_d as u64);
            let up = self.rng.draw_u64(0, max_d as u64);
            let delay = self.rng.draw_u64(500, 2999);
            let entry = TimedExplosion {
                position: eff.position,
                offset: Offset::Radial {
                    dist_cm: dist as i64,
                    azimuth_mdeg: az * 1000,
                    up_cm: up as i64,
                },
                snap: Snap::AboveGround { clearance_cm: COOKOFF_GROUND_CLEARANCE_CM },
                power_milli: power,
                trigger_time_ms: now_ms + delay as i64,
                effect_type: ExplosionType::Debris,
                azimuth: None,
            };
            self.timed_explosions.push(entry);
            i = i + 1;
        }
        proof {
            lemma_timed_wf_extend(base, *self, old_len as int);
        }
    }

    /// Queue every timed sub-effect of one scheduled effect: flares
    /// when enabled, the cook-off sub-explosions, and debris when
    /// enabled.
    fn schedule_cookoff_effects_for_effect(&mut self, eff: &ScheduledCookOffEffect, now_ms: i64)
        requires
            old(self).wf(),
            eff.valid(),
            sched_time_ok(now_ms),
            1 <= eff.cookoff.count,
        ensures
            final(self).wf(),
            final(self).same_but_timed_rng(*old(self)),
            forall|idx: int|
                0 <= idx < old(self).timed_explosions@.len() ==> final(self).timed_explosions@[idx]
                    == old(self).timed_explosions@[idx],
            final(self).timed_explosions@.len() >= old(self).timed_explosions@.len()
                + eff.cookoff.count,
            forall|idx: int|
                old(self).timed_explosions@.len() <= idx < final(self).timed_explosions@.len()
                    ==> now_ms <= (#[trigger] final(self).timed_explosions@[idx]).trigger_time_ms
                    <= now_ms + eff.cookoff.duration_ms + 3000,
    {
        let ghost s0 = *self;
        if self.config.flares.enabled {
            let _kind = self.schedule_flares(eff, now_ms);
        }
        let ghost s1 = *self;
        self.schedule_cook_entries(eff, now_ms);
        let ghost s2 = *self;
        if self.config.debris.enabled {
            self.schedule_debris(eff, now_ms);
        }
        proof {
            let l0 = s0.timed_explosions@.len() as int;
            let l1 = s1.timed_explosions@.len() as int;
            let l2 = s2.timed_explosions@.len() as int;
            let l3 = self.timed_explosions@.len() as int;
            assert forall|idx: int| 0 <= idx < l0 implies self.timed_explosions@[idx]
                == s0.timed_explosions@[idx] by {
                assert(self.timed_explosions@[idx] == s2.timed_explosions@[idx]);
                assert(s2.timed_explosions@[idx] == s1.timed_explosions@[idx]);
            }
            assert forall|idx: int| l0 <= idx < l3 implies now_ms <= (
            #[trigger] self.timed_explosions@[idx]).trigger_time_ms <= now_ms
                + eff.cookoff.duration_ms + 3000 by {
                if idx < l1 {
                    let j = idx - l0;
                    assert(now_ms <= s1.timed_explosions@[l0 + j].trigger_time_ms <= now_ms
                        + eff.cookoff.duration_ms);
                    assert(self.timed_explosions@[idx] == s2.timed_explosions@[idx]);
                    assert(s2.timed_explosions@[idx] == s1.timed_explosions@[idx]);
                } else if idx < l2 {
                    let j = idx - l1;
                    assert(now_ms <= s2.timed_explosions@[l1 + j].trigger_time_ms <= now_ms
                        + eff.cookoff.duration_ms);
                    assert(self.timed_explosions@[idx] == s2.timed_explosions@[idx]);
                } else {
                    let j = idx - l2;
                    assert(now_ms + 500 <= self.timed_explosions@[l2 + j].trigger_time_ms
                        <= now_ms + 3000);
                }
            }
        }
    }
}

/// Extending the timed queue with well-formed entries keeps the
/// queue's part of the invariant.
proof fn lemma_timed_wf_extend(base: CookOff, cur: CookOff, old_len: int)
    requires
        base.wf(),
        0 <= old_len == base.timed_explosions@.len() <= cur.timed_explosions@.len(),
        forall|idx: int|
            0 <= idx < old_len ==> cur.timed_explosions@[idx] == base.timed_explosions@[idx],
        forall|j: int|
            0 <= j < cur.timed_explosions@.len() - old_len ==> {
                &&& pos_ok((#[trigger] cur.timed_explosions@[old_len + j]).position)
                &&& time_ok(cur.timed_explosions@[old_len + j].trigger_time_ms)
                &&& (cur.timed_explosions@[old_len + j].effect_type == ExplosionType::Flare
                    ==> cur.timed_explosions@[old_len + j].azimuth is Some)
            },
    ensures
        forall|idx: int|
            0 <= idx < cur.timed_explosions@.len() ==> {
                &&& pos_ok((#[trigger] cur.timed_explosions@[idx]).position)
                &&& time_ok(cur.timed_explosions@[idx].trigger_time_ms)
                &&& (cur.timed_explosions@[idx].effect_type == ExplosionType::Flare
                    ==> cur.timed_explosions@[idx].azimuth is Some)
            },
{
    assert forall|idx: int|
        0 <= idx < cur.timed_explosions@.len() implies {
        &&& pos_ok((#[trigger] cur.timed_explosions@[idx]).position)
        &&& time_ok(cur.timed_explosions@[idx].trigger_time_ms)
        &&& (cur.timed_explosions@[idx].effect_type == ExplosionType::Flare
            ==> cur.timed_explosions@[idx].azimuth is Some)
    } by {
        if idx < old_len {
            assert(cur.timed_explosions@[idx] == base.timed_explosions@[idx]);
        } else {
            let j = idx - old_len;
            assert(pos_ok(cur.timed_explosions@[old_len + j].position));
        }
    }
}


/// The effects rendered the moment a unit's scheduled cook-off fires:
/// the primary explosion with its fire plume when enabled, then the
/// vehicle's smoke when drawn.
pub open spec fn spec_immediate_effects(e: ScheduledCookOffEffect) -> Seq<Effect> {
    let ex: Seq<Effect> = if e.explosion.enabled {
        seq![
            Effect::Explosion {
                base: e.position,
                offset: Offset::Zero,
                snap: Snap::AboveGround { clearance_cm: COOKOFF_GROUND_CLEARANCE_CM },
                power_milli: e.explosion.power_milli,
            },
            Effect::BigSmoke {
                base: e.position,
                offset: Offset::Zero,
                snap: Snap::AboveGround { clearance_cm: COOKOFF_GROUND_CLEARANCE_CM },
                preset: SmokePreset::MediumSmokeAndFire,
            },
        ]
    } else {
        Seq::empty()
    };
    let sm: Seq<Effect> = if e.smoke.is_tanker {
        seq![
            Effect::BigSmoke {
                base: e.position,
                offset: Offset::Zero,
                snap: Snap::AboveGround { clearance_cm: SMOKE_GROUND_CLEARANCE_CM },
                preset: spec_smoke_preset_for_size(e.smoke.size),
            },
        ]
    } else {
        Seq::empty()
    };
    ex + sm
}

impl CookOff {
    /// Everything but the effect queue, the timed queue, the
    /// smoke bookkeeping and the random generator is unchanged.
    pub open spec fn same_but_fire_rng(self, other: CookOff) -> bool {
        &&& self.config == other.config
        &&& self.units == other.units
        &&& self.pending_effects == other.pending_effects
        &&& self.processed_units == other.processed_units
        &&& self.effect_smoke_id == other.effect_smoke_id
        &&& self.movement_tracking == other.movement_tracking
        &&& self.update_times == other.update_times
        &&& self.last_update_time_ms == other.last_update_time_ms
        &&& self.adaptive_update_interval_ms == other.adaptive_update_interval_ms
        &&& self.performance_mode == other.performance_mode
    }

    /// Fire the scheduled effects of one unit now: render the
    /// immediate explosion and smoke, queue the timed sub-effects, and
    /// consume the queue entry.  A unit with no queued effect is a
    /// no-op.
    pub fn trigger_effects_for(&mut self, unit_id: u64, now_ms: i64) -> (r: Vec<Effect>)
        requires
            old(self).wf(),
            sched_time_ok(now_ms),
        ensures
            final(self).wf(),
            !old(self).effect_queue.spec_has(unit_id) ==> *final(self) == *old(self) && r@.len()
                == 0,
            old(self).effect_queue.spec_has(unit_id) ==> {
                let e = old(self).effect_queue.spec_get(unit_id)->Some_0;
                &&& final(self).effect_queue.spec_get(unit_id) is None
                &&& forall|k: u64|
                    k != unit_id ==> final(self).effect_queue.spec_get(k) == old(self).effect_queue.spec_get(k)
                &&& final(self).same_but_fire_rng(*old(self))
                &&& (e.smoke.is_tanker ==> final(self).processed_smoke.spec_get(unit_id) == Some(
                    true,
                ))
                &&& (!e.smoke.is_tanker ==> final(self).processed_smoke == old(self).processed_smoke)
                &&& forall|k: u64|
                    k != unit_id ==> final(self).processed_smoke.spec_get(k) == old(self).processed_smoke.spec_get(k)
                &&& r@ == spec_immediate_effects(e)
                &&& (!(e.cookoff.enabled && e.cookoff.count >= 1) ==> final(self).timed_explosions == old(self).timed_explosions)
&&& (e.cookoff.enabled && e.cookoff.count >= 1 ==> {
                    &&& final(self).timed_explosions@.len() >= old(self).timed_explosions@.len()
                        + e.cookoff.count
                    &&& forall|idx: int|
                        0 <= idx < old(self).timed_explosions@.len() ==> final(self).timed_explosions@[idx] == old(self).timed_explosions@[idx]
                    &&& forall|idx: int|
                        old(self).timed_explosions@.len() <= idx < final(self).timed_explosions@.len() ==> now_ms <= (#[trigger] final(self).timed_explosions@[idx]).trigger_time_ms <= now_ms + e.cookoff.duration_ms + 3000
                })

            },
    {
        let taken = self.effect_queue.take(unit_id);
        match taken {
            None => Vec::new(),
            Some(e) => {
                proof {
                    assert(old(self).effect_queue.spec_get(unit_id) == Some(e));
                    assert(e.valid());
                    assert forall|k: u64| (#[trigger] self.effect_queue.spec_get(k)) is Some
                        implies self.effect_queue.spec_get(k)->Some_0.valid()
                        && self.effect_queue.spec_get(k)->Some_0.unit_id == k by {
                        if k != unit_id {
                            assert(self.effect_queue.spec_get(k) == old(self).effect_queue.spec_get(k));
                        }
                    }
                }
                let mut out: Vec<Effect> = Vec::new();
                if e.explosion.enabled {
                    out.push(
                        Effect::Explosion {
                            base: e.position,
                            offset: Offset::Zero,
                            snap: Snap::AboveGround {
                                clearance_cm: COOKOFF_GROUND_CLEARANCE_CM,
                            },
                            power_milli: e.explosion.power_milli,
                        },
                    );
                    out.push(
                        Effect::BigSmoke {
                            base: e.position,
                            offset: Offset::Zero,
                            snap: Snap::AboveGround {
                                clearance_cm: COOKOFF_GROUND_CLEARANCE_CM,
                            },
                            preset: SmokePreset::MediumSmokeAndFire,
                        },
                    );
                }
                if e.smoke.is_tanker {
                    out.push(
                        Effect::BigSmoke {
                            base: e.position,
                            offset: Offset::Zero,
                            snap: Snap::AboveGround { clearance_cm: SMOKE_GROUND_CLEARANCE_CM },
                            preset: smoke_preset_for_size(e.smoke.size),
                        },
                    );
                    self.processed_smoke.set(unit_id, true);
                }
                proof {
                    assert(out@ =~= spec_immediate_effects(e));
                }
                if e.cookoff.enabled && e.cookoff.count > 0 {
                    self.schedule_cookoff_effects_for_effect(&e, now_ms);
                }
                out
            },
        }
    }

    /// Promote one pending effect: resolve the cook-off and smoke
    /// intents by their draws (cook-off is certain for explicitly
    /// configured types), queue the resolved effect, and either fire
    /// it at once (the unit was reported dead) or begin movement
    /// tracking.  A unit with no pending effect is a no-op.
    pub fn promote_pending(&mut self, unit_id: u64, now_ms: i64) -> (r: Vec<Effect>)
        requires
            old(self).wf(),
            sched_time_ok(now_ms),
        ensures
            final(self).wf(),
            !old(self).pending_effects.spec_has(unit_id) ==> *final(self) == *old(self) && r@.len()
                == 0,
            old(self).pending_effects.spec_has(unit_id) ==> {
                let p = old(self).pending_effects.spec_get(unit_id)->Some_0;
                &&& final(self).pending_effects.spec_get(unit_id) is None
                &&& forall|k: u64|
                    k != unit_id ==> final(self).pending_effects.spec_get(k) == old(self).pending_effects.spec_get(k)
                &&& final(self).processed_units == old(self).processed_units
                &&& final(self).config == old(self).config
                &&& final(self).units == old(self).units
                &&& final(self).update_times == old(self).update_times
                &&& final(self).last_update_time_ms == old(self).last_update_time_ms
                &&& final(self).performance_mode == old(self).performance_mode
                &&& forall|k: u64|
                    k != unit_id ==> final(self).effect_queue.spec_get(k) == old(self).effect_queue.spec_get(k)
                &&& (p.is_dead ==> {
                    &&& final(self).movement_tracking == old(self).movement_tracking
                    &&& final(self).effect_queue.spec_get(unit_id) is None
                    &&& (exists|should_cookoff: bool, should_smoke: bool|
                        {
                            &&& (old(self).units.spec_has(p.unit_type@) ==> should_cookoff)
                            &&& (should_cookoff && old(self).config.all_vehicles.smoke_with_cookoff
                                ==> should_smoke)
                            &&& r@ == spec_immediate_effects(
                                spec_scheduled_of(p, should_cookoff, should_smoke),
                            )
                        })
                    &&& old(self).timed_explosions@.len() <= final(self).timed_explosions@.len()
                    &&& forall|idx: int|
                        0 <= idx < old(self).timed_explosions@.len() ==> final(self).timed_explosions@[idx] == old(self).timed_explosions@[idx]
                    &&& forall|idx: int|
                        old(self).timed_explosions@.len() <= idx < final(self).timed_explosions@.len() ==> now_ms <= (#[trigger] final(self).timed_explosions@[idx]).trigger_time_ms <= now_ms + p.properties.cookoff.duration_ms + 3000
                })
                &&& (!p.is_dead ==> {
                    &&& r@.len() == 0
                    &&& final(self).timed_explosions == old(self).timed_explosions
                    &&& final(self).effect_queue.spec_get(unit_id) is Some
                    &&& ({
                        let q = final(self).effect_queue.spec_get(unit_id)->Some_0;
                        &&& q == spec_scheduled_of(p, q.cookoff.enabled, q.smoke.is_tanker)
                        &&& (old(self).units.spec_has(p.unit_type@) ==> q.cookoff.enabled)
                        &&& (q.cookoff.enabled && old(self).config.all_vehicles.smoke_with_cookoff
                            ==> q.smoke.is_tanker)
                    })
                    &&& final(self).movement_tracking.spec_get(unit_id) == Some(
                        MovementTracker {
                            unit_id,
                            last_position: p.position,
                            last_update_ms: now_ms,
                            stationary_checks: 0,
                            max_stationary_checks: 3,
                            movement_threshold_cm: 100,
                        },
                    )
                    &&& forall|k: u64|
                        k != unit_id ==> final(self).movement_tracking.spec_get(k) == old(self).movement_tracking.spec_get(k)
                })
            },
    {
        let taken = self.pending_effects.take(unit_id);
        match taken {
            None => Vec::new(),
            Some(p) => {
                proof {
                    assert(old(self).pending_effects.spec_get(unit_id) == Some(p));
                    assert(p.valid() && p.unit_id == unit_id);
                    assert forall|k: u64| (#[trigger] self.pending_effects.spec_get(k)) is Some
                        implies self.pending_effects.spec_get(k)->Some_0.valid()
                        && self.pending_effects.spec_get(k)->Some_0.unit_id == k by {
                        if k != unit_id {
                            assert(self.pending_effects.spec_get(k) == old(self).pending_effects.spec_get(k));
                        }
                    }
                }
                let configured = self.units.has(p.unit_type.as_slice());
                let cookoff_chance = if configured {
                    MILLI
                } else {
                    self.config.all_vehicles.cookoff_chance_milli
                };
                let draw_c = self.rng.draw_milli();
                let should_cookoff = draw_c < cookoff_chance;
                let should_smoke = if should_cookoff && self.config.all_vehicles.smoke_with_cookoff {
                    true
                } else {
                    let draw_s = self.rng.draw_milli();
                    draw_s < self.config.all_vehicles.smoke_chance_milli
                };
                let scheduled = ScheduledCookOffEffect {
                    unit_id,
                    unit_name: p.unit_name,
                    unit_type: p.unit_type,
                    position: p.position,
                    explosion: p.properties.explosion,
                    cookoff: CookOffEffectConfig {
                        enabled: should_cookoff,
                        count: p.properties.cookoff.count,
                        power_milli: p.properties.cookoff.power_milli,
                        duration_ms: p.properties.cookoff.duration_ms,
                        random_timing: p.properties.cookoff.random_timing,
                        power_random_pct_milli: p.properties.cookoff.power_random_pct_milli,
                    },
                    smoke: SmokeConfig {
                        is_tanker: should_smoke,
                        size: p.properties.smoke.size,
                        duration_s: p.properties.smoke.duration_s,
                    },
                };
                let ghost gsched = scheduled;
                self.effect_queue.set(unit_id, scheduled);
                proof {
                    assert forall|k: u64| (#[trigger] self.effect_queue.spec_get(k)) is Some
                        implies self.effect_queue.spec_get(k)->Some_0.valid()
                        && self.effect_queue.spec_get(k)->Some_0.unit_id == k by {
                        if k != unit_id {
                            assert(self.effect_queue.spec_get(k) == old(self).effect_queue.spec_get(k));
                        }
                    }
                    assert(gsched == spec_scheduled_of(p, should_cookoff, should_smoke));
                }
                if p.is_dead {
                    let fired = self.trigger_effects_for(unit_id, now_ms);
                    proof {
                        assert(fired@ == spec_immediate_effects(
                            spec_scheduled_of(p, should_cookoff, should_smoke),
                        ));
                        assert((old(self).units.spec_has(p.unit_type@) ==> should_cookoff) && (
                        should_cookoff && old(self).config.all_vehicles.smoke_with_cookoff
                            ==> should_smoke) && fired@ == spec_immediate_effects(
                            spec_scheduled_of(p, should_cookoff, should_smoke),
                        ));
                    }
                    fired
                } else {
                    let tracker = MovementTracker::new(unit_id, p.position, now_ms);
                    self.movement_tracking.set(unit_id, tracker);
                    proof {
                        assert forall|k: u64| (#[trigger] self.movement_tracking.spec_get(
                            k,
                        )) is Some implies self.movement_tracking.spec_get(k)->Some_0.valid()
                            && self.movement_tracking.spec_get(k)->Some_0.unit_id == k by {
                            if k != unit_id {
                                assert(self.movement_tracking.spec_get(k) == old(self).movement_tracking.spec_get(k));
                            }
                        }
                    }
                    Vec::new()
                }
            },
        }
    }
}


/// What a pruned record map holds for `k`: the old record, kept only
/// when it is younger than the cutoff.
pub open spec fn spec_pruned(s: Seq<(u64, i64)>, k: u64, cutoff: i64) -> Option<i64> {
    match crate::idmap::get_id(s, k) {
        Some(t) => if t > cutoff {
            Some(t)
        } else {
            None
        },
        None => None,
    }
}

/// Drop every record at or below the cutoff.
fn prune_old(m: &mut IdMap<i64>, cutoff: i64)
    requires
        old(m).wf(),
    ensures
        final(m).wf(),
        forall|k: u64| final(m).spec_get(k) == spec_pruned(old(m).entries@, k, cutoff),
{
    let ghost orig = m.entries@;
    let n = m.entries.len();
    let mut acc: Vec<(u64, i64)> = Vec::new();
    let mut i: usize = 0;
    while i < n
        invariant
            crate::idmap::wf_ids(orig),
            n == orig.len(),
            i <= n,
            m.entries@ == orig,
            crate::idmap::wf_ids(acc@),
            forall|k: u64|
                crate::idmap::get_id(acc@, k) == spec_pruned(orig.take(i as int), k, cutoff),
        decreases n - i,
    {
        let ghost prefix = orig.take(i as int);
        let ghost prefix1 = orig.take(i as int + 1);
        proof {
            assert(prefix1 =~= prefix.push(orig[i as int]));
            assert(crate::idmap::wf_ids(prefix1)) by {
                assert forall|x: int, y: int| 0 <= x < y < prefix1.len() implies prefix1[x].0
                    != prefix1[y].0 by {
                    assert(orig[x].0 != orig[y].0);
                }
            }
            assert(!crate::idmap::has_id(prefix, orig[i as int].0)) by {
                if crate::idmap::has_id(prefix, orig[i as int].0) {
                    let w = crate::idmap::idx_id(prefix, orig[i as int].0);
                    assert(orig[w].0 == orig[i as int].0);
                }
            }
        }
        let entry = m.entries[i];
        if entry.1 > cutoff {
            let ghost accprev = acc@;
            proof {
                assert(!crate::idmap::has_id(accprev, entry.0)) by {
                    if crate::idmap::has_id(accprev, entry.0) {
                        assert(crate::idmap::get_id(accprev, entry.0) == spec_pruned(
                            prefix,
                            entry.0,
                            cutoff,
                        ));
                        assert(crate::idmap::has_id(prefix, entry.0));
                    }
                }
            }
            acc.push(entry);
            proof {
                crate::idmap::lemma_id_frame_push(accprev, acc@, entry);
                assert forall|k: u64| crate::idmap::get_id(acc@, k) == spec_pruned(
                    prefix1,
                    k,
                    cutoff,
                ) by {
                    if k == entry.0 {
                        crate::idmap::lemma_id_unique(prefix1, k, i as int);
                    } else {
                        crate::idmap::lemma_id_frame_push(prefix, prefix1, orig[i as int]);
                    }
                }
            }
        } else {
            proof {
                assert forall|k: u64| crate::idmap::get_id(acc@, k) == spec_pruned(
                    prefix1,
                    k,
                    cutoff,
                ) by {
                    if k == entry.0 {
                        crate::idmap::lemma_id_unique(prefix1, k, i as int);
                        assert(!crate::idmap::has_id(prefix, k)) by {
                            if crate::idmap::has_id(prefix, k) {
                                let w = crate::idmap::idx_id(prefix, k);
                                assert(orig[w].0 == orig[i as int].0);
                            }
                        }
                    } else {
                        crate::idmap::lemma_id_frame_push(prefix, prefix1, orig[i as int]);
                    }
                }
            }
        }
        i = i + 1;
    }
    proof {
        assert(orig.take(n as int) =~= orig);
    }
    m.entries = acc;
}

/// The azimuth stored in a timed effect, defaulting to zero.
pub open spec fn spec_entry_azimuth(e: TimedExplosion) -> u16 {
    match e.azimuth {
        Some(a) => a,
        None => 0,
    }
}

/// The effects one ready timed entry renders: an explosion with a fire
/// plume for cook-off and debris entries of positive power, nothing
/// for those of zero power, and a flare shot for flare entries.
pub open spec fn spec_effects_of_entry(e: TimedExplosion, color: u8) -> Seq<Effect> {
    match e.effect_type {
        ExplosionType::Cookoff | ExplosionType::Debris => {
            if e.power_milli > 0 {
                seq![
                    Effect::Explosion {
                        base: e.position,
                        offset: e.offset,
                        snap: e.snap,
                        power_milli: e.power_milli,
                    },
                    Effect::BigSmoke {
                        base: e.position,
                        offset: e.offset,
                        snap: e.snap,
                        preset: SmokePreset::MediumSmokeAndFire,
                    },
                ]
            } else {
                Seq::empty()
            }
        },
        ExplosionType::Flare => {
            seq![
                Effect::Flare {
                    base: e.position,
                    offset: e.offset,
                    color,
                    azimuth_deg: spec_entry_azimuth(e),
                },
            ]
        },
    }
}

/// The effects a run of ready timed entries renders, in order.
pub open spec fn spec_effects_of_timed(s: Seq<TimedExplosion>, color: u8) -> Seq<Effect>
    decreases s.len(),
{
    if s.len() == 0 {
        Seq::empty()
    } else {
        spec_effects_of_entry(s[0], color) + spec_effects_of_timed(s.drop_first(), color)
    }
}

/// Rendering distributes over appending one entry at the back.
proof fn lemma_effects_snoc(s: Seq<TimedExplosion>, e: TimedExplosion, color: u8)
    ensures
        spec_effects_of_timed(s.push(e), color) == spec_effects_of_timed(s, color)
            + spec_effects_of_entry(e, color),
    decreases s.len(),
{
    if s.len() == 0 {
        let sp = s.push(e);
        assert(sp.len() == 1);
        assert(sp[0] == e);
        assert(sp.drop_first() =~= Seq::<TimedExplosion>::empty());
        assert(spec_effects_of_timed(sp.drop_first(), color) =~= Seq::<Effect>::empty());
        assert(spec_effects_of_timed(sp, color) == spec_effects_of_entry(sp[0], color)
            + spec_effects_of_timed(sp.drop_first(), color));
        assert(spec_effects_of_entry(e, color) + spec_effects_of_timed(sp.drop_first(), color)
            =~= spec_effects_of_entry(e, color));
        assert(spec_effects_of_timed(s, color) + spec_effects_of_entry(e, color)
            =~= spec_effects_of_entry(e, color));
    } else {
        assert(s.push(e).drop_first() =~= s.drop_first().push(e));
        lemma_effects_snoc(s.drop_first(), e, color);
        assert(spec_effects_of_timed(s.push(e), color) =~= spec_effects_of_timed(s, color)
            + spec_effects_of_entry(e, color));
    }
}

/// How many entries at the head of the queue are ready at `now`.
pub open spec fn spec_ready_count(s: Seq<TimedExplosion>, now_ms: i64) -> int
    decreases s.len(),
{
    if s.len() == 0 {
        0
    } else if s[0].trigger_time_ms > now_ms {
        0
    } else {
        1 + spec_ready_count(s.drop_first(), now_ms)
    }
}

/// A count of ready heads with a non-ready (or absent) successor is
/// the ready count.
proof fn lemma_ready_count_eq(s: Seq<TimedExplosion>, now_ms: i64, cnt: int)
    requires
        0 <= cnt <= s.len(),
        forall|j: int| 0 <= j < cnt ==> #[trigger] s[j].trigger_time_ms <= now_ms,
        cnt == s.len() || s[cnt].trigger_time_ms > now_ms,
    ensures
        spec_ready_count(s, now_ms) == cnt,
    decreases cnt,
{
    if cnt == 0 {
    } else {
        assert(s[0].trigger_time_ms <= now_ms);
        lemma_ready_count_eq(s.drop_first(), now_ms, cnt - 1);
    }
}

/// The effects one round of movement samples fires, given the
/// scheduler state before the round: each sample whose step decides
/// Trigger contributes the immediate effects of its unit's queued
/// effect (or nothing when no effect is queued), in sample order.
pub open spec fn spec_fired_effects(
    pre: CookOff,
    samples: Seq<(u64, Option<Pos>)>,
    now_ms: i64,
) -> Seq<Effect>
    decreases samples.len(),
{
    if samples.len() == 0 {
        Seq::empty()
    } else {
        let head = samples[0];
        let contribution: Seq<Effect> = match pre.movement_tracking.spec_get(head.0) {
            Some(t) => {
                if crate::movement::spec_movement_step(t, head.1, now_ms).1
                    == crate::movement::MovementDecision::Trigger {
                    match pre.effect_queue.spec_get(head.0) {
                        Some(e) => spec_immediate_effects(e),
                        None => Seq::empty(),
                    }
                } else {
                    Seq::empty()
                }
            },
            None => Seq::empty(),
        };
        contribution + spec_fired_effects(pre, samples.drop_first(), now_ms)
    }
}

/// Fired effects distribute over appending one sample at the back.
proof fn lemma_fired_effects_snoc(
    pre: CookOff,
    samples: Seq<(u64, Option<Pos>)>,
    o: (u64, Option<Pos>),
    now_ms: i64,
)
    ensures
        spec_fired_effects(pre, samples.push(o), now_ms) == spec_fired_effects(
            pre,
            samples,
            now_ms,
        ) + spec_fired_effects(pre, seq![o], now_ms),
    decreases samples.len(),
{
    let single = seq![o];
    assert(single.drop_first() =~= Seq::<(u64, Option<Pos>)>::empty());
    assert(spec_fired_effects(pre, single.drop_first(), now_ms) =~= Seq::<Effect>::empty());
    if samples.len() == 0 {
        let sp = samples.push(o);
        assert(sp[0] == o);
        assert(sp.drop_first() =~= Seq::<(u64, Option<Pos>)>::empty());
        assert(sp =~= single);
        assert(spec_fired_effects(pre, samples, now_ms) + spec_fired_effects(pre, single, now_ms)
            =~= spec_fired_effects(pre, single, now_ms));
    } else {
        assert(samples.push(o).drop_first() =~= samples.drop_first().push(o));
        lemma_fired_effects_snoc(pre, samples.drop_first(), o, now_ms);
        assert(samples.push(o)[0] == samples[0]);
        assert(spec_fired_effects(pre, samples.push(o), now_ms) =~= spec_fired_effects(
            pre,
            samples,
            now_ms,
        ) + spec_fired_effects(pre, single, now_ms));
    }
}


/// Whether a pending effect has rested its minimum delay at `now_ms`.
pub open spec fn spec_is_ripe(p: PendingCookOffEffect, now_ms: i64) -> bool {
    now_ms - p.start_time_ms >= MIN_EFFECT_DELAY_MS
}

/// The ids of the pending effects that are ripe at `now_ms`, in entry
/// order.
pub open spec fn spec_ripe_ids(entries: Seq<(u64, PendingCookOffEffect)>, now_ms: i64) -> Seq<u64>
    decreases entries.len(),
{
    if entries.len() == 0 {
        Seq::empty()
    } else {
        let head: Seq<u64> = if spec_is_ripe(entries[0].1, now_ms) {
            seq![entries[0].0]
        } else {
            Seq::empty()
        };
        head + spec_ripe_ids(entries.drop_first(), now_ms)
    }
}

/// The ids of the pending effects that are ripe and marked dead at
/// `now_ms`, in entry order.
pub open spec fn spec_ripe_dead_ids(
    entries: Seq<(u64, PendingCookOffEffect)>,
    now_ms: i64,
) -> Seq<u64>
    decreases entries.len(),
{
    if entries.len() == 0 {
        Seq::empty()
    } else {
        let head: Seq<u64> = if spec_is_ripe(entries[0].1, now_ms) && entries[0].1.is_dead {
            seq![entries[0].0]
        } else {
            Seq::empty()
        };
        head + spec_ripe_dead_ids(entries.drop_first(), now_ms)
    }
}

/// The sub-list of `ids` whose pending effects are marked dead.
pub open spec fn spec_dead_filter(
    entries: Seq<(u64, PendingCookOffEffect)>,
    ids: Seq<u64>,
) -> Seq<u64>
    decreases ids.len(),
{
    if ids.len() == 0 {
        Seq::empty()
    } else {
        let head: Seq<u64> = match crate::idmap::get_id(entries, ids[0]) {
            Some(p) => if p.is_dead {
                seq![ids[0]]
            } else {
                Seq::empty()
            },
            None => Seq::empty(),
        };
        head + spec_dead_filter(entries, ids.drop_first())
    }
}

/// Filtering the ripe ids distributes over appending one entry.
proof fn lemma_ripe_ids_snoc(
    entries: Seq<(u64, PendingCookOffEffect)>,
    e: (u64, PendingCookOffEffect),
    now_ms: i64,
)
    ensures
        spec_ripe_ids(entries.push(e), now_ms) == spec_ripe_ids(entries, now_ms) + (
        if spec_is_ripe(e.1, now_ms) {
            seq![e.0]
        } else {
            Seq::empty()
        }),
    decreases entries.len(),
{
    let tail: Seq<u64> = if spec_is_ripe(e.1, now_ms) {
        seq![e.0]
    } else {
        Seq::empty()
    };
    if entries.len() == 0 {
        let sp = entries.push(e);
        assert(sp[0] == e);
        assert(sp.drop_first() =~= Seq::<(u64, PendingCookOffEffect)>::empty());
        assert(spec_ripe_ids(sp.drop_first(), now_ms) =~= Seq::<u64>::empty());
        assert(spec_ripe_ids(sp, now_ms) =~= tail);
        assert(spec_ripe_ids(entries, now_ms) + tail =~= tail);
    } else {
        assert(entries.push(e).drop_first() =~= entries.drop_first().push(e));
        lemma_ripe_ids_snoc(entries.drop_first(), e, now_ms);
        assert(entries.push(e)[0] == entries[0]);
        assert(spec_ripe_ids(entries.push(e), now_ms) =~= spec_ripe_ids(entries, now_ms) + tail);
    }
}

/// An id is among the ripe ids exactly when it keys a ripe pending
/// effect; the ripe ids of a well-formed entry list are pairwise
/// distinct.
proof fn lemma_ripe_ids_facts(entries: Seq<(u64, PendingCookOffEffect)>, now_ms: i64)
    requires
        crate::idmap::wf_ids(entries),
    ensures
        forall|k: u64|
            #[trigger] spec_ripe_ids(entries, now_ms).contains(k) <==> (crate::idmap::has_id(
                entries,
                k,
            ) && spec_is_ripe(crate::idmap::get_id(entries, k)->Some_0, now_ms)),
        forall|a: int, b: int|
            0 <= a < b < spec_ripe_ids(entries, now_ms).len() ==> spec_ripe_ids(entries, now_ms)[a]
                != spec_ripe_ids(entries, now_ms)[b],
    decreases entries.len(),
{
    let ids = spec_ripe_ids(entries, now_ms);
    if entries.len() == 0 {
        assert forall|k: u64| #[trigger] ids.contains(k) implies false by {
            let x = choose|x: int| 0 <= x < ids.len() && ids[x] == k;
        }
    } else {
        let rest = entries.drop_first();
        assert(crate::idmap::wf_ids(rest)) by {
            assert forall|x: int, y: int| 0 <= x < y < rest.len() implies rest[x].0
                != rest[y].0 by {
                assert(entries[x + 1].0 != entries[y + 1].0);
            }
        }
        lemma_ripe_ids_facts(rest, now_ms);
        let restids = spec_ripe_ids(rest, now_ms);
        let head = entries[0];
        assert(!crate::idmap::has_id(rest, head.0)) by {
            if crate::idmap::has_id(rest, head.0) {
                let w = crate::idmap::idx_id(rest, head.0);
                assert(rest[w] == entries[w + 1]);
                assert(entries[0].0 != entries[w + 1].0);
            }
        }
        assert forall|k: u64| #[trigger] ids.contains(k) implies (crate::idmap::has_id(entries, k)
            && spec_is_ripe(crate::idmap::get_id(entries, k)->Some_0, now_ms)) by {
            let x = choose|x: int| 0 <= x < ids.len() && ids[x] == k;
            if spec_is_ripe(head.1, now_ms) && x == 0 {
                crate::idmap::lemma_id_unique(entries, head.0, 0);
            } else {
                let off: int = if spec_is_ripe(head.1, now_ms) {
                    1
                } else {
                    0
                };
                assert(restids[x - off] == k);
                assert(restids.contains(k));
                let w = crate::idmap::idx_id(rest, k);
                assert(rest[w] == entries[w + 1]);
                crate::idmap::lemma_id_unique(rest, k, w);
                crate::idmap::lemma_id_unique(entries, k, w + 1);
            }
        }
        assert forall|k: u64|
            crate::idmap::has_id(entries, k) && spec_is_ripe(
                crate::idmap::get_id(entries, k)->Some_0,
                now_ms,
            ) implies #[trigger] ids.contains(k) by {
            let w = crate::idmap::idx_id(entries, k);
            crate::idmap::lemma_id_unique(entries, k, w);
            if w == 0 {
                assert(ids[0] == k);
            } else {
                assert(rest[w - 1] == entries[w]);
                crate::idmap::lemma_id_unique(rest, k, w - 1);
                assert(restids.contains(k));
                let x = choose|x: int| 0 <= x < restids.len() && restids[x] == k;
                let off: int = if spec_is_ripe(head.1, now_ms) {
                    1
                } else {
                    0
                };
                assert(ids[x + off] == k);
            }
        }
        assert forall|a: int, b: int| 0 <= a < b < ids.len() implies ids[a] != ids[b] by {
            let off: int = if spec_is_ripe(head.1, now_ms) {
                1
            } else {
                0
            };
            if a >= off {
                assert(ids[a] == restids[a - off]);
                assert(ids[b] == restids[b - off]);
            } else {
                assert(ids[a] == head.0);
                assert(ids[b] == restids[b - 1]);
                assert(restids.contains(restids[b - 1]));
                if ids[b] == head.0 {
                    assert(crate::idmap::has_id(rest, head.0));
                }
            }
        }
    }
}

/// Filtering the dead ids distributes over appending one id.
proof fn lemma_dead_filter_snoc(
    entries: Seq<(u64, PendingCookOffEffect)>,
    ids: Seq<u64>,
    id: u64,
)
    ensures
        spec_dead_filter(entries, ids.push(id)) == spec_dead_filter(entries, ids) + (
        match crate::idmap::get_id(entries, id) {
            Some(p) => if p.is_dead {
                seq![id]
            } else {
                Seq::<u64>::empty()
            },
            None => Seq::<u64>::empty(),
        }),
    decreases ids.len(),
{
    let tail: Seq<u64> = match crate::idmap::get_id(entries, id) {
        Some(p) => if p.is_dead {
            seq![id]
        } else {
            Seq::empty()
        },
        None => Seq::empty(),
    };
    if ids.len() == 0 {
        let sp = ids.push(id);
        assert(sp[0] == id);
        assert(sp.drop_first() =~= Seq::<u64>::empty());
        assert(spec_dead_filter(entries, sp.drop_first()) =~= Seq::<u64>::empty());
        assert(spec_dead_filter(entries, sp) =~= tail);
        assert(spec_dead_filter(entries, ids) + tail =~= tail);
    } else {
        assert(ids.push(id).drop_first() =~= ids.drop_first().push(id));
        lemma_dead_filter_snoc(entries, ids.drop_first(), id);
        assert(ids.push(id)[0] == ids[0]);
        assert(spec_dead_filter(entries, ids.push(id)) =~= spec_dead_filter(entries, ids) + tail);
    }
}

/// The dead sub-list of the ripe ids is the ripe-and-dead id list.
proof fn lemma_dead_of_ripe(entries: Seq<(u64, PendingCookOffEffect)>, now_ms: i64)
    requires
        crate::idmap::wf_ids(entries),
    ensures
        spec_dead_filter(entries, spec_ripe_ids(entries, now_ms)) == spec_ripe_dead_ids(
            entries,
            now_ms,
        ),
    decreases entries.len(),
{
    if entries.len() == 0 {
        assert(spec_dead_filter(entries, spec_ripe_ids(entries, now_ms)) =~= spec_ripe_dead_ids(
            entries,
            now_ms,
        ));
    } else {
        let rest = entries.drop_first();
        assert(crate::idmap::wf_ids(rest)) by {
            assert forall|x: int, y: int| 0 <= x < y < rest.len() implies rest[x].0
                != rest[y].0 by {
                assert(entries[x + 1].0 != entries[y + 1].0);
            }
        }
        lemma_dead_of_ripe(rest, now_ms);
        let head = entries[0];
        // lookups of later ids see the same entries with or without the head
        assert forall|ids2: Seq<u64>|
            (forall|x: int| 0 <= x < ids2.len() ==> crate::idmap::has_id(rest, #[trigger] ids2[x]))
                implies #[trigger] spec_dead_filter(entries, ids2) == spec_dead_filter(
                rest,
                ids2,
            ) by {
            lemma_dead_filter_shift(entries, rest, ids2);
        }
        let restids = spec_ripe_ids(rest, now_ms);
        assert forall|x: int| 0 <= x < restids.len() implies crate::idmap::has_id(
            rest,
            #[trigger] restids[x],
        ) by {
            lemma_ripe_ids_facts(rest, now_ms);
            assert(restids.contains(restids[x]));
        }
        if spec_is_ripe(head.1, now_ms) {
            crate::idmap::lemma_id_unique(entries, head.0, 0);
            assert(spec_ripe_ids(entries, now_ms) =~= seq![head.0] + restids);
            assert((seq![head.0] + restids).drop_first() =~= restids);
            assert(spec_dead_filter(entries, seq![head.0] + restids) =~= (
            if head.1.is_dead {
                seq![head.0]
            } else {
                Seq::<u64>::empty()
            }) + spec_dead_filter(entries, restids));
            assert(spec_ripe_dead_ids(entries, now_ms) =~= (
            if head.1.is_dead {
                seq![head.0]
            } else {
                Seq::<u64>::empty()
            }) + spec_ripe_dead_ids(rest, now_ms));
            assert(spec_dead_filter(entries, spec_ripe_ids(entries, now_ms))
                =~= spec_ripe_dead_ids(entries, now_ms));
        } else {
            assert(spec_ripe_ids(entries, now_ms) =~= restids);
            assert(spec_ripe_dead_ids(entries, now_ms) =~= spec_ripe_dead_ids(rest, now_ms));
            assert(spec_dead_filter(entries, spec_ripe_ids(entries, now_ms))
                =~= spec_ripe_dead_ids(entries, now_ms));
        }
    }
}

/// Dropping an entry that keys none of the looked-up ids leaves the
/// dead filter unchanged.
proof fn lemma_dead_filter_shift(
    entries: Seq<(u64, PendingCookOffEffect)>,
    rest: Seq<(u64, PendingCookOffEffect)>,
    ids: Seq<u64>,
)
    requires
        crate::idmap::wf_ids(entries),
        entries.len() >= 1,
        rest == entries.drop_first(),
        forall|x: int| 0 <= x < ids.len() ==> crate::idmap::has_id(rest, #[trigger] ids[x]),
    ensures
        spec_dead_filter(entries, ids) == spec_dead_filter(rest, ids),
    decreases ids.len(),
{
    if ids.len() == 0 {
    } else {
        assert(crate::idmap::has_id(rest, ids[0]));
        let w = crate::idmap::idx_id(rest, ids[0]);
        assert(crate::idmap::wf_ids(rest)) by {
            assert forall|x: int, y: int| 0 <= x < y < rest.len() implies rest[x].0
                != rest[y].0 by {
                assert(entries[x + 1].0 != entries[y + 1].0);
            }
        }
        crate::idmap::lemma_id_unique(rest, ids[0], w);
        assert(rest[w] == entries[w + 1]);
        crate::idmap::lemma_id_unique(entries, ids[0], w + 1);
        assert(crate::idmap::get_id(entries, ids[0]) == crate::idmap::get_id(rest, ids[0]));
        assert forall|x: int| 0 <= x < ids.drop_first().len() implies crate::idmap::has_id(
            rest,
            #[trigger] ids.drop_first()[x],
        ) by {
            assert(ids.drop_first()[x] == ids[x + 1]);
        }
        lemma_dead_filter_shift(entries, rest, ids.drop_first());
    }
}


/// The certificate of one dead promotion's immediate effects: `part`
/// is exactly the immediate rendering of the unit's pending effect,
/// resolved with some pair of drawn intents that respect the
/// guarantees (cook-off certain for configured types, smoke forced
/// alongside a cook-off when so configured).
pub open spec fn spec_promo_part_ok(
    entries: Seq<(u64, PendingCookOffEffect)>,
    units: KeyedTable<UnitProperties>,
    smoke_with_cookoff: bool,
    id: u64,
    part: Seq<Effect>,
) -> bool {
    match crate::idmap::get_id(entries, id) {
        Some(p) => exists|should_cookoff: bool, should_smoke: bool|
            {
                &&& (units.spec_has(p.unit_type@) ==> should_cookoff)
                &&& (should_cookoff && smoke_with_cookoff ==> should_smoke)
                &&& part == spec_immediate_effects(
                    spec_scheduled_of(p, should_cookoff, should_smoke),
                )
            },
        None => part == Seq::<Effect>::empty(),
    }
}

/// `promo` is exactly the concatenation, over `ids` in order, of one
/// certified promotion part per id.
pub open spec fn spec_promos_of(
    entries: Seq<(u64, PendingCookOffEffect)>,
    units: KeyedTable<UnitProperties>,
    smoke_with_cookoff: bool,
    ids: Seq<u64>,
    promo: Seq<Effect>,
) -> bool
    decreases ids.len(),
{
    if ids.len() == 0 {
        promo == Seq::<Effect>::empty()
    } else {
        exists|part: Seq<Effect>|
            {
                &&& spec_promo_part_ok(entries, units, smoke_with_cookoff, ids[0], part)
                &&& part.len() <= promo.len()
                &&& promo.take(part.len() as int) == part
                &&& spec_promos_of(
                    entries,
                    units,
                    smoke_with_cookoff,
                    ids.drop_first(),
                    promo.skip(part.len() as int),
                )
            }
    }
}

/// A certified concatenation extends by one certified part at the
/// back.
proof fn lemma_promos_snoc(
    entries: Seq<(u64, PendingCookOffEffect)>,
    units: KeyedTable<UnitProperties>,
    smoke_with_cookoff: bool,
    ids: Seq<u64>,
    id: u64,
    promo: Seq<Effect>,
    part: Seq<Effect>,
)
    requires
        spec_promos_of(entries, units, smoke_with_cookoff, ids, promo),
        spec_promo_part_ok(entries, units, smoke_with_cookoff, id, part),
    ensures
        spec_promos_of(entries, units, smoke_with_cookoff, ids.push(id), promo + part),
    decreases ids.len(),
{
    if ids.len() == 0 {
        let sp = ids.push(id);
        assert(sp[0] == id);
        assert(sp.drop_first() =~= Seq::<u64>::empty());
        assert(promo =~= Seq::<Effect>::empty());
        assert((promo + part).take(part.len() as int) =~= part);
        assert((promo + part).skip(part.len() as int) =~= Seq::<Effect>::empty());
        assert(spec_promos_of(
            entries,
            units,
            smoke_with_cookoff,
            sp.drop_first(),
            (promo + part).skip(part.len() as int),
        ));
    } else {
        let part0 = choose|part0: Seq<Effect>|
            {
                &&& spec_promo_part_ok(entries, units, smoke_with_cookoff, ids[0], part0)
                &&& part0.len() <= promo.len()
                &&& promo.take(part0.len() as int) == part0
                &&& spec_promos_of(
                    entries,
                    units,
                    smoke_with_cookoff,
                    ids.drop_first(),
                    promo.skip(part0.len() as int),
                )
            };
        lemma_promos_snoc(
            entries,
            units,
            smoke_with_cookoff,
            ids.drop_first(),
            id,
            promo.skip(part0.len() as int),
            part,
        );
        let sp = ids.push(id);
        assert(sp[0] == ids[0]);
        assert(sp.drop_first() =~= ids.drop_first().push(id));
        assert((promo + part).take(part0.len() as int) =~= promo.take(part0.len() as int));
        assert((promo + part).skip(part0.len() as int) =~= promo.skip(part0.len() as int) + part);
        assert(spec_promo_part_ok(entries, units, smoke_with_cookoff, sp[0], part0)
            && part0.len() <= (promo + part).len() && (promo + part).take(part0.len() as int)
            == part0 && spec_promos_of(
            entries,
            units,
            smoke_with_cookoff,
            sp.drop_first(),
            (promo + part).skip(part0.len() as int),
        ));
    }
}


/// How a tick's outputs relate to its states: the timed queue grew by
/// sub-effects scheduled within the effect window and then lost
/// exactly its due head, and the returned effects are the certified
/// immediate effects of the dead promotions, in pending order,
/// followed by the rendering of that due head.
pub open spec fn spec_update_outputs(
    pre: CookOff,
    post: CookOff,
    now_ms: i64,
    r: Seq<Effect>,
) -> bool {
    exists|mid_timed: Seq<TimedExplosion>, promo: Seq<Effect>|
        #![trigger mid_timed.take(pre.timed_explosions@.len() as int), promo.len()]
        {
            &&& pre.timed_explosions@.len() <= mid_timed.len()
            &&& mid_timed.take(pre.timed_explosions@.len() as int) == pre.timed_explosions@
            &&& forall|idx: int|
                pre.timed_explosions@.len() <= idx < mid_timed.len() ==> now_ms <= (
                #[trigger] mid_timed[idx]).trigger_time_ms <= now_ms
                    + crate::config::MAX_DURATION_MS + 3000
            &&& post.timed_explosions@ == mid_timed.skip(spec_ready_count(mid_timed, now_ms))
            &&& spec_promos_of(
                pre.pending_effects.entries@,
                pre.units,
                pre.config.all_vehicles.smoke_with_cookoff,
                spec_ripe_dead_ids(pre.pending_effects.entries@, now_ms),
                promo,
            )
            &&& r == promo + spec_effects_of_timed(
                mid_timed.take(spec_ready_count(mid_timed, now_ms)),
                pre.config.flares.color,
            )
        }
}


impl CookOff {
    /// Drain the ready head of the timed queue: starting at the front,
    /// fire every entry whose trigger time has been reached, stopping
    /// at the first entry whose time has not come.
    pub fn process_timed_explosions(&mut self, now_ms: i64) -> (r: Vec<Effect>)
        requires
            old(self).wf(),
            time_ok(now_ms),
        ensures
            final(self).wf(),
            *final(self) == (CookOff {
                timed_explosions: final(self).timed_explosions,
                ..*old(self)
            }),
            final(self).timed_explosions@ == old(self).timed_explosions@.skip(
                spec_ready_count(old(self).timed_explosions@, now_ms),
            ),
            r@ == spec_effects_of_timed(
                old(self).timed_explosions@.take(
                    spec_ready_count(old(self).timed_explosions@, now_ms),
                ),
                old(self).config.flares.color,
            ),
    {
        let ghost orig = self.timed_explosions@;
        let color = self.config.flares.color;
        let mut out: Vec<Effect> = Vec::new();
        loop
            invariant
                old(self).wf(),
                *self == (CookOff { timed_explosions: self.timed_explosions, ..*old(self) }),
                color == old(self).config.flares.color,
                orig == old(self).timed_explosions@,
                self.timed_explosions@.len() <= orig.len(),
                self.timed_explosions@ == orig.skip(orig.len() - self.timed_explosions@.len()),
                forall|j: int|
                    0 <= j < orig.len() - self.timed_explosions@.len()
                        ==> #[trigger] orig[j].trigger_time_ms <= now_ms,
                out@ == spec_effects_of_timed(
                    orig.take(orig.len() - self.timed_explosions@.len()),
                    color,
                ),
            ensures
                self.timed_explosions@.len() == 0 || self.timed_explosions@[0].trigger_time_ms
                    > now_ms,
            decreases self.timed_explosions@.len(),
        {
            let ghost cnt = orig.len() - self.timed_explosions@.len();
            if self.timed_explosions.len() == 0 {
                break;
            }
            if self.timed_explosions[0].trigger_time_ms > now_ms {
                break;
            }
            proof {
                assert(self.timed_explosions@[0] == orig[cnt]);
            }
            let e = self.timed_explosions.remove(0);
            proof {
                assert(self.timed_explosions@ =~= orig.skip(cnt + 1));
            }
            let ghost outprev = out@;
            match e.effect_type {
                ExplosionType::Cookoff | ExplosionType::Debris => {
                    if e.power_milli > 0 {
                        out.push(
                            Effect::Explosion {
                                base: e.position,
                                offset: e.offset,
                                snap: e.snap,
                                power_milli: e.power_milli,
                            },
                        );
                        out.push(
                            Effect::BigSmoke {
                                base: e.position,
                                offset: e.offset,
                                snap: e.snap,
                                preset: SmokePreset::MediumSmokeAndFire,
                            },
                        );
                    }
                },
                ExplosionType::Flare => {
                    let az = match e.azimuth {
                        Some(a) => a,
                        None => 0,
                    };
                    out.push(
                        Effect::Flare { base: e.position, offset: e.offset, color, azimuth_deg: az },
                    );
                },
            }
            proof {
                assert(out@ =~= outprev + spec_effects_of_entry(e, color));
                assert(orig.take(cnt + 1) =~= orig.take(cnt).push(orig[cnt]));
                lemma_effects_snoc(orig.take(cnt), orig[cnt], color);
                assert(out@ == spec_effects_of_timed(orig.take(cnt + 1), color));
            }
        }
        proof {
            let cnt = orig.len() - self.timed_explosions@.len();
            lemma_ready_count_eq(orig, now_ms, cnt);
            assert forall|idx: int|
                0 <= idx < self.timed_explosions@.len() implies {
                &&& pos_ok((#[trigger] self.timed_explosions@[idx]).position)
                &&& time_ok(self.timed_explosions@[idx].trigger_time_ms)
                &&& (self.timed_explosions@[idx].effect_type == ExplosionType::Flare
                    ==> self.timed_explosions@[idx].azimuth is Some)
            } by {
                assert(self.timed_explosions@[idx] == old(self).timed_explosions@[cnt + idx]);
            }
        }
        out
    }

    /// Apply one round of host relocation samples to the tracked
    /// units.  Each sample steps its unit's movement state; a unit the
    /// sample triggers fires its scheduled effects and leaves
    /// tracking.  Units without a sample are untouched.
    pub fn update_movement_tracking(
        &mut self,
        samples: &Vec<(u64, Option<Pos>)>,
        now_ms: i64,
    ) -> (r: Vec<Effect>)
        requires
            old(self).wf(),
            sched_time_ok(now_ms),
            forall|j: int|
                0 <= j < samples@.len() ==> ((#[trigger] samples@[j]).1 matches Some(p) ==> pos_ok(
                    p,
                )),
            forall|x: int, y: int|
                0 <= x < y < samples@.len() ==> samples@[x].0 != samples@[y].0,
        ensures
            final(self).wf(),
            final(self).config == old(self).config,
            final(self).units == old(self).units,
            final(self).pending_effects == old(self).pending_effects,
            final(self).processed_units == old(self).processed_units,
            forall|k: u64|
                (forall|j: int| 0 <= j < samples@.len() ==> (#[trigger] samples@[j]).0 != k) ==> {
                    &&& final(self).movement_tracking.spec_get(k) == old(self).movement_tracking.spec_get(k)
                    &&& final(self).effect_queue.spec_get(k) == old(self).effect_queue.spec_get(k)
                    &&& final(self).processed_smoke.spec_get(k) == old(self).processed_smoke.spec_get(k)
                },
            forall|j: int|
                0 <= j < samples@.len() ==> {
                    let id = (#[trigger] samples@[j]).0;
                    let found = samples@[j].1;
                    match old(self).movement_tracking.spec_get(id) {
                        Some(t) => {
                            let stepped = crate::movement::spec_movement_step(t, found, now_ms);
                            if stepped.1 == crate::movement::MovementDecision::Trigger {
                                &&& final(self).movement_tracking.spec_get(id) is None
                                &&& final(self).effect_queue.spec_get(id) is None
                            } else {
                                &&& final(self).movement_tracking.spec_get(id) == Some(stepped.0)
                                &&& final(self).effect_queue.spec_get(id) == old(self).effect_queue.spec_get(id)
                            }
                        },
                        None => {
                            &&& final(self).movement_tracking.spec_get(id) == old(self).movement_tracking.spec_get(id)
                            &&& final(self).effect_queue.spec_get(id) == old(self).effect_queue.spec_get(id)
                        },
                    }
                },
            forall|idx: int|
                0 <= idx < old(self).timed_explosions@.len() ==> final(self).timed_explosions@[idx]
                    == old(self).timed_explosions@[idx],
            r@ == spec_fired_effects(*old(self), samples@, now_ms),
    {
        let n = samples.len();
        let mut out: Vec<Effect> = Vec::new();
        let mut j: usize = 0;
        while j < n
            invariant
                old(self).wf(),
                self.wf(),
                sched_time_ok(now_ms),
                n == samples@.len(),
                j <= n,
                forall|jj: int|
                    0 <= jj < samples@.len() ==> ((#[trigger] samples@[jj]).1 matches Some(p)
                        ==> pos_ok(p)),
                forall|x: int, y: int|
                    0 <= x < y < samples@.len() ==> samples@[x].0 != samples@[y].0,
                self.config == old(self).config,
                self.units == old(self).units,
                self.pending_effects == old(self).pending_effects,
                self.processed_units == old(self).processed_units,
                forall|k: u64|
                    (forall|jj: int| 0 <= jj < j ==> (#[trigger] samples@[jj]).0 != k) ==> {
                        &&& self.movement_tracking.spec_get(k) == old(self).movement_tracking.spec_get(k)
                        &&& self.effect_queue.spec_get(k) == old(self).effect_queue.spec_get(k)
                        &&& self.processed_smoke.spec_get(k) == old(self).processed_smoke.spec_get(k)
                    },
                forall|jj: int|
                    0 <= jj < j ==> {
                        let id = (#[trigger] samples@[jj]).0;
                        let found = samples@[jj].1;
                        match old(self).movement_tracking.spec_get(id) {
                            Some(t) => {
                                let stepped = crate::movement::spec_movement_step(
                                    t,
                                    found,
                                    now_ms,
                                );
                                if stepped.1 == crate::movement::MovementDecision::Trigger {
                                    &&& self.movement_tracking.spec_get(id) is None
                                    &&& self.effect_queue.spec_get(id) is None
                                } else {
                                    &&& self.movement_tracking.spec_get(id) == Some(stepped.0)
                                    &&& self.effect_queue.spec_get(id) == old(self).effect_queue.spec_get(id)
                                }
                            },
                            None => {
                                &&& self.movement_tracking.spec_get(id) == old(self).movement_tracking.spec_get(id)
                                &&& self.effect_queue.spec_get(id) == old(self).effect_queue.spec_get(id)
                            },
                        }
                    },
                forall|idx: int|
                    0 <= idx < old(self).timed_explosions@.len() ==> self.timed_explosions@[idx]
                        == old(self).timed_explosions@[idx],
                old(self).timed_explosions@.len() <= self.timed_explosions@.len(),
                out@ == spec_fired_effects(*old(self), samples@.take(j as int), now_ms),
            decreases n - j,
        {
            let ghost pre = *self;
            let (id, found) = samples[j];
            proof {
                assert(samples@[j as int].0 == id);
                assert forall|jj: int| 0 <= jj < j implies (#[trigger] samples@[jj]).0 != id by {}
                assert(self.movement_tracking.spec_get(id) == old(self).movement_tracking.spec_get(
                    id,
                ));
                assert(self.effect_queue.spec_get(id) == old(self).effect_queue.spec_get(id));
            }
            let ghost outprev = out@;
            let found_tracker = self.movement_tracking.find(id);
            match found_tracker {
                None => {
                    proof {
                        assert(!old(self).movement_tracking.spec_has(id));
                    }
                },
                Some(ti) => {
                    let mut tracker = self.movement_tracking.entries[ti].1;
                    proof {
                        crate::idmap::lemma_id_unique(self.movement_tracking.entries@, id, ti as int);
                        assert(self.movement_tracking.spec_get(id) == Some(tracker));
                        assert(tracker.valid());
                    }
                    let decision = crate::movement::movement_step(&mut tracker, found, now_ms);
                    match decision {
                        crate::movement::MovementDecision::Trigger => {
                            self.movement_tracking.unset(id);
                            proof {
                                assert forall|k: u64| (#[trigger] self.movement_tracking.spec_get(
                                    k,
                                )) is Some implies self.movement_tracking.spec_get(
                                    k,
                                )->Some_0.valid() && self.movement_tracking.spec_get(
                                    k,
                                )->Some_0.unit_id == k by {
                                    if k != id {
                                        assert(self.movement_tracking.spec_get(k)
                                            == pre.movement_tracking.spec_get(k));
                                    }
                                }
                            }
                            let ghost mid = *self;
                            let mut fired = self.trigger_effects_for(id, now_ms);
                            proof {
                                assert(mid.effect_queue.spec_get(id) == old(self).effect_queue.spec_get(id));
                                match old(self).effect_queue.spec_get(id) {
                                    Some(e) => {
                                        assert(fired@ == spec_immediate_effects(e));
                                    },
                                    None => {
                                        assert(fired@.len() == 0);
                                    },
                                }
                                assert forall|idx: int|
                                    0 <= idx < old(self).timed_explosions@.len() implies self
                                    .timed_explosions@[idx] == old(self).timed_explosions@[idx] by {
                                    assert(self.timed_explosions@[idx]
                                        == mid.timed_explosions@[idx]);
                                }
                            }
                            out.append(&mut fired);
                        },
                        _ => {
                            self.movement_tracking.set(id, tracker);
                            proof {
                                assert forall|k: u64| (#[trigger] self.movement_tracking.spec_get(
                                    k,
                                )) is Some implies self.movement_tracking.spec_get(
                                    k,
                                )->Some_0.valid() && self.movement_tracking.spec_get(
                                    k,
                                )->Some_0.unit_id == k by {
                                    if k != id {
                                        assert(self.movement_tracking.spec_get(k)
                                            == pre.movement_tracking.spec_get(k));
                                    }
                                }
                            }
                        },
                    }
                },
            }
            proof {
                let single = seq![samples@[j as int]];
                assert(samples@.take(j + 1) =~= samples@.take(j as int).push(
                    samples@[j as int],
                ));
                lemma_fired_effects_snoc(
                    *old(self),
                    samples@.take(j as int),
                    samples@[j as int],
                    now_ms,
                );
                assert(single.drop_first() =~= Seq::<(u64, Option<Pos>)>::empty());
                assert(spec_fired_effects(*old(self), single.drop_first(), now_ms)
                    =~= Seq::<Effect>::empty());
                assert(single[0] == (id, found));
                assert(out@ =~= outprev + spec_fired_effects(*old(self), single, now_ms));
                assert forall|k: u64|
                    (forall|jj: int| 0 <= jj < j + 1 ==> (#[trigger] samples@[jj]).0 != k)
                        implies {
                    &&& self.movement_tracking.spec_get(k) == old(self).movement_tracking.spec_get(k)
                    &&& self.effect_queue.spec_get(k) == old(self).effect_queue.spec_get(k)
                    &&& self.processed_smoke.spec_get(k) == old(self).processed_smoke.spec_get(k)
                } by {
                    assert(samples@[j as int].0 != k);
                    assert(self.movement_tracking.spec_get(k) == pre.movement_tracking.spec_get(
                        k,
                    ));
                    assert(self.effect_queue.spec_get(k) == pre.effect_queue.spec_get(k));
                    assert(self.processed_smoke.spec_get(k) == pre.processed_smoke.spec_get(k));
                }
                assert forall|jj: int|
                    0 <= jj < j + 1 implies {
                    let sid = (#[trigger] samples@[jj]).0;
                    let sfound = samples@[jj].1;
                    match old(self).movement_tracking.spec_get(sid) {
                        Some(t) => {
                            let stepped = crate::movement::spec_movement_step(t, sfound, now_ms);
                            if stepped.1 == crate::movement::MovementDecision::Trigger {
                                &&& self.movement_tracking.spec_get(sid) is None
                                &&& self.effect_queue.spec_get(sid) is None
                            } else {
                                &&& self.movement_tracking.spec_get(sid) == Some(stepped.0)
                                &&& self.effect_queue.spec_get(sid) == old(self).effect_queue.spec_get(sid)
                            }
                        },
                        None => {
                            &&& self.movement_tracking.spec_get(sid) == old(self).movement_tracking.spec_get(sid)
                            &&& self.effect_queue.spec_get(sid) == old(self).effect_queue.spec_get(sid)
                        },
                    }
                } by {
                    let sid = samples@[jj].0;
                    if jj < j {
                        assert(sid != id);
                        assert(self.movement_tracking.spec_get(sid)
                            == pre.movement_tracking.spec_get(sid));
                        assert(self.effect_queue.spec_get(sid) == pre.effect_queue.spec_get(sid));
                    }
                }
            }
            j = j + 1;
        }
        proof {
            assert(samples@.take(n as int) =~= samples@);
        }
        out
    }

    /// One engine tick of the scheduler, at engine time `now_ms`.
    ///
    /// A disabled scheduler, or a tick arriving before the governor's
    /// minimum interval has passed, does nothing.  Otherwise the tick
    /// prunes processed-unit records older than the retention window,
    /// caps the smoke bookkeeping, promotes every pending effect that
    /// has rested its minimum delay, drains the ready head of the
    /// timed queue, and records the tick time.
    pub fn update(&mut self, now_ms: i64) -> (r: Vec<Effect>)
        requires
            old(self).wf(),
            sched_time_ok(now_ms),
        ensures
            final(self).wf(),
            !old(self).config.enabled ==> *final(self) == *old(self) && r@.len() == 0,
            old(self).config.enabled && now_ms - old(self).last_update_time_ms < old(self).adaptive_update_interval_ms ==> *final(self) == *old(self) && r@.len() == 0,
            old(self).config.enabled && now_ms - old(self).last_update_time_ms >= old(self).adaptive_update_interval_ms ==> {
                &&& final(self).last_update_time_ms == now_ms
                &&& final(self).config == old(self).config
                &&& final(self).units == old(self).units
                &&& forall|k: u64|
                    final(self).processed_units.spec_get(k) == spec_pruned(
                        old(self).processed_units.entries@,
                        k,
                        (now_ms - PROCESSED_RETENTION_MS) as i64,
                    )
                &&& forall|k: u64|
                    (#[trigger] old(self).pending_effects.spec_get(k)) matches Some(p) ==> (
                    if now_ms - p.start_time_ms >= MIN_EFFECT_DELAY_MS {
                        final(self).pending_effects.spec_get(k) is None
                    } else {
                        final(self).pending_effects.spec_get(k) == Some(p)
                    })
                &&& forall|k: u64|
                    !old(self).pending_effects.spec_has(k) ==> !final(self).pending_effects.spec_has(k)
            
                &&& forall|k: u64|
                    (#[trigger] old(self).pending_effects.spec_get(k)) matches Some(p) ==> (
                    now_ms - p.start_time_ms >= MIN_EFFECT_DELAY_MS && !p.is_dead ==> {
                        &&& final(self).movement_tracking.spec_get(k) == Some(
                            MovementTracker {
                                unit_id: k,
                                last_position: p.position,
                                last_update_ms: now_ms,
                                stationary_checks: 0,
                                max_stationary_checks: 3,
                                movement_threshold_cm: 100,
                            },
                        )
                        &&& final(self).effect_queue.spec_get(k) is Some
                        &&& ({
                            let q = final(self).effect_queue.spec_get(k)->Some_0;
                            &&& q == spec_scheduled_of(p, q.cookoff.enabled, q.smoke.is_tanker)
                            &&& (old(self).units.spec_has(p.unit_type@) ==> q.cookoff.enabled)
                        })
                    })
                &&& forall|k: u64|
                    (#[trigger] old(self).pending_effects.spec_get(k)) matches Some(p) ==> (
                    now_ms - p.start_time_ms >= MIN_EFFECT_DELAY_MS && p.is_dead ==> final(self).effect_queue.spec_get(k) is None)
                &&& forall|k: u64|
                    !(old(self).pending_effects.spec_get(k) matches Some(p) && now_ms
                        - p.start_time_ms >= MIN_EFFECT_DELAY_MS) ==> final(self).movement_tracking.spec_get(k) == old(self).movement_tracking.spec_get(k)
                        && #[trigger] final(self).effect_queue.spec_get(k) == old(self).effect_queue.spec_get(k)
                &&& spec_update_outputs(*old(self), *final(self), now_ms, r@)
            },
    {
        if !self.config.enabled {
            return Vec::new();
        }
        if self.should_skip_update(now_ms) {
            return Vec::new();
        }
        prune_old(&mut self.processed_units, now_ms - PROCESSED_RETENTION_MS);
        if self.processed_smoke.len() > 100 {
            self.processed_smoke.clear();
        }
        let ghost pruned = *self;
        let mut ripe: Vec<u64> = Vec::new();
        let pn = self.pending_effects.len();
        let mut i: usize = 0;
        while i < pn
            invariant
                self.wf(),
                pn == self.pending_effects.entries@.len(),
                i <= pn,
                time_ok(now_ms),
                forall|jj: int|
                    0 <= jj < i ==> (now_ms - (#[trigger] self.pending_effects.entries@[jj]).1
                        .start_time_ms >= MIN_EFFECT_DELAY_MS) ==> ripe@.contains(
                        self.pending_effects.entries@[jj].0,
                    ),
                forall|k: u64|
                    #[trigger] ripe@.contains(k) ==> crate::idmap::has_id(
                        self.pending_effects.entries@,
                        k,
                    ) && now_ms - crate::idmap::get_id(
                        self.pending_effects.entries@,
                        k,
                    )->Some_0.start_time_ms >= MIN_EFFECT_DELAY_MS,
                forall|a: int, b: int| 0 <= a < b < ripe@.len() ==> ripe@[a] != ripe@[b],
                ripe@ == spec_ripe_ids(self.pending_effects.entries@.take(i as int), now_ms),
            decreases pn - i,
        {
            let ghost entries = self.pending_effects.entries@;
            let ghost prevripe = ripe@;
            proof {
                assert(entries.take(i as int + 1) =~= entries.take(i as int).push(
                    entries[i as int],
                ));
                lemma_ripe_ids_snoc(entries.take(i as int), entries[i as int], now_ms);
            }
            let e_id = self.pending_effects.entries[i].0;
            let e_start = self.pending_effects.entries[i].1.start_time_ms;
            proof {
                crate::idmap::lemma_id_unique(self.pending_effects.entries@, e_id, i as int);
                assert(self.pending_effects.spec_get(e_id) is Some);
                assert(self.pending_effects.spec_get(e_id)->Some_0.valid());
                assert(time_ok(e_start));
            }
            if now_ms - e_start >= MIN_EFFECT_DELAY_MS {
                let mut present = false;
                let mut y: usize = 0;
                let rlen = ripe.len();
                while y < rlen
                    invariant
                        rlen == ripe@.len(),
                        y <= rlen,
                        present == exists|x: int| 0 <= x < y && ripe@[x] == e_id,
                    decreases rlen - y,
                {
                    if ripe[y] == e_id {
                        present = true;
                    }
                    y = y + 1;
                }
                proof {
                    assert(present == ripe@.contains(e_id));
                }
                if !present {
                    ripe.push(e_id);
                    proof {
                        assert(ripe@[prevripe.len() as int] == e_id);
                        assert forall|k: u64| #[trigger] ripe@.contains(k) implies prevripe
                            .contains(k) || k == e_id by {
                            let x = choose|x: int| 0 <= x < ripe@.len() && ripe@[x] == k;
                            if x < prevripe.len() {
                                assert(prevripe[x] == k);
                            }
                        }
                        assert forall|k: u64| #[trigger] prevripe.contains(k) implies ripe@
                            .contains(k) by {
                            let x = choose|x: int| 0 <= x < prevripe.len() && prevripe[x] == k;
                            assert(ripe@[x] == k);
                        }
                        assert(ripe@.contains(e_id));
                        assert forall|a: int, b: int| 0 <= a < b < ripe@.len() implies ripe@[a]
                            != ripe@[b] by {
                            if b == prevripe.len() as int {
                                if ripe@[a] == e_id {
                                    assert(prevripe[a] == e_id);
                                    assert(prevripe.contains(e_id));
                                }
                            }
                        }
                        assert(spec_is_ripe(entries[i as int].1, now_ms));
                        assert(ripe@ =~= prevripe + seq![e_id]);
                        assert(ripe@ == spec_ripe_ids(entries.take(i as int + 1), now_ms));
                    }
                } else {
                    proof {
                        // a repeated ripe id would mean a repeated key
                        assert(crate::idmap::wf_ids(entries.take(i as int))) by {
                            assert forall|a: int, b: int|
                                0 <= a < b < entries.take(i as int).len() implies entries.take(
                                i as int,
                            )[a].0 != entries.take(i as int)[b].0 by {
                                assert(entries[a].0 != entries[b].0);
                            }
                        }
                        lemma_ripe_ids_facts(entries.take(i as int), now_ms);
                        assert(crate::idmap::has_id(entries.take(i as int), e_id));
                        let w = crate::idmap::idx_id(entries.take(i as int), e_id);
                        assert(entries.take(i as int)[w].0 == e_id);
                        assert(entries[w].0 == entries[i as int].0);
                        assert(false);
                    }
                }
            } else {
                proof {
                    assert(!spec_is_ripe(entries[i as int].1, now_ms));
                    assert(ripe@ =~= prevripe + Seq::<u64>::empty());
                    assert(ripe@ == spec_ripe_ids(entries.take(i as int + 1), now_ms));
                }
            }
            i = i + 1;
        }
        let mut out: Vec<Effect> = Vec::new();
        let ghost mut deads_done: Seq<u64> = Seq::empty();
        proof {
            assert(self.pending_effects.entries@.take(pn as int)
                =~= pruned.pending_effects.entries@);
        }
        let rn = ripe.len();
        let mut x: usize = 0;
        while x < rn
            invariant
                self.wf(),
                pruned.wf(),
                sched_time_ok(now_ms),
                rn == ripe@.len(),
                x <= rn,
                forall|a: int, b: int| 0 <= a < b < ripe@.len() ==> ripe@[a] != ripe@[b],
                ripe@ == spec_ripe_ids(pruned.pending_effects.entries@, now_ms),
                self.config == pruned.config,
                self.units == pruned.units,
                self.processed_units == pruned.processed_units,
                self.last_update_time_ms == pruned.last_update_time_ms,
                deads_done == spec_dead_filter(pruned.pending_effects.entries@, ripe@.take(x as int)),
                spec_promos_of(
                    pruned.pending_effects.entries@,
                    pruned.units,
                    pruned.config.all_vehicles.smoke_with_cookoff,
                    deads_done,
                    out@,
                ),
                pruned.timed_explosions@.len() <= self.timed_explosions@.len(),
                forall|idx: int|
                    0 <= idx < pruned.timed_explosions@.len() ==> self.timed_explosions@[idx]
                        == pruned.timed_explosions@[idx],
                forall|idx: int|
                    pruned.timed_explosions@.len() <= idx < self.timed_explosions@.len()
                        ==> now_ms <= (#[trigger] self.timed_explosions@[idx]).trigger_time_ms
                        <= now_ms + crate::config::MAX_DURATION_MS + 3000,
                forall|k: u64|
                    (forall|a: int| 0 <= a < ripe@.len() ==> #[trigger] ripe@[a] != k) ==> self
                        .pending_effects.spec_get(k) == pruned.pending_effects.spec_get(k),
                forall|k: u64|
                    (forall|a: int| 0 <= a < ripe@.len() ==> #[trigger] ripe@[a] != k) ==> self
                        .movement_tracking.spec_get(k) == pruned.movement_tracking.spec_get(k)
                        && self.effect_queue.spec_get(k) == pruned.effect_queue.spec_get(k),
                forall|a: int|
                    0 <= a < x ==> !self.pending_effects.spec_has(#[trigger] ripe@[a]),
                forall|a: int|
                    0 <= a < x ==> ((#[trigger] pruned.pending_effects.spec_get(ripe@[a]))
                        matches Some(p) ==> (!p.is_dead ==> {
                        &&& self.movement_tracking.spec_get(ripe@[a]) == Some(
                            MovementTracker {
                                unit_id: ripe@[a],
                                last_position: p.position,
                                last_update_ms: now_ms,
                                stationary_checks: 0,
                                max_stationary_checks: 3,
                                movement_threshold_cm: 100,
                            },
                        )
                        &&& self.effect_queue.spec_get(ripe@[a]) is Some
                        &&& ({
                            let q = self.effect_queue.spec_get(ripe@[a])->Some_0;
                            &&& q == spec_scheduled_of(p, q.cookoff.enabled, q.smoke.is_tanker)
                            &&& (pruned.units.spec_has(p.unit_type@) ==> q.cookoff.enabled)
                        })
                    })),
                forall|a: int|
                    0 <= a < x ==> ((#[trigger] pruned.pending_effects.spec_get(ripe@[a]))
                        matches Some(p) ==> (p.is_dead ==> self.effect_queue.spec_get(ripe@[a])
                        is None)),
                forall|a: int|
                    x <= a < rn ==> self.pending_effects.spec_get(#[trigger] ripe@[a])
                        == pruned.pending_effects.spec_get(ripe@[a]),
            decreases rn - x,
        {
            let ghost pre = *self;
            let ghost outprev = out@;
            let ghost deadsprev = deads_done;
            let id = ripe[x];
            proof {
                assert(ripe@[x as int] == id);
                assert(ripe@.contains(id));
                lemma_ripe_ids_facts(pruned.pending_effects.entries@, now_ms);
                assert(crate::idmap::has_id(pruned.pending_effects.entries@, id));
                assert(pruned.pending_effects.spec_get(id) is Some);
                assert(pre.pending_effects.spec_get(id) == pruned.pending_effects.spec_get(id));
                assert(pruned.pending_effects.spec_get(id)->Some_0.valid());
            }
            let mut fired = self.promote_pending(id, now_ms);
            let ghost gfired = fired@;
            out.append(&mut fired);
            proof {
                let entries = pruned.pending_effects.entries@;
                let units = pruned.units;
                let sw = pruned.config.all_vehicles.smoke_with_cookoff;
                let p = pruned.pending_effects.spec_get(id)->Some_0;
                assert(crate::idmap::get_id(entries, id) == Some(p));
                assert(ripe@.take(x as int + 1) =~= ripe@.take(x as int).push(id));
                lemma_dead_filter_snoc(entries, ripe@.take(x as int), id);
                if p.is_dead {
                    assert(spec_promo_part_ok(entries, units, sw, id, gfired)) by {
                        let (b1, b2) = choose|b1: bool, b2: bool|
                            {
                                &&& (pre.units.spec_has(p.unit_type@) ==> b1)
                                &&& (b1 && pre.config.all_vehicles.smoke_with_cookoff ==> b2)
                                &&& gfired == spec_immediate_effects(spec_scheduled_of(p, b1, b2))
                            };
                        assert((units.spec_has(p.unit_type@) ==> b1) && (b1 && sw ==> b2)
                            && gfired == spec_immediate_effects(spec_scheduled_of(p, b1, b2)));
                    }
                    lemma_promos_snoc(entries, units, sw, deadsprev, id, outprev, gfired);
                    assert(out@ =~= outprev + gfired);
                    deads_done = deadsprev.push(id);
                    assert(deads_done =~= spec_dead_filter(entries, ripe@.take(x as int + 1)));
                    assert forall|idx: int|
                        0 <= idx < pruned.timed_explosions@.len() implies self
                        .timed_explosions@[idx] == pruned.timed_explosions@[idx] by {
                        assert(self.timed_explosions@[idx] == pre.timed_explosions@[idx]);
                    }
                    assert forall|idx: int|
                        pruned.timed_explosions@.len() <= idx < self.timed_explosions@.len()
                            implies now_ms <= (
                        #[trigger] self.timed_explosions@[idx]).trigger_time_ms <= now_ms
                            + crate::config::MAX_DURATION_MS + 3000 by {
                        if idx < pre.timed_explosions@.len() {
                            assert(self.timed_explosions@[idx] == pre.timed_explosions@[idx]);
                        } else {
                            assert(p.properties.cookoff.duration_ms
                                <= crate::config::MAX_DURATION_MS);
                        }
                    }
                } else {
                    assert(gfired.len() == 0);
                    assert(out@ =~= outprev);
                    assert(deads_done =~= spec_dead_filter(entries, ripe@.take(x as int + 1)));
                    assert(self.timed_explosions == pre.timed_explosions);
                }
                assert forall|a: int|
                    x + 1 <= a < rn implies self.pending_effects.spec_get(#[trigger] ripe@[a])
                    == pruned.pending_effects.spec_get(ripe@[a]) by {
                    assert(ripe@[a] != id);
                    assert(self.pending_effects.spec_get(ripe@[a])
                        == pre.pending_effects.spec_get(ripe@[a]));
                }
                assert forall|k: u64|
                    (forall|a: int| 0 <= a < ripe@.len() ==> #[trigger] ripe@[a] != k)
                        implies self.movement_tracking.spec_get(k)
                    == pruned.movement_tracking.spec_get(k) && self.effect_queue.spec_get(k)
                    == pruned.effect_queue.spec_get(k) by {
                    assert(ripe@[x as int] != k);
                    assert(self.movement_tracking.spec_get(k) == pre.movement_tracking.spec_get(
                        k,
                    ));
                    assert(self.effect_queue.spec_get(k) == pre.effect_queue.spec_get(k));
                }
                assert forall|a: int|
                    0 <= a < x implies self.movement_tracking.spec_get(#[trigger] ripe@[a])
                    == pre.movement_tracking.spec_get(ripe@[a]) && self.effect_queue.spec_get(
                    ripe@[a],
                ) == pre.effect_queue.spec_get(ripe@[a]) by {
                    assert(ripe@[a] != id);
                }
            }
            x = x + 1;
        }
        let ghost promoted = *self;
        let ghost promo_final = out@;
        let mut drained = self.process_timed_explosions(now_ms);
        let ghost gdrained = drained@;
        out.append(&mut drained);
        self.update_last_update_time(now_ms);
        proof {
            assert(pruned.pending_effects == old(self).pending_effects);
            assert(pruned.units == old(self).units);
            assert(pruned.config == old(self).config);
            assert(pruned.timed_explosions == old(self).timed_explosions);
            assert(ripe@.take(rn as int) =~= ripe@);
            lemma_dead_of_ripe(pruned.pending_effects.entries@, now_ms);
            assert(deads_done == spec_ripe_dead_ids(old(self).pending_effects.entries@, now_ms));
            let mid_timed = promoted.timed_explosions@;
            assert(mid_timed.take(old(self).timed_explosions@.len() as int)
                =~= old(self).timed_explosions@);
            assert(self.timed_explosions@ == mid_timed.skip(spec_ready_count(mid_timed, now_ms)));
            assert(gdrained == spec_effects_of_timed(
                mid_timed.take(spec_ready_count(mid_timed, now_ms)),
                old(self).config.flares.color,
            ));
            assert(out@ =~= promo_final + gdrained);
            assert(spec_promos_of(
                old(self).pending_effects.entries@,
                old(self).units,
                old(self).config.all_vehicles.smoke_with_cookoff,
                spec_ripe_dead_ids(old(self).pending_effects.entries@, now_ms),
                promo_final,
            ));
            assert({
                &&& old(self).timed_explosions@.len() <= mid_timed.len()
                &&& mid_timed.take(old(self).timed_explosions@.len() as int) == old(self).timed_explosions@
                &&& forall|idx: int|
                    old(self).timed_explosions@.len() <= idx < mid_timed.len() ==> now_ms <= (
                    #[trigger] mid_timed[idx]).trigger_time_ms <= now_ms
                        + crate::config::MAX_DURATION_MS + 3000
                &&& self.timed_explosions@ == mid_timed.skip(spec_ready_count(mid_timed, now_ms))
                &&& out@ == promo_final + spec_effects_of_timed(
                    mid_timed.take(spec_ready_count(mid_timed, now_ms)),
                    old(self).config.flares.color,
                )
            });
            assert(spec_update_outputs(*old(self), *self, now_ms, out@));
            assert(self.movement_tracking == promoted.movement_tracking);
            assert(self.effect_queue == promoted.effect_queue);
            assert forall|k: u64| (#[trigger] old(self).pending_effects.spec_get(k)) is Some
                implies ({
                let p = old(self).pending_effects.spec_get(k)->Some_0;
                now_ms - p.start_time_ms >= MIN_EFFECT_DELAY_MS ==> ripe@.contains(k)
            }) by {
                let p = old(self).pending_effects.spec_get(k)->Some_0;
                if now_ms - p.start_time_ms >= MIN_EFFECT_DELAY_MS {
                    let w = crate::idmap::idx_id(pruned.pending_effects.entries@, k);
                    assert(0 <= w < pn && pruned.pending_effects.entries@[w].0 == k);
                    crate::idmap::lemma_id_unique(pruned.pending_effects.entries@, k, w);
                }
            }
            assert forall|k: u64| (#[trigger] old(self).pending_effects.spec_get(k)) is Some
                && now_ms - old(self).pending_effects.spec_get(k)->Some_0.start_time_ms
                >= MIN_EFFECT_DELAY_MS implies ({
                let p = old(self).pending_effects.spec_get(k)->Some_0;
                &&& (!p.is_dead ==> self.movement_tracking.spec_get(k) == Some(
                    MovementTracker {
                        unit_id: k,
                        last_position: p.position,
                        last_update_ms: now_ms,
                        stationary_checks: 0,
                        max_stationary_checks: 3,
                        movement_threshold_cm: 100,
                    },
                ) && self.effect_queue.spec_get(k) is Some && ({
                    let q = self.effect_queue.spec_get(k)->Some_0;
                    &&& q == spec_scheduled_of(p, q.cookoff.enabled, q.smoke.is_tanker)
                    &&& (old(self).units.spec_has(p.unit_type@) ==> q.cookoff.enabled)
                }))
                &&& (p.is_dead ==> self.effect_queue.spec_get(k) is None)
            }) by {
                assert(ripe@.contains(k));
                let a = choose|a: int| 0 <= a < ripe@.len() && ripe@[a] == k;
                assert(pruned.pending_effects.spec_get(ripe@[a]) is Some);
            }
            assert forall|k: u64| (#[trigger] pruned.pending_effects.spec_get(k)) is Some
                implies (if now_ms - pruned.pending_effects.spec_get(k)->Some_0.start_time_ms
                >= MIN_EFFECT_DELAY_MS {
                self.pending_effects.spec_get(k) is None
            } else {
                self.pending_effects.spec_get(k) == pruned.pending_effects.spec_get(k)
            }) by {
                let p = pruned.pending_effects.spec_get(k)->Some_0;
                let w = crate::idmap::idx_id(pruned.pending_effects.entries@, k);
                assert(0 <= w < pn && pruned.pending_effects.entries@[w].0 == k);
                crate::idmap::lemma_id_unique(pruned.pending_effects.entries@, k, w);
                if now_ms - p.start_time_ms >= MIN_EFFECT_DELAY_MS {
                    assert(ripe@.contains(k));
                    let a = choose|a: int| 0 <= a < ripe@.len() && ripe@[a] == k;
                    assert(!promoted.pending_effects.spec_has(ripe@[a]));
                } else {
                    assert(!ripe@.contains(k)) by {
                        if ripe@.contains(k) {
                            assert(now_ms - crate::idmap::get_id(
                                pruned.pending_effects.entries@,
                                k,
                            )->Some_0.start_time_ms >= MIN_EFFECT_DELAY_MS);
                        }
                    }
                    assert forall|a: int| 0 <= a < ripe@.len() implies #[trigger] ripe@[a]
                        != k by {
                        if ripe@[a] == k {
                            assert(ripe@.contains(k));
                        }
                    }
                    assert(promoted.pending_effects.spec_get(k)
                        == pruned.pending_effects.spec_get(k));
                }
            }
            assert forall|k: u64|
                !(old(self).pending_effects.spec_get(k) matches Some(p) && now_ms
                    - p.start_time_ms >= MIN_EFFECT_DELAY_MS) implies self.movement_tracking.spec_get(k) == old(self).movement_tracking.spec_get(k)
                && #[trigger] self.effect_queue.spec_get(k) == old(self).effect_queue.spec_get(
                k,
            ) by {
                assert(!ripe@.contains(k)) by {
                    if ripe@.contains(k) {
                        lemma_ripe_ids_facts(pruned.pending_effects.entries@, now_ms);
                        assert(crate::idmap::has_id(pruned.pending_effects.entries@, k));
                        assert(spec_is_ripe(
                            crate::idmap::get_id(pruned.pending_effects.entries@, k)->Some_0,
                            now_ms,
                        ));
                    }
                }
                assert forall|a: int| 0 <= a < ripe@.len() implies #[trigger] ripe@[a] != k by {
                    if ripe@[a] == k {
                        assert(ripe@.contains(k));
                    }
                }
                assert(promoted.movement_tracking.spec_get(k)
                    == pruned.movement_tracking.spec_get(k));
                assert(promoted.effect_queue.spec_get(k) == pruned.effect_queue.spec_get(k));
            }
            assert forall|k: u64| !pruned.pending_effects.spec_has(k) implies !self
                .pending_effects.spec_has(k) by {
                if !ripe@.contains(k) {
                    assert forall|a: int| 0 <= a < ripe@.len() implies #[trigger] ripe@[a]
                        != k by {
                        if ripe@[a] == k {
                            assert(ripe@.contains(k));
                        }
                    }
                    assert(promoted.pending_effects.spec_get(k)
                        == pruned.pending_effects.spec_get(k));
                } else {
                    assert(crate::idmap::has_id(pruned.pending_effects.entries@, k));
                }
            }
        }
        out
    }
}

} // verus!
