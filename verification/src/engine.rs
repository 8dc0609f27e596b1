//! The splash damage engine.
//!
//! The engine tracks munitions the host reports as fired, polls their
//! liveness each tick, and turns a disappearance into an impact: a
//! primary explosion at the predicted impact point, scaled by the
//! weapon's configuration, gated by ordnance protection, expanded into
//! bomblets for cluster munitions, and followed by cascading secondary
//! explosions among nearby units.  The cook-off scheduler rides along
//! for vehicles damaged in the process.

use vstd::prelude::*;
use vstd::string::StrSliceExecFns;
use vstd::string::StringSliceAdditionalSpecFns;

use crate::blast::{
    blast_radius_cm, bomblet_count, bomblet_polar, bomblet_spread_cm, blast_damage,
    cascade_decision, is_cluster_name, spec_blast_damage, spec_blast_radius_cm,
    spec_bomblet_count, spec_bomblet_polar, spec_bomblet_power, spec_bomblet_spread_cm,
    spec_cascade, spec_final_power,
};
use crate::config::SplashConfig;
use crate::cookoff::{sched_time_ok, CookOff, HitOutcome};
use crate::effects::{Effect, Offset, SmokePreset, Snap};
use crate::idmap::IdMap;
use crate::movement::{time_ok, MAX_TIME_MS};
use crate::units::{
    dist_sq_cm2, ground_snap, pos_ok, spec_ground_snap, spec_within, within_radius, Pos,
    MAX_COORD_CM, MAX_POWER_MILLI,
};

verus! {

/// Milliseconds a recent explosion stays on record.
pub const RECENT_EXPLOSION_RETENTION_MS: i64 = 10_000;

/// Radius (centimetres) from which a recent explosion counts as large.
pub const LARGE_EXPLOSION_RADIUS_CM: i64 = 5_000;

/// Ground clearance of impact explosions, in centimetres.
pub const IMPACT_GROUND_CLEARANCE_CM: i64 = 10;

/// Ground clearance of bomblet and cascade explosions, in centimetres.
pub const STATIC_GROUND_CLEARANCE_CM: i64 = 160;

/// A munition in flight, awaiting impact.
#[derive(Clone, Debug, PartialEq)]
pub struct TrackedWeapon {
    /// The weapon type name, as bytes.
    pub weapon_type: Vec<u8>,
    /// Last known position.
    pub position: Pos,
    /// Last known velocity, in centimetres per second.
    pub velocity: Pos,
    /// Last known speed, in centimetres per second.
    pub speed_cm_s: i64,
    /// Predicted impact point from the host's terrain ray, if any.
    pub predicted_impact: Option<Pos>,
    /// When the weapon was last updated, in engine time milliseconds.
    pub last_update_ms: i64,
}

impl TrackedWeapon {
    pub open spec fn valid(self) -> bool {
        &&& pos_ok(self.position)
        &&& (self.predicted_impact matches Some(p) ==> pos_ok(p))
        &&& time_ok(self.last_update_ms)
    }

    /// Where the weapon is taken to have hit: the predicted impact
    /// point, or the last known position when no prediction exists.
    pub open spec fn spec_impact_point(self) -> Pos {
        match self.predicted_impact {
            Some(p) => p,
            None => self.position,
        }
    }
}

/// An explosion the engine realized, kept for ordnance protection.
#[derive(Clone, Copy, Debug, PartialEq)]
pub struct RecentExplosion {
    pub position: Pos,
    pub time_ms: i64,
    pub radius_cm: i64,
}

impl RecentExplosion {
    pub open spec fn valid(self) -> bool {
        pos_ok(self.position) && time_ok(self.time_ms) && 0 <= self.radius_cm <= MAX_COORD_CM
    }
}

/// What the host reported about one tracked weapon this tick.
#[derive(Clone, Copy, Debug, PartialEq)]
pub enum WeaponObservation {
    /// The weapon no longer exists: it has impacted.
    Gone,
    /// The weapon is still in flight.
    Seen {
        position: Pos,
        velocity: Pos,
        speed_cm_s: i64,
        predicted_impact: Option<Pos>,
    },
}

pub open spec fn observation_ok(o: WeaponObservation) -> bool {
    match o {
        WeaponObservation::Gone => true,
        WeaponObservation::Seen { position, predicted_impact, .. } => pos_ok(position) && (
        predicted_impact matches Some(p) ==> pos_ok(p)),
    }
}

/// A resolved impact: where a tracked weapon hit, and with which
/// configured base power.
#[derive(Clone, Debug, PartialEq)]
pub struct Impact {
    /// The weapon type name, as bytes.
    pub weapon_type: Vec<u8>,
    /// Where the weapon hit.
    pub point: Pos,
    /// The configured base power, in milli units.
    pub base_power_milli: u64,
}

/// A unit the host's spatial search found near a blast.
#[derive(Clone, Copy, Debug, PartialEq)]
pub struct ScannedUnit {
    /// The unit's position.
    pub position: Pos,
    /// The unit's health percentage, in milli percent.
    pub health_milli_pct: u64,
}

/// The splash damage engine.
pub struct SplashDamage {
    pub config: SplashConfig,
    /// Munitions in flight, by host object id.
    pub tracked_weapons: IdMap<TrackedWeapon>,
    /// The cook-off scheduler.
    pub cookoff: CookOff,
    /// Recent explosions, oldest first.
    pub recent_explosions: Vec<RecentExplosion>,
}

impl SplashDamage {
    /// The engine's invariant.
    pub open spec fn wf(self) -> bool {
        &&& self.config.valid()
        &&& self.tracked_weapons.wf()
        &&& forall|k: u64|
            (#[trigger] self.tracked_weapons.spec_get(k)) matches Some(w) ==> w.valid()
        &&& self.cookoff.wf()
        &&& forall|i: int|
            0 <= i < self.recent_explosions@.len() ==> (
            #[trigger] self.recent_explosions@[i]).valid()
        &&& forall|i: int, j: int|
            0 <= i < j < self.recent_explosions@.len() ==> self.recent_explosions@[i].time_ms
                <= self.recent_explosions@[j].time_ms
    }

    /// A fresh engine with the stock configuration, at engine time
    /// `now_ms`.  The stock vehicle table is extended with the extra
    /// mission vehicle, and the stock mission settings are applied.
    pub fn new(now_ms: i64) -> (r: SplashDamage)
        requires
            time_ok(now_ms),
        ensures
            r.wf(),
            r.config.enabled,
            r.tracked_weapons.entries@.len() == 0,
            r.recent_explosions@.len() == 0,
    {
        let config = SplashConfig::default();
        let cookoff_cfg = config.cookoff;
        let mut engine = SplashDamage {
            config,
            tracked_weapons: IdMap::new(),
            cookoff: CookOff::new(cookoff_cfg, now_ms),
            recent_explosions: Vec::new(),
        };
        engine.initialize_mission_units();
        engine.apply_mission_settings(1000);
        engine
    }

    /// Register the extra vehicle type missions may spawn dynamically.
    pub fn initialize_mission_units(&mut self)
        requires
            old(self).wf(),
        ensures
            final(self).wf(),
            final(self).cookoff.units.spec_has("M35".spec_bytes()),
            final(self).config == old(self).config,
            final(self).tracked_weapons == old(self).tracked_weapons,
            final(self).recent_explosions == old(self).recent_explosions,
    {
        self.cookoff.add_unit(
            "M35",
            crate::config::UnitProperties {
                explosion: crate::config::ExplosionConfig { power_milli: 45_000, enabled: true },
                cookoff: crate::config::CookOffEffectConfig {
                    enabled: true,
                    count: 3,
                    power_milli: 10_000,
                    duration_ms: 25_000,
                    random_timing: true,
                    power_random_pct_milli: 35_000,
                },
                smoke: crate::config::SmokeConfig { is_tanker: false, size: 3, duration_s: 90 },
            },
        );
    }

    /// Scale the cook-off tuning by a mission difficulty factor (milli
    /// units): the effects chance grows with difficulty but never past
    /// certainty, and the damage threshold shrinks but never below ten
    /// percent.
    pub fn apply_mission_settings(&mut self, difficulty_milli: u64)
        requires
            old(self).wf(),
            difficulty_milli <= 2_000,
        ensures
            final(self).wf(),
            final(self).cookoff.config.effects_chance_milli == if crate::units::milli_of(
                old(self).cookoff.config.effects_chance_milli as int,
                difficulty_milli as int,
            ) > 1000 {
                1000int
            } else {
                crate::units::milli_of(
                    old(self).cookoff.config.effects_chance_milli as int,
                    difficulty_milli as int,
                )
            },
            final(self).cookoff.config.damage_threshold_milli == if crate::units::milli_of(
                old(self).cookoff.config.damage_threshold_milli as int,
                2_000 - difficulty_milli as int,
            ) < 10_000 {
                10_000int
            } else if crate::units::milli_of(
                old(self).cookoff.config.damage_threshold_milli as int,
                2_000 - difficulty_milli as int,
            ) > crate::config::MAX_THRESHOLD_MILLI {
                crate::config::MAX_THRESHOLD_MILLI as int
            } else {
                crate::units::milli_of(
                    old(self).cookoff.config.damage_threshold_milli as int,
                    2_000 - difficulty_milli as int,
                )
            },
            final(self).config == old(self).config,
            final(self).tracked_weapons == old(self).tracked_weapons,
            final(self).recent_explosions == old(self).recent_explosions,
    {
        let mut cfg = self.cookoff.config;
        proof {
            crate::units::lemma_mul_le(
                cfg.effects_chance_milli as int,
                difficulty_milli as int,
                1000,
                2000,
            );
            crate::units::lemma_mul_le(
                cfg.damage_threshold_milli as int,
                (2000 - difficulty_milli) as int,
                crate::config::MAX_THRESHOLD_MILLI as int,
                2000,
            );
        }
        let chance = crate::units::mul_milli(cfg.effects_chance_milli, difficulty_milli);
        cfg.effects_chance_milli = if chance > 1000 {
            1000
        } else {
            chance
        };
        let threshold = crate::units::mul_milli(
            cfg.damage_threshold_milli,
            2000 - difficulty_milli,
        );
        cfg.damage_threshold_milli = if threshold < 10_000 {
            10_000
        } else if threshold > crate::config::MAX_THRESHOLD_MILLI {
            crate::config::MAX_THRESHOLD_MILLI
        } else {
            threshold
        };
        proof {
            assert(cfg.valid());
        }
        self.cookoff.update_config(cfg);
    }

    /// Register a fired weapon for tracking.  Nothing is tracked when
    /// the engine is disabled, when only player weapons are tracked
    /// and this one was not player-fired, or when the weapon type has
    /// no configured power.
    pub fn handle_weapon_shot(
        &mut self,
        weapon_id: u64,
        weapon_type: &str,
        position: Pos,
        velocity: Pos,
        speed_cm_s: i64,
        player_fired: bool,
        now_ms: i64,
    ) -> (r: bool)
        requires
            old(self).wf(),
            pos_ok(position),
            time_ok(now_ms),
        ensures
            final(self).wf(),
            r == (old(self).config.enabled && (player_fired || !old(
                self,
            ).config.only_players_weapons) && old(self).config.weapon_powers.spec_has(
                weapon_type.spec_bytes(),
            )),
            !r ==> *final(self) == *old(self),
            r ==> {
                &&& final(self).tracked_weapons.spec_get(weapon_id) is Some
                &&& ({
                    let w = final(self).tracked_weapons.spec_get(weapon_id)->Some_0;
                    &&& w.weapon_type@ == weapon_type.spec_bytes()
                    &&& w.position == position
                    &&& w.velocity == velocity
                    &&& w.speed_cm_s == speed_cm_s
                    &&& w.predicted_impact is None
                    &&& w.last_update_ms == now_ms
                })
                &&& forall|k: u64|
                    k != weapon_id ==> final(self).tracked_weapons.spec_get(k) == old(
                        self,
                    ).tracked_weapons.spec_get(k)
                &&& final(self).config == old(self).config
                &&& final(self).cookoff == old(self).cookoff
                &&& final(self).recent_explosions == old(self).recent_explosions
            },
    {
        if !self.config.enabled {
            return false;
        }
        if self.config.only_players_weapons && !player_fired {
            return false;
        }
        if !self.config.has_weapon(weapon_type) {
            return false;
        }
        let weapon = TrackedWeapon {
            weapon_type: weapon_type.as_bytes_vec(),
            position,
            velocity,
            speed_cm_s,
            predicted_impact: None,
            last_update_ms: now_ms,
        };
        self.tracked_weapons.set(weapon_id, weapon);
        proof {
            assert forall|k: u64| (#[trigger] self.tracked_weapons.spec_get(k)) is Some
                implies self.tracked_weapons.spec_get(k)->Some_0.valid() by {
                if k != weapon_id {
                    assert(self.tracked_weapons.spec_get(k) == old(
                        self,
                    ).tracked_weapons.spec_get(k));
                }
            }
        }
        true
    }

    /// Apply one liveness observation to a tracked weapon.  A weapon
    /// still seen has its flight data refreshed.  A weapon reported
    /// gone has impacted: it leaves tracking, and if its type has a
    /// configured power, exactly one impact is produced, at the last
    /// predicted impact point, or at the last known position when no
    /// prediction was computed.
    pub fn observe_weapon(
        &mut self,
        weapon_id: u64,
        obs: &WeaponObservation,
        now_ms: i64,
    ) -> (r: Option<Impact>)
        requires
            old(self).wf(),
            observation_ok(*obs),
            time_ok(now_ms),
        ensures
            final(self).wf(),
            final(self).config == old(self).config,
            final(self).cookoff == old(self).cookoff,
            final(self).recent_explosions == old(self).recent_explosions,
            !old(self).tracked_weapons.spec_has(weapon_id) ==> *final(self) == *old(self) && r
                is None,
            old(self).tracked_weapons.spec_has(weapon_id) ==> {
                let w = old(self).tracked_weapons.spec_get(weapon_id)->Some_0;
                &&& forall|k: u64|
                    k != weapon_id ==> final(self).tracked_weapons.spec_get(k) == old(
                        self,
                    ).tracked_weapons.spec_get(k)
                &&& (obs matches WeaponObservation::Seen {
                    position,
                    velocity,
                    speed_cm_s,
                    predicted_impact,
                } ==> {
                    &&& r is None
                    &&& final(self).tracked_weapons.spec_get(weapon_id) is Some
                    &&& ({
                        let w2 = final(self).tracked_weapons.spec_get(weapon_id)->Some_0;
                        &&& w2.weapon_type@ == w.weapon_type@
                        &&& w2.position == position
                        &&& w2.velocity == velocity
                        &&& w2.speed_cm_s == speed_cm_s
                        &&& w2.predicted_impact == predicted_impact
                        &&& w2.last_update_ms == now_ms
                    })
                })
                &&& (obs is Gone ==> {
                    &&& final(self).tracked_weapons.spec_get(weapon_id) is None
                    &&& (old(self).config.weapon_powers.spec_get(w.weapon_type@) matches Some(p)
                        ==> r is Some && ({
                        let im = r->Some_0;
                        &&& im.weapon_type@ == w.weapon_type@
                        &&& im.point == w.spec_impact_point()
                        &&& im.base_power_milli == p
                    }))
                    &&& (old(self).config.weapon_powers.spec_get(w.weapon_type@) is None ==> r
                        is None)
                })
            },
    {
        let taken = self.tracked_weapons.take(weapon_id);
        match taken {
            None => None,
            Some(w) => {
                proof {
                    assert(old(self).tracked_weapons.spec_get(weapon_id) == Some(w));
                    assert(w.valid());
                    assert forall|k: u64| (#[trigger] self.tracked_weapons.spec_get(k)) is Some
                        implies self.tracked_weapons.spec_get(k)->Some_0.valid() by {
                        if k != weapon_id {
                            assert(self.tracked_weapons.spec_get(k) == old(
                                self,
                            ).tracked_weapons.spec_get(k));
                        }
                    }
                }
                match obs {
                    WeaponObservation::Seen { position, velocity, speed_cm_s, predicted_impact } => {
                        let updated = TrackedWeapon {
                            weapon_type: w.weapon_type,
                            position: *position,
                            velocity: *velocity,
                            speed_cm_s: *speed_cm_s,
                            predicted_impact: *predicted_impact,
                            last_update_ms: now_ms,
                        };
                        self.tracked_weapons.set(weapon_id, updated);
                        proof {
                            assert forall|k: u64| (#[trigger] self.tracked_weapons.spec_get(
                                k,
                            )) is Some implies self.tracked_weapons.spec_get(
                                k,
                            )->Some_0.valid() by {
                                if k != weapon_id {
                                    assert(self.tracked_weapons.spec_get(k) == old(
                                        self,
                                    ).tracked_weapons.spec_get(k));
                                }
                            }
                        }
                        None
                    },
                    WeaponObservation::Gone => {
                        let point = match w.predicted_impact {
                            Some(p) => p,
                            None => w.position,
                        };
                        match self.config.weapon_powers.get(w.weapon_type.as_slice()) {
                            Some(p) => Some(
                                Impact { weapon_type: w.weapon_type, point, base_power_milli: p },
                            ),
                            None => None,
                        }
                    },
                }
            },
        }
    }

    /// Whether ordnance protection allows an explosion at `position`:
    /// no recent explosion and no tracked weapon may lie within the
    /// protection radius, and no recent large explosion may lie within
    /// its own range and time window.  With protection disabled,
    /// everything is allowed.
    pub open spec fn spec_protection_allows(self, position: Pos, now_ms: i64) -> bool {
        if !self.config.ordnance_protection.enabled {
            true
        } else {
            &&& !(exists|i: int|
                0 <= i < self.recent_explosions@.len() && spec_within(
                    (#[trigger] self.recent_explosions@[i]).position,
                    position,
                    self.config.ordnance_protection.protection_radius_cm,
                ))
            &&& !(exists|i: int|
                0 <= i < self.tracked_weapons.entries@.len() && spec_within(
                    (#[trigger] self.tracked_weapons.entries@[i]).1.position,
                    position,
                    self.config.ordnance_protection.protection_radius_cm,
                ))
            &&& !(self.config.ordnance_protection.recent_large_explosion_snap && exists|i: int|
                0 <= i < self.recent_explosions@.len() && now_ms - (
                #[trigger] self.recent_explosions@[i]).time_ms
                    <= self.config.ordnance_protection.recent_large_explosion_time_ms
                    && spec_within(
                    self.recent_explosions@[i].position,
                    position,
                    self.config.ordnance_protection.recent_large_explosion_range_cm,
                ) && self.recent_explosions@[i].radius_cm > LARGE_EXPLOSION_RADIUS_CM)
        }
    }

    /// Whether ordnance protection allows an explosion at `position`.
    pub fn check_ordnance_protection(&self, position: &Pos, now_ms: i64) -> (r: bool)
        requires
            self.wf(),
            pos_ok(*position),
            time_ok(now_ms),
        ensures
            r == self.spec_protection_allows(*position, now_ms),
    {
        if !self.config.ordnance_protection.enabled {
            return true;
        }
        let radius = self.config.ordnance_protection.protection_radius_cm;
        let rn = self.recent_explosions.len();
        let mut i: usize = 0;
        while i < rn
            invariant
                self.wf(),
                self.config.ordnance_protection.enabled,
                pos_ok(*position),
                time_ok(now_ms),
                rn == self.recent_explosions@.len(),
                i <= rn,
                radius == self.config.ordnance_protection.protection_radius_cm,
                forall|j: int|
                    0 <= j < i ==> !spec_within(
                        (#[trigger] self.recent_explosions@[j]).position,
                        *position,
                        radius,
                    ),
            decreases rn - i,
        {
            if within_radius(&self.recent_explosions[i].position, position, radius) {
                proof {
                    assert(spec_within(
                        self.recent_explosions@[i as int].position,
                        *position,
                        radius,
                    ));
                    assert(exists|x: int|
                        0 <= x < self.recent_explosions@.len() && spec_within(
                            (#[trigger] self.recent_explosions@[x]).position,
                            *position,
                            self.config.ordnance_protection.protection_radius_cm,
                        ));
                    assert(!self.spec_protection_allows(*position, now_ms));
                }
                return false;
            }
            i = i + 1;
        }
        let tn = self.tracked_weapons.len();
        let mut t: usize = 0;
        while t < tn
            invariant
                self.wf(),
                self.config.ordnance_protection.enabled,
                pos_ok(*position),
                time_ok(now_ms),
                tn == self.tracked_weapons.entries@.len(),
                t <= tn,
                radius == self.config.ordnance_protection.protection_radius_cm,
                forall|x: int|
                    0 <= x < self.recent_explosions@.len() ==> !spec_within(
                        (#[trigger] self.recent_explosions@[x]).position,
                        *position,
                        radius,
                    ),
                forall|j: int|
                    0 <= j < t ==> !spec_within(
                        (#[trigger] self.tracked_weapons.entries@[j]).1.position,
                        *position,
                        radius,
                    ),
            decreases tn - t,
        {
            proof {
                let e = self.tracked_weapons.entries@[t as int];
                crate::idmap::lemma_id_unique(self.tracked_weapons.entries@, e.0, t as int);
                assert(self.tracked_weapons.spec_get(e.0) is Some);
            }
            if within_radius(&self.tracked_weapons.entries[t].1.position, position, radius) {
                proof {
                    assert(spec_within(
                        self.tracked_weapons.entries@[t as int].1.position,
                        *position,
                        radius,
                    ));
                }
                return false;
            }
            t = t + 1;
        }
        if self.config.ordnance_protection.recent_large_explosion_snap {
            let range = self.config.ordnance_protection.recent_large_explosion_range_cm;
            let window = self.config.ordnance_protection.recent_large_explosion_time_ms;
            let mut j: usize = 0;
            while j < rn
                invariant
                    self.wf(),
                    self.config.ordnance_protection.enabled,
                    self.config.ordnance_protection.recent_large_explosion_snap,
                    pos_ok(*position),
                    time_ok(now_ms),
                    rn == self.recent_explosions@.len(),
                    j <= rn,
                    radius == self.config.ordnance_protection.protection_radius_cm,
                    forall|x: int|
                        0 <= x < self.recent_explosions@.len() ==> !spec_within(
                            (#[trigger] self.recent_explosions@[x]).position,
                            *position,
                            radius,
                        ),
                    forall|x: int|
                        0 <= x < self.tracked_weapons.entries@.len() ==> !spec_within(
                            (#[trigger] self.tracked_weapons.entries@[x]).1.position,
                            *position,
                            radius,
                        ),
                    range == self.config.ordnance_protection.recent_large_explosion_range_cm,
                    window == self.config.ordnance_protection.recent_large_explosion_time_ms,
                    forall|x: int|
                        0 <= x < j ==> !(now_ms - (
                        #[trigger] self.recent_explosions@[x]).time_ms <= window && spec_within(
                            self.recent_explosions@[x].position,
                            *position,
                            range,
                        ) && self.recent_explosions@[x].radius_cm > LARGE_EXPLOSION_RADIUS_CM),
                decreases rn - j,
            {
                let e = self.recent_explosions[j];
                if now_ms - e.time_ms <= window && within_radius(&e.position, position, range)
                    && e.radius_cm > LARGE_EXPLOSION_RADIUS_CM {
                    proof {
                        assert(now_ms - self.recent_explosions@[j as int].time_ms <= window
                            && spec_within(
                            self.recent_explosions@[j as int].position,
                            *position,
                            range,
                        ) && self.recent_explosions@[j as int].radius_cm
                            > LARGE_EXPLOSION_RADIUS_CM);
                    }
                    return false;
                }
                j = j + 1;
            }
        }
        true
    }

    /// Record a realized explosion and drop records older than the
    /// retention window from the front of the list.  Records carry
    /// non-decreasing times (ticks arrive in order), so after the
    /// pruning every retained record is younger than the window.
    pub fn add_recent_explosion(&mut self, position: Pos, radius_cm: i64, now_ms: i64)
        requires
            old(self).wf(),
            pos_ok(position),
            0 <= radius_cm <= MAX_COORD_CM,
            time_ok(now_ms),
            old(self).recent_explosions@.len() > 0 ==> old(self).recent_explosions@.last().time_ms
                <= now_ms,
        ensures
            forall|i: int|
                0 <= i < final(self).recent_explosions@.len() ==> (
                #[trigger] final(self).recent_explosions@[i]).time_ms >= now_ms
                    - RECENT_EXPLOSION_RETENTION_MS,
            final(self).wf(),
            *final(self) == (SplashDamage {
                recent_explosions: final(self).recent_explosions,
                ..*old(self)
            }),
            final(self).recent_explosions@ == old(self).recent_explosions@.push(
                RecentExplosion { position, time_ms: now_ms, radius_cm },
            ).skip(
                spec_stale_prefix(
                    old(self).recent_explosions@.push(
                        RecentExplosion { position, time_ms: now_ms, radius_cm },
                    ),
                    (now_ms - RECENT_EXPLOSION_RETENTION_MS) as i64,
                ),
            ),
    {
        self.recent_explosions.push(RecentExplosion { position, time_ms: now_ms, radius_cm });
        let ghost pushed = self.recent_explosions@;
        let cutoff = now_ms - RECENT_EXPLOSION_RETENTION_MS;
        proof {
            assert(self.recent_explosions@ =~= pushed.skip(0));
            assert forall|i: int, j: int| 0 <= i < j < pushed.len() implies pushed[i].time_ms
                <= pushed[j].time_ms by {
                if j < pushed.len() - 1 {
                    assert(pushed[i] == old(self).recent_explosions@[i]);
                    assert(pushed[j] == old(self).recent_explosions@[j]);
                } else {
                    assert(pushed[j].time_ms == now_ms);
                    assert(pushed[i] == old(self).recent_explosions@[i]);
                    assert(old(self).recent_explosions@[i].time_ms <= old(
                        self,
                    ).recent_explosions@.last().time_ms);
                }
            }
        }
        loop
            invariant
                old(self).wf(),
                pos_ok(position),
                0 <= radius_cm <= MAX_COORD_CM,
                time_ok(now_ms),
                cutoff == now_ms - RECENT_EXPLOSION_RETENTION_MS,
                pushed == old(self).recent_explosions@.push(
                    RecentExplosion { position, time_ms: now_ms, radius_cm },
                ),
                *self == (SplashDamage { recent_explosions: self.recent_explosions, ..*old(self) }),
                1 <= self.recent_explosions@.len() <= pushed.len(),
                self.recent_explosions@ == pushed.skip(
                    pushed.len() - self.recent_explosions@.len(),
                ),
                forall|j: int|
                    0 <= j < pushed.len() - self.recent_explosions@.len()
                        ==> #[trigger] pushed[j].time_ms < cutoff,
            ensures
                1 <= self.recent_explosions@.len() <= pushed.len(),
                self.recent_explosions@ == pushed.skip(
                    pushed.len() - self.recent_explosions@.len(),
                ),
                forall|j: int|
                    0 <= j < pushed.len() - self.recent_explosions@.len()
                        ==> #[trigger] pushed[j].time_ms < cutoff,
                self.recent_explosions@[0].time_ms >= cutoff || self.recent_explosions@.len()
                    == 1,
            decreases self.recent_explosions@.len(),
        {
            let ghost cnt = pushed.len() - self.recent_explosions@.len();
            if self.recent_explosions.len() == 1 {
                break;
            }
            if self.recent_explosions[0].time_ms >= cutoff {
                break;
            }
            proof {
                assert(self.recent_explosions@[0] == pushed.skip(cnt)[0]);
                assert(pushed.skip(cnt)[0] == pushed[cnt]);
            }
            self.recent_explosions.remove(0);
            proof {
                assert(self.recent_explosions@ =~= pushed.skip(cnt + 1));
            }
        }
        proof {
            let cnt = pushed.len() - self.recent_explosions@.len();
            lemma_stale_prefix_eq(pushed, cutoff, cnt);
            assert forall|i: int|
                0 <= i < self.recent_explosions@.len() implies (
            #[trigger] self.recent_explosions@[i]).valid() by {
                assert(self.recent_explosions@[i] == pushed[cnt + i]);
                if cnt + i < pushed.len() - 1 {
                    assert(pushed[cnt + i] == old(self).recent_explosions@[cnt + i]);
                }
            }
            assert forall|i: int, j: int|
                0 <= i < j < self.recent_explosions@.len() implies self.recent_explosions@[i]
                .time_ms <= self.recent_explosions@[j].time_ms by {
                assert(self.recent_explosions@[i] == pushed[cnt + i]);
                assert(self.recent_explosions@[j] == pushed[cnt + j]);
            }
            assert forall|i: int|
                0 <= i < self.recent_explosions@.len() implies (
            #[trigger] self.recent_explosions@[i]).time_ms >= cutoff by {
                assert(self.recent_explosions@[i] == pushed[cnt + i]);
                if self.recent_explosions@.len() == 1 {
                    assert(pushed[cnt + i].time_ms == now_ms);
                } else {
                    assert(self.recent_explosions@[0].time_ms >= cutoff);
                    assert(pushed[cnt] == self.recent_explosions@[0]);
                    assert(pushed[cnt].time_ms <= pushed[cnt + i].time_ms);
                }
            }
        }
    }
}

/// How many records at the front of the list are stale at the cutoff;
/// the last record never counts.
pub open spec fn spec_stale_prefix(s: Seq<RecentExplosion>, cutoff: i64) -> int
    decreases s.len(),
{
    if s.len() <= 1 {
        0
    } else if s[0].time_ms >= cutoff {
        0
    } else {
        1 + spec_stale_prefix(s.drop_first(), cutoff)
    }
}

/// A run of stale front records ending at a fresh one (or at the last
/// record) is the stale prefix.
proof fn lemma_stale_prefix_eq(s: Seq<RecentExplosion>, cutoff: i64, cnt: int)
    requires
        0 <= cnt <= s.len() - 1,
        forall|j: int| 0 <= j < cnt ==> #[trigger] s[j].time_ms < cutoff,
        cnt == s.len() - 1 || s[cnt].time_ms >= cutoff,
    ensures
        spec_stale_prefix(s, cutoff) == cnt,
    decreases cnt,
{
    if cnt == 0 {
    } else {
        assert(s[0].time_ms < cutoff);
        lemma_stale_prefix_eq(s.drop_first(), cutoff, cnt - 1);
    }
}


/// The effect pair of one realized explosion: the blast and its fire
/// plume.
pub open spec fn spec_explosion_pair(base: Pos, offset: Offset, snap: Snap, power_milli: u64) -> Seq<
    Effect,
> {
    seq![
        Effect::Explosion { base, offset, snap, power_milli },
        Effect::BigSmoke { base, offset, snap, preset: SmokePreset::LargeSmokeAndFire },
    ]
}

impl SplashDamage {
    /// The effects one explosion request realizes: nothing for an
    /// unconfigured or zero-power weapon or when ordnance protection
    /// suppresses it; otherwise the bomblet explosions of a cluster
    /// munition followed by the primary explosion at the ground-snapped
    /// position, each explosion paired with its fire plume.
    pub open spec fn spec_explosion_effects(
        self,
        name: Seq<u8>,
        position: Pos,
        ground_height_cm: i64,
        now_ms: i64,
    ) -> Seq<Effect> {
        match self.config.weapon_powers.spec_get(name) {
            None => Seq::empty(),
            Some(base) => {
                if base == 0 {
                    Seq::empty()
                } else if !self.spec_protection_allows(position, now_ms) {
                    Seq::empty()
                } else {
                    let fp = spec_final_power(self.config, name, base);
                    let main_pos = spec_ground_snap(
                        position,
                        ground_height_cm,
                        IMPACT_GROUND_CLEARANCE_CM,
                    );
                    let main = spec_explosion_pair(main_pos, Offset::Zero, Snap::AsIs, fp);
                    if self.config.cluster_bombs.enabled && is_cluster_name(name) {
                        let n = spec_bomblet_count(
                            fp,
                            self.config.cluster_bombs.bomblet_reduction_modifier,
                        ) as int;
                        let length = spec_bomblet_spread_cm(self.config.cluster_bombs, fp, true);
                        let width = spec_bomblet_spread_cm(self.config.cluster_bombs, fp, false);
                        let bp = spec_bomblet_power(self.config.cluster_bombs, name, fp) as u64;
                        Seq::new(
                            (2 * n) as nat,
                            |i: int|
                                {
                                    let j = i / 2;
                                    let polar = spec_bomblet_polar(
                                        j as u32,
                                        spec_bomblet_count(
                                            fp,
                                            self.config.cluster_bombs.bomblet_reduction_modifier,
                                        ),
                                        length,
                                        width,
                                    );
                                    let off = Offset::Radial {
                                        dist_cm: polar.0,
                                        azimuth_mdeg: polar.1,
                                        up_cm: 0,
                                    };
                                    let snap = Snap::AboveGround {
                                        clearance_cm: STATIC_GROUND_CLEARANCE_CM,
                                    };
                                    if i % 2 == 0 {
                                        Effect::Explosion {
                                            base: position,
                                            offset: off,
                                            snap,
                                            power_milli: bp,
                                        }
                                    } else {
                                        Effect::BigSmoke {
                                            base: position,
                                            offset: off,
                                            snap,
                                            preset: SmokePreset::LargeSmokeAndFire,
                                        }
                                    }
                                },
                        ) + main
                    } else {
                        main
                    }
                }
            },
        }
    }

    /// Realize one explosion request, by weapon name bytes.
    fn create_explosion_core(
        &self,
        name: &[u8],
        position: Pos,
        ground_height_cm: i64,
        now_ms: i64,
    ) -> (r: Vec<Effect>)
        requires
            self.wf(),
            pos_ok(position),
            crate::units::coord_ok(ground_height_cm),
            time_ok(now_ms),
        ensures
            r@ == self.spec_explosion_effects(name@, position, ground_height_cm, now_ms),
    {
        let base = match self.config.weapon_powers.get(name) {
            None => {
                return Vec::new();
            },
            Some(p) => p,
        };
        if base == 0 {
            return Vec::new();
        }
        if !self.check_ordnance_protection(&position, now_ms) {
            return Vec::new();
        }
        proof {
            assert(self.config.weapon_powers.spec_get(name@) is Some);
        }
        let fp = crate::blast::final_power_bytes(&self.config, name, base);
        let mut out: Vec<Effect> = Vec::new();
        if self.config.cluster_bombs.enabled && crate::blast::is_cluster_bomb_bytes(name) {
            let n = bomblet_count(fp, self.config.cluster_bombs.bomblet_reduction_modifier);
            let length = bomblet_spread_cm(&self.config.cluster_bombs, fp, true);
            let width = bomblet_spread_cm(&self.config.cluster_bombs, fp, false);
            let bp = crate::blast::bomblet_power_bytes(&self.config.cluster_bombs, name, fp);
            let mut j: u32 = 0;
            while j < n
                invariant
                    self.wf(),
                    1 <= n,
                    j <= n,
                    fp <= MAX_POWER_MILLI,
                    n == spec_bomblet_count(
                        fp,
                        self.config.cluster_bombs.bomblet_reduction_modifier,
                    ),
                    length == spec_bomblet_spread_cm(self.config.cluster_bombs, fp, true),
                    width == spec_bomblet_spread_cm(self.config.cluster_bombs, fp, false),
                    0 <= length <= MAX_COORD_CM,
                    0 <= width <= MAX_COORD_CM,
                    bp == spec_bomblet_power(self.config.cluster_bombs, name@, fp),
                    out@.len() == 2 * j,
                    forall|i: int|
                        0 <= i < out@.len() ==> #[trigger] out@[i] == {
                            let jj = i / 2;
                            let polar = spec_bomblet_polar(jj as u32, n, length, width);
                            let off = Offset::Radial {
                                dist_cm: polar.0,
                                azimuth_mdeg: polar.1,
                                up_cm: 0,
                            };
                            let snap = Snap::AboveGround {
                                clearance_cm: STATIC_GROUND_CLEARANCE_CM,
                            };
                            if i % 2 == 0 {
                                Effect::Explosion {
                                    base: position,
                                    offset: off,
                                    snap,
                                    power_milli: bp,
                                }
                            } else {
                                Effect::BigSmoke {
                                    base: position,
                                    offset: off,
                                    snap,
                                    preset: SmokePreset::LargeSmokeAndFire,
                                }
                            }
                        },
                decreases n - j,
            {
                let polar = bomblet_polar(j, n, length, width);
                let off = Offset::Radial { dist_cm: polar.0, azimuth_mdeg: polar.1, up_cm: 0 };
                out.push(
                    Effect::Explosion {
                        base: position,
                        offset: off,
                        snap: Snap::AboveGround { clearance_cm: STATIC_GROUND_CLEARANCE_CM },
                        power_milli: bp,
                    },
                );
                out.push(
                    Effect::BigSmoke {
                        base: position,
                        offset: off,
                        snap: Snap::AboveGround { clearance_cm: STATIC_GROUND_CLEARANCE_CM },
                        preset: SmokePreset::LargeSmokeAndFire,
                    },
                );
                j = j + 1;
            }
        }
        let main_pos = ground_snap(&position, ground_height_cm, IMPACT_GROUND_CLEARANCE_CM);
        out.push(
            Effect::Explosion {
                base: main_pos,
                offset: Offset::Zero,
                snap: Snap::AsIs,
                power_milli: fp,
            },
        );
        out.push(
            Effect::BigSmoke {
                base: main_pos,
                offset: Offset::Zero,
                snap: Snap::AsIs,
                preset: SmokePreset::LargeSmokeAndFire,
            },
        );
        proof {
            assert(out@ =~= self.spec_explosion_effects(
                name@,
                position,
                ground_height_cm,
                now_ms,
            ));
        }
        out
    }

    /// Realize one explosion request for a weapon.
    pub fn create_explosion(
        &self,
        weapon_name: &str,
        position: Pos,
        ground_height_cm: i64,
        now_ms: i64,
    ) -> (r: Vec<Effect>)
        requires
            self.wf(),
            pos_ok(position),
            crate::units::coord_ok(ground_height_cm),
            time_ok(now_ms),
        ensures
            r@ == self.spec_explosion_effects(
                weapon_name.spec_bytes(),
                position,
                ground_height_cm,
                now_ms,
            ),
    {
        self.create_explosion_core(weapon_name.as_bytes(), position, ground_height_cm, now_ms)
    }

    /// The cascade effects of one scanned unit: blast damage follows
    /// the inverse square of the distance, and a cascade explosion
    /// fires at the unit exactly when that damage reaches the cascade
    /// damage threshold while the unit's health does not exceed the
    /// cascade health threshold.
    pub fn process_unit_for_cascade(
        &self,
        center: &Pos,
        unit: &ScannedUnit,
        base_power_milli: u64,
    ) -> (r: Vec<Effect>)
        requires
            self.wf(),
            pos_ok(*center),
            pos_ok(unit.position),
            base_power_milli <= MAX_POWER_MILLI,
        ensures
            ({
                let damage = spec_blast_damage(
                    base_power_milli,
                    crate::units::spec_dist_sq_cm2(*center, unit.position) as u64,
                );
                match spec_cascade(self.config, damage as u64, unit.health_milli_pct) {
                    Some(cp) => r@ == spec_explosion_pair(
                        unit.position,
                        Offset::Zero,
                        Snap::AboveGround { clearance_cm: STATIC_GROUND_CLEARANCE_CM },
                        cp,
                    ),
                    None => r@.len() == 0,
                }
            }),
    {
        let d2 = dist_sq_cm2(center, &unit.position);
        let damage = blast_damage(base_power_milli, d2);
        let decision = cascade_decision(&self.config, damage, unit.health_milli_pct);
        let mut out: Vec<Effect> = Vec::new();
        match decision {
            Some(cp) => {
                out.push(
                    Effect::Explosion {
                        base: unit.position,
                        offset: Offset::Zero,
                        snap: Snap::AboveGround { clearance_cm: STATIC_GROUND_CLEARANCE_CM },
                        power_milli: cp,
                    },
                );
                out.push(
                    Effect::BigSmoke {
                        base: unit.position,
                        offset: Offset::Zero,
                        snap: Snap::AboveGround { clearance_cm: STATIC_GROUND_CLEARANCE_CM },
                        preset: SmokePreset::LargeSmokeAndFire,
                    },
                );
                proof {
                    assert(out@ =~= spec_explosion_pair(
                        unit.position,
                        Offset::Zero,
                        Snap::AboveGround { clearance_cm: STATIC_GROUND_CLEARANCE_CM },
                        cp,
                    ));
                }
            },
            None => {},
        }
        out
    }

    /// Process every unit a blast scan found: each qualifying unit
    /// contributes its cascade explosion, in scan order.
    pub fn execute_blast_wave(
        &self,
        center: &Pos,
        scanned: &Vec<ScannedUnit>,
        base_power_milli: u64,
    ) -> (r: Vec<Effect>)
        requires
            self.wf(),
            pos_ok(*center),
            forall|i: int| 0 <= i < scanned@.len() ==> pos_ok((#[trigger] scanned@[i]).position),
            base_power_milli <= MAX_POWER_MILLI,
        ensures
            r@ == spec_cascade_effects(self.config, *center, scanned@, base_power_milli),
    {
        let mut out: Vec<Effect> = Vec::new();
        let n = scanned.len();
        let mut i: usize = 0;
        while i < n
            invariant
                self.wf(),
                pos_ok(*center),
                forall|x: int| 0 <= x < scanned@.len() ==> pos_ok((#[trigger] scanned@[x]).position),
                base_power_milli <= MAX_POWER_MILLI,
                n == scanned@.len(),
                i <= n,
                out@ == spec_cascade_effects(
                    self.config,
                    *center,
                    scanned@.take(i as int),
                    base_power_milli,
                ),
            decreases n - i,
        {
            let unit = scanned[i];
            let mut part = self.process_unit_for_cascade(center, &unit, base_power_milli);
            let ghost outprev = out@;
            let ghost partv = part@;
            out.append(&mut part);
            proof {
                assert(scanned@.take(i + 1) =~= scanned@.take(i as int).push(scanned@[i as int]));
                lemma_cascade_effects_snoc(
                    self.config,
                    *center,
                    scanned@.take(i as int),
                    scanned@[i as int],
                    base_power_milli,
                );
                assert(out@ =~= outprev + partv);
                assert(spec_cascade_unit_effects(
                    self.config,
                    *center,
                    scanned@[i as int],
                    base_power_milli,
                ) =~= partv);
            }
            i = i + 1;
        }
        proof {
            assert(scanned@.take(n as int) =~= scanned@);
        }
        out
    }
}

/// The cascade effects of one scanned unit.
pub open spec fn spec_cascade_unit_effects(
    cfg: SplashConfig,
    center: Pos,
    unit: ScannedUnit,
    base_power_milli: u64,
) -> Seq<Effect> {
    let damage = spec_blast_damage(
        base_power_milli,
        crate::units::spec_dist_sq_cm2(center, unit.position) as u64,
    );
    match spec_cascade(cfg, damage as u64, unit.health_milli_pct) {
        Some(cp) => spec_explosion_pair(
            unit.position,
            Offset::Zero,
            Snap::AboveGround { clearance_cm: STATIC_GROUND_CLEARANCE_CM },
            cp,
        ),
        None => Seq::empty(),
    }
}

/// The cascade effects of a whole scan, in order.
pub open spec fn spec_cascade_effects(
    cfg: SplashConfig,
    center: Pos,
    scanned: Seq<ScannedUnit>,
    base_power_milli: u64,
) -> Seq<Effect>
    decreases scanned.len(),
{
    if scanned.len() == 0 {
        Seq::empty()
    } else {
        spec_cascade_unit_effects(cfg, center, scanned[0], base_power_milli)
            + spec_cascade_effects(cfg, center, scanned.drop_first(), base_power_milli)
    }
}

/// Cascade rendering distributes over appending one unit at the back.
proof fn lemma_cascade_effects_snoc(
    cfg: SplashConfig,
    center: Pos,
    scanned: Seq<ScannedUnit>,
    unit: ScannedUnit,
    base_power_milli: u64,
)
    ensures
        spec_cascade_effects(cfg, center, scanned.push(unit), base_power_milli)
            == spec_cascade_effects(cfg, center, scanned, base_power_milli)
            + spec_cascade_unit_effects(cfg, center, unit, base_power_milli),
    decreases scanned.len(),
{
    if scanned.len() == 0 {
        let sp = scanned.push(unit);
        assert(sp[0] == unit);
        assert(sp.drop_first() =~= Seq::<ScannedUnit>::empty());
        assert(spec_cascade_effects(cfg, center, sp.drop_first(), base_power_milli)
            =~= Seq::<Effect>::empty());
        assert(spec_cascade_effects(cfg, center, sp, base_power_milli)
            =~= spec_cascade_unit_effects(cfg, center, unit, base_power_milli));
        assert(spec_cascade_effects(cfg, center, scanned, base_power_milli)
            + spec_cascade_unit_effects(cfg, center, unit, base_power_milli)
            =~= spec_cascade_unit_effects(cfg, center, unit, base_power_milli));
    } else {
        assert(scanned.push(unit).drop_first() =~= scanned.drop_first().push(unit));
        lemma_cascade_effects_snoc(cfg, center, scanned.drop_first(), unit, base_power_milli);
        assert(spec_cascade_effects(cfg, center, scanned.push(unit), base_power_milli)
            =~= spec_cascade_effects(cfg, center, scanned, base_power_milli)
            + spec_cascade_unit_effects(cfg, center, unit, base_power_milli));
    }
}


/// How one observation leaves the tracked-weapon map: a weapon
/// reported gone is removed, a weapon still seen has its flight data
/// refreshed from the observation, and an unknown id stays absent.
pub open spec fn spec_observed_entry_post(
    pre: SplashDamage,
    post: SplashDamage,
    id: u64,
    obs: WeaponObservation,
    now_ms: i64,
) -> bool {
    match pre.tracked_weapons.spec_get(id) {
        Some(w) => {
            match obs {
                WeaponObservation::Gone => post.tracked_weapons.spec_get(id) is None,
                WeaponObservation::Seen { position, velocity, speed_cm_s, predicted_impact } => {
                    &&& post.tracked_weapons.spec_get(id) is Some
                    &&& ({
                        let w2 = post.tracked_weapons.spec_get(id)->Some_0;
                        &&& w2.weapon_type@ == w.weapon_type@
                        &&& w2.position == position
                        &&& w2.velocity == velocity
                        &&& w2.speed_cm_s == speed_cm_s
                        &&& w2.predicted_impact == predicted_impact
                        &&& w2.last_update_ms == now_ms
                    })
                },
            }
        },
        None => post.tracked_weapons.spec_get(id) is None,
    }
}

/// The abstract value of a resolved impact: the weapon name bytes,
/// the impact point, and the configured base power.
pub open spec fn spec_impact_view(i: Impact) -> (Seq<u8>, Pos, u64) {
    (i.weapon_type@, i.point, i.base_power_milli)
}

/// The abstract values of a list of impacts.
pub open spec fn spec_impact_views(s: Seq<Impact>) -> Seq<(Seq<u8>, Pos, u64)> {
    s.map_values(|i: Impact| spec_impact_view(i))
}

/// The impacts a batch of observations resolves, given the engine
/// state before the batch: one impact per tracked weapon reported
/// gone whose type has a configured power, at the weapon's predicted
/// impact point (or last known position without a prediction).
pub open spec fn spec_impacts_of(
    engine: SplashDamage,
    observations: Seq<(u64, WeaponObservation)>,
) -> Seq<(Seq<u8>, Pos, u64)>
    decreases observations.len(),
{
    if observations.len() == 0 {
        Seq::empty()
    } else {
        let head = observations[0];
        let rest = spec_impacts_of(engine, observations.drop_first());
        if head.1 is Gone && engine.tracked_weapons.spec_has(head.0) {
            let w = engine.tracked_weapons.spec_get(head.0)->Some_0;
            match engine.config.weapon_powers.spec_get(w.weapon_type@) {
                Some(p) => seq![(w.weapon_type@, w.spec_impact_point(), p)] + rest,
                None => rest,
            }
        } else {
            rest
        }
    }
}

/// Resolving impacts distributes over appending one observation.
proof fn lemma_impacts_snoc(
    engine: SplashDamage,
    observations: Seq<(u64, WeaponObservation)>,
    o: (u64, WeaponObservation),
)
    ensures
        spec_impacts_of(engine, observations.push(o)) == spec_impacts_of(engine, observations)
            + spec_impacts_of(engine, seq![o]),

    decreases observations.len(),
{
    let single = seq![o];
    assert(single.drop_first() =~= Seq::<(u64, WeaponObservation)>::empty());
    if observations.len() == 0 {
        let sp = observations.push(o);
        assert(sp[0] == o);
        assert(sp.drop_first() =~= Seq::<(u64, WeaponObservation)>::empty());
        assert(sp =~= single);
        assert(spec_impacts_of(engine, observations) + spec_impacts_of(engine, single)
            =~= spec_impacts_of(engine, single));
    } else {
        assert(observations.push(o).drop_first() =~= observations.drop_first().push(o));
        lemma_impacts_snoc(engine, observations.drop_first(), o);
        assert(observations.push(o)[0] == observations[0]);
        assert(spec_impacts_of(engine, observations.push(o)) =~= spec_impacts_of(
            engine,
            observations,
        ) + spec_impacts_of(engine, single));
    }
}

impl SplashDamage {
    /// Poll every tracked weapon against this tick's host
    /// observations: weapons still seen have their flight data
    /// refreshed, weapons reported gone resolve to impacts.  Nothing
    /// happens while the engine is disabled.
    pub fn check_weapon_impacts(
        &mut self,
        observations: &Vec<(u64, WeaponObservation)>,
        now_ms: i64,
    ) -> (r: Vec<Impact>)
        requires
            old(self).wf(),
            time_ok(now_ms),
            forall|j: int| 0 <= j < observations@.len() ==> observation_ok((#[trigger] observations@[j]).1),
            forall|x: int, y: int|
                0 <= x < y < observations@.len() ==> observations@[x].0 != observations@[y].0,
        ensures
            final(self).wf(),
            final(self).config == old(self).config,
            final(self).cookoff == old(self).cookoff,
            final(self).recent_explosions == old(self).recent_explosions,
            !old(self).config.enabled ==> *final(self) == *old(self) && r@.len() == 0,
            old(self).config.enabled ==> spec_impact_views(r@) == spec_impacts_of(
                *old(self),
                observations@,
            ),
            old(self).config.enabled ==> forall|j: int|
                0 <= j < observations@.len() ==> spec_observed_entry_post(
                    *old(self),
                    *final(self),
                    (#[trigger] observations@[j]).0,
                    observations@[j].1,
                    now_ms,
                ),
            old(self).config.enabled ==> forall|k: u64|
                (forall|j: int| 0 <= j < observations@.len() ==> (#[trigger] observations@[j]).0
                    != k) ==> final(self).tracked_weapons.spec_get(k) == old(self).tracked_weapons.spec_get(k),
    {
        if !self.config.enabled {
            return Vec::new();
        }
        let n = observations.len();
        let mut out: Vec<Impact> = Vec::new();
        let mut j: usize = 0;
        while j < n
            invariant
                old(self).wf(),
                self.wf(),
                time_ok(now_ms),
                n == observations@.len(),
                j <= n,
                forall|x: int|
                    0 <= x < observations@.len() ==> observation_ok(
                        (#[trigger] observations@[x]).1,
                    ),
                forall|x: int, y: int|
                    0 <= x < y < observations@.len() ==> observations@[x].0 != observations@[y].0,
                self.config == old(self).config,
                self.cookoff == old(self).cookoff,
                self.recent_explosions == old(self).recent_explosions,
                spec_impact_views(out@) == spec_impacts_of(
                    *old(self),
                    observations@.take(j as int),
                ),
                forall|k: u64|
                    (forall|x: int| j <= x < n ==> (#[trigger] observations@[x]).0 != k) || self
                        .tracked_weapons.spec_get(k) == old(self).tracked_weapons.spec_get(k),
                forall|jj: int|
                    0 <= jj < j ==> spec_observed_entry_post(
                        *old(self),
                        *self,
                        (#[trigger] observations@[jj]).0,
                        observations@[jj].1,
                        now_ms,
                    ),
                forall|k: u64|
                    (forall|jj: int| 0 <= jj < n ==> (#[trigger] observations@[jj]).0 != k)
                        ==> self.tracked_weapons.spec_get(k) == old(self).tracked_weapons.spec_get(k),
            decreases n - j,
        {
            let ghost pre = *self;
            let (id, obs) = observations[j];
            proof {
                assert(self.tracked_weapons.spec_get(id) == old(self).tracked_weapons.spec_get(
                    id,
                )) by {
                    assert(observations@[j as int].0 == id);
                }
            }
            let impact = self.observe_weapon(id, &obs, now_ms);
            let ghost outprev = out@;
            match impact {
                Some(im) => {
                    out.push(im);
                },
                None => {},
            }
            proof {
                let single = seq![observations@[j as int]];
                assert(observations@.take(j + 1) =~= observations@.take(j as int).push(
                    observations@[j as int],
                ));
                lemma_impacts_snoc(*old(self), observations@.take(j as int), observations@[j as int]);
                assert(single.drop_first() =~= Seq::<(u64, WeaponObservation)>::empty());
                assert(single[0] == (id, obs));
                assert(spec_impacts_of(*old(self), single.drop_first())
                    =~= Seq::<(Seq<u8>, Pos, u64)>::empty());
                let headimp = spec_impacts_of(*old(self), single);
                if obs is Gone && old(self).tracked_weapons.spec_has(id) {
                    let w = old(self).tracked_weapons.spec_get(id)->Some_0;
                    match old(self).config.weapon_powers.spec_get(w.weapon_type@) {
                        Some(p) => {
                            assert(headimp =~= seq![(w.weapon_type@, w.spec_impact_point(), p)]);
                            assert(out@.len() == outprev.len() + 1);
                            assert(spec_impact_view(out@.last()) == (
                                w.weapon_type@,
                                w.spec_impact_point(),
                                p,
                            ));
                            assert(spec_impact_views(out@) =~= spec_impact_views(outprev).push(
                                spec_impact_view(out@.last()),
                            ));
                        },
                        None => {
                            assert(headimp =~= Seq::<(Seq<u8>, Pos, u64)>::empty());
                            assert(out@ == outprev);
                            assert(spec_impact_views(out@) =~= spec_impact_views(outprev));
                        },
                    }
                } else {
                    assert(headimp =~= Seq::<(Seq<u8>, Pos, u64)>::empty());
                    assert(out@ == outprev);
                    assert(spec_impact_views(out@) =~= spec_impact_views(outprev));
                }
                assert(spec_impact_views(out@) =~= spec_impact_views(outprev) + headimp);
                assert forall|k: u64|
                    (forall|x: int| j + 1 <= x < n ==> (#[trigger] observations@[x]).0 != k)
                        || self.tracked_weapons.spec_get(k) == old(self).tracked_weapons.spec_get(
                        k,
                    ) by {
                    if k != id {
                        if self.tracked_weapons.spec_get(k) != old(self).tracked_weapons.spec_get(
                            k,
                        ) {
                            assert(self.tracked_weapons.spec_get(k)
                                == pre.tracked_weapons.spec_get(k));
                        }
                    } else {
                        assert(observations@[j as int].0 == k);
                        assert(forall|x: int|
                            j + 1 <= x < n ==> (#[trigger] observations@[x]).0 != k);
                    }
                }
                assert forall|jj: int|
                    0 <= jj < j + 1 implies spec_observed_entry_post(
                    *old(self),
                    *self,
                    (#[trigger] observations@[jj]).0,
                    observations@[jj].1,
                    now_ms,
                ) by {
                    let sid = observations@[jj].0;
                    if jj < j {
                        assert(sid != id);
                        assert(self.tracked_weapons.spec_get(sid)
                            == pre.tracked_weapons.spec_get(sid));
                    } else {
                        assert(sid == id);
                        assert(pre.tracked_weapons.spec_get(id) == old(self).tracked_weapons.spec_get(id));
                    }
                }
            }
            j = j + 1;
        }
        proof {
            assert(observations@.take(n as int) =~= observations@);
        }
        out
    }

    /// Realize an impact as a wave explosion: the primary explosion
    /// (with bomblets for cluster munitions), a fresh record for
    /// ordnance protection, and the blast search radius the host
    /// should scan for cascade candidates.  An optional always-on wave
    /// cascade adds one further fixed-offset explosion attempt through
    /// the power table of the derived cascade name; the impact
    /// footprint's terrain height stands in for its own.
    pub fn create_wave_explosion(
        &mut self,
        weapon_type: &str,
        center: Pos,
        base_power_milli: u64,
        ground_height_cm: i64,
        now_ms: i64,
    ) -> (r: (Vec<Effect>, Option<i64>))
        requires
            old(self).wf(),
            pos_ok(center),
            base_power_milli <= MAX_POWER_MILLI,
            crate::units::coord_ok(ground_height_cm),
            time_ok(now_ms),
            old(self).recent_explosions@.len() > 0 ==> old(self).recent_explosions@.last().time_ms
                <= now_ms,
        ensures
            final(self).wf(),
            final(self).config == old(self).config,
            final(self).tracked_weapons == old(self).tracked_weapons,
            final(self).cookoff == old(self).cookoff,
            !old(self).config.wave_explosions.enabled ==> *final(self) == *old(self) && r.0@.len()
                == 0 && r.1 is None,
            old(self).config.wave_explosions.enabled ==> {
                let ground_pos = spec_ground_snap(
                    center,
                    ground_height_cm,
                    IMPACT_GROUND_CLEARANCE_CM,
                );
                let radius = spec_blast_radius_cm(old(self).config, base_power_milli);
                let primary = old(self).spec_explosion_effects(
                    weapon_type.spec_bytes(),
                    ground_pos,
                    ground_height_cm,
                    now_ms,
                );
                &&& r.1 == Some(radius)
                &&& final(self).recent_explosions@ == old(self).recent_explosions@.push(
                    RecentExplosion { position: ground_pos, time_ms: now_ms, radius_cm: radius },
                ).skip(
                    spec_stale_prefix(
                        old(self).recent_explosions@.push(
                            RecentExplosion {
                                position: ground_pos,
                                time_ms: now_ms,
                                radius_cm: radius,
                            },
                        ),
                        (now_ms - RECENT_EXPLOSION_RETENTION_MS) as i64,
                    ),
                )
                &&& r.0@.len() >= primary.len()
                &&& r.0@.take(primary.len() as int) == primary
            },
    {
        if !self.config.wave_explosions.enabled {
            return (Vec::new(), None);
        }
        let radius = blast_radius_cm(&self.config, base_power_milli);
        let ground_pos = ground_snap(&center, ground_height_cm, IMPACT_GROUND_CLEARANCE_CM);
        let mut out = self.create_explosion(weapon_type, ground_pos, ground_height_cm, now_ms);
        let ghost primary = out@;
        self.add_recent_explosion(ground_pos, radius, now_ms);
        if self.config.wave_explosions.scaling_milli > 1000
            && self.config.wave_explosions.always_cascade_explode {
            proof {
                crate::units::lemma_mul_le(
                    base_power_milli as int,
                    self.config.wave_explosions.scaling_milli as int,
                    MAX_POWER_MILLI as int,
                    crate::units::MAX_FACTOR_MILLI as int,
                );
            }
            let cascade_power = crate::units::mul_milli(
                base_power_milli,
                self.config.wave_explosions.scaling_milli,
            );
            if cascade_power >= self.config.wave_explosions.damage_threshold_milli {
                let cascade_pos = Pos {
                    x: crate::units::clamp_coord(center.x + 5_000),
                    y: center.y,
                    z: crate::units::clamp_coord(center.z + 5_000),
                };
                let mut derived: Vec<u8> = Vec::new();
                derived.extend_from_slice(weapon_type.as_bytes());
                derived.extend_from_slice("_cascade".as_bytes());
                let mut extra = self.create_explosion_core(
                    derived.as_slice(),
                    cascade_pos,
                    ground_height_cm,
                    now_ms,
                );
                let ghost outprev = out@;
                out.append(&mut extra);
                proof {
                    assert(out@.take(primary.len() as int) =~= primary);
                }
            } else {
                proof {
                    assert(out@.take(primary.len() as int) =~= primary);
                }
            }
        } else {
            proof {
                assert(out@.take(primary.len() as int) =~= primary);
            }
        }
        (out, Some(radius))
    }

    /// Hand a unit-damage notification to the cook-off scheduler.
    pub fn handle_unit_hit(
        &mut self,
        unit_id: u64,
        unit_name: &str,
        unit_type: &str,
        position: Pos,
        health_milli_pct: u64,
        is_dead: bool,
        now_ms: i64,
    ) -> (r: HitOutcome)
        requires
            old(self).wf(),
            pos_ok(position),
            time_ok(now_ms),
        ensures
            final(self).wf(),
            final(self).config == old(self).config,
            final(self).tracked_weapons == old(self).tracked_weapons,
            final(self).recent_explosions == old(self).recent_explosions,
            !old(self).config.enabled ==> *final(self) == *old(self) && r == HitOutcome::Disabled,
            old(self).config.enabled ==> crate::cookoff::spec_unit_hit_post(
                old(self).cookoff,
                final(self).cookoff,
                r,
                unit_id,
                unit_name.spec_bytes(),
                unit_type.spec_bytes(),
                position,
                health_milli_pct,
                is_dead,
                now_ms,
            ),
    {
        if !self.config.enabled {
            return HitOutcome::Disabled;
        }
        self.cookoff.process_unit_hit(
            unit_id,
            unit_name,
            unit_type,
            position,
            health_milli_pct,
            is_dead,
            now_ms,
        )
    }

    /// The cook-off configuration.
    pub fn cookoff_config(&self) -> (r: &crate::config::CookOffConfig)
        ensures
            *r == self.cookoff.config,
    {
        &self.cookoff.config
    }

    /// Replace the cook-off configuration wholesale.
    pub fn update_cookoff_config(&mut self, config: crate::config::CookOffConfig)
        requires
            old(self).wf(),
            config.valid(),
        ensures
            final(self).wf(),
            *final(self) == (SplashDamage {
                cookoff: (CookOff { config, ..old(self).cookoff }),
                ..*old(self)
            }),
    {
        self.cookoff.update_config(config);
    }

    /// Enable or disable the engine from the host's main
    /// configuration; disabling the engine also disables cook-offs.
    /// Nothing else of either configuration moves: replacement is
    /// wholesale, never partial.
    pub fn update_from_main_config(&mut self, enabled: bool)
        requires
            old(self).wf(),
        ensures
            final(self).wf(),
            final(self).config == (SplashConfig { enabled: enabled, ..old(self).config }),
            final(self).tracked_weapons == old(self).tracked_weapons,
            final(self).recent_explosions == old(self).recent_explosions,
            enabled ==> final(self).cookoff == old(self).cookoff,
            !enabled ==> final(self).cookoff == (CookOff {
                config: (crate::config::CookOffConfig {
                    enabled: false,
                    ..old(self).cookoff.config
                }),
                ..old(self).cookoff
            }),
    {
        self.config.enabled = enabled;
        if !enabled {
            let mut cfg = self.cookoff.config;
            cfg.enabled = false;
            self.cookoff.update_config(cfg);
        }
    }

    /// The cook-off scheduler.
    pub fn cookoff(&self) -> (r: &CookOff)
        ensures
            *r == self.cookoff,
    {
        &self.cookoff
    }

    /// Drop dynamically added vehicle types, keeping only the stock
    /// tankers, trucks, crates and barrels.
    pub fn cleanup_unused_units(&mut self)
        requires
            old(self).wf(),
        ensures
            final(self).wf(),
            *final(self) == (SplashDamage { cookoff: final(self).cookoff, ..*old(self) }),
            final(self).cookoff == (CookOff {
                units: final(self).cookoff.units,
                ..old(self).cookoff
            }),
            forall|k: Seq<u8>|
                final(self).cookoff.units.spec_get(k) == if spec_kept_unit_name(k) {
                    old(self).cookoff.units.spec_get(k)
                } else {
                    None
                },
    {
        let ghost orig = self.cookoff.units.entries@;
        let mut acc: Vec<crate::table::TableEntry<crate::config::UnitProperties>> = Vec::new();
        let mut i: usize = 0;
        let n = self.cookoff.units.len();
        while i < n
            invariant
                crate::table::wf_seq(orig),
                n == orig.len(),
                i <= n,
                self.cookoff.units.entries@ == orig,
                crate::table::wf_seq(acc@),
                forall|k: Seq<u8>|
                    crate::table::get_seq(acc@, k) == if spec_kept_unit_name(k) {
                        crate::table::get_seq(orig.take(i as int), k)
                    } else {
                        None
                    },
            decreases n - i,
        {
            let ghost prefix = orig.take(i as int);
            let ghost prefix1 = orig.take(i as int + 1);
            proof {
                assert(prefix1 =~= prefix.push(orig[i as int]));
                assert(crate::table::wf_seq(prefix1)) by {
                    assert forall|x: int, y: int|
                        0 <= x < y < prefix1.len() implies prefix1[x].key@ != prefix1[y].key@ by {
                        assert(orig[x].key@ != orig[y].key@);
                    }
                }
                assert(!crate::table::has_seq(prefix, orig[i as int].key@)) by {
                    if crate::table::has_seq(prefix, orig[i as int].key@) {
                        let w = crate::table::idx_seq(prefix, orig[i as int].key@);
                        assert(orig[w].key@ == orig[i as int].key@);
                    }
                }
            }
            let keep = {
                let kb = self.cookoff.units.entries[i].key.as_slice();
                ||| crate::names::bytes_prefix(kb, "Ural".as_bytes())
                ||| crate::names::bytes_prefix(kb, "M978".as_bytes())
                ||| crate::names::bytes_eq(kb, "Ammo_crate".as_bytes())
                ||| crate::names::bytes_eq(kb, "Barrel".as_bytes())
            };
            if keep {
                let ghost accprev = acc@;
                let mut kv: Vec<u8> = Vec::new();
                kv.extend_from_slice(self.cookoff.units.entries[i].key.as_slice());
                let entry = crate::table::TableEntry {
                    key: kv,
                    val: self.cookoff.units.entries[i].val,
                };
                proof {
                    assert(entry.key@ =~= orig[i as int].key@);
                    assert(!crate::table::has_seq(accprev, entry.key@)) by {
                        if crate::table::has_seq(accprev, entry.key@) {
                            assert(crate::table::get_seq(accprev, entry.key@) is Some);
                            assert(crate::table::has_seq(prefix, entry.key@));
                        }
                    }
                }
                acc.push(entry);
                proof {
                    crate::table::lemma_frame_push(accprev, acc@, acc@[acc@.len() - 1]);
                    assert forall|k: Seq<u8>| crate::table::get_seq(acc@, k) == (
                    if spec_kept_unit_name(k) {
                        crate::table::get_seq(prefix1, k)
                    } else {
                        None
                    }) by {
                        if k == orig[i as int].key@ {
                            crate::table::lemma_get_unique(prefix1, k, i as int);
                            assert(crate::table::get_seq(acc@, k) == Some(orig[i as int].val));
                        } else {
                            crate::table::lemma_frame_push(prefix, prefix1, orig[i as int]);
                        }
                    }
                }
            } else {
                proof {
                    assert forall|k: Seq<u8>| crate::table::get_seq(acc@, k) == (
                    if spec_kept_unit_name(k) {
                        crate::table::get_seq(prefix1, k)
                    } else {
                        None
                    }) by {
                        if k == orig[i as int].key@ {
                            crate::table::lemma_get_unique(prefix1, k, i as int);
                            assert(!crate::table::has_seq(prefix, k));
                        } else {
                            crate::table::lemma_frame_push(prefix, prefix1, orig[i as int]);
                        }
                    }
                }
            }
            i = i + 1;
        }
        proof {
            assert(orig.take(n as int) =~= orig);
        }
        self.cookoff.units.entries = acc;
        proof {
            assert forall|k: Seq<u8>| (#[trigger] self.cookoff.units.spec_get(k)) is Some
                implies self.cookoff.units.spec_get(k)->Some_0.valid() by {
                assert(self.cookoff.units.spec_get(k) == old(self).cookoff.units.spec_get(k));
            }
            assert(crate::config::units_bounded(self.cookoff.units));
        }
    }

    /// One engine tick: poll the tracked weapons, run the cook-off
    /// scheduler and its movement sampling, and at the configured
    /// cadence refresh the dynamic vehicle table, reapply the stock
    /// mission settings, and drop unused vehicle types.  The periodic
    /// maintenance runs when the tick lands on a whole second that is
    /// a multiple of its interval.
    pub fn cleanup(
        &mut self,
        observations: &Vec<(u64, WeaponObservation)>,
        movement_samples: &Vec<(u64, Option<Pos>)>,
        now_ms: i64,
    ) -> (r: (Vec<Impact>, Vec<Effect>))
        requires
            old(self).wf(),
            sched_time_ok(now_ms),
            forall|j: int| 0 <= j < observations@.len() ==> observation_ok((#[trigger] observations@[j]).1),
            forall|x: int, y: int|
                0 <= x < y < observations@.len() ==> observations@[x].0 != observations@[y].0,
            forall|j: int|
                0 <= j < movement_samples@.len() ==> ((#[trigger] movement_samples@[j]).1 matches
                Some(p) ==> pos_ok(p)),
            forall|x: int, y: int|
                0 <= x < y < movement_samples@.len() ==> movement_samples@[x].0
                    != movement_samples@[y].0,
        ensures
            final(self).wf(),
            !old(self).config.enabled ==> *final(self) == *old(self) && r.0@.len() == 0
                && r.1@.len() == 0,
            old(self).config.enabled ==> spec_impact_views(r.0@) == spec_impacts_of(
                *old(self),
                observations@,
            ),
            old(self).config.enabled ==> spec_tick_effects(
                old(self).cookoff,
                movement_samples@,
                now_ms,
                r.1@,
            ),
    {
        if !self.config.enabled {
            return (Vec::new(), Vec::new());
        }
        let impacts = self.check_weapon_impacts(observations, now_ms);
        proof {
            assert(self.cookoff == old(self).cookoff);
        }
        let mut effects = self.cookoff.update(now_ms);
        let ghost e1 = effects@;
        let ghost mid = self.cookoff;
        let mut moved = self.cookoff.update_movement_tracking(movement_samples, now_ms);
        let ghost e2 = moved@;
        effects.append(&mut moved);
        proof {
            assert(e2 == crate::cookoff::spec_fired_effects(mid, movement_samples@, now_ms));
            assert(effects@ =~= e1 + e2);
            assert({
                &&& (!old(self).cookoff.config.enabled || now_ms
                    - old(self).cookoff.last_update_time_ms
                    < old(self).cookoff.adaptive_update_interval_ms ==> mid == old(self).cookoff
                    && e1 == Seq::<Effect>::empty())
                &&& (old(self).cookoff.config.enabled && now_ms
                    - old(self).cookoff.last_update_time_ms
                    >= old(self).cookoff.adaptive_update_interval_ms
                    ==> crate::cookoff::spec_update_outputs(old(self).cookoff, mid, now_ms, e1))
                &&& effects@ == e1 + crate::cookoff::spec_fired_effects(
                    mid,
                    movement_samples@,
                    now_ms,
                )
            });
            assert(spec_tick_effects(old(self).cookoff, movement_samples@, now_ms, effects@));
        }
        let second = now_ms / 1000;
        if second % 300 == 0 {
            self.initialize_mission_units();
        }
        if second % 600 == 0 {
            self.apply_mission_settings(1000);
        }
        if second % 900 == 0 {
            self.cleanup_unused_units();
        }
        (impacts, effects)
    }
}

/// How a whole engine tick's effects relate to its states: some
/// intermediate scheduler state carries the cook-off tick's effects
/// (nothing when the scheduler was disabled or shed the tick), and the
/// movement samples fire against that intermediate state; the returned
/// effects are exactly the two in order.
pub open spec fn spec_tick_effects(
    pre: CookOff,
    samples: Seq<(u64, Option<Pos>)>,
    now_ms: i64,
    r: Seq<Effect>,
) -> bool {
    exists|mid: CookOff, e1: Seq<Effect>|
        #![trigger crate::cookoff::spec_fired_effects(mid, samples, now_ms), e1.len()]
        {
            &&& (!pre.config.enabled || now_ms - pre.last_update_time_ms
                < pre.adaptive_update_interval_ms ==> mid == pre && e1 == Seq::<Effect>::empty())
            &&& (pre.config.enabled && now_ms - pre.last_update_time_ms
                >= pre.adaptive_update_interval_ms ==> crate::cookoff::spec_update_outputs(
                pre,
                mid,
                now_ms,
                e1,
            ))
            &&& r == e1 + crate::cookoff::spec_fired_effects(mid, samples, now_ms)
        }
}

/// Whether a vehicle type name belongs to the stock set the periodic
/// cleanup keeps.
pub open spec fn spec_kept_unit_name(k: Seq<u8>) -> bool {
    ||| crate::names::prefix_seq(k, "Ural".spec_bytes())
    ||| crate::names::prefix_seq(k, "M978".spec_bytes())
    ||| k == "Ammo_crate".spec_bytes()
    ||| k == "Barrel".spec_bytes()
}




impl Default for SplashDamage {
    /// A fresh engine at the engine-time origin.
    fn default() -> (r: SplashDamage)
        ensures
            r.wf(),
            r.config.enabled,
    {
        SplashDamage::new(0)
    }
}

/// The terrain-ray lookahead for impact prediction: three seconds of
/// travel at the weapon's current speed.
pub fn lookahead_cm(speed_cm_s: i64) -> (r: i64)
    requires
        0 <= speed_cm_s <= 1_000_000_000,
    ensures
        r == 3 * speed_cm_s,
{
    3 * speed_cm_s
}

/// Impact resolution: a tracked weapon whose type has a configured
/// power and which the host reports gone resolves to exactly one
/// impact, at its last predicted impact point, or at its last known
/// position when no prediction was computed.
pub proof fn lemma_impact_resolution(engine: SplashDamage, weapon_id: u64)
    requires
        engine.tracked_weapons.spec_has(weapon_id),
        engine.config.weapon_powers.spec_get(
            engine.tracked_weapons.spec_get(weapon_id)->Some_0.weapon_type@,
        ) is Some,
    ensures
        ({
            let w = engine.tracked_weapons.spec_get(weapon_id)->Some_0;
            let p = engine.config.weapon_powers.spec_get(w.weapon_type@)->Some_0;
            spec_impacts_of(engine, seq![(weapon_id, WeaponObservation::Gone)]) == seq![
                (w.weapon_type@, w.spec_impact_point(), p),
            ]
        }),
        engine.tracked_weapons.spec_get(weapon_id)->Some_0.predicted_impact is Some
            ==> spec_impacts_of(engine, seq![(weapon_id, WeaponObservation::Gone)])[0].1
            == engine.tracked_weapons.spec_get(weapon_id)->Some_0.predicted_impact->Some_0,
        engine.tracked_weapons.spec_get(weapon_id)->Some_0.predicted_impact is None
            ==> spec_impacts_of(engine, seq![(weapon_id, WeaponObservation::Gone)])[0].1
            == engine.tracked_weapons.spec_get(weapon_id)->Some_0.position,
{
    let single = seq![(weapon_id, WeaponObservation::Gone)];
    assert(single[0] == (weapon_id, WeaponObservation::Gone));
    assert(single.drop_first() =~= Seq::<(u64, WeaponObservation)>::empty());
    assert(spec_impacts_of(engine, single.drop_first()) =~= Seq::<(Seq<u8>, Pos, u64)>::empty());
    let w = engine.tracked_weapons.spec_get(weapon_id)->Some_0;
    let p = engine.config.weapon_powers.spec_get(w.weapon_type@)->Some_0;
    assert(spec_impacts_of(engine, single) =~= seq![(w.weapon_type@, w.spec_impact_point(), p)]);
}

/// Ordnance protection: while a recent explosion stands on record
/// within the protection radius of a position, an explosion attempted
/// there is suppressed entirely, whatever the weapon.
pub proof fn lemma_ordnance_protection(
    engine: SplashDamage,
    name: Seq<u8>,
    position: Pos,
    ground_height_cm: i64,
    now_ms: i64,
    i: int,
)
    requires
        engine.config.ordnance_protection.enabled,
        0 <= i < engine.recent_explosions@.len(),
        spec_within(
            engine.recent_explosions@[i].position,
            position,
            engine.config.ordnance_protection.protection_radius_cm,
        ),
    ensures
        !engine.spec_protection_allows(position, now_ms),
        engine.spec_explosion_effects(name, position, ground_height_cm, now_ms)
            == Seq::<Effect>::empty(),
{
    assert(exists|x: int|
        0 <= x < engine.recent_explosions@.len() && spec_within(
            (#[trigger] engine.recent_explosions@[x]).position,
            position,
            engine.config.ordnance_protection.protection_radius_cm,
        ));
}

} // verus!
