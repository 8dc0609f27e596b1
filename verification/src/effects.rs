//! Effect requests handed to the host.
//!
//! The engine never renders anything itself: it returns lists of
//! `Effect` values and the host performs them.  Positions that must sit
//! on the terrain carry a snap instruction, since only the host knows
//! terrain heights; radial offsets are carried in polar form, since
//! converting them to world coordinates takes trigonometry the host
//! side performs.

use vstd::prelude::*;

use crate::units::Pos;

verus! {

/// Smoke and fire presets of the host's effect API.
#[derive(Clone, Copy, Debug, PartialEq, Eq, Structural)]
pub enum SmokePreset {
    SmallSmoke,
    MediumSmoke,
    LargeSmoke,
    HugeSmoke,
    SmallSmokeAndFire,
    MediumSmokeAndFire,
    LargeSmokeAndFire,
    HugeSmokeAndFire,
}

/// The smoke preset for a configured flame size class: `1..=2` small,
/// `3..=4` medium, `5..=6` large, `7..=8` huge, anything else medium.
pub open spec fn spec_smoke_preset_for_size(size: u8) -> SmokePreset {
    if 1 <= size <= 2 {
        SmokePreset::SmallSmoke
    } else if 3 <= size <= 4 {
        SmokePreset::MediumSmoke
    } else if 5 <= size <= 6 {
        SmokePreset::LargeSmoke
    } else if 7 <= size <= 8 {
        SmokePreset::HugeSmoke
    } else {
        SmokePreset::MediumSmoke
    }
}

/// The smoke preset for a configured flame size class.
pub fn smoke_preset_for_size(size: u8) -> (r: SmokePreset)
    ensures
        r == spec_smoke_preset_for_size(size),
{
    if 1 <= size && size <= 2 {
        SmokePreset::SmallSmoke
    } else if 3 <= size && size <= 4 {
        SmokePreset::MediumSmoke
    } else if 5 <= size && size <= 6 {
        SmokePreset::LargeSmoke
    } else if 7 <= size && size <= 8 {
        SmokePreset::HugeSmoke
    } else {
        SmokePreset::MediumSmoke
    }
}

/// A horizontal displacement in polar form plus an upward component.
/// `azimuth_mdeg` is measured in millidegrees, below `360_000`.
#[derive(Clone, Copy, Debug, PartialEq, Eq, Structural)]
pub enum Offset {
    Zero,
    Radial { dist_cm: i64, azimuth_mdeg: u64, up_cm: i64 },
}

/// How the host should place an effect vertically.
#[derive(Clone, Copy, Debug, PartialEq, Eq, Structural)]
pub enum Snap {
    /// Use the position as given.
    AsIs,
    /// Put the effect this many centimetres above the terrain at the
    /// position's footprint.
    AboveGround { clearance_cm: i64 },
}

/// One effect the host is asked to render.
#[derive(Clone, Debug, PartialEq)]
pub enum Effect {
    /// An explosion of the given power.
    Explosion { base: Pos, offset: Offset, snap: Snap, power_milli: u64 },
    /// A large smoke-and-fire plume.
    BigSmoke { base: Pos, offset: Offset, snap: Snap, preset: SmokePreset },
    /// A signal flare fired on the given azimuth (degrees).
    Flare { base: Pos, offset: Offset, color: u8, azimuth_deg: u16 },
}

/// The kind of a queued timed effect.
#[derive(Clone, Copy, Debug, PartialEq, Eq, Structural)]
pub enum ExplosionType {
    Cookoff,
    Debris,
    Flare,
}

/// A timed effect awaiting its trigger time.
#[derive(Clone, Debug, PartialEq)]
pub struct TimedExplosion {
    /// Where the effect is anchored.
    pub position: Pos,
    /// Radial displacement from the anchor, if any.
    pub offset: Offset,
    /// How to place the effect vertically.
    pub snap: Snap,
    /// Explosion power in milli units; zero for flares.
    pub power_milli: u64,
    /// When the effect fires, in engine time milliseconds.
    pub trigger_time_ms: i64,
    /// What fires.
    pub effect_type: ExplosionType,
    /// The flare azimuth chosen at scheduling time, in degrees.
    pub azimuth: Option<u16>,
}

} // verus!
