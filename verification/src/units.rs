//! Fixed-point units and elementary geometry.
//!
//! The engine works in integers throughout: positions in centimetres,
//! times in milliseconds, and scalar quantities (explosive power,
//! probabilities, multipliers, health percentages) in thousandths,
//! called "milli" units below.  A probability of one half is `500`
//! milli; a power of `100.0` host units is `100_000` milli.

use vstd::prelude::*;

verus! {

/// One whole unit expressed in milli units.
pub const MILLI: u64 = 1000;

/// One hundred percent expressed in milli units.
pub const FULL_HEALTH_MILLI: u64 = 100_000;

/// Largest coordinate magnitude (centimetres) the engine accepts.
pub const MAX_COORD_CM: i64 = 100_000_000;

/// Largest power value (milli units) a configuration may hold.
pub const MAX_POWER_MILLI: u64 = 1_000_000_000_000;

/// Largest multiplier (milli units, so a factor of one thousand).
pub const MAX_FACTOR_MILLI: u64 = 1_000_000;

/// A point or displacement in the host world, in centimetres.
/// The `y` axis points up, as in the host's own world model.
#[derive(Clone, Copy, PartialEq, Eq, Structural, Debug)]
pub struct Pos {
    pub x: i64,
    pub y: i64,
    pub z: i64,
}

/// A coordinate within the accepted world bounds.
pub open spec fn coord_ok(c: i64) -> bool {
    -MAX_COORD_CM <= c <= MAX_COORD_CM
}

/// A position within the accepted world bounds.
pub open spec fn pos_ok(p: Pos) -> bool {
    coord_ok(p.x) && coord_ok(p.y) && coord_ok(p.z)
}

/// Squared distance between two points, in square centimetres.
pub open spec fn spec_dist_sq_cm2(a: Pos, b: Pos) -> int {
    (a.x - b.x) * (a.x - b.x) + (a.y - b.y) * (a.y - b.y) + (a.z - b.z) * (a.z - b.z)
}

/// `a * b / 1000` over the integers: one fixed-point multiplication.
pub open spec fn milli_of(a: int, b: int) -> int {
    (a * b) / (MILLI as int)
}

/// Product bound: factors below their caps keep the product below the
/// product of the caps.
pub proof fn lemma_mul_le(a: int, b: int, x: int, y: int)
    by (nonlinear_arith)
    requires
        0 <= a <= x,
        0 <= b <= y,
    ensures
        a * b <= x * y,
{
}

/// Squares of coordinates in range stay within `i64`.
proof fn lemma_square_bound(d: int)
    by (nonlinear_arith)
    requires
        -2 * MAX_COORD_CM <= d <= 2 * MAX_COORD_CM,
    ensures
        0 <= d * d <= 4 * (MAX_COORD_CM as int) * (MAX_COORD_CM as int),
{
}

/// Squared distance between two points, in square centimetres.
pub fn dist_sq_cm2(a: &Pos, b: &Pos) -> (r: u64)
    requires
        pos_ok(*a),
        pos_ok(*b),
    ensures
        r == spec_dist_sq_cm2(*a, *b),
{
    let dx = a.x - b.x;
    let dy = a.y - b.y;
    let dz = a.z - b.z;
    proof {
        lemma_square_bound(dx as int);
        lemma_square_bound(dy as int);
        lemma_square_bound(dz as int);
    }
    (dx * dx) as u64 + (dy * dy) as u64 + (dz * dz) as u64
}

/// Whether `position` lies within `radius_cm` of `center`.
pub open spec fn spec_within(center: Pos, position: Pos, radius_cm: i64) -> bool {
    spec_dist_sq_cm2(center, position) <= radius_cm * radius_cm
}

/// Whether `position` lies within `radius_cm` of `center`.
pub fn within_radius(center: &Pos, position: &Pos, radius_cm: i64) -> (r: bool)
    requires
        pos_ok(*center),
        pos_ok(*position),
        0 <= radius_cm <= MAX_COORD_CM,
    ensures
        r == spec_within(*center, *position, radius_cm),
{
    proof {
        lemma_square_bound(radius_cm as int);
    }
    dist_sq_cm2(center, position) <= (radius_cm * radius_cm) as u64
}

/// The ground-snapped version of a point: same footprint, height set
/// to the queried terrain height plus a clearance, clamped to the
/// world bounds.
pub open spec fn spec_ground_snap(p: Pos, ground_y_cm: i64, clearance_cm: i64) -> Pos {
    Pos { x: p.x, y: spec_clamp_coord(ground_y_cm + clearance_cm), z: p.z }
}

/// Snap a point to sit `clearance_cm` above the terrain height the host
/// reported for its footprint.
pub fn ground_snap(p: &Pos, ground_y_cm: i64, clearance_cm: i64) -> (r: Pos)
    requires
        pos_ok(*p),
        coord_ok(ground_y_cm),
        0 <= clearance_cm <= MILLI as i64,
    ensures
        r == spec_ground_snap(*p, ground_y_cm, clearance_cm),
        pos_ok(r),
{
    Pos { x: p.x, y: clamp_coord(ground_y_cm + clearance_cm), z: p.z }
}

/// A coordinate clamped to the accepted world bounds.
pub open spec fn spec_clamp_coord(v: int) -> i64 {
    if v < -MAX_COORD_CM {
        (-MAX_COORD_CM) as i64
    } else if v > MAX_COORD_CM {
        MAX_COORD_CM
    } else {
        v as i64
    }
}

/// Clamp a coordinate to the accepted world bounds.
pub fn clamp_coord(v: i64) -> (r: i64)
    ensures
        r == spec_clamp_coord(v as int),
        coord_ok(r),
{
    if v < -MAX_COORD_CM {
        -MAX_COORD_CM
    } else if v > MAX_COORD_CM {
        MAX_COORD_CM
    } else {
        v
    }
}

/// Fixed-point multiplication `a * b / 1000`, exact over the integers.
pub fn mul_milli(a: u64, b: u64) -> (r: u64)
    requires
        (a as int) * (b as int) <= (u64::MAX as int) * (MILLI as int),
    ensures
        r == milli_of(a as int, b as int),
{
    let p: u128 = (a as u128) * (b as u128);
    proof {
        vstd::arithmetic::div_mod::lemma_div_is_ordered(
            p as int,
            (u64::MAX as int) * (MILLI as int),
            MILLI as int,
        );
        vstd::arithmetic::div_mod::lemma_div_multiples_vanish(u64::MAX as int, MILLI as int);
    }
    (p / (MILLI as u128)) as u64
}

/// The integer cube root: the largest `r` with `r³ ≤ p`.
pub open spec fn is_cbrt(r: int, p: int) -> bool {
    r * r * r <= p < (r + 1) * (r + 1) * (r + 1)
}

/// The integer cube root as a function.
pub open spec fn spec_icbrt(p: int) -> int {
    choose|r: int| 0 <= r && is_cbrt(r, p)
}

/// Two integer cube roots of the same number are equal.
proof fn lemma_cbrt_unique(r1: int, r2: int, p: int)
    by (nonlinear_arith)
    requires
        0 <= r1,
        0 <= r2,
        is_cbrt(r1, p),
        is_cbrt(r2, p),
    ensures
        r1 == r2,
{
}

/// Cubes grow: a number whose cube stays below a cube is below its root.
proof fn lemma_cube_root_bound(r: int, c: int)
    by (nonlinear_arith)
    requires
        0 <= r,
        0 < c,
        r * r * r <= c * c * c,
    ensures
        r <= c,
{
}

/// Integer cube root by upward search; the argument is capped so the
/// search stays short and the cube fits in `u64`.
pub fn icbrt(p: u64) -> (r: u64)
    requires
        p <= MAX_POWER_MILLI,
    ensures
        is_cbrt(r as int, p as int),
        r == spec_icbrt(p as int),
        r <= 10_000,
{
    let mut r: u64 = 0;
    loop
        invariant
            (r as int) * (r as int) * (r as int) <= p as int,
            p <= MAX_POWER_MILLI,
            r <= 10_000,
        ensures
            is_cbrt(r as int, p as int),
            r <= 10_000,
        decreases 10_001 - r,
    {
        let next = r + 1;
        proof {
            assert((next as int) * (next as int) <= 200_000_000
                && (next as int) * (next as int) * (next as int) <= 0xffff_ffff_ffff_ffff)
                by (nonlinear_arith)
                requires
                    next <= 10_001,
            ;
        }
        if next * next * next <= p {
            proof {
                lemma_cube_root_bound(next as int, 10_000);
            }
            r = next;
        } else {
            break;
        }
    }
    proof {
        assert(is_cbrt(r as int, p as int));
        let w = spec_icbrt(p as int);
        assert(0 <= w && is_cbrt(w, p as int)) by {
            assert(0 <= r as int && is_cbrt(r as int, p as int));
        }
        lemma_cbrt_unique(r as int, w, p as int);
    }
    r
}

} // verus!
