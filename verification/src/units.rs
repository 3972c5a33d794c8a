//! Conversion between pixel space and physics space.
//!
//! The game measures in pixels; the physics collaborator measures in its
//! own unit, `PHYSICS_SCALE` pixels long. Pixel lengths are held in
//! millipixels and physics lengths in microunits, so one millipixel is
//! exactly `SUBPHYS_PER_SUBPX` microunits and converting a length to
//! physics space and back returns it unchanged.

use crate::geom::Vec2;
use vstd::arithmetic::div_mod::{lemma_div_by_multiple, lemma_div_nonincreasing};
use vstd::arithmetic::mul::lemma_mul_is_commutative;
use vstd::prelude::*;

verus! {

/// Pixels per physics unit.
pub const PHYSICS_SCALE: i64 = 100;

/// Millipixels per pixel: pixel lengths are stored in millipixels.
pub const SUBPX_PER_PX: i64 = 1000;

/// Microunits per physics unit: physics lengths are stored in microunits.
pub const SUBPHYS_PER_UNIT: i64 = 1_000_000;

/// Microunits per millipixel: `SUBPHYS_PER_UNIT` microunits span
/// `PHYSICS_SCALE * SUBPX_PER_PX` millipixels.
pub const SUBPHYS_PER_SUBPX: i64 = 10;

/// A pixel length in millipixels as a physics length in microunits.
pub open spec fn spec_scale(x: int) -> int {
    x * SUBPHYS_PER_SUBPX
}

/// A physics length in microunits as a pixel length in millipixels,
/// rounded toward zero.
pub open spec fn spec_unscale(y: int) -> int {
    if y >= 0 {
        y / (SUBPHYS_PER_SUBPX as int)
    } else {
        -((-y) / (SUBPHYS_PER_SUBPX as int))
    }
}

/// Converting a pixel length to physics space and back returns it
/// unchanged: the conversion is exactly invertible.
pub proof fn lemma_unscale_scale(x: int)
    ensures
        spec_unscale(spec_scale(x)) == x,
{
    if x >= 0 {
        lemma_div_by_multiple(x, SUBPHYS_PER_SUBPX as int);
    } else {
        lemma_div_by_multiple(-x, SUBPHYS_PER_SUBPX as int);
        lemma_mul_is_commutative(-x, SUBPHYS_PER_SUBPX as int);
    }
}

/// Converts a pixel length in millipixels to a physics length in
/// microunits.
pub fn scale(x: i64) -> (r: i64)
    requires
        i64::MIN <= x * SUBPHYS_PER_SUBPX <= i64::MAX,
    ensures
        r == spec_scale(x as int),
{
    x * SUBPHYS_PER_SUBPX
}

/// Converts a physics length in microunits to a pixel length in
/// millipixels, rounding toward zero.
pub fn unscale(y: i64) -> (r: i64)
    requires
        -i64::MAX <= y,
    ensures
        r == spec_unscale(y as int),
{
    if y >= 0 {
        let q: u64 = (y as u64) / (SUBPHYS_PER_SUBPX as u64);
        proof {
            lemma_div_nonincreasing(y as int, SUBPHYS_PER_SUBPX as int);
        }
        q as i64
    } else {
        let m: i64 = -y;
        let q: u64 = (m as u64) / (SUBPHYS_PER_SUBPX as u64);
        proof {
            lemma_div_nonincreasing(m as int, SUBPHYS_PER_SUBPX as int);
        }
        -(q as i64)
    }
}

/// Converts a pixel point in millipixels to a physics point in
/// microunits.
pub fn scale_vec2(v: Vec2) -> (r: Vec2)
    requires
        i64::MIN <= v.x * SUBPHYS_PER_SUBPX <= i64::MAX,
        i64::MIN <= v.y * SUBPHYS_PER_SUBPX <= i64::MAX,
    ensures
        r.x == spec_scale(v.x as int),
        r.y == spec_scale(v.y as int),
{
    Vec2 { x: scale(v.x), y: scale(v.y) }
}

/// Converts a physics point in microunits to a pixel point in
/// millipixels, rounding each coordinate toward zero.
pub fn unscale_vec2(v: Vec2) -> (r: Vec2)
    requires
        -i64::MAX <= v.x,
        -i64::MAX <= v.y,
    ensures
        r.x == spec_unscale(v.x as int),
        r.y == spec_unscale(v.y as int),
{
    Vec2 { x: unscale(v.x), y: unscale(v.y) }
}

} // verus!
