//! Plane geometry over exact integer coordinates.
//!
//! Coordinates are held in millipixels: 1000 per pixel. Every operation
//! here is exact integer arithmetic, so contracts pin results down to the
//! last millipixel.

use vstd::arithmetic::div_mod::{
    lemma_div_by_multiple, lemma_div_is_ordered, lemma_div_of0, lemma_div_pos_is_pos,
};
use vstd::arithmetic::mul::{
    lemma_mul_inequality, lemma_mul_is_commutative, lemma_mul_nonnegative, lemma_mul_upper_bound,
};
use vstd::prelude::*;

verus! {

/// Largest coordinate magnitude the geometry works with, in millipixels
/// (one billion pixels). Keeps every sum and difference of two
/// coordinates far inside the `i64` range.
pub const COORD_LIMIT: i64 = 1_000_000_000_000;

/// Half the 720-pixel window, in millipixels: the shift between window
/// coordinates (origin at a window corner) and world coordinates (origin
/// at the window center).
pub const WINDOW_HALF_SIZE: i64 = 360_000;

/// A point or displacement in the plane, in millipixels.
#[derive(Clone, Copy, Debug, PartialEq, Eq, Structural)]
pub struct Vec2 {
    pub x: i64,
    pub y: i64,
}

impl Vec2 {
    pub open spec fn in_bounds(self) -> bool {
        &&& -COORD_LIMIT <= self.x <= COORD_LIMIT
        &&& -COORD_LIMIT <= self.y <= COORD_LIMIT
    }

    pub fn new(x: i64, y: i64) -> (v: Vec2)
        ensures
            v.x == x,
            v.y == y,
    {
        Vec2 { x, y }
    }

    /// Shifts a point from window coordinates to world coordinates by
    /// moving the origin to the window center.
    pub fn to_world_coords(&self) -> (r: Vec2)
        requires
            i64::MIN + WINDOW_HALF_SIZE <= self.x,
            i64::MIN + WINDOW_HALF_SIZE <= self.y,
        ensures
            r.x == self.x - WINDOW_HALF_SIZE,
            r.y == self.y - WINDOW_HALF_SIZE,
    {
        Vec2 { x: self.x - WINDOW_HALF_SIZE, y: self.y - WINDOW_HALF_SIZE }
    }
}

/// `d` scaled by the fraction `num / den`, rounded toward zero.
pub open spec fn spec_mul_frac(d: int, num: int, den: int) -> int {
    if d >= 0 {
        (d * num) / den
    } else {
        -(((-d) * num) / den)
    }
}

/// Linear interpolation of one coordinate: the point a fraction
/// `num / den` of the way from `a` to `b`, rounded toward `a`.
pub open spec fn spec_lerp(a: int, b: int, num: int, den: int) -> int {
    a + spec_mul_frac(b - a, num, den)
}

/// The scaled value lies between zero and `d`.
pub proof fn lemma_mul_frac_bounds(d: int, num: int, den: int)
    requires
        0 <= num <= den,
        0 < den,
    ensures
        d >= 0 ==> 0 <= spec_mul_frac(d, num, den) <= d,
        d < 0 ==> d <= spec_mul_frac(d, num, den) <= 0,
{
    let m = if d >= 0 { d } else { -d };
    lemma_mul_nonnegative(m, num);
    lemma_div_pos_is_pos(m * num, den);
    lemma_mul_inequality(num, den, m);
    lemma_mul_is_commutative(num, m);
    lemma_mul_is_commutative(den, m);
    lemma_div_is_ordered(m * num, m * den, den);
    lemma_div_by_multiple(m, den);
}

/// Scaling by a larger fraction moves the result further from zero.
pub proof fn lemma_mul_frac_monotone(d: int, num1: int, num2: int, den: int)
    requires
        0 <= num1 <= num2,
        0 < den,
    ensures
        d >= 0 ==> spec_mul_frac(d, num1, den) <= spec_mul_frac(d, num2, den),
        d < 0 ==> spec_mul_frac(d, num2, den) <= spec_mul_frac(d, num1, den),
{
    let m = if d >= 0 { d } else { -d };
    lemma_mul_inequality(num1, num2, m);
    lemma_mul_is_commutative(num1, m);
    lemma_mul_is_commutative(num2, m);
    lemma_div_is_ordered(m * num1, m * num2, den);
}

/// Scaling by the fraction zero gives zero.
pub proof fn lemma_mul_frac_zero(d: int, den: int)
    requires
        0 < den,
    ensures
        spec_mul_frac(d, 0, den) == 0,
{
    lemma_div_of0(den);
}

/// Scaling by the whole fraction gives `d` back exactly.
pub proof fn lemma_mul_frac_full(d: int, den: int)
    requires
        0 < den,
    ensures
        spec_mul_frac(d, den, den) == d,
{
    let m = if d >= 0 { d } else { -d };
    lemma_div_by_multiple(m, den);
}

/// `d` scaled by `num / den`, rounded toward zero.
pub fn mul_frac(d: i64, num: u64, den: u64) -> (r: i64)
    requires
        0 < den,
        num <= den,
        -i64::MAX <= d,
    ensures
        r == spec_mul_frac(d as int, num as int, den as int),
{
    if d >= 0 {
        proof {
            lemma_mul_upper_bound(d as int, i64::MAX as int, num as int, u64::MAX as int);
        }
        let p: u128 = (d as u128) * (num as u128);
        let q: u128 = p / (den as u128);
        proof {
            lemma_mul_nonnegative(d as int, num as int);
            lemma_mul_inequality(num as int, den as int, d as int);
            lemma_mul_is_commutative(num as int, d as int);
            lemma_mul_is_commutative(den as int, d as int);
            lemma_div_is_ordered((d as int) * (num as int), (d as int) * (den as int), den as int);
            lemma_div_by_multiple(d as int, den as int);
            lemma_div_pos_is_pos((d as int) * (num as int), den as int);
        }
        q as i64
    } else {
        let m: i64 = -d;
        proof {
            lemma_mul_upper_bound(m as int, i64::MAX as int, num as int, u64::MAX as int);
        }
        let p: u128 = (m as u128) * (num as u128);
        let q: u128 = p / (den as u128);
        proof {
            lemma_mul_nonnegative(m as int, num as int);
            lemma_mul_inequality(num as int, den as int, m as int);
            lemma_mul_is_commutative(num as int, m as int);
            lemma_mul_is_commutative(den as int, m as int);
            lemma_div_is_ordered((m as int) * (num as int), (m as int) * (den as int), den as int);
            lemma_div_by_multiple(m as int, den as int);
            lemma_div_pos_is_pos((m as int) * (num as int), den as int);
        }
        -(q as i64)
    }
}

/// The point a fraction `num / den` of the way from `a` to `b`, one
/// coordinate at a time, each rounded toward `a`. The result never
/// leaves the segment from `a` to `b`.
pub fn lerp(a: Vec2, b: Vec2, num: u64, den: u64) -> (r: Vec2)
    requires
        0 < den,
        num <= den,
        a.in_bounds(),
        b.in_bounds(),
    ensures
        r.x == spec_lerp(a.x as int, b.x as int, num as int, den as int),
        r.y == spec_lerp(a.y as int, b.y as int, num as int, den as int),
        a.x <= b.x ==> a.x <= r.x <= b.x,
        b.x <= a.x ==> b.x <= r.x <= a.x,
        a.y <= b.y ==> a.y <= r.y <= b.y,
        b.y <= a.y ==> b.y <= r.y <= a.y,
        r.in_bounds(),
{
    let dx: i64 = b.x - a.x;
    let dy: i64 = b.y - a.y;
    let mx: i64 = mul_frac(dx, num, den);
    let my: i64 = mul_frac(dy, num, den);
    proof {
        lemma_mul_frac_bounds(dx as int, num as int, den as int);
        lemma_mul_frac_bounds(dy as int, num as int, den as int);
    }
    Vec2 { x: a.x + mx, y: a.y + my }
}

} // verus!
