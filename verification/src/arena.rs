//! The circular arena: a ring of wall segments.
//!
//! Each wall segment sits on a circle of fixed radius at an angle that
//! is an exact fraction of a full turn, and is oriented tangent to the
//! circle: its own angle plus a quarter turn. Angles are held as exact
//! rationals (numerator over denominator, in turns), so the spacing of
//! the ring is a proved fact rather than a rounding accident; projecting
//! a segment to cartesian coordinates is the caller's concern.

use vstd::prelude::*;

verus! {

/// How many wall segments the arena ring uses.
pub const ARENA_SEGMENTS: u32 = 32;

/// The arena circle's radius, in millipixels.
pub const ARENA_RADIUS: i64 = 328_000;

/// One wall segment: a position angle and an orientation, each an exact
/// fraction of a full turn, on a circle of the given radius.
#[derive(Clone, Copy, Debug, PartialEq, Eq, Structural)]
pub struct WallSegment {
    /// Numerator of the position angle, in turns.
    pub angle_num: u64,
    /// Denominator of the position angle: the segment count.
    pub angle_den: u64,
    /// Numerator of the orientation: the position angle plus a quarter
    /// turn, tangent to the circle.
    pub orient_num: u64,
    /// Denominator of the orientation.
    pub orient_den: u64,
    /// Radius of the circle the segment sits on, in millipixels.
    pub radius: i64,
}

impl WallSegment {
    /// The segment's fields describe index `i` of a ring of `n`
    /// segments on a circle of radius `radius`: position angle `i / n`
    /// turns, orientation `i / n + 1 / 4` turns.
    pub open spec fn is_ring_entry(self, i: int, n: int, radius: int) -> bool {
        &&& self.angle_num == i
        &&& self.angle_den == n
        &&& self.orient_num == 4 * i + n
        &&& self.orient_den == 4 * n
        &&& self.radius == radius
    }
}

/// Builds the ring of `segment_count` wall segments on a circle of
/// radius `radius` millipixels: entry `i` at position angle `i /
/// segment_count` turns, oriented a quarter turn further, in index
/// order.
pub fn generate_ring(segment_count: u32, radius: i64) -> (ring: Vec<WallSegment>)
    requires
        1 <= segment_count,
        0 < radius,
    ensures
        ring.len() == segment_count,
        forall|i: int|
            0 <= i < segment_count ==> (#[trigger] ring[i]).is_ring_entry(
                i,
                segment_count as int,
                radius as int,
            ),
{
    let mut ring: Vec<WallSegment> = Vec::new();
    let n: u64 = segment_count as u64;
    let mut i: u32 = 0;
    while i < segment_count
        invariant
            i <= segment_count,
            n == segment_count,
            ring.len() == i,
            forall|k: int|
                0 <= k < i ==> (#[trigger] ring[k]).is_ring_entry(
                    k,
                    segment_count as int,
                    radius as int,
                ),
        decreases segment_count - i,
    {
        ring.push(
            WallSegment {
                angle_num: i as u64,
                angle_den: n,
                orient_num: 4 * (i as u64) + n,
                orient_den: 4 * n,
                radius,
            },
        );
        i = i + 1;
    }
    ring
}

/// Law: in a generated ring the position angles are strictly
/// increasing, evenly spaced one `segment_count`-th of a turn apart,
/// and every orientation is its segment's position angle plus exactly
/// a quarter turn. Fractions with a common denominator compare by
/// numerator, and the quarter-turn offset is stated cross-multiplied.
pub proof fn lemma_ring_angles(ring: Seq<WallSegment>, segment_count: int, radius: int)
    requires
        1 <= segment_count,
        ring.len() == segment_count,
        forall|i: int|
            0 <= i < segment_count ==> (#[trigger] ring[i]).is_ring_entry(
                i,
                segment_count,
                radius,
            ),
    ensures
        // strictly increasing: angle_i < angle_j as rationals over the common denominator
        forall|i: int, j: int|
            0 <= i < j < segment_count ==> (#[trigger] ring[i]).angle_num < (
            #[trigger] ring[j]).angle_num && ring[i].angle_den == ring[j].angle_den,
        // evenly spaced: consecutive angles differ by exactly 1 / segment_count of a turn
        forall|i: int|
            0 <= i && i + 1 < segment_count ==> (#[trigger] ring[i + 1]).angle_num == ring[
                i
            ].angle_num + 1,
        // orientation == angle + 1 / 4: cross-multiplied over the two denominators
        forall|i: int|
            0 <= i < segment_count ==> 4 * (#[trigger] ring[i]).orient_num * ring[i].angle_den == (
            4 * ring[i].angle_num + ring[i].angle_den) * ring[i].orient_den,
{
    assert forall|i: int|
        0 <= i < segment_count implies 4 * (#[trigger] ring[i]).orient_num * ring[i].angle_den == (
    4 * ring[i].angle_num + ring[i].angle_den) * ring[i].orient_den by {
        let e = ring[i];
        assert(e.orient_num == 4 * i + segment_count && e.orient_den == 4 * segment_count
            && e.angle_num == i && e.angle_den == segment_count);
        assert(4 * (4 * i + segment_count) * segment_count == (4 * i + segment_count) * (4
            * segment_count)) by (nonlinear_arith);
    }
}

} // verus!
