//! Scene layout: where marbles spawn and where the hammers stand.
//!
//! The marbles start on a staggered grid (every second row shifted by
//! half a step); the four hammers rest at the corners of the arena,
//! each turned an eighth of a turn past an axis so it faces the center.
//! All positions are exact integers in millipixels; orientations are
//! exact fractions of a turn.

use crate::geom::{Vec2, COORD_LIMIT};
use vstd::arithmetic::mul::{lemma_mul_nonnegative, lemma_mul_upper_bound};
use vstd::prelude::*;

verus! {

/// Rows of the marble grid.
pub const MARBLE_ROWS: u32 = 5;

/// Columns of the marble grid.
pub const MARBLE_COLS: u32 = 5;

/// Where the marble grid begins (its top-left marble), in millipixels.
pub const MARBLE_GRID_START_X: i64 = -150_000;

/// See `MARBLE_GRID_START_X`.
pub const MARBLE_GRID_START_Y: i64 = 150_000;

/// Spacing of the marble grid, in millipixels.
pub const MARBLE_GRID_STEP: i64 = 75_000;

/// A marble's collider radius, in millipixels.
pub const MARBLE_RADIUS: i64 = 16_000;

/// Half extents of a wall segment's box collider, in millipixels.
pub const WALL_HALF_LENGTH: i64 = 32_000;

/// See `WALL_HALF_LENGTH`.
pub const WALL_HALF_THICKNESS: i64 = 5_000;

/// Half extents of a hammer's box collider, in millipixels.
pub const HAMMER_HALF_LENGTH: i64 = 128_000;

/// See `HAMMER_HALF_LENGTH`.
pub const HAMMER_HALF_HEIGHT: i64 = 48_000;

/// A marble spawn point: the physics collaborator owns all later
/// motion, so nothing more than the position is recorded.
#[derive(Clone, Copy, Debug, PartialEq, Eq, Structural)]
pub struct MarbleSpawnSpec {
    pub position: Vec2,
}

impl MarbleSpawnSpec {
    pub fn new(position: Vec2) -> (s: MarbleSpawnSpec)
        ensures
            s.position == position,
    {
        MarbleSpawnSpec { position }
    }
}

/// One hammer's station: its identifier, rest position in millipixels,
/// and orientation as an exact fraction of a turn.
#[derive(Clone, Copy, Debug, PartialEq, Eq, Structural)]
pub struct HammerSite {
    pub id: usize,
    pub start: Vec2,
    pub orient_num: u64,
    pub orient_den: u64,
}

/// The sideways shift of a grid row: even rows sit flush, odd rows are
/// shifted by half a step.
pub open spec fn spec_row_offset(row: int, step: int) -> int {
    if row % 2 == 0 {
        0
    } else {
        step / 2
    }
}

/// Builds the staggered marble grid: `rows * cols` spawn points in row
/// major order, row `r` shifted right by half a step when odd, columns
/// one step apart, rows one step down from `origin`.
pub fn marble_grid(rows: u32, cols: u32, origin: Vec2, step: i64) -> (grid: Vec<Vec2>)
    requires
        origin.in_bounds(),
        0 <= step <= COORD_LIMIT,
        rows <= 10_000,
        cols <= 10_000,
    ensures
        grid.len() == rows * cols,
        forall|r: int, c: int|
            0 <= r < rows && 0 <= c < cols ==> {
                let p = #[trigger] grid[r * cols + c];
                &&& p.x == origin.x + spec_row_offset(r, step as int) + c * step
                &&& p.y == origin.y - r * step
            },
{
    let mut grid: Vec<Vec2> = Vec::new();
    let half_step: i64 = (step as u64 / 2) as i64;
    let mut row: u32 = 0;
    while row < rows
        invariant
            row <= rows,
            rows <= 10_000,
            cols <= 10_000,
            origin.in_bounds(),
            0 <= step <= COORD_LIMIT,
            half_step == (step as int) / 2,
            grid.len() == row * cols,
            forall|r: int, c: int|
                0 <= r < row && 0 <= c < cols ==> {
                    let p = #[trigger] grid[r * cols + c];
                    &&& p.x == origin.x + spec_row_offset(r, step as int) + c * step
                    &&& p.y == origin.y - r * step
                },
        decreases rows - row,
    {
        let offset: i64 = if row % 2 == 0 {
            0
        } else {
            half_step
        };
        proof {
            lemma_mul_nonnegative(row as int, step as int);
            lemma_mul_upper_bound(row as int, 10_000, step as int, COORD_LIMIT as int);
        }
        let row_y: i64 = origin.y - (row as i64) * step;
        let mut col: u32 = 0;
        while col < cols
            invariant
                col <= cols,
                row < rows,
                rows <= 10_000,
                cols <= 10_000,
                origin.in_bounds(),
                0 <= step <= COORD_LIMIT,
                offset == spec_row_offset(row as int, step as int),
                row_y == origin.y - row * step,
                grid.len() == row * cols + col,
                forall|r: int, c: int|
                    0 <= r < row && 0 <= c < cols ==> {
                        let p = #[trigger] grid[r * cols + c];
                        &&& p.x == origin.x + spec_row_offset(r, step as int) + c * step
                        &&& p.y == origin.y - r * step
                    },
                forall|c: int|
                    0 <= c < col ==> {
                        let p = #[trigger] grid[row * cols + c];
                        &&& p.x == origin.x + spec_row_offset(row as int, step as int) + c * step
                        &&& p.y == origin.y - row * step
                    },
            decreases cols - col,
        {
            proof {
                lemma_mul_nonnegative(col as int, step as int);
                lemma_mul_upper_bound(col as int, 10_000, step as int, COORD_LIMIT as int);
            }
            let x: i64 = origin.x + offset + (col as i64) * step;
            grid.push(Vec2 { x, y: row_y });
            proof {
                assert forall|r: int, c: int|
                    0 <= r < row && 0 <= c < cols implies #[trigger] (r * cols + c) < row
                        * cols by {
                    assert((r + 1) * (cols as int) <= (row as int) * (cols as int))
                        by (nonlinear_arith)
                        requires
                            r + 1 <= row,
                            0 <= cols,
                    ;
                    assert(r * (cols as int) + c < (r + 1) * (cols as int)) by (nonlinear_arith)
                        requires
                            c < cols,
                    ;
                }
            }
            col = col + 1;
        }
        proof {
            assert((row + 1) * (cols as int) == (row as int) * (cols as int) + cols)
                by (nonlinear_arith);
        }
        row = row + 1;
    }
    grid
}

/// The four hammer stations: rest positions at the corners, each
/// oriented an eighth of a turn past an axis, counted counterclockwise
/// from the lower-left corner.
pub fn hammer_layout() -> (sites: Vec<HammerSite>)
    ensures
        sites.len() == 4,
        sites@[0] == (HammerSite {
            id: 0,
            start: Vec2 { x: -300_000i64, y: -300_000i64 },
            orient_num: 1,
            orient_den: 8,
        }),
        sites@[1] == (HammerSite {
            id: 1,
            start: Vec2 { x: -300_000i64, y: 300_000i64 },
            orient_num: 3,
            orient_den: 8,
        }),
        sites@[2] == (HammerSite {
            id: 2,
            start: Vec2 { x: 300_000i64, y: 300_000i64 },
            orient_num: 5,
            orient_den: 8,
        }),
        sites@[3] == (HammerSite {
            id: 3,
            start: Vec2 { x: 300_000i64, y: -300_000i64 },
            orient_num: 7,
            orient_den: 8,
        }),
        forall|i: int| 0 <= i < 4 ==> (#[trigger] sites@[i]).start.in_bounds(),
{
    let mut sites: Vec<HammerSite> = Vec::new();
    sites.push(
        HammerSite { id: 0, start: Vec2 { x: -300_000, y: -300_000 }, orient_num: 1, orient_den: 8 },
    );
    sites.push(
        HammerSite { id: 1, start: Vec2 { x: -300_000, y: 300_000 }, orient_num: 3, orient_den: 8 },
    );
    sites.push(
        HammerSite { id: 2, start: Vec2 { x: 300_000, y: 300_000 }, orient_num: 5, orient_den: 8 },
    );
    sites.push(
        HammerSite { id: 3, start: Vec2 { x: 300_000, y: -300_000 }, orient_num: 7, orient_den: 8 },
    );
    sites
}

} // verus!
