use hungry_hammers::geom::Vec2;
use hungry_hammers::scene::{
    hammer_layout, marble_grid, MarbleSpawnSpec, MARBLE_COLS, MARBLE_GRID_START_X,
    MARBLE_GRID_START_Y, MARBLE_GRID_STEP, MARBLE_ROWS,
};

#[test]
fn marble_grid_is_staggered() {
    let origin = Vec2 { x: MARBLE_GRID_START_X, y: MARBLE_GRID_START_Y };
    let grid = marble_grid(MARBLE_ROWS, MARBLE_COLS, origin, MARBLE_GRID_STEP);
    assert_eq!(grid.len(), 25);
    // row 0 sits flush at the origin
    assert_eq!(grid[0], Vec2 { x: -150_000, y: 150_000 });
    assert_eq!(grid[4], Vec2 { x: 150_000, y: 150_000 });
    // row 1 is shifted right by half a step and down one step
    assert_eq!(grid[5], Vec2 { x: -112_500, y: 75_000 });
    assert_eq!(grid[6], Vec2 { x: -37_500, y: 75_000 });
    // row 4 is flush again, four steps down
    assert_eq!(grid[24], Vec2 { x: 150_000, y: -150_000 });
}

#[test]
fn marble_grid_handles_empty_sides() {
    let origin = Vec2 { x: 0, y: 0 };
    assert_eq!(marble_grid(0, 5, origin, 1000).len(), 0);
    assert_eq!(marble_grid(5, 0, origin, 1000).len(), 0);
    let single = marble_grid(1, 1, origin, 1000);
    assert_eq!(single.len(), 1);
    assert_eq!(single[0], origin);
}

#[test]
fn hammer_layout_rings_the_arena() {
    let sites = hammer_layout();
    assert_eq!(sites.len(), 4);
    let expected = [
        (0usize, -300_000i64, -300_000i64, 1u64),
        (1, -300_000, 300_000, 3),
        (2, 300_000, 300_000, 5),
        (3, 300_000, -300_000, 7),
    ];
    for (site, (id, x, y, num)) in sites.iter().zip(expected) {
        assert_eq!(site.id, id);
        assert_eq!(site.start, Vec2 { x, y });
        assert_eq!(site.orient_num, num);
        assert_eq!(site.orient_den, 8);
    }
}

#[test]
fn window_to_world_shifts_origin_to_center() {
    let center = Vec2 { x: 360_000, y: 360_000 };
    assert_eq!(center.to_world_coords(), Vec2 { x: 0, y: 0 });
    let corner = Vec2 { x: 0, y: 0 };
    assert_eq!(corner.to_world_coords(), Vec2 { x: -360_000, y: -360_000 });
}

#[test]
fn marble_spawn_spec_records_its_position() {
    let p = Vec2 { x: -150_000, y: 150_000 };
    assert_eq!(MarbleSpawnSpec::new(p).position, p);
}
