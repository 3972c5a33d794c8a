use hungry_hammers::arena::{generate_ring, ARENA_RADIUS, ARENA_SEGMENTS};

#[test]
fn ring_has_one_entry_per_segment() {
    let ring = generate_ring(ARENA_SEGMENTS, ARENA_RADIUS);
    assert_eq!(ring.len(), 32);
    for (i, seg) in ring.iter().enumerate() {
        assert_eq!(seg.angle_num, i as u64);
        assert_eq!(seg.angle_den, 32);
        assert_eq!(seg.orient_num, 4 * i as u64 + 32);
        assert_eq!(seg.orient_den, 128);
        assert_eq!(seg.radius, ARENA_RADIUS);
    }
}

#[test]
fn ring_angles_are_evenly_spaced_and_increasing() {
    let ring = generate_ring(32, 328_000);
    for w in ring.windows(2) {
        assert_eq!(w[0].angle_den, w[1].angle_den);
        assert_eq!(w[1].angle_num, w[0].angle_num + 1);
    }
    // orientation is the position angle plus a quarter turn,
    // cross-multiplied over the two denominators
    for seg in &ring {
        assert_eq!(
            4 * seg.orient_num * seg.angle_den,
            (4 * seg.angle_num + seg.angle_den) * seg.orient_den
        );
    }
}

#[test]
fn ring_positions_lie_on_the_circle() {
    let ring = generate_ring(32, 328_000);
    let radius_px = 328.0f64;
    let mut previous = f64::NEG_INFINITY;
    for seg in &ring {
        let theta = std::f64::consts::TAU * seg.angle_num as f64 / seg.angle_den as f64;
        assert!(theta > previous);
        previous = theta;
        let x = radius_px * theta.cos();
        let y = radius_px * theta.sin();
        let magnitude = (x * x + y * y).sqrt();
        assert!((magnitude - radius_px).abs() < 1e-9);
    }
    // spacing in radians is one thirty-second of a full turn
    let spacing = std::f64::consts::TAU / 32.0;
    for w in ring.windows(2) {
        let a = std::f64::consts::TAU * w[0].angle_num as f64 / w[0].angle_den as f64;
        let b = std::f64::consts::TAU * w[1].angle_num as f64 / w[1].angle_den as f64;
        assert!((b - a - spacing).abs() < 1e-12);
    }
}

#[test]
fn single_segment_ring() {
    let ring = generate_ring(1, 1);
    assert_eq!(ring.len(), 1);
    assert_eq!(ring[0].angle_num, 0);
    assert_eq!(ring[0].angle_den, 1);
    // a quarter turn
    assert_eq!(ring[0].orient_num, 1);
    assert_eq!(ring[0].orient_den, 4);
}
