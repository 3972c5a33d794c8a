use hungry_hammers::geom::Vec2;
use hungry_hammers::hammer::{
    Hammer, Phase, RECOVER_DURATION_US, STRIKE_DURATION_US, TARGET_HAMMER_ID,
};

const TICK_US: u64 = 16_667; // one sixtieth of a second, rounded up

fn player_hammer() -> Hammer {
    Hammer::new(TARGET_HAMMER_ID, Vec2 { x: -300_000, y: -300_000 })
}

#[test]
fn new_hammer_rests_at_start() {
    let h = player_hammer();
    assert_eq!(h.phase, Phase::Resting);
    assert_eq!(h.strike_elapsed, 0);
    assert_eq!(h.recover_elapsed, RECOVER_DURATION_US);
    // the strike position keeps six tenths of each start coordinate
    assert_eq!(h.end, Vec2 { x: -180_000, y: -180_000 });
}

#[test]
fn strike_position_rounds_toward_zero() {
    let h = Hammer::new(0, Vec2 { x: 5, y: -5 });
    assert_eq!(h.end, Vec2 { x: 3, y: -3 });
    let h = Hammer::new(0, Vec2 { x: 1, y: -1 });
    assert_eq!(h.end, Vec2 { x: 0, y: 0 });
}

#[test]
fn strike_completes_within_eight_ticks() {
    let mut h = player_hammer();
    // trigger once; the recovery timer is saturated, so the strike
    // starts from zero elapsed
    let p = h.update(TICK_US, true);
    assert_eq!(h.phase, Phase::Striking);
    assert_eq!(h.strike_elapsed, TICK_US);
    assert_eq!(p, Vec2 { x: -284_000, y: -284_000 });
    let mut ticks = 1;
    let mut last = p;
    while h.phase == Phase::Striking {
        last = h.update(TICK_US, false);
        ticks += 1;
        assert!(ticks <= 8);
    }
    assert_eq!(ticks, 8);
    // the completing tick returns exactly the strike position
    assert_eq!(last, h.end);
    assert_eq!(h.strike_elapsed, 0);
    assert_eq!(h.recover_elapsed, 0);
    // immediately afterwards recovery has barely begun: still near end
    let p = h.update(TICK_US, false);
    assert_eq!(p, Vec2 { x: -184_001, y: -184_001 });
}

#[test]
fn recovery_decays_monotonically_to_start() {
    let mut h = player_hammer();
    // a single large tick completes the whole strike at once
    let p = h.update(STRIKE_DURATION_US, true);
    assert_eq!(p, h.end);
    assert_eq!(h.phase, Phase::Resting);
    let mut previous = h.end;
    let mut ticks = 0;
    while h.recover_elapsed < RECOVER_DURATION_US {
        let p = h.update(TICK_US, false);
        ticks += 1;
        assert!(ticks <= 30);
        // each coordinate moves weakly toward start, never past it
        assert!(p.x <= previous.x && p.x >= h.start.x);
        assert!(p.y <= previous.y && p.y >= h.start.y);
        previous = p;
    }
    assert_eq!(previous, h.start);
    assert_eq!(ticks, 30);
}

#[test]
fn retrigger_at_half_recovery_halves_the_strike() {
    let mut h = player_hammer();
    h.update(STRIKE_DURATION_US, true);
    assert_eq!(h.phase, Phase::Resting);
    assert_eq!(h.recover_elapsed, 0);
    // run recovery for exactly half its duration
    h.update(RECOVER_DURATION_US / 4, false);
    h.update(RECOVER_DURATION_US / 4, false);
    assert_eq!(h.recover_elapsed, RECOVER_DURATION_US / 2);
    // the new strike is seeded halfway through
    h.update(0, true);
    assert_eq!(h.phase, Phase::Striking);
    assert_eq!(h.strike_elapsed, STRIKE_DURATION_US / 2);
    // it therefore completes after only the remaining half
    let p = h.update(STRIKE_DURATION_US / 2, false);
    assert_eq!(h.phase, Phase::Resting);
    assert_eq!(p, h.end);
}

#[test]
fn retrigger_immediately_after_strike_is_instantaneous() {
    let mut h = player_hammer();
    h.update(STRIKE_DURATION_US, true);
    assert_eq!(h.recover_elapsed, 0);
    // recovery has not begun: the seeded strike is already complete
    let p = h.update(0, true);
    assert_eq!(h.phase, Phase::Resting);
    assert_eq!(p, h.end);
}

#[test]
fn trigger_mid_strike_is_ignored() {
    let mut h = player_hammer();
    h.update(TICK_US, true);
    assert_eq!(h.phase, Phase::Striking);
    let elapsed = h.strike_elapsed;
    let mut twin = h;
    let a = h.update(TICK_US, true);
    let b = twin.update(TICK_US, false);
    assert_eq!(h, twin);
    assert_eq!(a, b);
    assert_eq!(h.strike_elapsed, elapsed + TICK_US);
}

#[test]
fn nontarget_hammer_ignores_triggers() {
    let start = Vec2 { x: 300_000, y: -300_000 };
    let mut triggered = Hammer::new(3, start);
    let mut untouched = Hammer::new(3, start);
    for _ in 0..40 {
        let a = triggered.update(TICK_US, true);
        let b = untouched.update(TICK_US, false);
        assert_eq!(triggered, untouched);
        assert_eq!(a, b);
    }
    assert_eq!(triggered.phase, Phase::Resting);
}

#[test]
fn untriggered_hammer_stays_at_start() {
    let mut h = player_hammer();
    for _ in 0..50 {
        let p = h.update(TICK_US, false);
        assert_eq!(p, h.start);
        assert_eq!(h.phase, Phase::Resting);
        assert_eq!(h.recover_elapsed, RECOVER_DURATION_US);
    }
}

#[test]
fn zero_dt_changes_nothing_at_rest() {
    let mut h = player_hammer();
    let before = h;
    let p = h.update(0, false);
    assert_eq!(h, before);
    assert_eq!(p, h.start);
}

#[test]
fn oversized_dt_clamps_at_phase_boundaries() {
    let mut h = player_hammer();
    // an enormous stall completes the strike without overshooting
    let p = h.update(u64::MAX, true);
    assert_eq!(p, h.end);
    assert_eq!(h.phase, Phase::Resting);
    // and an enormous stall during recovery saturates it exactly
    let p = h.update(u64::MAX, false);
    assert_eq!(p, h.start);
    assert_eq!(h.recover_elapsed, RECOVER_DURATION_US);
}
