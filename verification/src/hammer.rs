//! The hammer motion controller: a two-phase countdown state machine.
//!
//! A hammer rests at `start`, and when triggered strikes toward `end`,
//! then recovers back. The strike runs for `STRIKE_DURATION_US` and the
//! recovery for `RECOVER_DURATION_US`; each update call advances the
//! active timer by the elapsed time and returns the hammer's position,
//! a linear interpolation between `start` and `end` driven by the
//! active timer's fractional completion.
//!
//! Only the player-controlled hammer (`id == TARGET_HAMMER_ID`) reacts
//! to triggers; a trigger observed mid-strike is ignored. A trigger that
//! interrupts recovery seeds the strike timer with the strike duration
//! scaled by the fraction of the recovery not yet run, so an early
//! re-trigger produces a correspondingly shorter strike.

use crate::geom::{
    lemma_mul_frac_bounds, lemma_mul_frac_full, lemma_mul_frac_monotone, lemma_mul_frac_zero, lerp,
    mul_frac, spec_lerp, spec_mul_frac, Vec2,
};
use vstd::arithmetic::div_mod::{lemma_div_by_multiple, lemma_div_is_ordered, lemma_div_pos_is_pos};
use vstd::arithmetic::mul::{
    lemma_mul_basics, lemma_mul_is_distributive_sub_other_way, lemma_mul_left_inequality,
    lemma_mul_nonnegative,
};
use vstd::prelude::*;

verus! {

/// How long a strike runs, in microseconds.
pub const STRIKE_DURATION_US: u64 = 125_000;

/// How long a recovery runs, in microseconds.
pub const RECOVER_DURATION_US: u64 = 500_000;

/// The one hammer that reacts to the player's trigger.
pub const TARGET_HAMMER_ID: usize = 0;

/// Numerator of the fixed design constant that places the strike
/// position: `end` keeps six tenths of each `start` coordinate.
pub const STRIKE_SCALE_NUM: u64 = 6;

/// Denominator of the fixed strike-position constant.
pub const STRIKE_SCALE_DEN: u64 = 10;

/// The two temporal phases a hammer occupies.
#[derive(Clone, Copy, Debug, PartialEq, Eq, Structural)]
pub enum Phase {
    Resting,
    Striking,
}

/// One hammer's motion state.
#[derive(Clone, Copy, Debug, PartialEq, Eq, Structural)]
pub struct Hammer {
    /// Stable identifier, fixed at creation.
    pub id: usize,
    /// Rest position, in millipixels; fixed at creation.
    pub start: Vec2,
    /// Fully extended strike position; derived from `start` at creation.
    pub end: Vec2,
    /// Which timer is advancing.
    pub phase: Phase,
    /// Time the current strike has run, in microseconds.
    pub strike_elapsed: u64,
    /// Time the current recovery has run, in microseconds.
    pub recover_elapsed: u64,
}

impl Hammer {
    /// Well-formedness: `end` is derived from `start`, both lie in
    /// bounds, and each timer is within its phase duration. A hammer
    /// seen between updates is mid-strike only with time still to run.
    pub open spec fn wf(self) -> bool {
        &&& self.start.in_bounds()
        &&& self.end.in_bounds()
        &&& self.end.x == spec_mul_frac(
            self.start.x as int,
            STRIKE_SCALE_NUM as int,
            STRIKE_SCALE_DEN as int,
        )
        &&& self.end.y == spec_mul_frac(
            self.start.y as int,
            STRIKE_SCALE_NUM as int,
            STRIKE_SCALE_DEN as int,
        )
        &&& self.strike_elapsed <= STRIKE_DURATION_US
        &&& (self.phase == Phase::Striking ==> self.strike_elapsed < STRIKE_DURATION_US)
        &&& self.recover_elapsed <= RECOVER_DURATION_US
    }
}

/// A timer value advanced by `dt` and clamped at `cap`.
pub open spec fn spec_clamped_add(e: u64, dt: u64, cap: u64) -> u64 {
    if e + dt >= cap {
        cap
    } else {
        (e + dt) as u64
    }
}

/// The strike time seeded by a trigger that arrives `recover_elapsed`
/// into a recovery: the strike duration scaled by the fraction of the
/// recovery not yet run.
pub open spec fn spec_seed(recover_elapsed: u64) -> int {
    (STRIKE_DURATION_US * (RECOVER_DURATION_US - recover_elapsed)) / (RECOVER_DURATION_US as int)
}

/// The state after the trigger input is applied, before time advances.
pub open spec fn spec_after_trigger(h: Hammer, trigger: bool) -> Hammer {
    if trigger && h.id == TARGET_HAMMER_ID && h.phase == Phase::Resting {
        Hammer { phase: Phase::Striking, strike_elapsed: spec_seed(h.recover_elapsed) as u64, ..h }
    } else {
        h
    }
}

/// The state after the active timer advances by `dt`.
pub open spec fn spec_advance(h: Hammer, dt: u64) -> Hammer {
    if h.phase == Phase::Striking {
        let e = spec_clamped_add(h.strike_elapsed, dt, STRIKE_DURATION_US);
        if e == STRIKE_DURATION_US {
            Hammer { phase: Phase::Resting, strike_elapsed: 0, recover_elapsed: 0, ..h }
        } else {
            Hammer { strike_elapsed: e, ..h }
        }
    } else {
        Hammer {
            recover_elapsed: spec_clamped_add(h.recover_elapsed, dt, RECOVER_DURATION_US),
            ..h
        }
    }
}

/// The state one whole update step produces.
pub open spec fn spec_update(h: Hammer, dt: u64, trigger: bool) -> Hammer {
    spec_advance(spec_after_trigger(h, trigger), dt)
}

/// The position one whole update step returns, as an exact coordinate
/// pair in millipixels.
pub open spec fn spec_update_pos(h: Hammer, dt: u64, trigger: bool) -> (int, int) {
    let g = spec_after_trigger(h, trigger);
    if g.phase == Phase::Striking {
        let e = spec_clamped_add(g.strike_elapsed, dt, STRIKE_DURATION_US);
        (
            spec_lerp(g.start.x as int, g.end.x as int, e as int, STRIKE_DURATION_US as int),
            spec_lerp(g.start.y as int, g.end.y as int, e as int, STRIKE_DURATION_US as int),
        )
    } else {
        let r = spec_clamped_add(g.recover_elapsed, dt, RECOVER_DURATION_US);
        (
            spec_lerp(
                g.start.x as int,
                g.end.x as int,
                RECOVER_DURATION_US - r,
                RECOVER_DURATION_US as int,
            ),
            spec_lerp(
                g.start.y as int,
                g.end.y as int,
                RECOVER_DURATION_US - r,
                RECOVER_DURATION_US as int,
            ),
        )
    }
}

/// The position a hammer at rest-or-recovery holds: the interpolation
/// from `end` back toward `start` driven by the recovery timer.
pub open spec fn spec_rest_pos(h: Hammer) -> (int, int) {
    (
        spec_lerp(
            h.start.x as int,
            h.end.x as int,
            RECOVER_DURATION_US - h.recover_elapsed,
            RECOVER_DURATION_US as int,
        ),
        spec_lerp(
            h.start.y as int,
            h.end.y as int,
            RECOVER_DURATION_US - h.recover_elapsed,
            RECOVER_DURATION_US as int,
        ),
    )
}

/// The state after `n` update steps of `dt` each with no trigger.
pub open spec fn spec_run(h: Hammer, dt: u64, n: nat) -> Hammer
    decreases n,
{
    if n == 0 {
        h
    } else {
        spec_update(spec_run(h, dt, (n - 1) as nat), dt, false)
    }
}

/// The seeded strike time never exceeds the strike duration.
pub proof fn lemma_seed_le_strike(recover_elapsed: u64)
    requires
        recover_elapsed <= RECOVER_DURATION_US,
    ensures
        0 <= spec_seed(recover_elapsed) <= STRIKE_DURATION_US,
{
    let d = RECOVER_DURATION_US - recover_elapsed;
    lemma_mul_nonnegative(STRIKE_DURATION_US as int, d);
    lemma_div_pos_is_pos((STRIKE_DURATION_US as int) * d, RECOVER_DURATION_US as int);
    lemma_mul_left_inequality(STRIKE_DURATION_US as int, d, RECOVER_DURATION_US as int);
    lemma_div_is_ordered(
        (STRIKE_DURATION_US as int) * d,
        (STRIKE_DURATION_US as int) * (RECOVER_DURATION_US as int),
        RECOVER_DURATION_US as int,
    );
    lemma_div_by_multiple(STRIKE_DURATION_US as int, RECOVER_DURATION_US as int);
}

/// An update step keeps a hammer well formed and never moves its
/// identity, rest position or strike position.
pub proof fn lemma_update_preserves_wf(h: Hammer, dt: u64, trigger: bool)
    requires
        h.wf(),
    ensures
        spec_update(h, dt, trigger).wf(),
        spec_update(h, dt, trigger).id == h.id,
        spec_update(h, dt, trigger).start == h.start,
        spec_update(h, dt, trigger).end == h.end,
{
    lemma_seed_le_strike(h.recover_elapsed);
}

impl Hammer {
    /// The fully extended strike position derived from a rest position:
    /// each coordinate keeps six tenths of its value, drawing the
    /// hammer toward the arena center.
    pub fn strike_target(start: Vec2) -> (end: Vec2)
        requires
            start.in_bounds(),
        ensures
            end.x == spec_mul_frac(start.x as int, STRIKE_SCALE_NUM as int, STRIKE_SCALE_DEN as int),
            end.y == spec_mul_frac(start.y as int, STRIKE_SCALE_NUM as int, STRIKE_SCALE_DEN as int),
            end.in_bounds(),
    {
        let x = mul_frac(start.x, STRIKE_SCALE_NUM, STRIKE_SCALE_DEN);
        let y = mul_frac(start.y, STRIKE_SCALE_NUM, STRIKE_SCALE_DEN);
        proof {
            lemma_mul_frac_bounds(start.x as int, STRIKE_SCALE_NUM as int, STRIKE_SCALE_DEN as int);
            lemma_mul_frac_bounds(start.y as int, STRIKE_SCALE_NUM as int, STRIKE_SCALE_DEN as int);
        }
        Vec2 { x, y }
    }

    /// A hammer at rest: the recovery timer starts saturated, so the
    /// hammer begins at `start` rather than mid-recovery.
    pub fn new(id: usize, start: Vec2) -> (h: Hammer)
        requires
            start.in_bounds(),
        ensures
            h.wf(),
            h.id == id,
            h.start == start,
            h.end.x == spec_mul_frac(start.x as int, STRIKE_SCALE_NUM as int, STRIKE_SCALE_DEN as int),
            h.end.y == spec_mul_frac(start.y as int, STRIKE_SCALE_NUM as int, STRIKE_SCALE_DEN as int),
            h.phase == Phase::Resting,
            h.strike_elapsed == 0,
            h.recover_elapsed == RECOVER_DURATION_US,
    {
        let end = Self::strike_target(start);
        Hammer {
            id,
            start,
            end,
            phase: Phase::Resting,
            strike_elapsed: 0,
            recover_elapsed: RECOVER_DURATION_US,
        }
    }

    /// One simulated tick: applies the trigger input, advances the
    /// active timer by `dt_us` (clamped at the phase boundary), and
    /// returns the hammer's position for this tick.
    pub fn update(&mut self, dt_us: u64, trigger: bool) -> (pos: Vec2)
        requires
            old(self).wf(),
        ensures
            final(self).wf(),
            *final(self) == spec_update(*old(self), dt_us, trigger),
            pos.x == spec_update_pos(*old(self), dt_us, trigger).0,
            pos.y == spec_update_pos(*old(self), dt_us, trigger).1,
            pos.in_bounds(),
    {
        if trigger && self.id == TARGET_HAMMER_ID && self.phase == Phase::Resting {
            let seed: u64 = (STRIKE_DURATION_US * (RECOVER_DURATION_US - self.recover_elapsed))
                / RECOVER_DURATION_US;
            proof {
                lemma_seed_le_strike(self.recover_elapsed);
            }
            self.phase = Phase::Striking;
            self.strike_elapsed = seed;
        }
        match self.phase {
            Phase::Striking => {
                let e: u64 = clamped_add(self.strike_elapsed, dt_us, STRIKE_DURATION_US);
                let pos = lerp(self.start, self.end, e, STRIKE_DURATION_US);
                if e == STRIKE_DURATION_US {
                    self.phase = Phase::Resting;
                    self.strike_elapsed = 0;
                    self.recover_elapsed = 0;
                } else {
                    self.strike_elapsed = e;
                }
                pos
            },
            Phase::Resting => {
                let r: u64 = clamped_add(self.recover_elapsed, dt_us, RECOVER_DURATION_US);
                self.recover_elapsed = r;
                lerp(self.start, self.end, RECOVER_DURATION_US - r, RECOVER_DURATION_US)
            },
        }
    }
}

/// Running `n` steps is one step followed by `n - 1` steps.
pub proof fn lemma_run_shift(h: Hammer, dt: u64, n: nat)
    requires
        n >= 1,
    ensures
        spec_run(h, dt, n) == spec_run(spec_update(h, dt, false), dt, (n - 1) as nat),
    decreases n,
{
    if n == 1 {
        assert(spec_run(h, dt, 0) == h);
        assert(spec_run(spec_update(h, dt, false), dt, 0) == spec_update(h, dt, false));
    } else {
        lemma_run_shift(h, dt, (n - 1) as nat);
        assert(spec_run(h, dt, n) == spec_update(spec_run(h, dt, (n - 1) as nat), dt, false));
    }
}

/// Law: a hammer that receives no trigger never leaves `Resting`, and
/// its identity, rest position and strike position never move.
pub proof fn lemma_resting_stays(h: Hammer, dt: u64, n: nat)
    requires
        h.wf(),
        h.phase == Phase::Resting,
    ensures
        spec_run(h, dt, n).wf(),
        spec_run(h, dt, n).phase == Phase::Resting,
        spec_run(h, dt, n).id == h.id,
        spec_run(h, dt, n).start == h.start,
        spec_run(h, dt, n).end == h.end,
    decreases n,
{
    if n > 0 {
        lemma_resting_stays(h, dt, (n - 1) as nat);
        lemma_update_preserves_wf(spec_run(h, dt, (n - 1) as nat), dt, false);
    }
}

/// Law: a striking hammer completes its strike in bounded time. Once
/// enough untriggered steps of `dt` each have run to cover the strike
/// time still owed, the hammer is back in `Resting`.
pub proof fn lemma_strike_completes(h: Hammer, dt: u64, n: nat)
    requires
        h.wf(),
        h.phase == Phase::Striking,
        0 < dt,
        n * dt >= STRIKE_DURATION_US - h.strike_elapsed,
    ensures
        spec_run(h, dt, n).wf(),
        spec_run(h, dt, n).phase == Phase::Resting,
        spec_run(h, dt, n).id == h.id,
        spec_run(h, dt, n).start == h.start,
        spec_run(h, dt, n).end == h.end,
    decreases n,
{
    lemma_mul_basics(dt as int);
    if n == 0 {
        // impossible: mid-strike time is still owed but no step runs
        assert(n * dt == 0);
    } else {
        let h1 = spec_update(h, dt, false);
        lemma_update_preserves_wf(h, dt, false);
        lemma_run_shift(h, dt, n);
        lemma_mul_is_distributive_sub_other_way(dt as int, n as int, 1);
        if h.strike_elapsed + dt >= STRIKE_DURATION_US {
            lemma_resting_stays(h1, dt, (n - 1) as nat);
        } else {
            lemma_strike_completes(h1, dt, (n - 1) as nat);
        }
    }
}

/// Law: the update on which the strike timer reaches its cap returns
/// exactly `end`, and leaves the hammer resting with both timers at
/// zero, so the recovery that follows begins at `end`.
pub proof fn lemma_strike_finish_position(h: Hammer, dt: u64)
    requires
        h.wf(),
        h.phase == Phase::Striking,
        h.strike_elapsed + dt >= STRIKE_DURATION_US,
    ensures
        spec_update(h, dt, false).phase == Phase::Resting,
        spec_update(h, dt, false).strike_elapsed == 0,
        spec_update(h, dt, false).recover_elapsed == 0,
        spec_update_pos(h, dt, false).0 == h.end.x,
        spec_update_pos(h, dt, false).1 == h.end.y,
{
    lemma_mul_frac_full(h.end.x - h.start.x, STRIKE_DURATION_US as int);
    lemma_mul_frac_full(h.end.y - h.start.y, STRIKE_DURATION_US as int);
}

/// Law: with no trigger, an update during recovery keeps the position
/// on the segment between `start` and `end` and moves it weakly toward
/// `start`, coordinate by coordinate.
pub proof fn lemma_recovery_decays(h: Hammer, dt: u64)
    requires
        h.wf(),
        h.phase == Phase::Resting,
    ensures
        ({
            let h1 = spec_update(h, dt, false);
            let p0 = spec_rest_pos(h);
            let p1 = spec_rest_pos(h1);
            &&& (h.start.x <= h.end.x ==> h.start.x <= p1.0 <= p0.0)
            &&& (h.end.x <= h.start.x ==> p0.0 <= p1.0 <= h.start.x)
            &&& (h.start.y <= h.end.y ==> h.start.y <= p1.1 <= p0.1)
            &&& (h.end.y <= h.start.y ==> p0.1 <= p1.1 <= h.start.y)
            &&& spec_update_pos(h, dt, false).0 == p1.0
            &&& spec_update_pos(h, dt, false).1 == p1.1
        }),
{
    let r0 = h.recover_elapsed;
    let r1 = spec_clamped_add(r0, dt, RECOVER_DURATION_US);
    let num0 = RECOVER_DURATION_US - r0;
    let num1 = RECOVER_DURATION_US - r1;
    lemma_mul_frac_monotone(h.end.x - h.start.x, num1, num0, RECOVER_DURATION_US as int);
    lemma_mul_frac_monotone(h.end.y - h.start.y, num1, num0, RECOVER_DURATION_US as int);
    lemma_mul_frac_bounds(h.end.x - h.start.x, num0, RECOVER_DURATION_US as int);
    lemma_mul_frac_bounds(h.end.y - h.start.y, num0, RECOVER_DURATION_US as int);
    lemma_mul_frac_bounds(h.end.x - h.start.x, num1, RECOVER_DURATION_US as int);
    lemma_mul_frac_bounds(h.end.y - h.start.y, num1, RECOVER_DURATION_US as int);
}

/// Law: with no trigger, recovery runs to saturation, and the hammer
/// then holds exactly `start`: once enough untriggered steps of `dt`
/// each have run to cover the recovery time still owed, the recovery
/// timer sits at its cap and the rest position is `start` itself.
pub proof fn lemma_recovery_reaches_start(h: Hammer, dt: u64, n: nat)
    requires
        h.wf(),
        h.phase == Phase::Resting,
        0 < dt,
        n * dt >= RECOVER_DURATION_US - h.recover_elapsed,
    ensures
        spec_run(h, dt, n).wf(),
        spec_run(h, dt, n).phase == Phase::Resting,
        spec_run(h, dt, n).recover_elapsed == RECOVER_DURATION_US,
        spec_rest_pos(spec_run(h, dt, n)).0 == h.start.x,
        spec_rest_pos(spec_run(h, dt, n)).1 == h.start.y,
    decreases n,
{
    lemma_mul_basics(dt as int);
    if n == 0 {
        assert(n * dt == 0);
        lemma_mul_frac_zero(h.end.x - h.start.x, RECOVER_DURATION_US as int);
        lemma_mul_frac_zero(h.end.y - h.start.y, RECOVER_DURATION_US as int);
    } else {
        let h1 = spec_update(h, dt, false);
        lemma_update_preserves_wf(h, dt, false);
        lemma_run_shift(h, dt, n);
        lemma_mul_is_distributive_sub_other_way(dt as int, n as int, 1);
        lemma_mul_nonnegative((n - 1) as int, dt as int);
        lemma_recovery_reaches_start(h1, dt, (n - 1) as nat);
    }
}

/// Law: a hammer whose recovery has fully run holds exactly `start`
/// and, with no trigger, its state never changes again.
pub proof fn lemma_rest_is_fixed_point(h: Hammer, dt: u64)
    requires
        h.wf(),
        h.phase == Phase::Resting,
        h.recover_elapsed == RECOVER_DURATION_US,
    ensures
        spec_update(h, dt, false) == h,
        spec_update_pos(h, dt, false).0 == h.start.x,
        spec_update_pos(h, dt, false).1 == h.start.y,
{
    lemma_mul_frac_zero(h.end.x - h.start.x, RECOVER_DURATION_US as int);
    lemma_mul_frac_zero(h.end.y - h.start.y, RECOVER_DURATION_US as int);
}

/// Law: a hammer that is not the player-controlled one produces the
/// same state and the same position whether or not a trigger arrives.
pub proof fn lemma_nontarget_ignores_trigger(h: Hammer, dt: u64)
    requires
        h.id != TARGET_HAMMER_ID,
    ensures
        spec_update(h, dt, true) == spec_update(h, dt, false),
        spec_update_pos(h, dt, true) == spec_update_pos(h, dt, false),
{
}

/// Law: a trigger observed mid-strike is ignored; there is at most one
/// active strike per hammer.
pub proof fn lemma_trigger_ignored_while_striking(h: Hammer, dt: u64)
    requires
        h.phase == Phase::Striking,
    ensures
        spec_update(h, dt, true) == spec_update(h, dt, false),
        spec_update_pos(h, dt, true) == spec_update_pos(h, dt, false),
{
}

/// Law: a trigger observed at rest by the player-controlled hammer
/// seeds the strike timer with the strike duration scaled by the
/// fraction of the recovery not yet run, so re-triggering early leaves
/// correspondingly less of the strike to run.
pub proof fn lemma_trigger_seeds_strike(h: Hammer)
    requires
        h.wf(),
        h.phase == Phase::Resting,
        h.id == TARGET_HAMMER_ID,
    ensures
        spec_after_trigger(h, true).phase == Phase::Striking,
        spec_after_trigger(h, true).strike_elapsed == (STRIKE_DURATION_US * (
        RECOVER_DURATION_US - h.recover_elapsed)) / (RECOVER_DURATION_US as int),
{
    lemma_seed_le_strike(h.recover_elapsed);
}

/// A timer value advanced by `dt` and clamped at `cap`.
fn clamped_add(e: u64, dt: u64, cap: u64) -> (r: u64)
    requires
        e <= cap,
    ensures
        r == spec_clamped_add(e, dt, cap),
{
    if dt >= cap - e {
        cap
    } else {
        e + dt
    }
}

} // verus!
