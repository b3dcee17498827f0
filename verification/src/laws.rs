//! The properties of the simulation that relate several steps or
//! functions: terminal states are fixed points of the physics, the
//! three termination rules fire exactly when their conditions hold, and
//! a zero-genome agent falls straight down under gravity.

use vstd::prelude::*;
use vstd::arithmetic::div_mod::{lemma_div_multiples_vanish, lemma_fundamental_div_mod,
    lemma_mod_division_less_than_divisor};
use crate::arith::{snap_spec, sq_dist};
use crate::config::{Config, GRAVITY};
use crate::population::{pool_spec, seq_max, weight};
use crate::rocket::{is_fresh, tick, RState};

verus! {

/// The state `n` ticks of the physics produce from `s`.
pub open spec fn run(s: RState, obs: Set<(int, int)>, cfg: Config, n: nat) -> RState
    decreases n,
{
    if n == 0 {
        s
    } else {
        tick(run(s, obs, cfg, (n - 1) as nat), obs, cfg)
    }
}

/// The `k`-th triangle number: how far gravity alone has pulled after
/// `k` ticks, in gravity units.
pub open spec fn tri(k: int) -> int
    decreases k,
{
    if k <= 0 {
        0
    } else {
        tri(k - 1) + k
    }
}

/// The height a resting agent with no forces has fallen to after `k`
/// ticks.
pub open spec fn fall_y(y0: int, k: int) -> int {
    y0 - (GRAVITY as int) * tri(k)
}

/// A terminal agent never changes again: once `hit` or `crashed` is
/// set, every further tick is the identity.
pub proof fn lemma_terminal_frozen(s: RState, obs: Set<(int, int)>, cfg: Config)
    requires
        s.hit || s.crashed,
    ensures
        tick(s, obs, cfg) == s,
{
}

/// The terminal states are mutually exclusive: the first satisfied
/// condition wins, and the goal test runs first, so no tick ever sets
/// both `hit` and `crashed` on an agent that does not already carry
/// both.
pub proof fn lemma_terminal_exclusive(s: RState, obs: Set<(int, int)>, cfg: Config)
    requires
        !(s.hit && s.crashed),
    ensures
        !(tick(s, obs, cfg).hit && tick(s, obs, cfg).crashed),
{
}

/// Flags never revert and the tick index never moves backward: along
/// any tick, `hit` and `crashed` can only be set, and `step` can only
/// grow, by at most one and never past the genome length.
pub proof fn lemma_tick_monotone(s: RState, obs: Set<(int, int)>, cfg: Config)
    requires
        0 <= s.step,
    ensures
        s.hit ==> tick(s, obs, cfg).hit,
        s.crashed ==> tick(s, obs, cfg).crashed,
        s.step <= tick(s, obs, cfg).step <= s.step + 1,
        s.step >= cfg.lifespan ==> tick(s, obs, cfg).step == s.step,
{
}

/// An agent within the target radius reaches the goal on this tick and
/// is snapped exactly onto the target; the goal test runs first, so it
/// does not also crash, whatever the bounds or the obstacle field say.
pub proof fn lemma_goal_reached(s: RState, obs: Set<(int, int)>, cfg: Config)
    requires
        !s.hit,
        !s.crashed,
        sq_dist(s.pos.0, s.pos.1, cfg.target.0 as int, cfg.target.1 as int) < cfg.target_radius
            * cfg.target_radius,
    ensures
        tick(s, obs, cfg).hit,
        !tick(s, obs, cfg).crashed,
        tick(s, obs, cfg).pos == (cfg.target.0 as int, cfg.target.1 as int),
        tick(s, obs, cfg).vel == s.vel,
{
}

/// An agent outside the screen bounds crashes on this tick, and its
/// position and velocity integrate no further.  The distance
/// hypothesis excludes the one position where this fails: a point
/// inside the target radius reaches the goal instead, because the goal
/// test runs first.
pub proof fn lemma_out_of_bounds_crashes(s: RState, obs: Set<(int, int)>, cfg: Config)
    requires
        !s.hit,
        !s.crashed,
        sq_dist(s.pos.0, s.pos.1, cfg.target.0 as int, cfg.target.1 as int) >= cfg.target_radius
            * cfg.target_radius,
        s.pos.0 < 0 || s.pos.1 < 0 || s.pos.0 > cfg.screen_w || s.pos.1 > cfg.screen_h,
    ensures
        tick(s, obs, cfg).crashed,
        !tick(s, obs, cfg).hit,
        tick(s, obs, cfg).pos == s.pos,
        tick(s, obs, cfg).vel == s.vel,
{
}

/// An agent standing on an occupied grid cell crashes on the tick it
/// occupies that cell.
pub proof fn lemma_obstacle_crashes(s: RState, obs: Set<(int, int)>, cfg: Config)
    requires
        !s.hit,
        !s.crashed,
        sq_dist(s.pos.0, s.pos.1, cfg.target.0 as int, cfg.target.1 as int) >= cfg.target_radius
            * cfg.target_radius,
        obs.contains((snap_spec(s.pos.0), snap_spec(s.pos.1))),
    ensures
        tick(s, obs, cfg).crashed,
        !tick(s, obs, cfg).hit,
        tick(s, obs, cfg).pos == s.pos,
        tick(s, obs, cfg).vel == s.vel,
{
}

/// No score is larger than `seq_max`, which never falls below zero.
pub proof fn lemma_seq_max_bounds(fits: Seq<int>)
    ensures
        0 <= seq_max(fits),
        forall|i: int| 0 <= i < fits.len() ==> #[trigger] fits[i] <= seq_max(fits),
    decreases fits.len(),
{
    if fits.len() > 0 {
        lemma_seq_max_bounds(fits.drop_last());
        assert forall|i: int| 0 <= i < fits.len() implies #[trigger] fits[i] <= seq_max(fits) by {
            if i < fits.len() - 1 {
                assert(fits.drop_last()[i] == fits[i]);
            }
        }
    }
}

/// A positive maximum is attained by some score.
pub proof fn lemma_seq_max_attained(fits: Seq<int>)
    requires
        seq_max(fits) > 0,
    ensures
        exists|i: int| 0 <= i < fits.len() && #[trigger] fits[i] == seq_max(fits),
    decreases fits.len(),
{
    if fits.last() > seq_max(fits.drop_last()) {
        assert(fits[fits.len() - 1] == seq_max(fits));
    } else {
        lemma_seq_max_attained(fits.drop_last());
        let i = choose|i: int|
            0 <= i < fits.drop_last().len() && #[trigger] fits.drop_last()[i] == seq_max(
                fits.drop_last(),
            );
        assert(fits[i] == seq_max(fits));
    }
}

/// A pool weight is between zero and one hundred, and exactly one
/// hundred for the best score.
proof fn lemma_weight_bounds(f: int, m: int)
    requires
        0 <= f <= m,
    ensures
        0 <= weight(f, m) <= 100,
        f == m && m > 0 ==> weight(f, m) == 100,
{
    if m > 0 {
        lemma_fundamental_div_mod(f * 100, m);
        lemma_mod_division_less_than_divisor(f * 100, m);
        let q = (f * 100) / m;
        let r = (f * 100) % m;
        assert(0 <= q <= 100) by (nonlinear_arith)
            requires
                f * 100 == m * q + r,
                0 <= r < m,
                0 <= f <= m,
        ;
        if f == m {
            lemma_div_multiples_vanish(100, m);
            assert(f * 100 == m * 100);
        }
    }
}

/// The pool over the first `n` scores holds at most one hundred slots
/// per agent, and at least one hundred once a best score stands among
/// them.
proof fn lemma_pool_len_bounds(fits: Seq<int>, m: int, n: int)
    requires
        0 <= n <= fits.len(),
        forall|i: int| 0 <= i < fits.len() ==> 0 <= #[trigger] fits[i] <= m,
    ensures
        pool_spec(fits, m, n).len() <= 100 * n,
        forall|i: int|
            0 <= i < n && #[trigger] fits[i] == m && m > 0 ==> pool_spec(fits, m, n).len() >= 100,
    decreases n,
{
    if n > 0 {
        lemma_pool_len_bounds(fits, m, n - 1);
        lemma_weight_bounds(fits[n - 1], m);
        assert(pool_spec(fits, m, n).len() == pool_spec(fits, m, n - 1).len() + weight(
            fits[n - 1],
            m,
        ));
    }
}

/// The selection pool `evaluate` builds holds at most one hundred
/// slots per agent and is empty only when every score is zero.
pub proof fn lemma_pool_empty_only_if_all_zero(fits: Seq<int>)
    requires
        forall|i: int| 0 <= i < fits.len() ==> 0 <= #[trigger] fits[i],
    ensures
        pool_spec(fits, seq_max(fits), fits.len() as int).len() <= 100 * fits.len(),
        (exists|i: int| 0 <= i < fits.len() && #[trigger] fits[i] > 0) ==> pool_spec(
            fits,
            seq_max(fits),
            fits.len() as int,
        ).len() > 0,
{
    let m = seq_max(fits);
    lemma_seq_max_bounds(fits);
    lemma_pool_len_bounds(fits, m, fits.len() as int);
    if exists|i: int| 0 <= i < fits.len() && #[trigger] fits[i] > 0 {
        let i = choose|i: int| 0 <= i < fits.len() && #[trigger] fits[i] > 0;
        assert(m >= fits[i]);
        lemma_seq_max_attained(fits);
    }
}

/// A fresh agent with an all-zero genome and no obstacles falls
/// straight down under gravity: as long as the fall stays inside the
/// screen and outside the target radius, it neither crashes nor
/// reaches the goal, and its position is exactly the gravity parabola.
///
/// The hypothesis `GRAVITY * n <= max_velocity` keeps the speed
/// limiter out of the run: the accumulated fall speed stays below the
/// limit.  Without it the limiter rescales the velocity and the
/// trajectory is no longer the parabola the other hypotheses are
/// phrased over; any standard-sized configuration satisfies it.
pub proof fn lemma_zero_genome_run(s: RState, obs: Set<(int, int)>, cfg: Config, n: int)
    requires
        cfg.valid(),
        is_fresh(s, cfg),
        forall|j: int| 0 <= j < s.genes.len() ==> (#[trigger] s.genes[j]) == (0i64, 0i64),
        obs == Set::<(int, int)>::empty(),
        0 <= n <= cfg.lifespan,
        (GRAVITY as int) * n <= cfg.max_velocity,
        forall|k: int| 0 <= k <= n ==> 0 <= #[trigger] fall_y(s.pos.1, k) <= cfg.screen_h,
        forall|k: int|
            0 <= k < n ==> sq_dist(
                s.pos.0,
                fall_y(s.pos.1, k),
                cfg.target.0 as int,
                cfg.target.1 as int,
            ) >= cfg.target_radius * cfg.target_radius,
    ensures
        !run(s, obs, cfg, n as nat).hit,
        !run(s, obs, cfg, n as nat).crashed,
        run(s, obs, cfg, n as nat).pos == (s.pos.0, fall_y(s.pos.1, n)),
        run(s, obs, cfg, n as nat).vel == (0int, -(GRAVITY as int) * n),
        run(s, obs, cfg, n as nat).acc == (0int, -(GRAVITY as int)),
        run(s, obs, cfg, n as nat).step == n,
        run(s, obs, cfg, n as nat).genes == s.genes,
    decreases n,
{
    if n == 0 {
        assert(fall_y(s.pos.1, 0) == s.pos.1);
    } else {
        lemma_zero_genome_run(s, obs, cfg, n - 1);
        let sp = run(s, obs, cfg, (n - 1) as nat);
        let yp = fall_y(s.pos.1, n - 1);
        assert(sp.pos == (s.pos.0, yp));
        // The distance condition at tick n - 1 keeps the goal test false.
        assert(sq_dist(sp.pos.0, sp.pos.1, cfg.target.0 as int, cfg.target.1 as int)
            >= cfg.target_radius * cfg.target_radius);
        // Gravity accumulates linearly in the velocity and stays far
        // below both saturation and the speed limiter.
        assert((GRAVITY as int) * n <= 10_000_000);
        assert((-(GRAVITY as int) * (n - 1)) + (-(GRAVITY as int)) == -(GRAVITY as int) * n);
        let vy = -(GRAVITY as int) * n;
        assert(vy * vy <= cfg.max_velocity * cfg.max_velocity) by (nonlinear_arith)
            requires
                0 <= -vy <= cfg.max_velocity,
        ;
        assert(0int * 0int == 0) by (nonlinear_arith);
        // The new height is the next point of the parabola.
        assert(tri(n) == tri(n - 1) + n);
        assert(yp + vy == fall_y(s.pos.1, n));
        assert(0 <= fall_y(s.pos.1, n) <= cfg.screen_h);
        assert(run(s, obs, cfg, n as nat) == tick(sp, obs, cfg));
    }
}

} // verus!
