//! One agent: a particle with a genome, stepped by a discrete-time
//! physics rule until it reaches the goal, crashes, or runs out of
//! genes.  The executable step is proved equal to the ghost transition
//! function `tick`.

use vstd::prelude::*;
use vstd::arithmetic::div_mod::{lemma_fundamental_div_mod, lemma_mod_division_less_than_divisor};
use crate::arith::{clamp, dist_sq, ratio_of, sat_add, sat_force, scale_comp, snap_coord, snap_spec,
    sq_dist, speed_sq, tdiv};
use crate::config::{Config, ACC_LIMIT, COORD_MAX, DIST_INIT, FIT_MAX, FIT_SCALE, GRAVITY,
    POS_LIMIT, SCALE, VEL_LIMIT};
use crate::dna::DNA;
use crate::obstacles::ObstacleField;

verus! {

/// The mathematical state of one agent.
pub ghost struct RState {
    pub pos: (int, int),
    pub vel: (int, int),
    pub acc: (int, int),
    pub genes: Seq<(i64, i64)>,
    pub min_d: int,
    pub fitness: int,
    pub hit: bool,
    pub crashed: bool,
    pub step: int,
}

/// A terminal agent: it reached the goal, crashed, or exhausted its
/// genome.
pub open spec fn done(s: RState, cfg: Config) -> bool {
    s.hit || s.crashed || s.step >= cfg.lifespan
}

/// One tick of the physics, applied only to flying agents, in this
/// order: goal test (which snaps the position onto the target), screen
/// bounds test, obstacle test, genome force application, and - only if
/// still neither at the goal nor crashed - velocity and position
/// integration with the excess-ratio speed limiter.  The first
/// satisfied termination condition wins: once the goal test fires,
/// the crash tests are skipped, so the terminal states are mutually
/// exclusive.
pub open spec fn tick(s: RState, obs: Set<(int, int)>, cfg: Config) -> RState {
    if s.hit || s.crashed {
        s
    } else {
        let d: int = sq_dist(s.pos.0, s.pos.1, cfg.target.0 as int, cfg.target.1 as int);
        let hit2: bool = d < cfg.target_radius * cfg.target_radius;
        let pos1: (int, int) = if hit2 {
            (cfg.target.0 as int, cfg.target.1 as int)
        } else {
            s.pos
        };
        let min2: int = if d < s.min_d {
            d
        } else {
            s.min_d
        };
        let oob: bool = pos1.0 < 0 || pos1.1 < 0 || pos1.0 > cfg.screen_w || pos1.1 > cfg.screen_h;
        let crashed2: bool = !hit2 && (oob || obs.contains((snap_spec(pos1.0), snap_spec(pos1.1))));
        let acc1: (int, int) = if s.step < cfg.lifespan {
            let g: (i64, i64) = s.genes[s.step];
            (clamp(s.acc.0 + 2 * g.0, ACC_LIMIT as int), clamp(s.acc.1 + 2 * g.1, ACC_LIMIT as int))
        } else {
            s.acc
        };
        let step2: int = if s.step < cfg.lifespan {
            s.step + 1
        } else {
            s.step
        };
        if !hit2 && !crashed2 {
            let v1: (int, int) = (
                clamp(s.vel.0 + acc1.0, VEL_LIMIT as int),
                clamp(s.vel.1 + acc1.1, VEL_LIMIT as int),
            );
            let sp: int = v1.0 * v1.0 + v1.1 * v1.1;
            let v2: (int, int) = if sp > cfg.max_velocity * cfg.max_velocity {
                let ratio: int = sp / (cfg.max_velocity as int);
                (
                    clamp(tdiv(v1.0 * ratio, SCALE as int), VEL_LIMIT as int),
                    clamp(tdiv(v1.1 * ratio, SCALE as int), VEL_LIMIT as int),
                )
            } else {
                v1
            };
            let pos2: (int, int) = (
                clamp(pos1.0 + v2.0, POS_LIMIT as int),
                clamp(pos1.1 + v2.1, POS_LIMIT as int),
            );
            RState {
                pos: pos2,
                vel: v2,
                acc: (0, -(GRAVITY as int)),
                genes: s.genes,
                min_d: min2,
                fitness: s.fitness,
                hit: false,
                crashed: false,
                step: step2,
            }
        } else {
            RState {
                pos: pos1,
                vel: s.vel,
                acc: acc1,
                genes: s.genes,
                min_d: min2,
                fitness: s.fitness,
                hit: hit2,
                crashed: crashed2,
                step: step2,
            }
        }
    }
}

/// The score of a finished agent: a big, early-arrival-weighted bonus
/// for goal hits; otherwise the inverse of the closest squared
/// approach, scaled down for late approaches and halved after a crash.
/// All divisions truncate; operands are nonnegative.
pub open spec fn fitness_spec(hit: bool, crashed: bool, step: int, min_d: int, lifespan: int) -> int {
    if hit {
        (1000 * (FIT_SCALE as int)) / (step + 1)
    } else {
        let s2: int = (SCALE as int) * (SCALE as int);
        let base: int = ((FIT_SCALE as int) * s2) / (min_d + s2);
        let timed: int = (base * lifespan) / (step + lifespan);
        if crashed {
            timed / 2
        } else {
            timed
        }
    }
}

/// `fitness_spec` over a state and its configuration.
pub open spec fn fit_of(s: RState, cfg: Config) -> int {
    fitness_spec(s.hit, s.crashed, s.step, s.min_d, cfg.lifespan as int)
}

/// The state every agent of a new generation starts in: at the start
/// position, at rest, with gravity loaded and nothing scored.
pub open spec fn is_fresh(s: RState, cfg: Config) -> bool {
    &&& s.pos == (cfg.start.0 as int, cfg.start.1 as int)
    &&& s.vel == (0int, 0int)
    &&& s.acc == (0int, -(GRAVITY as int))
    &&& s.genes.len() == cfg.lifespan
    &&& s.min_d == DIST_INIT as int
    &&& s.fitness == 0
    &&& !s.hit
    &&& !s.crashed
    &&& s.step == 0
}

/// Nonnegative division never exceeds a bound the numerator respects:
/// if `a <= c * d` then `a / d <= c`.
proof fn lemma_div_le(a: int, d: int, c: int)
    requires
        0 <= a,
        1 <= d,
        0 <= c,
        a <= c * d,
    ensures
        0 <= a / d <= c,
{
    lemma_fundamental_div_mod(a, d);
    lemma_mod_division_less_than_divisor(a, d);
    let q = a / d;
    let r = a % d;
    assert(0 <= q && q <= c) by (nonlinear_arith)
        requires
            a == d * q + r,
            0 <= r < d,
            0 <= a,
            a <= c * d,
            1 <= d,
            0 <= c,
    ;
}

/// Executable form of `fitness_spec`, with the range of the score.
pub fn fitness_calc(hit: bool, crashed: bool, step: usize, min_d: i64, lifespan: usize) -> (r: i64)
    requires
        0 <= min_d <= DIST_INIT,
        1 <= lifespan <= crate::config::LIFESPAN_MAX,
        step <= lifespan,
    ensures
        r == fitness_spec(hit, crashed, step as int, min_d as int, lifespan as int),
        0 <= r <= FIT_MAX,
{
    if hit {
        let q: u64 = 1_000_000_000_000u64 / (step as u64 + 1);
        proof {
            lemma_div_le(1_000_000_000_000, step as int + 1, 1_000_000_000_000);
        }
        q as i64
    } else {
        let dn: u64 = min_d as u64 + 1_000_000;
        let base: u64 = 1_000_000_000_000_000u64 / dn;
        proof {
            lemma_div_le(1_000_000_000_000_000, dn as int, 1_000_000_000);
        }
        proof {
            assert(base * lifespan <= 100_000_000_000_000) by (nonlinear_arith)
                requires
                    0 <= base <= 1_000_000_000,
                    0 <= lifespan <= 100_000,
            ;
        }
        let num: u64 = base * (lifespan as u64);
        let timed: u64 = num / (step as u64 + lifespan as u64);
        proof {
            assert(num <= base * (step as int + lifespan as int)) by (nonlinear_arith)
                requires
                    num == base * lifespan,
                    0 <= base,
                    0 <= step,
                    1 <= lifespan,
            ;
            lemma_div_le(num as int, step as int + lifespan as int, base as int);
        }
        if crashed {
            (timed / 2) as i64
        } else {
            timed as i64
        }
    }
}

/// One simulated particle: physics state, its genome, and the flags and
/// score the genetic algorithm reads.
pub struct Rocket {
    pub min_distance: i64,
    pub position: (i64, i64),
    pub velocity: (i64, i64),
    pub acceleration: (i64, i64),
    pub dna: DNA,
    pub fitness: i64,
    pub hit_target: bool,
    pub crashed: bool,
    pub step: usize,
    pub cfg: Config,
}

impl Rocket {
    /// The agent's mathematical state.
    pub open spec fn model(self) -> RState {
        RState {
            pos: (self.position.0 as int, self.position.1 as int),
            vel: (self.velocity.0 as int, self.velocity.1 as int),
            acc: (self.acceleration.0 as int, self.acceleration.1 as int),
            genes: self.dna@,
            min_d: self.min_distance as int,
            fitness: self.fitness as int,
            hit: self.hit_target,
            crashed: self.crashed,
            step: self.step as int,
        }
    }

    /// The bounds every agent keeps for its whole life: a valid
    /// configuration, a full-length genome, and all physics quantities
    /// inside their saturation limits.
    pub open spec fn wf(self) -> bool {
        &&& self.cfg.valid()
        &&& self.dna@.len() == self.cfg.lifespan
        &&& -POS_LIMIT <= self.position.0 <= POS_LIMIT
        &&& -POS_LIMIT <= self.position.1 <= POS_LIMIT
        &&& -VEL_LIMIT <= self.velocity.0 <= VEL_LIMIT
        &&& -VEL_LIMIT <= self.velocity.1 <= VEL_LIMIT
        &&& -ACC_LIMIT <= self.acceleration.0 <= ACC_LIMIT
        &&& -ACC_LIMIT <= self.acceleration.1 <= ACC_LIMIT
        &&& 0 <= self.min_distance <= DIST_INIT
        &&& 0 <= self.fitness <= FIT_MAX
        &&& self.step <= self.cfg.lifespan
    }

    /// A fresh agent at the start position with the given genome.
    pub fn new(dna: DNA, cfg: Config) -> (r: Rocket)
        requires
            cfg.valid(),
            dna@.len() == cfg.lifespan,
        ensures
            r.wf(),
            r.cfg == cfg,
            is_fresh(r.model(), cfg),
            r.model().genes == dna@,
    {
        Rocket {
            min_distance: DIST_INIT,
            position: cfg.start,
            velocity: (0, 0),
            acceleration: (0, -GRAVITY),
            dna,
            fitness: 0,
            hit_target: false,
            crashed: false,
            step: 0,
            cfg,
        }
    }

    /// One tick: exactly the transition `tick` describes, against the
    /// given obstacle field.  Terminal agents do not change.
    pub fn update(&mut self, field: &ObstacleField)
        requires
            old(self).wf(),
        ensures
            final(self).wf(),
            final(self).cfg == old(self).cfg,
            final(self).model() == tick(old(self).model(), field@, old(self).cfg),
    {
        if self.hit_target || self.crashed {
            return ;
        }
        let cfg: Config = self.cfg;
        let d: i64 = dist_sq(self.position.0, self.position.1, cfg.target.0, cfg.target.1);
        proof {
            assert(cfg.target_radius * cfg.target_radius <= 100_000_000_000_000) by (nonlinear_arith)
                requires
                    0 <= cfg.target_radius <= COORD_MAX,
            ;
        }
        let rad2: i64 = cfg.target_radius * cfg.target_radius;
        let hit2: bool = d < rad2;
        if hit2 {
            self.position = cfg.target;
            self.hit_target = true;
        }
        if d < self.min_distance {
            self.min_distance = d;
        }
        let oob: bool = self.position.0 < 0 || self.position.1 < 0 || self.position.0 > cfg.screen_w
            || self.position.1 > cfg.screen_h;
        let cx: i64 = snap_coord(self.position.0);
        let cy: i64 = snap_coord(self.position.1);
        if !self.hit_target && (oob || field.contains(cx, cy)) {
            self.crashed = true;
        }
        if self.step < cfg.lifespan {
            let g: (i64, i64) = self.dna.genes[self.step];
            self.acceleration.0 = sat_force(self.acceleration.0, g.0, ACC_LIMIT);
            self.acceleration.1 = sat_force(self.acceleration.1, g.1, ACC_LIMIT);
            self.step = self.step + 1;
        }
        if !self.hit_target && !self.crashed {
            let vx: i64 = sat_add(self.velocity.0, self.acceleration.0, VEL_LIMIT);
            let vy: i64 = sat_add(self.velocity.1, self.acceleration.1, VEL_LIMIT);
            let sp: i64 = speed_sq(vx, vy);
            proof {
                assert(cfg.max_velocity * cfg.max_velocity <= 1_000_000_000_000_000_000)
                    by (nonlinear_arith)
                    requires
                        1 <= cfg.max_velocity <= VEL_LIMIT,
                ;
            }
            let mv2: i64 = cfg.max_velocity * cfg.max_velocity;
            if sp > mv2 {
                let ratio: i64 = ratio_of(sp, cfg.max_velocity);
                self.velocity.0 = scale_comp(vx, ratio);
                self.velocity.1 = scale_comp(vy, ratio);
            } else {
                self.velocity.0 = vx;
                self.velocity.1 = vy;
            }
            self.position.0 = sat_add(self.position.0, self.velocity.0, POS_LIMIT);
            self.position.1 = sat_add(self.position.1, self.velocity.1, POS_LIMIT);
            self.acceleration = (0, -GRAVITY);
        }
    }

    /// Computes, stores and returns the agent's score; only meaningful
    /// (and only callable) once the agent is done.
    pub fn calculate_fitness(&mut self) -> (r: i64)
        requires
            old(self).wf(),
            done(old(self).model(), old(self).cfg),
        ensures
            final(self).wf(),
            final(self).cfg == old(self).cfg,
            r == fit_of(old(self).model(), old(self).cfg),
            0 <= r <= FIT_MAX,
            final(self).fitness == r,
            final(self).model() == (RState { fitness: r as int, ..old(self).model() }),
    {
        let f: i64 = fitness_calc(
            self.hit_target,
            self.crashed,
            self.step,
            self.min_distance,
            self.cfg.lifespan,
        );
        self.fitness = f;
        f
    }
}

} // verus!
