//! The population: a fixed-size set of agents, advanced tick by tick,
//! then scored, selected from, and bred into the next generation.

use vstd::prelude::*;
use crate::config::{Config, FIT_MAX};
use crate::dna::{gene_on_circle, is_crossover, DNA};
use crate::obstacles::ObstacleField;
use crate::rng::rand_below;
use crate::rocket::{done, fit_of, is_fresh, tick, RState, Rocket};

verus! {

/// The score of every agent of a generation, in agent order.
pub open spec fn fits_of(rs: Seq<Rocket>, cfg: Config) -> Seq<int> {
    Seq::new(rs.len(), |i: int| fit_of(rs[i].model(), cfg))
}

/// The largest value in `s`, but never below zero.
pub open spec fn seq_max(s: Seq<int>) -> int
    decreases s.len(),
{
    if s.len() == 0 {
        0
    } else if s.last() > seq_max(s.drop_last()) {
        s.last()
    } else {
        seq_max(s.drop_last())
    }
}

/// How often an agent with score `f` enters the selection pool when the
/// best score is `m`: its fitness relative to the best, in hundredths.
pub open spec fn weight(f: int, m: int) -> int {
    if m > 0 {
        (f * 100) / m
    } else {
        0
    }
}

/// The selection pool the scores `fits` build: index `i` repeated
/// `weight(fits[i], m)` times, indices in order.
pub open spec fn pool_spec(fits: Seq<int>, m: int, n: int) -> Seq<usize>
    decreases n,
{
    if n <= 0 {
        Seq::empty()
    } else {
        pool_spec(fits, m, n - 1) + Seq::new(weight(fits[n - 1], m) as nat, |k: int| (n - 1) as usize)
    }
}

/// The genome `child` was bred from the agents `rs` through the pool
/// `pool` by the parents `ia` and `ib` and the split `k`: both parents
/// are valid indices - pool members whenever the pool is non-empty -
/// and each gene either comes from the parent the split assigns it to
/// or was replaced by a mutation force; with mutation off, every gene
/// is exactly the parent's.
pub open spec fn bred_witness(
    child: Seq<(i64, i64)>,
    rs: Seq<Rocket>,
    pool: Seq<usize>,
    cfg: Config,
    ia: int,
    ib: int,
    k: int,
) -> bool {
    &&& 0 <= ia < rs.len()
    &&& 0 <= ib < rs.len()
    &&& pool.len() > 0 ==> pool.contains(ia as usize) && pool.contains(ib as usize)
    &&& 0 <= k < cfg.lifespan
    &&& child.len() == cfg.lifespan
    &&& forall|j: int|
        0 <= j < cfg.lifespan ==> #[trigger] child[j] == (if j < k {
            rs[ia].model().genes[j]
        } else {
            rs[ib].model().genes[j]
        }) || gene_on_circle(child[j], cfg.force_mag as int)
    &&& cfg.mutation_rate == 0 ==> forall|j: int|
        0 <= j < cfg.lifespan ==> #[trigger] child[j] == (if j < k {
            rs[ia].model().genes[j]
        } else {
            rs[ib].model().genes[j]
        })
}

/// The genome `child` is the mutated crossover of two pool-selected
/// parents from `rs`: what `evolve` promises of every child it breeds.
pub open spec fn bred_from(child: Seq<(i64, i64)>, rs: Seq<Rocket>, pool: Seq<usize>, cfg: Config) -> bool {
    exists|ia: int, ib: int, k: int| bred_witness(child, rs, pool, cfg, ia, ib, k)
}

/// How many agents of `rs` reached the goal.
pub open spec fn count_hits(rs: Seq<Rocket>) -> int
    decreases rs.len(),
{
    if rs.len() == 0 {
        0
    } else {
        count_hits(rs.drop_last()) + if rs.last().hit_target {
            1int
        } else {
            0int
        }
    }
}

/// A generation of agents, the generation counter, and the transient
/// selection pool `evaluate` rebuilds.
pub struct Population {
    pub rockets: Vec<Rocket>,
    pub generation: u64,
    pub mating_pool: Vec<usize>,
    pub cfg: Config,
}

impl Population {
    /// The invariant of a population: a valid configuration, exactly
    /// `pop_size` well-formed agents of that configuration, and a pool
    /// holding only indices into the agent collection.
    pub open spec fn wf(self) -> bool {
        &&& self.cfg.valid()
        &&& self.rockets@.len() == self.cfg.pop_size
        &&& forall|i: int|
            0 <= i < self.rockets@.len() ==> (#[trigger] self.rockets@[i]).wf()
                && self.rockets@[i].cfg == self.cfg
        &&& forall|j: int|
            0 <= j < self.mating_pool@.len() ==> (#[trigger] self.mating_pool@[j]) <
                self.rockets@.len()
    }

    /// Every agent is terminal: the driver may evaluate and evolve.
    pub open spec fn spec_all_done(self) -> bool {
        forall|i: int|
            0 <= i < self.rockets@.len() ==> done((#[trigger] self.rockets@[i]).model(), self.cfg)
    }

    /// A first generation of agents with all-zero genomes, or `None`
    /// exactly when the configuration is invalid.
    pub fn new(cfg: Config) -> (r: Option<Population>)
        ensures
            r is Some <==> cfg.valid(),
            r is Some ==> r.unwrap().wf(),
            r is Some ==> r.unwrap().cfg == cfg,
            r is Some ==> r.unwrap().generation == 1,
            r is Some ==> r.unwrap().mating_pool@.len() == 0,
            r is Some ==> forall|i: int|
                0 <= i < cfg.pop_size ==> is_fresh(
                    (#[trigger] r.unwrap().rockets@[i]).model(),
                    cfg,
                ) && forall|j: int|
                    0 <= j < cfg.lifespan ==> r.unwrap().rockets@[i].model().genes[j] == (
                    0i64,
                    0i64,
                    ),
    {
        if !cfg.check() {
            return None;
        }
        let mut rockets: Vec<Rocket> = Vec::new();
        let mut k: usize = 0;
        while k < cfg.pop_size
            invariant
                cfg.valid(),
                k <= cfg.pop_size,
                rockets@.len() == k,
                forall|i: int|
                    0 <= i < k ==> (#[trigger] rockets@[i]).wf() && rockets@[i].cfg == cfg
                        && is_fresh(rockets@[i].model(), cfg),
                forall|i: int, j: int|
                    0 <= i < k && 0 <= j < cfg.lifespan ==> (#[trigger] rockets@[i].model().genes[j])
                        == (0i64, 0i64),
            decreases cfg.pop_size - k,
        {
            let dna = DNA::new(cfg.lifespan);
            let ghost g: Seq<(i64, i64)> = dna@;
            rockets.push(Rocket::new(dna, cfg));
            proof {
                assert(rockets@[k as int].model().genes == g);
                assert(forall|j: int|
                    0 <= j < cfg.lifespan ==> (#[trigger] rockets@[k as int].model().genes[j]) == (
                    0i64,
                    0i64,
                    ));
            }
            k += 1;
        }
        Some(
            Population {
                rockets,
                generation: 1,
                mating_pool: Vec::new(),
                cfg,
            },
        )
    }

    /// Advances every agent one tick; terminal agents stay as they are.
    pub fn update(&mut self, field: &ObstacleField)
        requires
            old(self).wf(),
        ensures
            final(self).wf(),
            final(self).cfg == old(self).cfg,
            final(self).generation == old(self).generation,
            final(self).mating_pool@ == old(self).mating_pool@,
            final(self).rockets@.len() == old(self).rockets@.len(),
            forall|i: int|
                0 <= i < old(self).rockets@.len() ==> (#[trigger] final(self).rockets@[i]).model()
                    == tick(old(self).rockets@[i].model(), field@, old(self).cfg),
    {
        let n: usize = self.rockets.len();
        let mut i: usize = 0;
        while i < n
            invariant
                i <= n,
                n == self.rockets@.len() == old(self).rockets@.len(),
                self.cfg == old(self).cfg,
                self.generation == old(self).generation,
                self.mating_pool@ == old(self).mating_pool@,
                old(self).wf(),
                forall|j: int|
                    0 <= j < self.rockets@.len() ==> (#[trigger] self.rockets@[j]).wf()
                        && self.rockets@[j].cfg == self.cfg,
                forall|j: int| i <= j < n ==> self.rockets@[j] == old(self).rockets@[j],
                forall|j: int|
                    0 <= j < i ==> (#[trigger] self.rockets@[j]).model() == tick(
                        old(self).rockets@[j].model(),
                        field@,
                        old(self).cfg,
                    ),
            decreases n - i,
        {
            self.rockets[i].update(field);
            i += 1;
        }
    }

    /// Scores every agent and rebuilds the selection pool: each agent's
    /// index enters the pool once per hundredth of the best score its
    /// own score reaches.  The pool is empty exactly when every score
    /// is zero.
    pub fn evaluate(&mut self)
        requires
            old(self).wf(),
            old(self).spec_all_done(),
        ensures
            final(self).wf(),
            final(self).cfg == old(self).cfg,
            final(self).generation == old(self).generation,
            final(self).rockets@.len() == old(self).rockets@.len(),
            forall|i: int|
                0 <= i < old(self).rockets@.len() ==> (#[trigger] final(self).rockets@[i]).model()
                    == (RState {
                    fitness: fit_of(old(self).rockets@[i].model(), old(self).cfg),
                    ..old(self).rockets@[i].model()
                }),
            final(self).mating_pool@ == pool_spec(
                fits_of(old(self).rockets@, old(self).cfg),
                seq_max(fits_of(old(self).rockets@, old(self).cfg)),
                old(self).rockets@.len() as int,
            ),
    {
        let ghost fits: Seq<int> = fits_of(old(self).rockets@, old(self).cfg);
        let n: usize = self.rockets.len();
        let mut maxf: i64 = 0;
        let mut i: usize = 0;
        while i < n
            invariant
                i <= n,
                n == self.rockets@.len() == old(self).rockets@.len(),
                self.cfg == old(self).cfg,
                self.generation == old(self).generation,
                self.mating_pool@ == old(self).mating_pool@,
                old(self).wf(),
                old(self).spec_all_done(),
                fits == fits_of(old(self).rockets@, old(self).cfg),
                forall|j: int|
                    0 <= j < self.rockets@.len() ==> (#[trigger] self.rockets@[j]).wf()
                        && self.rockets@[j].cfg == self.cfg,
                forall|j: int| i <= j < n ==> self.rockets@[j] == old(self).rockets@[j],
                forall|j: int|
                    0 <= j < i ==> (#[trigger] self.rockets@[j]).model() == (RState {
                        fitness: fits[j],
                        ..old(self).rockets@[j].model()
                    }),
                0 <= maxf <= FIT_MAX,
                maxf == seq_max(fits.take(i as int)),
            decreases n - i,
        {
            proof {
                assert(fits[i as int] == fit_of(old(self).rockets@[i as int].model(), old(self).cfg));
            }
            let f: i64 = self.rockets[i].calculate_fitness();
            if f > maxf {
                maxf = f;
            }
            proof {
                assert(fits.take(i as int + 1).drop_last() =~= fits.take(i as int));
                assert(fits.take(i as int + 1).last() == fits[i as int]);
            }
            i += 1;
        }
        proof {
            assert(fits.take(n as int) =~= fits);
        }
        let ghost m: int = seq_max(fits);
        self.mating_pool = Vec::new();
        let mut i2: usize = 0;
        while i2 < n
            invariant
                i2 <= n,
                n == self.rockets@.len() == old(self).rockets@.len(),
                self.cfg == old(self).cfg,
                self.generation == old(self).generation,
                old(self).wf(),
                fits == fits_of(old(self).rockets@, old(self).cfg),
                m == seq_max(fits),
                0 <= maxf <= FIT_MAX,
                maxf == m,
                forall|j: int|
                    0 <= j < self.rockets@.len() ==> (#[trigger] self.rockets@[j]).wf()
                        && self.rockets@[j].cfg == self.cfg,
                forall|j: int|
                    0 <= j < n ==> (#[trigger] self.rockets@[j]).model() == (RState {
                        fitness: fits[j],
                        ..old(self).rockets@[j].model()
                    }),
                self.mating_pool@ == pool_spec(fits, m, i2 as int),
                forall|k: int|
                    0 <= k < self.mating_pool@.len() ==> ((#[trigger] self.mating_pool@[k]) as int)
                        < n,
            decreases n - i2,
        {
            let f: i64 = self.rockets[i2].fitness;
            proof {
                assert(f == fits[i2 as int]);
                assert(0 <= f <= FIT_MAX);
            }
            let w: i64 = if maxf > 0 {
                (((f as u64) * 100) / (maxf as u64)) as i64
            } else {
                0
            };
            proof {
                assert(w == weight(fits[i2 as int], m));
            }
            let ghost pool_before: Seq<usize> = self.mating_pool@;
            let ghost rocks: Seq<Rocket> = self.rockets@;
            let mut j: i64 = 0;
            while j < w
                invariant
                    0 <= j <= w,
                    0 <= w,
                    i2 < n,
                    self.rockets@ == rocks,
                    self.cfg == old(self).cfg,
                    self.generation == old(self).generation,
                    self.mating_pool@ == pool_before + Seq::new(j as nat, |k: int| i2),
                decreases w - j,
            {
                self.mating_pool.push(i2);
                proof {
                    assert(self.mating_pool@ =~= pool_before + Seq::new((j + 1) as nat, |k: int| i2));
                }
                j += 1;
            }
            proof {
                assert(self.mating_pool@ =~= pool_spec(fits, m, i2 as int + 1));
            }
            i2 += 1;
        }
    }

    /// A parent index, drawn uniformly from the selection pool, or -
    /// when the pool is empty because every score was zero - uniformly
    /// from the whole population.  Always a valid index.
    pub fn select_parent(&self) -> (idx: usize)
        requires
            self.wf(),
        ensures
            idx < self.rockets@.len(),
            self.mating_pool@.len() > 0 ==> self.mating_pool@.contains(idx),
    {
        if self.mating_pool.len() > 0 {
            let j: usize = rand_below(self.mating_pool.len());
            let idx: usize = self.mating_pool[j];
            proof {
                assert(self.mating_pool@[j as int] == idx);
                assert(self.mating_pool@.contains(idx));
            }
            idx
        } else {
            rand_below(self.rockets.len())
        }
    }

    /// Breeds the next generation: `pop_size` children, each the
    /// mutated crossover of two pool-selected parents, replace the old
    /// agents; the generation counter moves up by one and the stale
    /// pool is discarded.  Every child genome satisfies `bred_from`:
    /// it mixes two valid parents - pool members whenever the pool is
    /// non-empty - at some split, with only mutation forces replacing
    /// single genes, and none when the mutation rate is zero.
    pub fn evolve(&mut self)
        requires
            old(self).wf(),
            old(self).generation < u64::MAX,
        ensures
            final(self).wf(),
            final(self).cfg == old(self).cfg,
            final(self).generation == old(self).generation + 1,
            final(self).rockets@.len() == old(self).cfg.pop_size,
            final(self).mating_pool@.len() == 0,
            forall|i: int|
                0 <= i < final(self).rockets@.len() ==> is_fresh(
                    (#[trigger] final(self).rockets@[i]).model(),
                    old(self).cfg,
                ),
            forall|i: int|
                0 <= i < final(self).rockets@.len() ==> bred_from(
                    (#[trigger] final(self).rockets@[i]).model().genes,
                    old(self).rockets@,
                    old(self).mating_pool@,
                    old(self).cfg,
                ),
    {
        let cfg: Config = self.cfg;
        let mut new_rockets: Vec<Rocket> = Vec::new();
        let mut k: usize = 0;
        while k < cfg.pop_size
            invariant
                self.wf(),
                self == old(self),
                cfg == self.cfg,
                k <= cfg.pop_size,
                new_rockets@.len() == k,
                forall|i: int|
                    0 <= i < k ==> (#[trigger] new_rockets@[i]).wf() && new_rockets@[i].cfg == cfg
                        && is_fresh(new_rockets@[i].model(), cfg),
                forall|i: int|
                    0 <= i < k ==> bred_from(
                        (#[trigger] new_rockets@[i]).model().genes,
                        old(self).rockets@,
                        old(self).mating_pool@,
                        cfg,
                    ),
            decreases cfg.pop_size - k,
        {
            let ia: usize = self.select_parent();
            let ib: usize = self.select_parent();
            let mut child: DNA = self.rockets[ia].dna.crossover(&self.rockets[ib].dna);
            let ghost pre: Seq<(i64, i64)> = child@;
            let ghost pa: Seq<(i64, i64)> = self.rockets@[ia as int].dna@;
            let ghost pb: Seq<(i64, i64)> = self.rockets@[ib as int].dna@;
            child.mutate(cfg.mutation_rate, cfg.force_mag);
            let ghost bred: Seq<(i64, i64)> = child@;
            proof {
                let sp = choose|sp: int| is_crossover(pre, pa, pb, sp);
                assert(is_crossover(pre, pa, pb, sp));
                assert(bred_witness(
                    bred,
                    self.rockets@,
                    self.mating_pool@,
                    cfg,
                    ia as int,
                    ib as int,
                    sp,
                ));
                assert(bred_from(bred, self.rockets@, self.mating_pool@, cfg));
            }
            new_rockets.push(Rocket::new(child, cfg));
            proof {
                assert(new_rockets@[k as int].model().genes == bred);
            }
            k += 1;
        }
        self.rockets = new_rockets;
        self.mating_pool = Vec::new();
        self.generation = self.generation + 1;
    }

    /// Whether every agent has finished its run; the driver's cue to
    /// evaluate and evolve instead of ticking.
    pub fn all_done(&self) -> (r: bool)
        ensures
            r == self.spec_all_done(),
    {
        let n: usize = self.rockets.len();
        let mut i: usize = 0;
        while i < n
            invariant
                i <= n,
                n == self.rockets@.len(),
                forall|j: int| 0 <= j < i ==> done((#[trigger] self.rockets@[j]).model(), self.cfg),
            decreases n - i,
        {
            let r: &Rocket = &self.rockets[i];
            if !(r.hit_target || r.crashed || r.step >= self.cfg.lifespan) {
                proof {
                    assert(!done(self.rockets@[i as int].model(), self.cfg));
                }
                return false;
            }
            i += 1;
        }
        true
    }

    /// How many agents of the current generation reached the goal; the
    /// driver divides by `pop_size` for a success rate.
    pub fn calculate_success(&self) -> (r: usize)
        ensures
            r == count_hits(self.rockets@),
            r <= self.rockets@.len(),
    {
        let n: usize = self.rockets.len();
        let mut c: usize = 0;
        let mut i: usize = 0;
        while i < n
            invariant
                i <= n,
                n == self.rockets@.len(),
                c <= i,
                c == count_hits(self.rockets@.take(i as int)),
            decreases n - i,
        {
            if self.rockets[i].hit_target {
                c += 1;
            }
            proof {
                assert(self.rockets@.take(i as int + 1).drop_last() =~= self.rockets@.take(i as int));
                assert(self.rockets@.take(i as int + 1).last() == self.rockets@[i as int]);
            }
            i += 1;
        }
        proof {
            assert(self.rockets@.take(n as int) =~= self.rockets@);
        }
        c
    }
}

} // verus!
