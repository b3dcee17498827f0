//! Genomes: fixed-length sequences of 2D force vectors, with single-point
//! crossover and per-gene mutation.

use vstd::prelude::*;
use vstd::arithmetic::div_mod::{lemma_div_is_ordered, lemma_div_multiples_vanish,
    lemma_fundamental_div_mod, lemma_mod_division_less_than_divisor};
use crate::config::FORCE_MAX;
use crate::rng::rand_below;

verus! {

/// A genome: one force vector per simulation tick.
#[derive(Clone)]
pub struct DNA {
    pub genes: Vec<(i64, i64)>,
}

impl View for DNA {
    type V = Seq<(i64, i64)>;

    open spec fn view(&self) -> Seq<(i64, i64)> {
        self.genes@
    }
}

/// A force vector produced by mutation: each component bounded by the
/// force magnitude `f`, the squared magnitude within the rounding
/// slack of `f * f`, and never the zero vector.
pub open spec fn gene_on_circle(g: (i64, i64), f: int) -> bool {
    &&& -f <= g.0 <= f
    &&& -f <= g.1 <= f
    &&& f * f - 4 * f <= g.0 * g.0 + g.1 * g.1 <= f * f
    &&& 1 <= g.0 * g.0 + g.1 * g.1
}

/// `child` is the single-point crossover of `a` and `b` at `k`.
pub open spec fn is_crossover(child: Seq<(i64, i64)>, a: Seq<(i64, i64)>, b: Seq<(i64, i64)>, k: int) -> bool {
    &&& 0 <= k < a.len()
    &&& child.len() == a.len()
    &&& forall|i: int| 0 <= i < k ==> child[i] == a[i]
    &&& forall|i: int| k <= i < a.len() ==> child[i] == b[i]
}

/// How a quotient of nonnegative numbers relates to its inputs; the
/// facts the circle-point rounding argument needs.
proof fn lemma_div_bounds(a: int, d: int, f: int, q: int)
    requires
        0 <= a,
        1 <= d,
        0 <= f,
        a <= f * d,
        q == a / d,
    ensures
        0 <= q <= f,
        q * d <= a,
        a * a - 2 * f * (d * d) <= (q * d) * (q * d) <= a * a,
{
    lemma_fundamental_div_mod(a, d);
    lemma_mod_division_less_than_divisor(a, d);
    let r = a % d;
    assert(a == d * q + r);
    assert(0 <= r < d);
    assert(0 <= q) by (nonlinear_arith)
        requires
            a == d * q + r,
            0 <= a,
            0 <= r < d,
            1 <= d,
    ;
    assert(q <= f) by (nonlinear_arith)
        requires
            a == d * q + r,
            a <= f * d,
            0 <= r,
            1 <= d,
            0 <= f,
    ;
    assert(q * d <= a) by (nonlinear_arith)
        requires
            a == d * q + r,
            0 <= r,
    ;
    assert((q * d) * (q * d) <= a * a) by (nonlinear_arith)
        requires
            0 <= q * d <= a,
    ;
    assert(a * a - 2 * f * (d * d) <= (q * d) * (q * d)) by (nonlinear_arith)
        requires
            a == d * q + r,
            0 <= r < d,
            0 <= a <= f * d,
            1 <= d,
            0 <= f,
    ;
}

/// The rational circle point `(f * (f^2 - t^2) / (f^2 + t^2),
/// 2 f^2 t / (f^2 + t^2))` has magnitude `f` up to rounding: the pair of
/// truncated quotients lands within `gene_on_circle`'s band.
proof fn lemma_circle_point(f: int, t: int, d: int, a: int, b: int, ux: int, uy: int)
    requires
        1 <= f,
        0 <= t <= f,
        d == f * f + t * t,
        a == f * (f * f - t * t),
        b == 2 * (f * f) * t,
        ux == a / d,
        uy == b / d,
    ensures
        0 <= ux <= f,
        0 <= uy <= f,
        f * f - 4 * f <= ux * ux + uy * uy <= f * f,
        1 <= ux * ux + uy * uy,
{
    let u = f * f;
    let v = t * t;
    assert(1 <= d && 0 <= a && 0 <= b && a <= f * d && b <= f * d && 0 <= u) by (nonlinear_arith)
        requires
            1 <= f,
            0 <= t <= f,
            d == f * f + t * t,
            a == f * (f * f - t * t),
            b == 2 * (f * f) * t,
            u == f * f,
    ;
    lemma_div_bounds(a, d, f, ux);
    lemma_div_bounds(b, d, f, uy);
    // a^2 + b^2 == f^2 d^2 exactly: the point lies on the circle.
    assert(a * a + b * b == u * (d * d)) by (nonlinear_arith)
        requires
            d == u + v,
            a == f * (u - v),
            b == 2 * u * t,
            u == f * f,
            v == t * t,
    ;
    assert((ux * d) * (ux * d) == (ux * ux) * (d * d)) by (nonlinear_arith);
    assert((uy * d) * (uy * d) == (uy * uy) * (d * d)) by (nonlinear_arith);
    assert(f * f - 4 * f <= ux * ux + uy * uy) by (nonlinear_arith)
        requires
            (a * a) - 2 * f * (d * d) <= (ux * ux) * (d * d),
            (b * b) - 2 * f * (d * d) <= (uy * uy) * (d * d),
            a * a + b * b == (f * f) * (d * d),
            1 <= d,
    ;
    assert(ux * ux + uy * uy <= f * f) by (nonlinear_arith)
        requires
            (ux * ux) * (d * d) <= a * a,
            (uy * uy) * (d * d) <= b * b,
            a * a + b * b == (f * f) * (d * d),
            1 <= d,
    ;
    // The point is never the zero vector: at t == 0 the x component is
    // exactly f, and for t >= 1 the numerator of the y component is at
    // least the denominator.
    if t == 0 {
        assert(a == d * f) by (nonlinear_arith)
            requires
                a == f * (f * f - t * t),
                d == f * f + t * t,
                t == 0,
        ;
        lemma_div_multiples_vanish(f, d);
        assert(ux == f);
    } else {
        assert(b >= d) by (nonlinear_arith)
            requires
                b == 2 * (f * f) * t,
                d == f * f + t * t,
                1 <= t <= f,
                1 <= f,
        ;
        lemma_div_is_ordered(d, b, d);
        lemma_div_multiples_vanish(1, d);
        assert(d * 1 == d);
        assert(uy >= 1);
    }
    assert(1 <= ux * ux + uy * uy) by (nonlinear_arith)
        requires
            0 <= ux,
            0 <= uy,
            1 <= ux || 1 <= uy,
    ;
}

/// A force vector of magnitude `f` (up to rounding) in a random
/// direction, drawn from the rational parametrization of the circle:
/// `t` picks a point on the right half, a coin flip mirrors it left.
fn random_force(f: i64) -> (g: (i64, i64))
    requires
        1 <= f <= FORCE_MAX,
    ensures
        gene_on_circle(g, f as int),
{
    let span: usize = (2 * f + 1) as usize;
    let draw: usize = rand_below(span);
    let t: i64 = draw as i64 - f;
    let flip: bool = rand_below(2) == 1;
    let tm: u64 = if t < 0 {
        (-t) as u64
    } else {
        t as u64
    };
    let fu: u64 = f as u64;
    assert(1 <= fu * fu <= 1_000_000_000_000 && tm * tm <= fu * fu) by (nonlinear_arith)
        requires
            0 <= tm <= fu,
            1 <= fu <= 1_000_000,
    ;
    let d: u64 = fu * fu + tm * tm;
    assert(fu * (fu * fu - tm * tm) <= 1_000_000_000_000_000_000 && 2 * (fu * fu) * tm
        <= 2_000_000_000_000_000_000) by (nonlinear_arith)
        requires
            0 <= tm <= fu <= 1_000_000,
    ;
    let a: u64 = fu * (fu * fu - tm * tm);
    let b: u64 = 2 * (fu * fu) * tm;
    let ux: u64 = a / d;
    let uy: u64 = b / d;
    proof {
        lemma_circle_point(f as int, tm as int, d as int, a as int, b as int, ux as int, uy as int);
    }
    let px: i64 = ux as i64;
    let py: i64 = uy as i64;
    let gx: i64 = if flip {
        -px
    } else {
        px
    };
    let sy: i64 = if t < 0 {
        -py
    } else {
        py
    };
    let gy: i64 = if flip {
        -sy
    } else {
        sy
    };
    proof {
        assert(gx * gx == px * px && gy * gy == py * py) by (nonlinear_arith)
            requires
                gx == px || gx == -px,
                gy == py || gy == -py,
        ;
    }
    (gx, gy)
}

impl DNA {
    /// A genome of `lifespan` zero forces: the initial generation.
    pub fn new(lifespan: usize) -> (d: DNA)
        ensures
            d@.len() == lifespan,
            forall|i: int| 0 <= i < lifespan ==> d@[i] == (0i64, 0i64),
    {
        let mut genes: Vec<(i64, i64)> = Vec::new();
        let mut k: usize = 0;
        while k < lifespan
            invariant
                k <= lifespan,
                genes@.len() == k,
                forall|i: int| 0 <= i < k ==> genes@[i] == (0i64, 0i64),
            decreases lifespan - k,
        {
            genes.push((0i64, 0i64));
            k += 1;
        }
        DNA { genes }
    }

    /// The child genome with `self`'s genes below `k` and `partner`'s
    /// genes at and above `k`.  Deterministic; `crossover` supplies the
    /// random split.
    pub fn crossover_at(&self, partner: &DNA, k: usize) -> (child: DNA)
        requires
            self@.len() == partner@.len(),
            k < self@.len(),
        ensures
            is_crossover(child@, self@, partner@, k as int),
    {
        let n: usize = self.genes.len();
        let mut genes: Vec<(i64, i64)> = Vec::new();
        let mut i: usize = 0;
        while i < n
            invariant
                i <= n,
                n == self@.len() == partner@.len(),
                k < n,
                genes@.len() == i,
                forall|j: int| 0 <= j < i && j < k ==> genes@[j] == self@[j],
                forall|j: int| k <= j < i ==> genes@[j] == partner@[j],
            decreases n - i,
        {
            if i < k {
                genes.push(self.genes[i]);
            } else {
                genes.push(partner.genes[i]);
            }
            i += 1;
        }
        DNA { genes }
    }

    /// Single-point crossover at a uniformly random split index.
    /// Neither parent changes; the child mixes them at some split.
    pub fn crossover(&self, partner: &DNA) -> (child: DNA)
        requires
            self@.len() == partner@.len(),
            1 <= self@.len(),
        ensures
            child@.len() == self@.len(),
            exists|k: int| is_crossover(child@, self@, partner@, k),
    {
        let k: usize = rand_below(self.genes.len());
        let child = self.crossover_at(partner, k);
        proof {
            assert(is_crossover(child@, self@, partner@, k as int));
        }
        child
    }

    /// Replaces each gene independently, with probability
    /// `rate / RATE_UNIT`, by a fresh force of magnitude `force_mag` in
    /// a random direction; all other genes stay as they are.
    pub fn mutate(&mut self, rate: u64, force_mag: i64)
        requires
            rate <= crate::config::RATE_UNIT,
            1 <= force_mag <= FORCE_MAX,
        ensures
            final(self)@.len() == old(self)@.len(),
            forall|i: int|
                0 <= i < old(self)@.len() ==> final(self)@[i] == old(self)@[i]
                    || gene_on_circle(final(self)@[i], force_mag as int),
            rate == 0 ==> final(self)@ == old(self)@,
            rate >= crate::config::RATE_UNIT ==> forall|i: int|
                0 <= i < old(self)@.len() ==> gene_on_circle(final(self)@[i], force_mag as int),
    {
        let n: usize = self.genes.len();
        let mut i: usize = 0;
        while i < n
            invariant
                i <= n,
                1 <= force_mag <= FORCE_MAX,
                self@.len() == n == old(self)@.len(),
                forall|j: int| i <= j < n ==> self@[j] == old(self)@[j],
                forall|j: int|
                    0 <= j < i ==> self@[j] == old(self)@[j]
                        || gene_on_circle(self@[j], force_mag as int),
                rate == 0 ==> forall|j: int| 0 <= j < i ==> self@[j] == old(self)@[j],
                rate >= crate::config::RATE_UNIT ==> forall|j: int|
                    0 <= j < i ==> gene_on_circle(self@[j], force_mag as int),
            decreases n - i,
        {
            let roll: usize = rand_below(crate::config::RATE_UNIT as usize);
            if (roll as u64) < rate {
                let g: (i64, i64) = random_force(force_mag);
                self.genes[i] = g;
            }
            i += 1;
        }
        proof {
            if rate == 0 {
                assert(self@ =~= old(self)@);
            }
        }
    }
}

} // verus!
