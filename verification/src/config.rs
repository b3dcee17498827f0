//! Simulation parameters and the fixed-point model constants.
//!
//! All coordinates, velocities and forces are integers in model units:
//! `SCALE` model units make one world unit.  Squared distances are in
//! squared model units.

use vstd::prelude::*;

verus! {

/// Model units per world unit.
pub const SCALE: i64 = 1000;

/// Side length of one obstacle grid cell, in world units.
pub const CELL: i64 = 5;

/// Constant downward acceleration restored after every integration step
/// (0.1 world units per tick, in model units).
pub const GRAVITY: i64 = 100;

/// Genome forces are applied with this fixed gain.
pub const FORCE_GAIN: i64 = 2;

/// Saturation bound for position components.
pub const POS_LIMIT: i64 = 2_000_000_000;

/// Saturation bound for velocity components.
pub const VEL_LIMIT: i64 = 1_000_000_000;

/// Saturation bound for acceleration components.
pub const ACC_LIMIT: i64 = 2_000_000_000;

/// Initial value of an agent's minimal squared distance to the target;
/// larger than any squared distance the simulation can produce.
pub const DIST_INIT: i64 = 9_000_000_000_000_000_000;

/// Fitness scores are scaled by this factor so that integer division
/// keeps enough resolution for selection.
pub const FIT_SCALE: i64 = 1_000_000_000;

/// Largest fitness the formula can produce.
pub const FIT_MAX: i64 = 1_000_000_000_000;

/// Mutation rates are expressed in thousandths: `RATE_UNIT` means
/// probability one.
pub const RATE_UNIT: u64 = 1000;

/// Largest screen dimension and coordinate magnitude a configuration
/// may use, in model units.
pub const COORD_MAX: i64 = 10_000_000;

/// Largest genome length a configuration may use.
pub const LIFESPAN_MAX: usize = 100_000;

/// Largest population size a configuration may use.
pub const POP_MAX: usize = 100_000;

/// Largest force magnitude a configuration may use, in model units.
pub const FORCE_MAX: i64 = 1_000_000;

/// The parameters of one simulation run.
///
/// Positions are model units; the screen is the axis-aligned rectangle
/// from `(0, 0)` to `(screen_w, screen_h)`.
#[derive(Clone, Copy)]
pub struct Config {
    /// Number of genes in every genome; also the number of ticks an
    /// agent may fly.
    pub lifespan: usize,
    /// Number of agents in every generation.
    pub pop_size: usize,
    /// Probability, in thousandths, that a gene is replaced during
    /// mutation.
    pub mutation_rate: u64,
    /// Magnitude of a mutated force vector, in model units.
    pub force_mag: i64,
    /// Speed bound used by the velocity limiter, in model units.
    pub max_velocity: i64,
    /// Where every agent starts.
    pub start: (i64, i64),
    /// The goal position.
    pub target: (i64, i64),
    /// An agent within this distance of the target has reached it.
    pub target_radius: i64,
    /// Screen width in model units.
    pub screen_w: i64,
    /// Screen height in model units.
    pub screen_h: i64,
}

impl Config {
    /// A configuration the simulation is defined for: positive sizes,
    /// everything within the bounds the fixed-point arithmetic needs.
    pub open spec fn valid(self) -> bool {
        &&& 1 <= self.lifespan <= LIFESPAN_MAX
        &&& 1 <= self.pop_size <= POP_MAX
        &&& self.mutation_rate <= RATE_UNIT
        &&& 1 <= self.force_mag <= FORCE_MAX
        &&& 1 <= self.max_velocity <= VEL_LIMIT
        &&& 0 <= self.screen_w <= COORD_MAX
        &&& 0 <= self.screen_h <= COORD_MAX
        &&& 0 <= self.start.0 <= self.screen_w
        &&& 0 <= self.start.1 <= self.screen_h
        &&& 0 <= self.target.0 <= self.screen_w
        &&& 0 <= self.target.1 <= self.screen_h
        &&& 0 <= self.target_radius <= COORD_MAX
    }

    /// Runtime test for `valid`, used to reject a bad configuration
    /// before a population is built.
    pub fn check(&self) -> (r: bool)
        ensures
            r == self.valid(),
    {
        1 <= self.lifespan && self.lifespan <= LIFESPAN_MAX
            && 1 <= self.pop_size && self.pop_size <= POP_MAX
            && self.mutation_rate <= RATE_UNIT
            && 1 <= self.force_mag && self.force_mag <= FORCE_MAX
            && 1 <= self.max_velocity && self.max_velocity <= VEL_LIMIT
            && 0 <= self.screen_w && self.screen_w <= COORD_MAX
            && 0 <= self.screen_h && self.screen_h <= COORD_MAX
            && 0 <= self.start.0 && self.start.0 <= self.screen_w
            && 0 <= self.start.1 && self.start.1 <= self.screen_h
            && 0 <= self.target.0 && self.target.0 <= self.screen_w
            && 0 <= self.target.1 && self.target.1 <= self.screen_h
            && 0 <= self.target_radius && self.target_radius <= COORD_MAX
    }

    /// The default run: an 800 x 600 world-unit screen, agents launched
    /// near the bottom toward a target near the top.
    pub fn standard() -> (r: Config)
        ensures
            r.valid(),
    {
        Config {
            lifespan: 200,
            pop_size: 50,
            mutation_rate: 10,
            force_mag: 300,
            max_velocity: 60_000,
            start: (400_000, 550_000),
            target: (400_000, 100_000),
            target_radius: 20_000,
            screen_w: 800_000,
            screen_h: 600_000,
        }
    }
}

} // verus!
