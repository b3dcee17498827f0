//! A generational genetic algorithm that steers simple ballistic agents
//! ("rockets") toward a fixed target on a 2D screen with static obstacles.
//!
//! All physics runs in fixed-point integer arithmetic: one world unit is
//! `config::SCALE` model units.  Every state change of the simulation is
//! specified by a ghost transition function and proved against it.

pub mod arith;
pub mod config;
pub mod dna;
pub mod laws;
pub mod obstacles;
pub mod population;
pub mod rng;
pub mod rocket;
