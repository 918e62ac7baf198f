//! Simulated annealing: a sequential minimizer (eager and lazy) and a
//! data-parallel batched minimizer, with the Metropolis acceptance rule.
//!
//! Energies, temperatures and the Boltzmann constant are IEEE-754 binary32
//! values carried by their bit patterns ([`binary32::Binary32`]); the library
//! decides on them through the exact ordering of that format.

pub mod acceptance;
pub mod binary32;
pub mod parsa;
pub mod rng;
pub mod seqsa;
