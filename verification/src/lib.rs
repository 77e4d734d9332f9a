//! An evolutionary-computation engine: populations of organisms carrying
//! fixed-shape neural-network genomes evolve across generations through
//! fitness-based selection and a bit-mask genetic crossover operator.
//!
//! Genes are carried as the raw 32-bit patterns of single-precision values:
//! crossover works on bit patterns, never on the numeric values themselves.
//! Probabilities (the mutation rate, the selection bias) are carried as
//! integer counts of millionths.

pub mod genetic;
mod rng;
pub mod snake;
