//! The evolutionary engine: genetic crossover operators, genomes, the
//! organism capability contract, and the population lifecycle.

pub mod algorithms;
pub mod dyadic;
pub mod genome;
pub mod organism;
pub mod population;
pub mod traits;
