//! The organism capability set, one small trait per capability. The
//! combined contract that the population engine drives is in
//! `genetic::organism`; these single-capability traits let an embedding
//! program depend on exactly the capability it needs.

use vstd::prelude::*;

verus! {

/// Fitness reporting: a scalar ranking measure for selection.
pub trait HasFitness {
    fn get_fitness(&self) -> u64;
}

/// Sensor readout: the feature vector fed to the genome's network. Feature
/// order is fixed and must match the network's input width exactly.
pub trait HasSensors {
    fn get_sensors(&self) -> Vec<i32>;
}

/// Genetic crossover: a child of two parents, the mutation probability
/// carried in millionths.
pub trait HasGenes<T> {
    fn crossover(a: &T, b: &T, mutation_rate: u32) -> T;
}

/// Life-cycle state: alive or dead, a reset to a fresh initial condition,
/// and a cooperative kill signal consumed on the next evaluation.
pub trait HasLife {
    fn is_alive(&self) -> bool;

    fn reborn(&mut self);

    fn kill(&mut self);
}

/// Time-stepped simulation: advancing by one discrete step.
pub trait HasTimePerception {
    fn tick(&mut self);
}

} // verus!
