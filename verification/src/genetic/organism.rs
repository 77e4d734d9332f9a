//! The organism contract: the full capability set an evolvable agent must
//! satisfy to live in a population. The two spec functions give every
//! implementor a mathematical fitness and liveness, which the population
//! engine's own contracts are stated over.

use vstd::prelude::*;

use crate::genetic::algorithms::RATE_SCALE;

verus! {

/// An evolvable agent: fitness reporting, sensor readout, life-cycle state,
/// time-stepped simulation, and genetic crossover. Besides fitness and
/// liveness, every implementor names two abstractions of its own — genetic
/// equality and the pending kill signal — and a child-of predicate tying a
/// crossover child to its parents; the population engine's contracts are
/// stated over these.
pub trait Organism: Sized + Clone + Send + Default {
    /// The organism's fitness as a mathematical value.
    spec fn fitness_spec(&self) -> u64;

    /// Whether the organism is alive, as a mathematical value.
    spec fn alive_spec(&self) -> bool;

    /// Whether two organisms carry the same genetic material; transient
    /// simulation state does not enter into it.
    spec fn genes_eq(&self, other: &Self) -> bool;

    /// Whether the cooperative kill signal is pending: the organism dies
    /// at its next evaluation.
    spec fn killed_spec(&self) -> bool;

    /// Whether `child` is a crossover product of the parents `a` and `b`
    /// at the given mutation rate, with fresh transient state.
    spec fn child_spec(a: &Self, b: &Self, mutation_rate: u32, child: &Self) -> bool;

    /// Get the current fitness of an organism.
    fn get_fitness(&self) -> (r: u64)
        ensures
            r == self.fitness_spec(),
    ;

    /// Retrieves the current state of the environment of the organism.
    fn get_sensors(&self) -> Vec<i32>;

    /// Create a new organism from two parents; its genome is the genetic
    /// crossover of theirs, its transient simulation state fresh.
    fn crossover(&self, b: &Self, mutation_rate: u32) -> (r: Self)
        requires
            mutation_rate <= RATE_SCALE,
        ensures
            Self::child_spec(self, b, mutation_rate, &r),
    ;

    /// Check if this organism is alive.
    fn is_alive(&self) -> (r: bool)
        ensures
            r == self.alive_spec(),
    ;

    /// Reset this organism's transient state to a fresh initial condition;
    /// rebirth never discards learned genetics, and leaves it alive.
    fn reborn(&mut self)
        ensures
            final(self).alive_spec(),
            final(self).genes_eq(old(self)),
    ;

    /// Kill the organism on its next evaluation: a cooperative signal, not
    /// a preemptive interrupt — liveness, fitness and genetics are
    /// untouched now; the signal is consumed by the next tick.
    fn kill(&mut self)
        ensures
            final(self).killed_spec(),
            final(self).alive_spec() == old(self).alive_spec(),
            final(self).fitness_spec() == old(self).fitness_spec(),
            final(self).genes_eq(old(self)),
    ;

    /// Process the next tick. Fitness reflects accumulated performance:
    /// it never decreases while the organism lives. Genetics never change
    /// by stepping, and a pending kill signal is consumed: the organism
    /// comes out dead, whatever the step did.
    fn tick(&mut self)
        requires
            old(self).alive_spec(),
        ensures
            old(self).fitness_spec() <= final(self).fitness_spec(),
            final(self).genes_eq(old(self)),
            old(self).killed_spec() ==> !final(self).alive_spec(),
    ;
}

} // verus!
