//! The population lifecycle: construction, concurrent ticking and its
//! aggregates, exhaustion, and the evolution step.

use evosnake::genetic::algorithms::GeneticCrossover;
use evosnake::genetic::organism::Organism;
use evosnake::genetic::population::{
    sort_by_fitness, Population, MUTATION_RATE_INITIAL, MUTATION_RATE_MAX, MUTATION_RATE_MIN,
};

/// A minimal organism for driving the engine: it lives for exactly three
/// ticks after each rebirth, gaining one fitness per tick. A
/// default-constructed one is dead, as a default organism's transient
/// state starts unset; only rebirth brings it to life.
#[derive(Clone, Default)]
struct Runner {
    genes: Vec<u32>,
    fitness: u64,
    alive: bool,
    ticks_left: u32,
}

impl Organism for Runner {
    fn fitness_spec(&self) -> u64 {
        self.fitness
    }

    fn alive_spec(&self) -> bool {
        self.alive
    }

    fn genes_eq(&self, other: &Self) -> bool {
        self.genes == other.genes
    }

    fn killed_spec(&self) -> bool {
        self.ticks_left <= 1
    }

    fn child_spec(a: &Self, b: &Self, _mutation_rate: u32, child: &Self) -> bool {
        child.genes.len() == a.genes.len() && child.genes.len() == b.genes.len()
    }

    fn get_fitness(&self) -> u64 {
        self.fitness
    }

    fn get_sensors(&self) -> Vec<i32> {
        vec![self.fitness as i32]
    }

    fn crossover(&self, b: &Self, mutation_rate: u32) -> Self {
        Runner { genes: self.genes.crossover(&b.genes, mutation_rate), ..Runner::default() }
    }

    fn is_alive(&self) -> bool {
        self.alive
    }

    fn reborn(&mut self) {
        self.fitness = 0;
        self.alive = true;
        self.ticks_left = 3;
    }

    fn kill(&mut self) {
        self.ticks_left = 1;
    }

    fn tick(&mut self) {
        self.fitness += 1;
        self.ticks_left -= 1;
        if self.ticks_left == 0 {
            self.alive = false;
        }
    }
}

#[test]
fn new_population_starts_zeroed() {
    let population: Population<Runner> = Population::new(10);
    assert_eq!(population.get_capacity(), 10);
    assert_eq!(population.get_genomes().len(), 10);
    assert_eq!(population.generation, 0);
    assert_eq!(population.mutation_rate, MUTATION_RATE_INITIAL);
    assert_eq!(population.alive_genomes_count, 0);
    assert_eq!(population.max_fitness_current, 0);
    assert_eq!(population.max_fitness_prev, 0);
}

#[test]
fn exhausted_population_evolves_to_full_capacity() {
    // Ten organisms that are dead from the very first tick: one tick shows
    // the population exhausted, and the evolution step rebuilds exactly
    // ten organisms while moving the generation counter from zero to one.
    let mut population: Population<Runner> = Population::new(10);
    population.tick();
    assert_eq!(population.alive_genomes_count, 0);
    assert!(population.is_dead());
    assert_eq!(population.generation, 0);
    population.evolution();
    assert_eq!(population.generation, 1);
    assert_eq!(population.get_genomes().len(), 10);
    assert_eq!(population.get_capacity(), 10);
    for organism in population.get_genomes() {
        assert!(organism.is_alive());
    }
}

#[test]
fn tick_aggregates_survivors_and_greatest_fitness() {
    let mut population: Population<Runner> = Population::new(12);
    population.reborn();
    population.tick();
    assert_eq!(population.alive_genomes_count, 12);
    assert_eq!(population.max_fitness_current, 1);
    population.tick();
    assert_eq!(population.alive_genomes_count, 12);
    assert_eq!(population.max_fitness_current, 2);
    population.tick();
    // The third tick exhausts every runner.
    assert_eq!(population.alive_genomes_count, 0);
    assert_eq!(population.max_fitness_current, 3);
    assert!(population.is_dead());
    // Dead organisms are skipped but still contribute their standing
    // fitness to the running maximum.
    population.tick();
    assert_eq!(population.alive_genomes_count, 0);
    assert_eq!(population.max_fitness_current, 3);
}

#[test]
fn evolution_adapts_the_mutation_rate_and_keeps_it_clamped() {
    let mut population: Population<Runner> = Population::new(20);
    population.reborn();
    for _ in 0..3 {
        population.tick();
    }
    assert!(population.is_dead());
    // First generation beat the (empty) previous one: the rate drops a tenth.
    population.evolution();
    assert_eq!(population.mutation_rate, MUTATION_RATE_INITIAL - MUTATION_RATE_INITIAL / 10);
    assert_eq!(population.max_fitness_prev, 3);
    // Every later generation peaks at the same fitness: no progress, and
    // the rate climbs a tenth per generation until the clamp holds it.
    for generation in 1..30 {
        assert_eq!(population.generation, generation);
        for _ in 0..3 {
            population.tick();
        }
        assert!(population.is_dead());
        population.evolution();
        assert!(population.mutation_rate >= MUTATION_RATE_MIN);
        assert!(population.mutation_rate <= MUTATION_RATE_MAX);
        assert_eq!(population.get_genomes().len(), 20);
    }
    assert_eq!(population.mutation_rate, MUTATION_RATE_MAX);
}

#[test]
fn evolution_clamps_the_rate_from_below() {
    let mut population: Population<Runner> = Population::new(10);
    population.tick();
    assert!(population.is_dead());
    // A progressing generation at the lower clamp: a tenth off fifty would
    // leave the range, so the rate stays at the clamp.
    population.mutation_rate = MUTATION_RATE_MIN;
    population.max_fitness_current = 5;
    population.max_fitness_prev = 0;
    population.evolution();
    assert_eq!(population.mutation_rate, MUTATION_RATE_MIN);
}

#[test]
fn evolution_never_changes_capacity() {
    for capacity in [10usize, 11, 25, 40] {
        let mut population: Population<Runner> = Population::new(capacity);
        population.tick();
        population.evolution();
        assert_eq!(population.get_genomes().len(), capacity);
        assert_eq!(population.get_capacity(), capacity);
        population.tick();
        assert_eq!(population.get_genomes().len(), capacity);
    }
}

#[test]
fn kill_signal_is_consumed_on_the_next_tick() {
    let mut population: Population<Runner> = Population::new(10);
    population.reborn();
    population.tick();
    assert_eq!(population.alive_genomes_count, 10);
    population.kill();
    population.tick();
    assert_eq!(population.alive_genomes_count, 0);
}

#[test]
fn sort_by_fitness_orders_descending_and_keeps_ties_stable() {
    let mut organisms: Vec<Runner> = [2u64, 9, 5, 9, 1]
        .iter()
        .enumerate()
        .map(|(i, &fitness)| Runner {
            genes: vec![i as u32],
            fitness,
            alive: false,
            ticks_left: 0,
        })
        .collect();
    sort_by_fitness(&mut organisms);
    let fitnesses: Vec<u64> = organisms.iter().map(|o| o.fitness).collect();
    assert_eq!(fitnesses, vec![9, 9, 5, 2, 1]);
    // The two organisms of fitness nine keep their prior relative order.
    assert_eq!(organisms[0].genes, vec![1]);
    assert_eq!(organisms[1].genes, vec![3]);
    assert_eq!(organisms[2].genes, vec![2]);
}
