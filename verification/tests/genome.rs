//! Genome construction and crossover over the fixed network shape.

use evosnake::genetic::genome::{
    Genome, ACTION_WIDTH, HIDDEN_WEIGHT_LEN, HIDDEN_WIDTH, OUTPUT_WEIGHT_LEN,
};

#[test]
fn new_genome_has_the_fixed_shape() {
    let g = Genome::new();
    assert_eq!(g.hidden_weight.len(), HIDDEN_WEIGHT_LEN);
    assert_eq!(g.hidden_bias.len(), HIDDEN_WIDTH);
    assert_eq!(g.output_weight.len(), OUTPUT_WEIGHT_LEN);
    assert_eq!(g.output_bias.len(), ACTION_WIDTH);
    assert_eq!(HIDDEN_WEIGHT_LEN, 24);
    assert_eq!(OUTPUT_WEIGHT_LEN, 16);
}

#[test]
fn crossover_child_keeps_the_shape() {
    let a = Genome::new();
    let b = Genome::new();
    let child = Genome::crossover(&a, &b, 20_000);
    assert_eq!(child.hidden_weight.len(), HIDDEN_WEIGHT_LEN);
    assert_eq!(child.hidden_bias.len(), HIDDEN_WIDTH);
    assert_eq!(child.output_weight.len(), OUTPUT_WEIGHT_LEN);
    assert_eq!(child.output_bias.len(), ACTION_WIDTH);
}

#[test]
fn identical_parents_without_mutation_give_identical_child() {
    // Two organisms with identical genomes, crossed with the mutation rate
    // zero: the child equals the parents at every gene, whatever masks
    // were drawn, since selecting bits between equal patterns changes
    // nothing.
    let a = Genome::new();
    let b = a.clone();
    let child = Genome::crossover(&a, &b, 0);
    assert_eq!(child.hidden_weight, a.hidden_weight);
    assert_eq!(child.hidden_bias, a.hidden_bias);
    assert_eq!(child.output_weight, a.output_weight);
    assert_eq!(child.output_bias, a.output_bias);
}

#[test]
fn default_genome_has_the_fixed_shape() {
    let g = Genome::default();
    assert_eq!(g.hidden_weight.len(), HIDDEN_WEIGHT_LEN);
    assert_eq!(g.output_bias.len(), ACTION_WIDTH);
}
