//! The genome: weight and bias gene sequences for a fixed-topology
//! feed-forward network (a hidden linear layer with an activation, then an
//! output linear layer). The engine only ever reads and recombines the raw
//! bit patterns; numeric inference over them is the embedding program's
//! business, never the engine's.

use vstd::prelude::*;

use crate::genetic::algorithms::{spec_crossed_genes, GeneticCrossover, RATE_SCALE};
use crate::genetic::dyadic::{encode_dyadic, spec_encode_dyadic, GRID_UNIT};
use crate::rng::rand_below;

verus! {

/// Width of the sensor feature vector: the network's input.
pub const SENSOR_WIDTH: usize = 6;

/// Width of the single hidden layer.
pub const HIDDEN_WIDTH: usize = 4;

/// Width of the output layer: one score per action.
pub const ACTION_WIDTH: usize = 4;

/// Gene count of the hidden layer's weight tensor.
pub const HIDDEN_WEIGHT_LEN: usize = SENSOR_WIDTH * HIDDEN_WIDTH;

/// Gene count of the output layer's weight tensor.
pub const OUTPUT_WEIGHT_LEN: usize = HIDDEN_WIDTH * ACTION_WIDTH;

/// Grid points across the initialisation range: freshly built genomes draw
/// every gene from magnitudes up to one unit either side of zero.
pub const INIT_SPAN: u32 = 2 * GRID_UNIT;

/// Half the initialisation span: the grid index of the zero value.
pub const INIT_MID: u32 = GRID_UNIT;

/// The bit pattern of the initialisation-grid point with index `k`: the
/// value `(k - INIT_MID) / GRID_UNIT`, a dyadic rational in the range.
pub open spec fn spec_init_gene(k: u32) -> u32 {
    if k >= INIT_MID {
        spec_encode_dyadic((k - INIT_MID) as u32, false)
    } else {
        spec_encode_dyadic((INIT_MID - k) as u32, true)
    }
}

/// Whether a gene's bit pattern lies on the initialisation grid.
pub open spec fn spec_from_init_grid(g: u32) -> bool {
    exists|k: u32| k < INIT_SPAN && #[trigger] spec_init_gene(k) == g
}

/// A freshly initialised genome: the fixed network shape, every gene on
/// the initialisation grid.
pub open spec fn spec_init_genome(g: Genome) -> bool {
    &&& g.wf()
    &&& forall|i: int|
        0 <= i < g.hidden_weight@.len() ==> spec_from_init_grid(#[trigger] g.hidden_weight@[i])
    &&& forall|i: int|
        0 <= i < g.hidden_bias@.len() ==> spec_from_init_grid(#[trigger] g.hidden_bias@[i])
    &&& forall|i: int|
        0 <= i < g.output_weight@.len() ==> spec_from_init_grid(#[trigger] g.output_weight@[i])
    &&& forall|i: int|
        0 <= i < g.output_bias@.len() ==> spec_from_init_grid(#[trigger] g.output_bias@[i])
}

/// What it means for `child` to be the crossover product of the genomes
/// `a` and `b` at the given mutation rate: tensor by tensor, the child's
/// gene sequence is a crossover child of the parents' corresponding
/// sequences, each tensor crossed independently.
pub open spec fn spec_genome_crossover(a: Genome, b: Genome, child: Genome, mutation_rate: u32) -> bool {
    &&& spec_crossed_genes(a.hidden_weight@, b.hidden_weight@, child.hidden_weight@, mutation_rate)
    &&& spec_crossed_genes(a.hidden_bias@, b.hidden_bias@, child.hidden_bias@, mutation_rate)
    &&& spec_crossed_genes(a.output_weight@, b.output_weight@, child.output_weight@, mutation_rate)
    &&& spec_crossed_genes(a.output_bias@, b.output_bias@, child.output_bias@, mutation_rate)
}

/// The trainable state of one organism: a gene sequence per tensor of the
/// fixed network shape, each gene the raw bit pattern of one
/// single-precision value. Flattening order is row-major and is significant:
/// genes align positionally between crossover parents and child.
#[derive(Clone)]
pub struct Genome {
    pub hidden_weight: Vec<u32>,
    pub hidden_bias: Vec<u32>,
    pub output_weight: Vec<u32>,
    pub output_bias: Vec<u32>,
}

impl Genome {
    /// The genome matches the fixed network shape: both parents of any
    /// crossover have equal-length corresponding gene sequences by
    /// construction.
    pub open spec fn wf(&self) -> bool {
        &&& self.hidden_weight@.len() == HIDDEN_WEIGHT_LEN
        &&& self.hidden_bias@.len() == HIDDEN_WIDTH
        &&& self.output_weight@.len() == OUTPUT_WEIGHT_LEN
        &&& self.output_bias@.len() == ACTION_WIDTH
    }

    /// Gene-for-gene equality of two genomes.
    pub open spec fn same_genes(&self, other: &Genome) -> bool {
        &&& self.hidden_weight@ == other.hidden_weight@
        &&& self.hidden_bias@ == other.hidden_bias@
        &&& self.output_weight@ == other.output_weight@
        &&& self.output_bias@ == other.output_bias@
    }

    /// A fresh genome for the fixed topology, every gene drawn
    /// independently and uniformly from the initialisation grid.
    pub fn new() -> (r: Self)
        ensures
            r.wf(),
            spec_init_genome(r),
    {
        Genome {
            hidden_weight: draw_init_genes(HIDDEN_WEIGHT_LEN),
            hidden_bias: draw_init_genes(HIDDEN_WIDTH),
            output_weight: draw_init_genes(OUTPUT_WEIGHT_LEN),
            output_bias: draw_init_genes(ACTION_WIDTH),
        }
    }

    /// The child of two genomes of the shared fixed topology: every tensor
    /// is produced by element-wise crossover of the parents' corresponding
    /// gene sequences, masks and mutation trials drawn independently per
    /// tensor per gene. With the mutation rate zero, two gene-identical
    /// parents give a gene-identical child, whatever masks are drawn.
    pub fn crossover(a: &Genome, b: &Genome, mutation_rate: u32) -> (r: Genome)
        requires
            a.wf(),
            b.wf(),
            mutation_rate <= RATE_SCALE,
        ensures
            r.wf(),
            spec_genome_crossover(*a, *b, r, mutation_rate),
            mutation_rate == 0 && a.same_genes(b) ==> r.same_genes(a),
    {
        Genome {
            hidden_weight: a.hidden_weight.crossover(&b.hidden_weight, mutation_rate),
            hidden_bias: a.hidden_bias.crossover(&b.hidden_bias, mutation_rate),
            output_weight: a.output_weight.crossover(&b.output_weight, mutation_rate),
            output_bias: a.output_bias.crossover(&b.output_bias, mutation_rate),
        }
    }
}

/// The default genome is a freshly initialised random one.
impl Default for Genome {
    fn default() -> (r: Self)
        ensures
            r.wf(),
            spec_init_genome(r),
    {
        Genome::new()
    }
}

/// One uniformly random gene from the initialisation grid, as its
/// single-precision bit pattern.
fn draw_init_gene() -> (r: u32)
    ensures
        spec_from_init_grid(r),
{
    let k = rand_below(INIT_SPAN);
    let r = if k >= INIT_MID {
        encode_dyadic(k - INIT_MID, false)
    } else {
        encode_dyadic(INIT_MID - k, true)
    };
    proof {
        assert(spec_init_gene(k) == r);
    }
    r
}

/// A gene sequence of the given length, drawn gene by gene from the
/// initialisation grid.
fn draw_init_genes(len: usize) -> (r: Vec<u32>)
    ensures
        r@.len() == len,
        forall|i: int| 0 <= i < r@.len() ==> spec_from_init_grid(#[trigger] r@[i]),
{
    let mut genes: Vec<u32> = Vec::new();
    let mut i: usize = 0;
    while i < len
        invariant
            i <= len,
            genes@.len() == i as int,
            forall|j: int| 0 <= j < genes@.len() ==> spec_from_init_grid(#[trigger] genes@[j]),
        decreases len - i,
    {
        genes.push(draw_init_gene());
        i = i + 1;
    }
    genes
}

} // verus!
