//! Crossover operators: the per-bit numeric selector, the randomized
//! partition bit mask, and element-wise crossover of gene sequences.

use vstd::prelude::*;

use crate::genetic::dyadic::{encode_dyadic, spec_encode_dyadic, GRID_UNIT};
use crate::rng::rand_below;

verus! {

/// Scale for every probability the engine handles: a probability `p` is
/// carried as the integer `p * RATE_SCALE`, a count of millionths.
pub const RATE_SCALE: u32 = 1_000_000;

/// Sum of a sequence of unsigned words, as an unbounded integer.
pub open spec fn seq_sum(s: Seq<u32>) -> int
    decreases s.len(),
{
    if s.len() == 0 {
        0
    } else {
        seq_sum(s.drop_last()) + s.last()
    }
}

pub proof fn lemma_seq_sum_nonneg(s: Seq<u32>)
    ensures
        seq_sum(s) >= 0,
    decreases s.len(),
{
    if s.len() > 0 {
        lemma_seq_sum_nonneg(s.drop_last());
    }
}

/// Splitting a sequence at any point splits its sum.
pub proof fn lemma_seq_sum_split(s: Seq<u32>, i: int)
    requires
        0 <= i <= s.len(),
    ensures
        seq_sum(s) == seq_sum(s.take(i)) + seq_sum(s.skip(i)),
    decreases s.len(),
{
    if i == s.len() {
        assert(s.take(i) =~= s);
        assert(s.skip(i) =~= Seq::<u32>::empty());
    } else {
        let short = s.drop_last();
        lemma_seq_sum_split(short, i);
        assert(short.take(i) =~= s.take(i));
        assert(s.skip(i).drop_last() =~= short.skip(i));
        assert(s.skip(i).last() == s.last());
        assert(seq_sum(s.skip(i)) == seq_sum(short.skip(i)) + s.last());
    }
}

/// Peeling the first element off a non-empty sequence peels it off the sum.
pub proof fn lemma_seq_sum_first(s: Seq<u32>)
    requires
        s.len() > 0,
    ensures
        seq_sum(s) == s[0] + seq_sum(s.drop_first()),
{
    lemma_seq_sum_split(s, 1);
    assert(s.take(1).drop_last() =~= Seq::<u32>::empty());
    assert(s.take(1).last() == s[0]);
    assert(seq_sum(Seq::<u32>::empty()) == 0);
    assert(seq_sum(s.take(1)) == s[0]);
    assert(s.skip(1) =~= s.drop_first());
}

/// Each element of a sequence of unsigned words is bounded by the whole sum.
pub proof fn lemma_seq_sum_element_bound(s: Seq<u32>, i: int)
    requires
        0 <= i < s.len(),
    ensures
        s[i] <= seq_sum(s),
{
    lemma_seq_sum_split(s, i + 1);
    assert(s.take(i + 1).drop_last() =~= s.take(i));
    assert(s.take(i + 1).last() == s[i]);
    lemma_seq_sum_nonneg(s.take(i));
    lemma_seq_sum_nonneg(s.skip(i + 1));
}

/// One step of reading a partition list as a bit mask: the accumulated bits
/// are shifted up by the length of the next run, and the fresh low bits are
/// all ones or all zeros depending on the run's kind. The accumulator is
/// sixty-four bits wide so that a single run of all thirty-two bits fits.
pub open spec fn spec_mask_step(acc: u64, len: u32, ones: bool) -> u64 {
    if ones {
        (acc << (len as u64)) | (((1u64 << (len as u64)) - 1) as u64)
    } else {
        acc << (len as u64)
    }
}

/// The bit mask denoted by a partition list: runs are laid out from the
/// most significant bit down, the first run carrying zeros and the runs
/// alternating thereafter.
pub open spec fn spec_mask_fold(p: Seq<u32>, acc: u64, ones: bool) -> u64
    decreases p.len(),
{
    if p.len() == 0 {
        acc
    } else {
        spec_mask_fold(p.drop_first(), spec_mask_step(acc, p[0], ones), !ones)
    }
}

pub open spec fn spec_bit_mask(p: Seq<u32>) -> u64 {
    spec_mask_fold(p, 0u64, false)
}

/// Draws the lengths of the partition runs for a fresh bit mask: each of
/// the `intersections` boundary draws is bounded by the bit budget still
/// unallocated (thirty-two bits in all), and the final run absorbs whatever
/// remains. Earlier runs are therefore stochastically biased toward being
/// shorter; this biased sampling law is intentional and downstream gene
/// mixing depends on it.
pub fn draw_partitions(intersections: u8) -> (r: Vec<u32>)
    ensures
        r@.len() == intersections as int + 1,
        seq_sum(r@) == 32,
{
    let mut partitions: Vec<u32> = Vec::new();
    let mut remaining: u32 = 32;
    let mut drawn: u8 = 0;
    while drawn < intersections
        invariant
            partitions@.len() == drawn as int,
            drawn <= intersections,
            1 <= remaining <= 32,
            seq_sum(partitions@) + remaining == 32,
        decreases intersections - drawn,
    {
        let cut = rand_below(remaining);
        remaining = remaining - cut;
        let ghost prev = partitions@;
        partitions.push(cut);
        drawn = drawn + 1;
        proof {
            assert(partitions@.drop_last() =~= prev);
        }
    }
    let ghost prev = partitions@;
    partitions.push(remaining);
    proof {
        assert(partitions@.drop_last() =~= prev);
    }
    partitions
}

/// Reads a partition list as a thirty-two bit mask, by direct bit shifting.
pub fn mask_from_partitions(partitions: &Vec<u32>) -> (r: u32)
    requires
        seq_sum(partitions@) == 32,
    ensures
        r as u64 == spec_bit_mask(partitions@),
{
    let n = partitions.len();
    let mut acc: u64 = 0;
    let mut bits: u64 = 0;
    let mut ones: bool = false;
    let mut j: usize = 0;
    proof {
        assert(partitions@.take(0) =~= Seq::<u32>::empty());
        assert(seq_sum(Seq::<u32>::empty()) == 0);
        assert(partitions@.skip(0) =~= partitions@);
        assert(0u64 < (1u64 << 0u64)) by (bit_vector);
    }
    while j < n
        invariant
            j <= n,
            n == partitions@.len(),
            seq_sum(partitions@) == 32,
            bits == seq_sum(partitions@.take(j as int)),
            acc < (1u64 << bits),
            bits <= 32,
            spec_mask_fold(partitions@.skip(j as int), acc, ones) == spec_bit_mask(partitions@),
        decreases n - j,
    {
        let len = partitions[j];
        proof {
            lemma_seq_sum_element_bound(partitions@, j as int);
            lemma_seq_sum_split(partitions@, j as int);
            lemma_seq_sum_nonneg(partitions@.skip(j as int).drop_first());
            assert(partitions@.skip(j as int)[0] == partitions@[j as int]);
            assert(partitions@.skip(j as int).drop_first() =~= partitions@.skip(j as int + 1));
            lemma_seq_sum_first(partitions@.skip(j as int));
            assert(seq_sum(partitions@.skip(j as int)) == len + seq_sum(
                partitions@.skip(j as int + 1),
            ));
            assert(bits + len <= 32);
            assert(partitions@.take(j as int + 1).drop_last() =~= partitions@.take(j as int));
            assert(partitions@.take(j as int + 1).last() == partitions@[j as int]);
        }
        let ghost old_acc = acc;
        let ghost old_bits = bits;
        if ones {
            assert(1u64 <= (1u64 << (len as u64))) by (bit_vector)
                requires
                    len <= 32,
            ;
            let low: u64 = (1u64 << (len as u64)) - 1;
            acc = (acc << (len as u64)) | low;
        } else {
            acc = acc << (len as u64);
        }
        proof {
            assert(acc == spec_mask_step(old_acc, len, ones));
            assert(acc < (1u64 << ((old_bits + len as u64) as u64))) by (bit_vector)
                requires
                    old_acc < (1u64 << old_bits),
                    old_bits <= 32,
                    len <= 32,
                    old_bits + len as u64 <= 32,
                    acc == (if ones {
                        (old_acc << (len as u64)) | (((1u64 << (len as u64)) - 1) as u64)
                    } else {
                        old_acc << (len as u64)
                    }),
            ;
        }
        bits = bits + (len as u64);
        ones = !ones;
        j = j + 1;
    }
    proof {
        assert(partitions@.skip(j as int) =~= Seq::<u32>::empty());
        assert(partitions@.take(j as int) =~= partitions@);
        assert(acc < (1u64 << 32u64));
        assert((1u64 << 32u64) == 0x1_0000_0000u64) by (bit_vector);
    }
    acc as u32
}

/// Whether `m` is a partition mask of the given boundary count: its
/// thirty-two bits fall into `intersections + 1` contiguous runs of
/// alternating zeros and ones, the first run carrying zeros.
pub open spec fn spec_partition_mask(m: u32, intersections: u8) -> bool {
    exists|p: Seq<u32>|
        p.len() == intersections as int + 1 && seq_sum(p) == 32 && #[trigger] spec_bit_mask(p)
            == m as u64
}

/// A randomized partition bit mask. Given a count of partition boundaries,
/// the thirty-two bits split into `intersections + 1` contiguous runs of
/// alternating zeros and ones, the first run always zeros.
pub trait BitMask {
    fn create_bit_mask(intersections: u8) -> (r: u32)
        ensures
            spec_partition_mask(r, intersections),
    ;
}

impl BitMask for u32 {
    fn create_bit_mask(intersections: u8) -> (r: u32) {
        let partitions = draw_partitions(intersections);
        let r = mask_from_partitions(&partitions);
        proof {
            assert(spec_bit_mask(partitions@) == r as u64);
        }
        r
    }
}

/// The per-bit selector at the heart of every crossover: wherever the mask
/// bit is one the result takes `a`'s bit, elsewhere `b`'s bit.
pub open spec fn spec_numeric_crossover(a: u32, b: u32, mask: u32) -> u32 {
    (a & mask) | (b & !mask)
}

/// Crossover of two fixed-width bit patterns under a selector mask.
pub trait NumericCrossover<T> {
    /// The mathematical value of the crossover; determinism of the operator
    /// is exactly the fact that this is a function of its arguments.
    spec fn spec_crossover(self, b: T, mask: u32) -> T;

    fn crossover(self, b: T, mask: u32) -> (r: T)
        ensures
            r == self.spec_crossover(b, mask),
    ;
}

impl NumericCrossover<u32> for u32 {
    open spec fn spec_crossover(self, b: u32, mask: u32) -> u32 {
        spec_numeric_crossover(self, b, mask)
    }

    fn crossover(self, b: u32, mask: u32) -> (r: u32) {
        (self & mask) | (b & !mask)
    }
}

/// Crossing a value with itself gives the value back, whatever the mask:
/// a child of two identical parents is identical to them at every bit.
pub proof fn lemma_crossover_self_identity(a: u32, mask: u32)
    ensures
        spec_numeric_crossover(a, a, mask) == a,
{
    assert((a & mask) | (a & !mask) == a) by (bit_vector);
}

/// Boundary draws for each fresh crossover mask, one mask per gene.
pub const MASK_INTERSECTIONS: u8 = 2;

/// Grid points across the mutation range: replacement gene magnitudes span
/// up to three units either side of zero.
pub const MUTATION_SPAN: u32 = 6 * GRID_UNIT;

/// Half the mutation span: the grid index of the zero value.
pub const MUTATION_MID: u32 = 3 * GRID_UNIT;

/// The bit pattern of the mutation-grid point with index `k`: the value
/// `(k - MUTATION_MID) / GRID_UNIT`, a dyadic rational in the mutation range.
pub open spec fn spec_mutation_gene(k: u32) -> u32 {
    if k >= MUTATION_MID {
        spec_encode_dyadic((k - MUTATION_MID) as u32, false)
    } else {
        spec_encode_dyadic((MUTATION_MID - k) as u32, true)
    }
}

/// Whether a gene's bit pattern lies on the mutation grid: it denotes one
/// of the evenly spaced dyadic values of the mutation range.
pub open spec fn spec_on_mutation_grid(g: u32) -> bool {
    exists|k: u32| k < MUTATION_SPAN && #[trigger] spec_mutation_gene(k) == g
}

/// Draws the replacement value for a mutated gene: a uniformly random point
/// of the evenly spaced mutation grid, returned as its single-precision bit
/// pattern.
pub fn draw_mutation_gene() -> (r: u32)
    ensures
        spec_on_mutation_grid(r),
{
    let k = rand_below(MUTATION_SPAN);
    let r = if k >= MUTATION_MID {
        encode_dyadic(k - MUTATION_MID, false)
    } else {
        encode_dyadic(MUTATION_MID - k, true)
    };
    proof {
        assert(spec_mutation_gene(k) == r);
    }
    r
}

/// What one child gene is, given the drawn randomness: the fresh value when
/// the mutation trial fired, else the masked crossover of the parents' genes.
pub open spec fn spec_gene_child(a: u32, b: u32, mutated: bool, fresh: u32, mask: u32) -> u32 {
    if mutated {
        fresh
    } else {
        spec_numeric_crossover(a, b, mask)
    }
}

/// What a whole child sequence is, given the per-gene randomness.
pub open spec fn spec_sequence_child(
    a: Seq<u32>,
    b: Seq<u32>,
    mutated: Seq<bool>,
    fresh: Seq<u32>,
    masks: Seq<u32>,
) -> Seq<u32> {
    Seq::new(a.len(), |i: int| spec_gene_child(a[i], b[i], mutated[i], fresh[i], masks[i]))
}

/// When the mutation trial fired at every position, the child is exactly the
/// sequence of freshly drawn values: it does not depend on either parent or
/// on any mask.
pub proof fn lemma_full_mutation_ignores_parents(
    a: Seq<u32>,
    b: Seq<u32>,
    mutated: Seq<bool>,
    fresh: Seq<u32>,
    masks: Seq<u32>,
)
    requires
        a.len() == b.len(),
        mutated.len() == a.len(),
        fresh.len() == a.len(),
        masks.len() == a.len(),
        forall|i: int| 0 <= i < mutated.len() ==> mutated[i],
    ensures
        spec_sequence_child(a, b, mutated, fresh, masks) =~= fresh,
{
}

/// When the mutation trial fired at no position, the child is a function of
/// the parents and the drawn mask sequence alone: whatever fresh values
/// were drawn, the child is the same, gene for gene the masked crossover of
/// the parents' bit patterns.
pub proof fn lemma_no_mutation_is_masked_crossover(
    a: Seq<u32>,
    b: Seq<u32>,
    mutated: Seq<bool>,
    fresh1: Seq<u32>,
    fresh2: Seq<u32>,
    masks: Seq<u32>,
)
    requires
        a.len() == b.len(),
        mutated.len() == a.len(),
        fresh1.len() == a.len(),
        fresh2.len() == a.len(),
        masks.len() == a.len(),
        forall|i: int| 0 <= i < mutated.len() ==> !mutated[i],
    ensures
        spec_sequence_child(a, b, mutated, fresh1, masks) =~= spec_sequence_child(
            a,
            b,
            mutated,
            fresh2,
            masks,
        ),
        forall|i: int|
            0 <= i < a.len() ==> spec_sequence_child(a, b, mutated, fresh1, masks)[i]
                == spec_numeric_crossover(a[i], b[i], masks[i]),
{
}

/// What it means for `r` to be a crossover child of the gene sequences `a`
/// and `b` at the given mutation rate: some per-gene randomness (mutation
/// trials, fresh mutation-grid values, partition masks) explains every
/// output gene. The trials are forced off at rate zero and on at the full
/// rate; every fresh value lies on the mutation grid, and every mask used
/// is a partition mask of the fixed boundary count.
pub open spec fn spec_crossed_genes(a: Seq<u32>, b: Seq<u32>, r: Seq<u32>, mutation_rate: u32) -> bool {
    &&& r.len() == a.len()
    &&& exists|mutated: Seq<bool>, fresh: Seq<u32>, masks: Seq<u32>|
        {
            &&& mutated.len() == a.len()
            &&& fresh.len() == a.len()
            &&& masks.len() == a.len()
            &&& #[trigger] spec_sequence_child(a, b, mutated, fresh, masks) == r
            &&& (forall|i: int|
                0 <= i < a.len() && mutated[i] ==> spec_on_mutation_grid(#[trigger] fresh[i]))
            &&& (forall|i: int|
                0 <= i < a.len() && !mutated[i] ==> spec_partition_mask(
                    #[trigger] masks[i],
                    MASK_INTERSECTIONS,
                ))
            &&& (mutation_rate == 0 ==> forall|i: int| 0 <= i < mutated.len() ==> !mutated[i])
            &&& (mutation_rate == RATE_SCALE ==> forall|i: int|
                0 <= i < mutated.len() ==> mutated[i])
        }
}

/// Element-wise crossover of two equal-length gene sequences, the mutation
/// probability carried in millionths. For each position independently, a
/// mutation trial fires with that probability and replaces the gene with a
/// fresh draw from the mutation grid; otherwise the parents' bit patterns
/// are crossed under a freshly drawn partition mask, one mask per gene.
pub trait GeneticCrossover where Self: View<V = Seq<u32>> {
    fn crossover(&self, b: &Vec<u32>, mutation_rate: u32) -> (r: Vec<u32>)
        requires
            self@.len() == b@.len(),
            mutation_rate <= RATE_SCALE,
        ensures
            spec_crossed_genes(self@, b@, r@, mutation_rate),
            mutation_rate == 0 && self@ == b@ ==> r@ == self@,
    ;
}

impl GeneticCrossover for Vec<u32> {
    fn crossover(&self, b: &Vec<u32>, mutation_rate: u32) -> (r: Vec<u32>) {
        let n = self.len();
        let mut child: Vec<u32> = Vec::new();
        let ghost mut mutated: Seq<bool> = Seq::empty();
        let ghost mut fresh: Seq<u32> = Seq::empty();
        let ghost mut masks: Seq<u32> = Seq::empty();
        let mut i: usize = 0;
        while i < n
            invariant
                i <= n,
                n == self@.len(),
                n == b@.len(),
                mutation_rate <= RATE_SCALE,
                child@.len() == i as int,
                mutated.len() == i as int,
                fresh.len() == i as int,
                masks.len() == i as int,
                forall|j: int|
                    0 <= j < i as int ==> child@[j] == spec_gene_child(
                        self@[j],
                        b@[j],
                        mutated[j],
                        fresh[j],
                        masks[j],
                    ),
                forall|j: int|
                    0 <= j < i as int && mutated[j] ==> spec_on_mutation_grid(#[trigger] fresh[j]),
                forall|j: int|
                    0 <= j < i as int && !mutated[j] ==> spec_partition_mask(
                        #[trigger] masks[j],
                        MASK_INTERSECTIONS,
                    ),
                mutation_rate == 0 ==> forall|j: int| 0 <= j < i as int ==> !mutated[j],
                mutation_rate == RATE_SCALE ==> forall|j: int| 0 <= j < i as int ==> mutated[j],
                self@ == b@ ==> forall|j: int|
                    0 <= j < i as int ==> !mutated[j] ==> child@[j] == self@[j],
            decreases n - i,
        {
            let trial = rand_below(RATE_SCALE);
            if trial < mutation_rate {
                let g = draw_mutation_gene();
                child.push(g);
                proof {
                    mutated = mutated.push(true);
                    fresh = fresh.push(g);
                    masks = masks.push(0u32);
                }
            } else {
                let mask = u32::create_bit_mask(MASK_INTERSECTIONS);
                let g = self[i].crossover(b[i], mask);
                child.push(g);
                proof {
                    mutated = mutated.push(false);
                    fresh = fresh.push(0u32);
                    masks = masks.push(mask);
                    lemma_crossover_self_identity(self@[i as int], mask);
                }
            }
            i = i + 1;
        }
        proof {
            assert(spec_sequence_child(self@, b@, mutated, fresh, masks) =~= child@);
            if mutation_rate == 0 && self@ == b@ {
                assert(child@ =~= self@);
            }
        }
        child
    }
}

} // verus!
