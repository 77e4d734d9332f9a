//! The population: a fixed-capacity collection of organisms, driven through
//! per-generation ticking, survivor and fitness aggregation, and the
//! evolution step of selection, crossover and rebirth.

use vstd::multiset::Multiset;
use vstd::prelude::*;

use crate::genetic::algorithms::RATE_SCALE;
use crate::genetic::organism::Organism;
use crate::rng::rand_below;

verus! {

broadcast use vstd::seq_lib::group_to_multiset_ensures;

/// Lower clamp of the adaptive mutation rate, in millionths.
pub const MUTATION_RATE_MIN: u32 = 50;

/// Upper clamp of the adaptive mutation rate, in millionths.
pub const MUTATION_RATE_MAX: u32 = 50_000;

/// Mutation rate of a freshly built population, in millionths.
pub const MUTATION_RATE_INITIAL: u32 = 10_000;

/// Probability, in millionths, that parent selection takes the low (fitter)
/// side of its skew point.
pub const SELECTION_BIAS: u32 = 900_000;

/// A fixed-capacity, fitness-sorted-on-demand collection of organisms with
/// the transient aggregates of the running generation. The organism
/// collection and the capacity are private: outsiders observe organisms
/// read-only and can never resize the population.
pub struct Population<T> {
    capacity: usize,
    genomes: Vec<T>,
    pub alive_genomes_count: usize,
    pub max_fitness_current: u64,
    pub generation: usize,
    pub max_fitness_prev: u64,
    pub mutation_rate: u32,
}

/// Number of organisms of the sequence that are alive.
pub open spec fn count_alive<T: Organism>(s: Seq<T>) -> int
    decreases s.len(),
{
    if s.len() == 0 {
        0
    } else {
        count_alive(s.drop_last()) + if s.last().alive_spec() {
            1int
        } else {
            0int
        }
    }
}

/// Greatest fitness over the sequence, zero when it is empty. The
/// aggregates are folded sequentially at the barrier after the concurrent
/// step, so no interleaving can touch them.
pub open spec fn max_fitness<T: Organism>(s: Seq<T>) -> u64
    decreases s.len(),
{
    if s.len() == 0 {
        0u64
    } else {
        let rest = max_fitness(s.drop_last());
        if s.last().fitness_spec() > rest {
            s.last().fitness_spec()
        } else {
            rest
        }
    }
}

/// Fitness never increases along the sequence: sorted for selection.
pub open spec fn sorted_by_fitness_desc<T: Organism>(s: Seq<T>) -> bool {
    forall|i: int, j: int|
        0 <= i < j < s.len() ==> s[i].fitness_spec() >= s[j].fitness_spec()
}

/// The mutation rate after one adaptation step: moved down by a tenth
/// (rounded down) when the generation made progress, up by a tenth
/// otherwise, then clamped to the fixed range.
pub open spec fn spec_adapted_rate(rate: u32, progress: bool) -> u32 {
    let moved = if progress {
        (rate - rate / 10) as u32
    } else {
        (rate + rate / 10) as u32
    };
    if moved < MUTATION_RATE_MIN {
        MUTATION_RATE_MIN
    } else if moved > MUTATION_RATE_MAX {
        MUTATION_RATE_MAX
    } else {
        moved
    }
}

/// One approximately normal deviate with the given mean and standard
/// deviation: twelve bounded uniform draws summed, centred and scaled. The
/// sum of twelve uniforms is the classical normal approximation; its
/// standard deviation is almost exactly one draw's range.
fn normal_deviate(mean: u32, std_dev: u32) -> (x: i64)
    requires
        std_dev < 0x4000_0000,
{
    let mut sum: u32 = 0;
    let mut i: usize = 0;
    while i < 12
        invariant
            i <= 12,
            sum <= i * 4095,
        decreases 12 - i,
    {
        let draw = rand_below(4096);
        sum = sum + draw;
        i = i + 1;
    }
    let z: i64 = sum as i64 - 24570;
    proof {
        assert((std_dev as i64) * (-24570) <= (std_dev as i64) * z <= (std_dev as i64) * 24570)
            by (nonlinear_arith)
            requires
                -24570 <= z <= 24570,
                0 <= std_dev as i64,
        ;
        assert((std_dev as i64) * 24570 <= 0x4000_0000i64 * 24570) by (nonlinear_arith)
            requires
                0 <= (std_dev as i64) <= 0x4000_0000,
        ;
        assert((std_dev as i64) * (-24570) >= 0x4000_0000i64 * (-24570)) by (nonlinear_arith)
            requires
                0 <= (std_dev as i64) <= 0x4000_0000,
        ;
    }
    mean as i64 + (std_dev as i64 * z) / 4096
}

/// An approximately normal draw forced into `[lo, hi]`: out-of-range
/// deviates are drawn again, a bounded number of times so that the function
/// provably returns; the vanishingly rare exhaustion falls back to the mean.
fn normal_between(mean: u32, std_dev: u32, lo: u32, hi: u32) -> (r: u32)
    requires
        lo <= mean <= hi,
        std_dev < 0x4000_0000,
    ensures
        lo <= r <= hi,
{
    let mut attempts: u32 = 64;
    while attempts > 0
        invariant
            lo <= mean <= hi,
            std_dev < 0x4000_0000,
        decreases attempts,
    {
        let x = normal_deviate(mean, std_dev);
        if lo as i64 <= x && x <= hi as i64 {
            return x as u32;
        }
        attempts = attempts - 1;
    }
    mean
}

/// The skewed index draw behind parent selection: an approximately normal
/// sample centred on the midpoint of `[n, m]` with deviation a quarter of
/// the span, forced into the range; then, with the given likelihood (in
/// millionths), a uniform draw from the low side — from `n` up to just
/// below the sample, or the sample itself when the two coincide — biasing
/// toward smaller indices, else a uniform draw from the high side
/// `[sample, m]`, which includes the sample.
pub fn generate_random_number_tending_towards_smaller(n: u32, m: u32, small_likelihood: u32) -> (r:
    u32)
    requires
        n <= m,
        n + m <= u32::MAX,
        m < u32::MAX,
        small_likelihood <= RATE_SCALE,
    ensures
        n <= r <= m,
{
    let mean = (n + m) / 2;
    let std_dev = (m - n) / 4;
    let num = normal_between(mean, std_dev, n, m);
    let side = rand_below(RATE_SCALE);
    if side < small_likelihood {
        let width = if num - n >= 1 {
            num - n
        } else {
            1
        };
        n + rand_below(width)
    } else {
        num + rand_below(m - num + 1)
    }
}

/// Whether `child` is a crossover product of two parents drawn from the
/// pool at the given mutation rate.
pub open spec fn spec_child_of_pool<T: Organism>(child: T, pool: Seq<T>, mutation_rate: u32) -> bool {
    exists|pa: int, pb: int|
        0 <= pa < pool.len() && 0 <= pb < pool.len() && #[trigger] T::child_spec(
            &pool[pa],
            &pool[pb],
            mutation_rate,
            &child,
        )
}

/// One member of a fresh generation: genetically a crossover child of two
/// pool parents at the given rate. Rebirth resets its transient state, so
/// only its genetics tie the member to the bred child.
pub open spec fn spec_bred_one<T: Organism>(member: T, pool: Seq<T>, mutation_rate: u32) -> bool {
    exists|child: T|
        #[trigger] member.genes_eq(&child) && spec_child_of_pool(child, pool, mutation_rate)
}

/// What one evolution step leaves: a fitness-sorted, stably tied
/// rearrangement of the previous generation exists whose fittest tenth
/// bred, at the given rate, every member of the new one.
pub open spec fn spec_evolved_from<T: Organism>(
    children: Seq<T>,
    previous: Seq<T>,
    mutation_rate: u32,
) -> bool {
    exists|sorted: Seq<T>|
        {
            &&& #[trigger] sorted.to_multiset() == previous.to_multiset()
            &&& sorted.len() == previous.len()
            &&& sorted_by_fitness_desc(sorted)
            &&& (forall|f: u64| #[trigger] fitness_filter(sorted, f) == fitness_filter(previous, f))
            &&& (forall|i: int|
                0 <= i < children.len() ==> spec_bred_one(
                    #[trigger] children[i],
                    sorted.take((previous.len() / 10) as int),
                    mutation_rate,
                ))
        }
}

/// The predicate of carrying exactly the fitness `f`.
pub open spec fn has_fitness<T: Organism>(f: u64) -> spec_fn(T) -> bool {
    |o: T| o.fitness_spec() == f
}

/// The organisms of the sequence whose fitness is exactly `f`, in their
/// order of appearance.
pub open spec fn fitness_filter<T: Organism>(s: Seq<T>, f: u64) -> Seq<T> {
    s.filter(has_fitness(f))
}

proof fn lemma_fitness_filter_none<T: Organism>(s: Seq<T>, f: u64)
    requires
        forall|i: int| 0 <= i < s.len() ==> s[i].fitness_spec() != f,
    ensures
        fitness_filter(s, f) =~= Seq::<T>::empty(),
    decreases s.len(),
{
    reveal(Seq::filter);
    if s.len() > 0 {
        lemma_fitness_filter_none(s.drop_last(), f);
    }
}

proof fn lemma_fitness_filter_singleton<T: Organism>(e: T, f: u64)
    ensures
        e.fitness_spec() == f ==> fitness_filter(seq![e], f) =~= seq![e],
        e.fitness_spec() != f ==> fitness_filter(seq![e], f) =~= Seq::<T>::empty(),
{
    reveal_with_fuel(Seq::filter, 2);
    assert(seq![e].drop_last() =~= Seq::<T>::empty());
}

/// Removing the first organism of some fitness removes exactly the head of
/// that fitness class and leaves every other fitness class untouched.
proof fn lemma_extract_first_of_fitness<T: Organism>(s: Seq<T>, best: int)
    requires
        0 <= best < s.len(),
        forall|j: int| 0 <= j < best ==> s[j].fitness_spec() < s[best].fitness_spec(),
    ensures
        fitness_filter(s, s[best].fitness_spec()) == seq![s[best]] + fitness_filter(
            s.remove(best),
            s[best].fitness_spec(),
        ),
        forall|f: u64|
            f != s[best].fitness_spec() ==> #[trigger] fitness_filter(s, f) == fitness_filter(
                s.remove(best),
                f,
            ),
{
    let e = s[best];
    let fb = e.fitness_spec();
    let a = s.take(best);
    let b = s.skip(best + 1);
    assert(s =~= a + seq![e] + b);
    assert(s.remove(best) =~= a + b);
    assert forall|f: u64| #[trigger] fitness_filter(s, f) == (if f == fb {
        seq![e] + fitness_filter(s.remove(best), f)
    } else {
        fitness_filter(s.remove(best), f)
    }) by {
        Seq::filter_distributes_over_add(a + seq![e], b, has_fitness(f));
        Seq::filter_distributes_over_add(a, seq![e], has_fitness(f));
        Seq::filter_distributes_over_add(a, b, has_fitness(f));
        lemma_fitness_filter_singleton(e, f);
        if f == fb {
            lemma_fitness_filter_none(a, f);
            assert(fitness_filter(s, f) =~= seq![e] + fitness_filter(s.remove(best), f));
        } else {
            assert(fitness_filter(s, f) =~= fitness_filter(s.remove(best), f));
        }
    }
}

/// Stable selection sort by fitness, greatest first: repeatedly extracts
/// the first organism of greatest fitness. The result holds exactly the
/// organisms that went in, and within each fitness class the prior
/// relative order is preserved: the tie-break is stable.
pub fn sort_by_fitness<T: Organism>(organisms: &mut Vec<T>)
    ensures
        final(organisms)@.len() == old(organisms)@.len(),
        final(organisms)@.to_multiset() == old(organisms)@.to_multiset(),
        sorted_by_fitness_desc(final(organisms)@),
        forall|f: u64| #[trigger]
            fitness_filter(final(organisms)@, f) == fitness_filter(old(organisms)@, f),
{
    let ghost initial = organisms@;
    let mut sorted: Vec<T> = Vec::new();
    proof {
        assert(initial.to_multiset() =~= sorted@.to_multiset().add(organisms@.to_multiset()));
        assert forall|f: u64| #[trigger] fitness_filter(initial, f) == fitness_filter(sorted@, f)
            + fitness_filter(organisms@, f) by {
            lemma_fitness_filter_none(sorted@, f);
            assert(fitness_filter(sorted@, f) + fitness_filter(organisms@, f) =~= fitness_filter(
                initial,
                f,
            ));
        }
    }
    while organisms.len() > 0
        invariant
            sorted@.len() + organisms@.len() == initial.len(),
            sorted@.to_multiset().add(organisms@.to_multiset()) == initial.to_multiset(),
            sorted_by_fitness_desc(sorted@),
            forall|i: int, j: int|
                0 <= i < sorted@.len() && 0 <= j < organisms@.len() ==> sorted@[i].fitness_spec()
                    >= organisms@[j].fitness_spec(),
            forall|f: u64| #[trigger]
                fitness_filter(initial, f) == fitness_filter(sorted@, f) + fitness_filter(
                    organisms@,
                    f,
                ),
        decreases organisms@.len(),
    {
        let mut best: usize = 0;
        let mut k: usize = 1;
        let n = organisms.len();
        while k < n
            invariant
                best < k <= n,
                n == organisms@.len(),
                forall|j: int|
                    0 <= j < k as int ==> organisms@[j].fitness_spec()
                        <= organisms@[best as int].fitness_spec(),
                forall|j: int|
                    0 <= j < best as int ==> organisms@[j].fitness_spec()
                        < organisms@[best as int].fitness_spec(),
            decreases n - k,
        {
            if organisms[k].get_fitness() > organisms[best].get_fitness() {
                best = k;
            }
            k = k + 1;
        }
        let ghost before = organisms@;
        let ghost old_sorted = sorted@;
        let picked = organisms.remove(best);
        sorted.push(picked);
        proof {
            let e = before[best as int];
            assert(before.remove(best as int).to_multiset() =~= before.to_multiset().remove(e));
            assert(sorted@.to_multiset().add(organisms@.to_multiset()) =~= initial.to_multiset());
            lemma_extract_first_of_fitness(before, best as int);
            assert(sorted@ =~= old_sorted + seq![e]);
            assert forall|f: u64| #[trigger] fitness_filter(initial, f) == fitness_filter(
                sorted@,
                f,
            ) + fitness_filter(organisms@, f) by {
                Seq::filter_distributes_over_add(old_sorted, seq![e], has_fitness(f));
                lemma_fitness_filter_singleton(e, f);
                if f == e.fitness_spec() {
                    assert(fitness_filter(sorted@, f) =~= fitness_filter(old_sorted, f) + seq![e]);
                    assert(fitness_filter(old_sorted, f) + (seq![e] + fitness_filter(
                        organisms@,
                        f,
                    )) =~= (fitness_filter(old_sorted, f) + seq![e]) + fitness_filter(
                        organisms@,
                        f,
                    ));
                } else {
                    assert(fitness_filter(sorted@, f) =~= fitness_filter(old_sorted, f));
                }
            }
        }
    }
    proof {
        assert(organisms@.to_multiset() =~= Multiset::<T>::empty());
        assert(sorted@.to_multiset() =~= initial.to_multiset());
        assert forall|f: u64| #[trigger] fitness_filter(sorted@, f) == fitness_filter(
            initial,
            f,
        ) by {
            lemma_fitness_filter_none(organisms@, f);
            assert(fitness_filter(sorted@, f) + fitness_filter(organisms@, f) =~= fitness_filter(
                sorted@,
                f,
            ));
        }
    }
    *organisms = sorted;
}

impl<T: Organism> Population<T> {
    /// The organisms, as a mathematical sequence.
    pub closed spec fn organisms(&self) -> Seq<T> {
        self.genomes@
    }

    /// The fixed capacity, set at construction and never changed.
    pub closed spec fn spec_capacity(&self) -> usize {
        self.capacity
    }

    /// The count of living organisms found by the latest tick.
    pub closed spec fn spec_alive_count(&self) -> usize {
        self.alive_genomes_count
    }

    /// The greatest fitness observed by the latest tick.
    pub closed spec fn spec_max_fitness_current(&self) -> u64 {
        self.max_fitness_current
    }

    /// The greatest fitness carried over from the previous generation.
    pub closed spec fn spec_max_fitness_prev(&self) -> u64 {
        self.max_fitness_prev
    }

    /// The generation counter, increased by every evolution step.
    pub closed spec fn spec_generation(&self) -> usize {
        self.generation
    }

    /// The adaptive per-gene mutation probability, in millionths.
    pub closed spec fn spec_mutation_rate(&self) -> u32 {
        self.mutation_rate
    }

    /// The population's invariant: the collection always holds exactly
    /// `capacity` organisms, the adaptive mutation rate stays inside its
    /// clamp range, and the capacity is small enough to index with a word.
    pub open spec fn wf(&self) -> bool {
        &&& self.organisms().len() == self.spec_capacity()
        &&& MUTATION_RATE_MIN <= self.spec_mutation_rate() <= MUTATION_RATE_MAX
        &&& self.spec_capacity() <= u32::MAX as usize
    }

    /// A population of `capacity` default-constructed organisms, counters
    /// zeroed and the mutation rate at its initial value.
    pub fn new(capacity: usize) -> (r: Self)
        requires
            1 <= capacity <= u32::MAX as usize,
        ensures
            r.wf(),
            r.spec_capacity() == capacity,
            r.organisms().len() == capacity,
            r.spec_generation() == 0,
            r.spec_mutation_rate() == MUTATION_RATE_INITIAL,
            r.spec_alive_count() == 0,
            r.spec_max_fitness_current() == 0,
            r.spec_max_fitness_prev() == 0,
    {
        let mut genomes: Vec<T> = Vec::new();
        let mut i: usize = 0;
        while i < capacity
            invariant
                i <= capacity,
                genomes@.len() == i as int,
            decreases capacity - i,
        {
            genomes.push(T::default());
            i = i + 1;
        }
        Population {
            genomes,
            capacity,
            alive_genomes_count: 0,
            max_fitness_current: 0,
            mutation_rate: MUTATION_RATE_INITIAL,
            generation: 0,
            max_fitness_prev: 0,
        }
    }

    /// Resets every organism to a fresh initial condition, each in its own
    /// slot; genetics are left untouched and every organism comes back
    /// alive.
    pub fn reborn(&mut self)
        ensures
            final(self).organisms().len() == old(self).organisms().len(),
            final(self).spec_capacity() == old(self).spec_capacity(),
            final(self).spec_generation() == old(self).spec_generation(),
            final(self).spec_mutation_rate() == old(self).spec_mutation_rate(),
            final(self).spec_max_fitness_current() == old(self).spec_max_fitness_current(),
            final(self).spec_max_fitness_prev() == old(self).spec_max_fitness_prev(),
            final(self).spec_alive_count() == old(self).spec_alive_count(),
            forall|i: int|
                0 <= i < final(self).organisms().len() ==> final(self).organisms()[i].alive_spec(),
            forall|i: int|
                0 <= i < final(self).organisms().len() ==> final(self).organisms()[i].genes_eq(
                    &old(self).organisms()[i],
                ),
    {
        let n = self.genomes.len();
        let mut i: usize = 0;
        while i < n
            invariant
                i <= n,
                n == self.genomes@.len(),
                self.capacity == old(self).capacity,
                self.generation == old(self).spec_generation(),
                self.mutation_rate == old(self).spec_mutation_rate(),
                self.max_fitness_current == old(self).spec_max_fitness_current(),
                self.max_fitness_prev == old(self).spec_max_fitness_prev(),
                self.alive_genomes_count == old(self).spec_alive_count(),
                forall|j: int| 0 <= j < i as int ==> self.genomes@[j].alive_spec(),
                forall|j: int|
                    0 <= j < i as int ==> self.genomes@[j].genes_eq(&old(self).organisms()[j]),
                forall|j: int|
                    i as int <= j < n as int ==> self.genomes@[j] == old(self).organisms()[j],
            decreases n - i,
        {
            self.genomes[i].reborn();
            i = i + 1;
        }
    }

    /// Sends every organism the cooperative kill signal: the signal is
    /// pending on every member, none is removed, and no liveness, fitness
    /// or genetics change now — each member dies on its own next
    /// evaluation.
    pub fn kill(&mut self)
        ensures
            final(self).organisms().len() == old(self).organisms().len(),
            final(self).spec_capacity() == old(self).spec_capacity(),
            final(self).spec_generation() == old(self).spec_generation(),
            final(self).spec_mutation_rate() == old(self).spec_mutation_rate(),
            final(self).spec_max_fitness_current() == old(self).spec_max_fitness_current(),
            final(self).spec_max_fitness_prev() == old(self).spec_max_fitness_prev(),
            final(self).spec_alive_count() == old(self).spec_alive_count(),
            forall|i: int|
                0 <= i < final(self).organisms().len() ==> final(self).organisms()[i].killed_spec(),
            forall|i: int|
                0 <= i < final(self).organisms().len() ==> final(self).organisms()[i].alive_spec()
                    == old(self).organisms()[i].alive_spec(),
            forall|i: int|
                0 <= i < final(self).organisms().len() ==> final(self).organisms()[i].fitness_spec() == old(self).organisms()[i].fitness_spec(),
            forall|i: int|
                0 <= i < final(self).organisms().len() ==> final(self).organisms()[i].genes_eq(
                    &old(self).organisms()[i],
                ),
    {
        let n = self.genomes.len();
        let mut i: usize = 0;
        while i < n
            invariant
                i <= n,
                n == self.genomes@.len(),
                self.capacity == old(self).capacity,
                self.generation == old(self).spec_generation(),
                self.mutation_rate == old(self).spec_mutation_rate(),
                self.max_fitness_current == old(self).spec_max_fitness_current(),
                self.max_fitness_prev == old(self).spec_max_fitness_prev(),
                self.alive_genomes_count == old(self).spec_alive_count(),
                forall|j: int| 0 <= j < i as int ==> self.genomes@[j].killed_spec(),
                forall|j: int|
                    0 <= j < i as int ==> self.genomes@[j].alive_spec() == old(
                        self,
                    ).organisms()[j].alive_spec(),
                forall|j: int|
                    0 <= j < i as int ==> self.genomes@[j].fitness_spec() == old(
                        self,
                    ).organisms()[j].fitness_spec(),
                forall|j: int|
                    0 <= j < i as int ==> self.genomes@[j].genes_eq(&old(self).organisms()[j]),
                forall|j: int|
                    i as int <= j < n as int ==> self.genomes@[j] == old(self).organisms()[j],
            decreases n - i,
        {
            self.genomes[i].kill();
            i = i + 1;
        }
    }

    /// Steps every living organism once, concurrently, then folds the
    /// per-organism results at the barrier: the greatest fitness observed
    /// across the whole population (dead organisms still contribute their
    /// standing fitness) and the count of organisms alive after the step.
    /// Dead organisms are not stepped and do not change.
    pub fn tick(&mut self)
        ensures
            final(self).organisms().len() == old(self).organisms().len(),
            final(self).spec_capacity() == old(self).spec_capacity(),
            final(self).spec_generation() == old(self).spec_generation(),
            final(self).spec_mutation_rate() == old(self).spec_mutation_rate(),
            final(self).spec_max_fitness_prev() == old(self).spec_max_fitness_prev(),
            old(self).wf() ==> final(self).wf(),
            forall|i: int|
                0 <= i < old(self).organisms().len() && !old(self).organisms()[i].alive_spec()
                    ==> final(self).organisms()[i] == old(self).organisms()[i],
            forall|i: int|
                0 <= i < old(self).organisms().len() && old(self).organisms()[i].alive_spec()
                    ==> old(self).organisms()[i].fitness_spec() <= final(self).organisms()[i].fitness_spec(),
            forall|i: int|
                0 <= i < old(self).organisms().len() && old(self).organisms()[i].alive_spec()
                    ==> final(self).organisms()[i].genes_eq(&old(self).organisms()[i]),
            forall|i: int|
                0 <= i < old(self).organisms().len() && old(self).organisms()[i].alive_spec()
                    && old(self).organisms()[i].killed_spec() ==> !final(self).organisms()[i].alive_spec(),
            final(self).spec_alive_count() == count_alive(final(self).organisms()),
            final(self).spec_max_fitness_current() == max_fitness(final(self).organisms()),
    {
        par_step(&mut self.genomes);
        let n = self.genomes.len();
        let mut best: u64 = 0;
        let mut alive: usize = 0;
        let mut i: usize = 0;
        proof {
            assert(self.genomes@.take(0) =~= Seq::<T>::empty());
        }
        while i < n
            invariant
                i <= n,
                n == self.genomes@.len(),
                alive <= i,
                alive as int == count_alive(self.genomes@.take(i as int)),
                best == max_fitness(self.genomes@.take(i as int)),
            decreases n - i,
        {
            let ghost prefix = self.genomes@.take(i as int);
            let f = self.genomes[i].get_fitness();
            if f > best {
                best = f;
            }
            if self.genomes[i].is_alive() {
                alive = alive + 1;
            }
            i = i + 1;
            proof {
                assert(self.genomes@.take(i as int).drop_last() =~= prefix);
                assert(self.genomes@.take(i as int).last() == self.genomes@[i - 1]);
            }
        }
        proof {
            assert(self.genomes@.take(n as int) =~= self.genomes@);
        }
        self.max_fitness_current = best;
        self.alive_genomes_count = alive;
    }

    /// True exactly when no organism is left alive: the population is
    /// exhausted and ready for an evolution step.
    pub fn is_dead(&self) -> (r: bool)
        ensures
            r == (self.spec_alive_count() == 0),
    {
        self.alive_genomes_count == 0
    }

    /// The evolution step, performed only when the population is exhausted.
    /// Sorts the previous generation by fitness, takes the fittest tenth as
    /// the breeding pool, adapts the mutation rate by whether the
    /// generation beat the one before, refills the whole collection with
    /// crossover children of pool parents drawn by the skewed selection
    /// rule, and reborns every member: the old collection is wholly
    /// replaced by the newly bred one. The collection's size never
    /// changes: children are produced two per drawn parent pair, the final
    /// slot of an odd capacity taking a single child of its own pair. The
    /// capacity must give a non-empty breeding pool.
    pub fn evolution(&mut self)
        requires
            old(self).wf(),
            old(self).spec_capacity() >= 10,
            old(self).spec_alive_count() == 0,
            old(self).spec_generation() < usize::MAX,
        ensures
            final(self).wf(),
            final(self).spec_capacity() == old(self).spec_capacity(),
            final(self).organisms().len() == old(self).organisms().len(),
            final(self).organisms().len() == final(self).spec_capacity(),
            final(self).spec_generation() == old(self).spec_generation() + 1,
            final(self).spec_max_fitness_prev() == old(self).spec_max_fitness_current(),
            final(self).spec_max_fitness_current() == old(self).spec_max_fitness_current(),
            final(self).spec_alive_count() == old(self).spec_alive_count(),
            final(self).spec_mutation_rate() == spec_adapted_rate(
                old(self).spec_mutation_rate(),
                old(self).spec_max_fitness_current() > old(self).spec_max_fitness_prev(),
            ),
            MUTATION_RATE_MIN <= final(self).spec_mutation_rate() <= MUTATION_RATE_MAX,
            forall|i: int|
                0 <= i < final(self).organisms().len() ==> final(self).organisms()[i].alive_spec(),
            spec_evolved_from(
                final(self).organisms(),
                old(self).organisms(),
                spec_adapted_rate(
                    old(self).spec_mutation_rate(),
                    old(self).spec_max_fitness_current() > old(self).spec_max_fitness_prev(),
                ),
            ),
    {
        sort_by_fitness(&mut self.genomes);
        let ghost sorted_snapshot = self.genomes@;
        let capacity = self.capacity;
        let pool_len = capacity / 10;
        let ghost pool = sorted_snapshot.take(pool_len as int);

        let progress = self.max_fitness_current > self.max_fitness_prev;
        self.max_fitness_prev = self.max_fitness_current;
        let moved = if progress {
            self.mutation_rate - self.mutation_rate / 10
        } else {
            self.mutation_rate + self.mutation_rate / 10
        };
        self.mutation_rate = if moved < MUTATION_RATE_MIN {
            MUTATION_RATE_MIN
        } else if moved > MUTATION_RATE_MAX {
            MUTATION_RATE_MAX
        } else {
            moved
        };

        let mut fresh_population: Vec<T> = Vec::new();
        while fresh_population.len() < capacity
            invariant
                self.genomes@ == sorted_snapshot,
                pool == sorted_snapshot.take(pool_len as int),
                1 <= pool_len,
                pool_len <= self.genomes@.len(),
                pool_len <= u32::MAX,
                fresh_population@.len() <= capacity,
                self.mutation_rate <= RATE_SCALE,
                forall|j: int|
                    0 <= j < fresh_population@.len() ==> spec_child_of_pool(
                        #[trigger] fresh_population@[j],
                        pool,
                        self.mutation_rate,
                    ),
            decreases capacity - fresh_population@.len(),
        {
            let pa = generate_random_number_tending_towards_smaller(
                0,
                pool_len as u32 - 1,
                SELECTION_BIAS,
            ) as usize;
            let pb = generate_random_number_tending_towards_smaller(
                0,
                pool_len as u32 - 1,
                SELECTION_BIAS,
            ) as usize;
            proof {
                assert(pool[pa as int] == self.genomes@[pa as int]);
                assert(pool[pb as int] == self.genomes@[pb as int]);
            }
            let child = self.genomes[pa].crossover(&self.genomes[pb], self.mutation_rate);
            fresh_population.push(child);
            if fresh_population.len() < capacity {
                let sibling = self.genomes[pa].crossover(&self.genomes[pb], self.mutation_rate);
                fresh_population.push(sibling);
            }
        }
        let ghost bred = fresh_population@;
        self.genomes = fresh_population;
        self.reborn();
        self.generation = self.generation + 1;
        proof {
            let ghost rate = self.mutation_rate;
            assert forall|i: int| 0 <= i < self.genomes@.len() implies spec_bred_one(
                #[trigger] self.genomes@[i],
                pool,
                rate,
            ) by {
                assert(self.genomes@[i].genes_eq(&bred[i]));
                assert(spec_child_of_pool(bred[i], pool, rate));
            }
            assert(sorted_snapshot.to_multiset() == old(self).organisms().to_multiset());
            assert(spec_evolved_from(self.genomes@, old(self).organisms(), rate));
        }
    }

    /// The fixed capacity the population was built with.
    pub fn get_capacity(&self) -> (r: usize)
        ensures
            r == self.spec_capacity(),
    {
        self.capacity
    }

    /// Read-only view of the organisms, for an external observer such as a
    /// renderer; outsiders can never mutate organism genetics through it.
    pub fn get_genomes(&self) -> (r: &Vec<T>)
        ensures
            r@ == self.organisms(),
    {
        &self.genomes
    }
}

/// Advances one organism a single step, where it is alive; dead organisms
/// are left exactly as they are. A living organism keeps its genetics and
/// never loses fitness, and a pending kill signal leaves it dead.
fn tick_if_alive<T: Organism>(organism: &mut T)
    ensures
        !old(organism).alive_spec() ==> *final(organism) == *old(organism),
        old(organism).alive_spec() ==> old(organism).fitness_spec() <= final(organism).fitness_spec(),
        old(organism).alive_spec() ==> final(organism).genes_eq(old(organism)),
        old(organism).alive_spec() && old(organism).killed_spec() ==> !final(organism).alive_spec(),
{
    if organism.is_alive() {
        organism.tick();
    }
}

/// Relies on rayon's `par_iter_mut` and `ParallelIterator::for_each`: the
/// closure runs exactly once on each element of the vector, in place, so
/// the length cannot change and each element's new value is what one call
/// of the verified `tick_if_alive` leaves; every clause below restates
/// `tick_if_alive`'s own contract slot by slot. Every worker holds
/// exclusive access to its disjoint elements.
#[verifier::external_body]
fn par_step<T: Organism>(organisms: &mut Vec<T>)
    ensures
        final(organisms)@.len() == old(organisms)@.len(),
        forall|i: int|
            0 <= i < old(organisms)@.len() && !old(organisms)@[i].alive_spec()
                ==> final(organisms)@[i] == old(organisms)@[i],
        forall|i: int|
            0 <= i < old(organisms)@.len() && old(organisms)@[i].alive_spec() ==> old(
                organisms,
            )@[i].fitness_spec() <= final(organisms)@[i].fitness_spec(),
        forall|i: int|
            0 <= i < old(organisms)@.len() && old(organisms)@[i].alive_spec()
                ==> final(organisms)@[i].genes_eq(&old(organisms)@[i]),
        forall|i: int|
            0 <= i < old(organisms)@.len() && old(organisms)@[i].alive_spec() && old(
                organisms,
            )@[i].killed_spec() ==> !final(organisms)@[i].alive_spec(),
{
    let workers = rayon::iter::IntoParallelRefMutIterator::par_iter_mut(organisms);
    rayon::iter::ParallelIterator::for_each(workers, |organism| tick_if_alive(organism));
}

} // verus!
