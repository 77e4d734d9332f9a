//! The reference organism: a snake on a bounded field, steered by its
//! genome's network. The engine-facing logic here — movement, growth, the
//! bounded-moves-without-progress death rule, rebirth and crossover — is
//! all integer state over plain values. Choosing a direction by numeric
//! inference over the genome is the embedding program's business: it reads
//! the sensors, runs the network, and hands the chosen direction to
//! [`Snake::advance`].

pub mod cell;
pub mod direction;
pub mod point;

use vstd::prelude::*;

pub use crate::genetic::genome::Genome;
use crate::genetic::algorithms::RATE_SCALE;
use crate::genetic::genome::{spec_genome_crossover, spec_init_genome};
use crate::genetic::traits::{HasFitness, HasLife};
pub use crate::snake::direction::Direction;
pub use crate::snake::point::{Point, FIELD_HEIGHT, FIELD_WIDTH};

verus! {

/// Moves a snake may make without eating before it dies.
pub const MOVE_LIMIT: i32 = 100;

/// A snake: its genome, its body as a head-first sequence of occupied
/// points, the apple it hunts, and its transient life-cycle state.
#[derive(Clone)]
pub struct Snake {
    genome: Genome,
    cells: Vec<Point>,
    apple: Point,
    direction: Direction,
    alive: bool,
    moves_made: i32,
}

impl Snake {
    /// The body, head first, as a mathematical sequence.
    pub closed spec fn cells_spec(&self) -> Seq<Point> {
        self.cells@
    }

    pub closed spec fn apple_spec(&self) -> Point {
        self.apple
    }

    pub closed spec fn direction_spec(&self) -> Direction {
        self.direction
    }

    pub closed spec fn alive_spec(&self) -> bool {
        self.alive
    }

    /// Moves made since the snake last ate (or was reset); the kill signal
    /// forces this to the limit.
    pub closed spec fn moves_spec(&self) -> int {
        self.moves_made as int
    }

    pub closed spec fn genome_spec(&self) -> Genome {
        self.genome
    }

    pub open spec fn head(&self) -> Point {
        self.cells_spec()[0]
    }

    /// Whether the kill signal is pending: the move counter stands at the
    /// limit, so the next step ends in death whatever it eats.
    pub open spec fn killed(&self) -> bool {
        self.moves_spec() >= MOVE_LIMIT as int
    }

    /// Whether a point lies on the playing field.
    pub open spec fn in_field(p: Point) -> bool {
        &&& 0 <= p.x < FIELD_WIDTH as int
        &&& 0 <= p.y < FIELD_HEIGHT as int
    }

    /// The head after one move in the given direction.
    pub open spec fn spec_next_head(s: Snake, direction: Direction) -> Point {
        Point {
            x: (s.head().x + direction.spec_movement_vector().x) as i32,
            y: (s.head().y + direction.spec_movement_vector().y) as i32,
        }
    }

    /// The snake's invariant: a non-empty body whose points never leave
    /// the field by more than one step, a move counter within one step of
    /// its limit, a head on the field and a counter within the limit
    /// whenever the snake is alive, an apple on the field, and a genome of
    /// the fixed network shape.
    pub open spec fn wf(&self) -> bool {
        &&& self.cells_spec().len() >= 1
        &&& forall|i: int|
            0 <= i < self.cells_spec().len() ==> (-1 <= #[trigger] self.cells_spec()[i].x
                <= FIELD_WIDTH as int && -1 <= self.cells_spec()[i].y <= FIELD_HEIGHT as int)
        &&& 0 <= self.moves_spec() <= MOVE_LIMIT as int + 1
        &&& (self.alive_spec() ==> Self::in_field(self.head()) && self.moves_spec()
            <= MOVE_LIMIT as int)
        &&& Self::in_field(self.apple_spec())
        &&& self.genome_spec().wf()
    }

    /// A fresh snake: one random body cell, a random apple, a fresh random
    /// genome, facing up, alive, no moves made.
    pub fn new() -> (r: Snake)
        ensures
            r.wf(),
            r.alive_spec(),
            r.cells_spec().len() == 1,
            r.moves_spec() == 0,
            r.direction_spec() == Direction::Up,
            spec_init_genome(r.genome_spec()),
    {
        let mut cells: Vec<Point> = Vec::new();
        cells.push(Point::random());
        Snake {
            genome: Genome::new(),
            cells,
            apple: Point::random(),
            direction: Direction::Up,
            alive: true,
            moves_made: 0,
        }
    }

    /// One simulation step in the given direction, for a living snake: the
    /// head advances one square; eating the apple grows the body, respawns
    /// the apple and resets the move counter, otherwise the tail is
    /// withdrawn; the snake stays alive exactly when the counter it
    /// entered the step with is under the limit and the new head is on the
    /// field. A counter at the limit — the pending kill signal, or plain
    /// starvation — means death whatever the step eats: the signal cannot
    /// be cancelled.
    pub fn advance(&mut self, direction: Direction)
        requires
            old(self).wf(),
            old(self).alive_spec(),
        ensures
            final(self).wf(),
            final(self).direction_spec() == direction,
            final(self).genome_spec() == old(self).genome_spec(),
            final(self).head() == Self::spec_next_head(*old(self), direction),
            Self::spec_next_head(*old(self), direction) == old(self).apple_spec() ==> {
                &&& final(self).cells_spec() == seq![final(self).head()] + old(self).cells_spec()
                &&& final(self).moves_spec() == 1
            },
            Self::spec_next_head(*old(self), direction) != old(self).apple_spec() ==> {
                &&& final(self).cells_spec() == seq![final(self).head()]
                    + old(self).cells_spec().drop_last()
                &&& final(self).apple_spec() == old(self).apple_spec()
                &&& final(self).moves_spec() == old(self).moves_spec() + 1
            },
            final(self).alive_spec() == (old(self).moves_spec() < MOVE_LIMIT as int
                && Self::in_field(Self::spec_next_head(*old(self), direction))),
    {
        self.direction = direction;
        let step = self.direction.movement_vector();
        let head = self.cells[0];
        let new_head = head.add(step);
        let starved = self.moves_made >= MOVE_LIMIT;
        self.cells.insert(0, new_head);

        if self.apple == self.cells[0] {
            self.apple = Point::random();
            self.moves_made = 0;
        } else {
            let _ = self.cells.pop();
        }

        self.alive = !starved && self.cells[0].x >= 0 && self.cells[0].x < (FIELD_WIDTH as i32)
            && self.cells[0].y >= 0 && self.cells[0].y < (FIELD_HEIGHT as i32);

        self.moves_made = self.moves_made + 1;

        proof {
            if Self::spec_next_head(*old(self), direction) != old(self).apple_spec() {
                assert(self.cells@ =~= seq![self.cells@[0]] + old(self).cells@.drop_last());
            } else {
                assert(self.cells@ =~= seq![self.cells@[0]] + old(self).cells@);
            }
        }
    }

    /// The child of two snakes: its genome the genetic crossover of the
    /// parents' genomes, its simulation state freshly initialised, never
    /// inherited.
    pub fn crossover(a: &Snake, b: &Snake, mutation_rate: u32) -> (r: Snake)
        requires
            a.wf(),
            b.wf(),
            mutation_rate <= RATE_SCALE,
        ensures
            r.wf(),
            r.alive_spec(),
            r.cells_spec().len() == 1,
            r.moves_spec() == 0,
            r.direction_spec() == Direction::Up,
            spec_genome_crossover(a.genome_spec(), b.genome_spec(), r.genome_spec(), mutation_rate),
            mutation_rate == 0 && a.genome_spec().same_genes(&b.genome_spec())
                ==> r.genome_spec().same_genes(&a.genome_spec()),
    {
        let genome = Genome::crossover(&a.genome, &b.genome, mutation_rate);
        let mut cells: Vec<Point> = Vec::new();
        cells.push(Point::random());
        Snake {
            genome,
            cells,
            apple: Point::random(),
            direction: Direction::Up,
            alive: true,
            moves_made: 0,
        }
    }

    /// The snake's fitness: its body length, the count of growth events
    /// plus one.
    pub fn get_fitness(&self) -> (r: u64)
        ensures
            r == self.cells_spec().len() as u64,
    {
        self.cells.len() as u64
    }

    /// The feature vector fed to the network: the head's distance to each
    /// field edge, and the head's offset from the apple.
    pub fn get_sensors(&self) -> (r: Vec<i32>)
        requires
            self.wf(),
        ensures
            r@.len() == 6,
            r@[0] == self.head().y,
            r@[1] == FIELD_HEIGHT as int - self.head().y,
            r@[2] == self.head().x,
            r@[3] == FIELD_WIDTH as int - self.head().x,
            r@[4] == self.head().x - self.apple_spec().x,
            r@[5] == self.head().y - self.apple_spec().y,
    {
        let head = self.cells[0];
        proof {
            assert(-1 <= self.cells_spec()[0].x <= FIELD_WIDTH as int);
        }
        let mut sensors: Vec<i32> = Vec::new();
        sensors.push(head.y);
        sensors.push(FIELD_HEIGHT as i32 - head.y);
        sensors.push(head.x);
        sensors.push(FIELD_WIDTH as i32 - head.x);
        sensors.push(head.x - self.apple.x);
        sensors.push(head.y - self.apple.y);
        sensors
    }

    pub fn is_alive(&self) -> (r: bool)
        ensures
            r == self.alive_spec(),
    {
        self.alive
    }

    /// Whether the kill signal is pending: the snake's next step ends in
    /// death whatever it eats.
    pub fn is_killed(&self) -> (r: bool)
        ensures
            r == self.killed(),
    {
        self.moves_made >= MOVE_LIMIT
    }

    /// Resets all transient simulation state to a fresh initial condition;
    /// the genome is left untouched, so rebirth never discards learned
    /// genetics.
    pub fn reborn(&mut self)
        ensures
            old(self).genome_spec().wf() ==> final(self).wf(),
            final(self).alive_spec(),
            final(self).cells_spec().len() == 1,
            final(self).moves_spec() == 0,
            final(self).direction_spec() == Direction::Up,
            final(self).genome_spec() == old(self).genome_spec(),
    {
        let mut cells: Vec<Point> = Vec::new();
        cells.push(Point::random());
        self.cells = cells;
        self.direction = Direction::Up;
        self.alive = true;
        self.apple = Point::random();
        self.moves_made = 0;
    }

    /// The cooperative kill signal: forces the move counter to its limit,
    /// so the snake dies on its next evaluation rather than at once.
    pub fn kill(&mut self)
        ensures
            final(self).killed(),
            final(self).moves_spec() == MOVE_LIMIT as int,
            final(self).cells_spec() == old(self).cells_spec(),
            final(self).apple_spec() == old(self).apple_spec(),
            final(self).direction_spec() == old(self).direction_spec(),
            final(self).alive_spec() == old(self).alive_spec(),
            final(self).genome_spec() == old(self).genome_spec(),
            old(self).wf() ==> final(self).wf(),
    {
        self.moves_made = MOVE_LIMIT;
    }

    /// Read-only view of the genome, for the embedding program to run
    /// inference over; genetics can never be mutated through it.
    pub fn get_genome(&self) -> (r: &Genome)
        ensures
            *r == self.genome_spec(),
    {
        &self.genome
    }

    /// Read-only view of the body cells, head first.
    pub fn get_cells(&self) -> (r: &Vec<Point>)
        ensures
            r@ == self.cells_spec(),
    {
        &self.cells
    }

    pub fn get_apple(&self) -> (r: &Point)
        ensures
            *r == self.apple_spec(),
    {
        &self.apple
    }

    pub fn get_length(&self) -> (r: usize)
        ensures
            r == self.cells_spec().len(),
    {
        self.cells.len()
    }
}

impl HasFitness for Snake {
    fn get_fitness(&self) -> u64 {
        Snake::get_fitness(self)
    }
}

impl HasLife for Snake {
    fn is_alive(&self) -> bool {
        Snake::is_alive(self)
    }

    fn reborn(&mut self) {
        Snake::reborn(self)
    }

    fn kill(&mut self) {
        Snake::kill(self)
    }
}

} // verus!
