//! The grid world: its dimensions, the snake, the direction it moves in, and
//! whether the game is running.

use rand::Rng;
use vstd::arithmetic::div_mod::{lemma_fundamental_div_mod, lemma_fundamental_div_mod_converse};
use vstd::prelude::*;

verus! {

/// A grid cell, addressed by row and column.
#[derive(Clone, Copy, Debug, PartialEq, Eq, Structural)]
pub struct Cell {
    pub row: usize,
    pub col: usize,
}

/// The direction in which the head of the snake moves.
#[derive(Clone, Copy, Debug, PartialEq, Eq, Structural)]
pub enum Direction {
    Up,
    Left,
    Down,
    Right,
}

#[verifier::external_type_specification]
#[verifier::external_body]
pub struct ExThreadRng(rand::rngs::ThreadRng);

/// Relies on rand::thread_rng: hands out the generator of the current thread.
pub assume_specification[ rand::thread_rng ]() -> rand::rngs::ThreadRng;

/// Relies on rand's `Rng::gen_range` over `0..bound`: a value drawn from that
/// range (it panics only on an empty range, which `requires` leaves out).
#[verifier::external_body]
pub(crate) fn draw_below(rng: &mut rand::rngs::ThreadRng, bound: usize) -> (r: usize)
    requires
        bound > 0,
    ensures
        r < bound,
{
    rng.gen_range(0..bound)
}

/// `x + delta` taken modulo `max`, always in `0..max`.
pub open spec fn wrap(x: usize, delta: int, max: usize) -> int {
    (x as int + delta) % (max as int)
}

/// The cell next to `head` in direction `dir`, on a grid of `rows` by `cols`
/// whose borders wrap around.
pub open spec fn next_head(head: Cell, dir: Direction, rows: usize, cols: usize) -> Cell {
    match dir {
        Direction::Up => Cell { row: wrap(head.row, -1, rows) as usize, col: head.col },
        Direction::Down => Cell { row: wrap(head.row, 1, rows) as usize, col: head.col },
        Direction::Left => Cell { row: head.row, col: wrap(head.col, -1, cols) as usize },
        Direction::Right => Cell { row: head.row, col: wrap(head.col, 1, cols) as usize },
    }
}

/// The body after one move: every cell takes the place of the one ahead of
/// it, and the head moves to `new_head`.
pub open spec fn moved(body: Seq<Cell>, new_head: Cell) -> Seq<Cell> {
    body.subrange(1, body.len() as int).push(new_head)
}

/// The starting body, tail first: three cells along the top row.
pub open spec fn initial_body() -> Seq<Cell> {
    seq![Cell { row: 0, col: 0 }, Cell { row: 0, col: 1 }, Cell { row: 0, col: 2 }]
}

/// A move never leaves the grid: from any cell on it, in any direction, the
/// next head is on it too.
pub proof fn lemma_next_head_in_bounds(head: Cell, dir: Direction, rows: usize, cols: usize)
    requires
        rows > 0,
        cols > 0,
        head.row < rows,
        head.col < cols,
    ensures
        next_head(head, dir, rows, cols).row < rows,
        next_head(head, dir, rows, cols).col < cols,
{
}

/// Moving off one edge of the grid comes back in at the opposite edge.
pub proof fn lemma_wraparound(rows: usize, cols: usize, row: usize, col: usize)
    requires
        rows > 0,
        cols > 0,
        row < rows,
        col < cols,
    ensures
        next_head(Cell { row: 0, col }, Direction::Up, rows, cols).row == rows - 1,
        next_head(Cell { row: (rows - 1) as usize, col }, Direction::Down, rows, cols).row == 0,
        next_head(Cell { row, col: 0 }, Direction::Left, rows, cols).col == cols - 1,
        next_head(Cell { row, col: (cols - 1) as usize }, Direction::Right, rows, cols).col == 0,
{
    lemma_fundamental_div_mod_converse(-1, rows as int, -1, rows - 1);
    lemma_fundamental_div_mod_converse(rows as int, rows as int, 1, 0);
    lemma_fundamental_div_mod_converse(-1, cols as int, -1, cols - 1);
    lemma_fundamental_div_mod_converse(cols as int, cols as int, 1, 0);
}

/// A step keeps the length of the snake: it only moves cells.
pub proof fn lemma_step_keeps_length(body: Seq<Cell>, new_head: Cell)
    requires
        body.len() >= 1,
    ensures
        moved(body, new_head).len() == body.len(),
{
}

/// Setting the same direction twice leaves the same state as setting it once.
pub proof fn lemma_set_direction_idempotent(w: World, d: Direction)
    ensures
        w.with_direction(d).with_direction(d) == w.with_direction(d),
{
}

/// `x - 1` modulo `max`.
fn wrap_dec(x: usize, max: usize) -> (r: usize)
    requires
        max > 0,
    ensures
        r as int == wrap(x, -1, max),
{
    let m = x % max;
    proof {
        let q = x as int / max as int;
        lemma_fundamental_div_mod(x as int, max as int);
        if m == 0 {
            assert(x as int - 1 == (q - 1) * max as int + (max - 1)) by (nonlinear_arith)
                requires
                    x as int == max as int * q + m as int,
                    m == 0,
            ;
            lemma_fundamental_div_mod_converse(x as int - 1, max as int, q - 1, max - 1);
        } else {
            assert(x as int - 1 == q * max as int + (m - 1)) by (nonlinear_arith)
                requires
                    x as int == max as int * q + m as int,
            ;
            lemma_fundamental_div_mod_converse(x as int - 1, max as int, q, m - 1);
        }
    }
    if m == 0 {
        max - 1
    } else {
        m - 1
    }
}

/// `x + 1` modulo `max`.
fn wrap_inc(x: usize, max: usize) -> (r: usize)
    requires
        max > 0,
    ensures
        r as int == wrap(x, 1, max),
{
    let m = x % max;
    proof {
        let q = x as int / max as int;
        lemma_fundamental_div_mod(x as int, max as int);
        if m == max - 1 {
            assert(x as int + 1 == (q + 1) * max as int + 0) by (nonlinear_arith)
                requires
                    x as int == max as int * q + m as int,
                    m == max - 1,
            ;
            lemma_fundamental_div_mod_converse(x as int + 1, max as int, q + 1, 0);
        } else {
            assert(x as int + 1 == q * max as int + (m + 1)) by (nonlinear_arith)
                requires
                    x as int == max as int * q + m as int,
            ;
            lemma_fundamental_div_mod_converse(x as int + 1, max as int, q, m + 1);
        }
    }
    if m == max - 1 {
        0
    } else {
        m + 1
    }
}

/// The game state: grid size, snake body (tail first, head last), direction,
/// the running flag, and the random source used to place food.
pub struct World {
    pub is_running: bool,
    pub row_count: usize,
    pub col_count: usize,
    pub rng: rand::rngs::ThreadRng,
    pub movement_direction: Direction,
    pub snake_body: Vec<Cell>,
}

impl World {
    /// A usable world: both dimensions positive and a snake of at least one cell.
    pub open spec fn wf(&self) -> bool {
        &&& self.row_count > 0
        &&& self.col_count > 0
        &&& self.snake_body@.len() >= 1
    }

    pub open spec fn in_bounds(&self, c: Cell) -> bool {
        c.row < self.row_count && c.col < self.col_count
    }

    /// Every cell of the snake lies on the grid.
    pub open spec fn body_in_bounds(&self) -> bool {
        forall|i: int| 0 <= i < self.snake_body@.len() ==> #[trigger] self.in_bounds(
            self.snake_body@[i],
        )
    }

    /// This world with its direction set to `d`.
    pub open spec fn with_direction(self, d: Direction) -> World {
        World { movement_direction: d, ..self }
    }

    /// This world with its running flag flipped.
    pub open spec fn toggled(self) -> World {
        World { is_running: !self.is_running, ..self }
    }

    /// The cell the head moves to on the next tick.
    pub open spec fn head_after_step(&self) -> Cell {
        next_head(self.snake_body@.last(), self.movement_direction, self.row_count, self.col_count)
    }

    /// A running world of `rows` by `cols`, moving left, with the starting snake.
    pub fn new(rows: usize, cols: usize) -> (w: World)
        requires
            rows > 0,
            cols > 0,
        ensures
            w.wf(),
            w.is_running,
            w.row_count == rows,
            w.col_count == cols,
            w.movement_direction == Direction::Left,
            w.snake_body@ == initial_body(),
            cols >= 3 ==> w.body_in_bounds(),
    {
        let mut world = World {
            is_running: true,
            row_count: rows,
            col_count: cols,
            rng: rand::thread_rng(),
            movement_direction: Direction::Up,
            snake_body: Vec::new(),
        };
        world.init();
        world
    }

    /// Sets the direction to left and appends the three starting cells.
    pub fn init(&mut self)
        ensures
            final(self).movement_direction == Direction::Left,
            final(self).snake_body@ == old(self).snake_body@ + initial_body(),
            final(self).is_running == old(self).is_running,
            final(self).row_count == old(self).row_count,
            final(self).col_count == old(self).col_count,
            final(self).rng == old(self).rng,
    {
        self.movement_direction = Direction::Left;
        self.snake_body.push(Cell { row: 0, col: 0 });
        self.snake_body.push(Cell { row: 0, col: 1 });
        self.snake_body.push(Cell { row: 0, col: 2 });
        assert(self.snake_body@ =~= old(self).snake_body@ + initial_body());
    }

    /// Advances the snake by one cell when running; does nothing when paused.
    pub fn step(&mut self)
        requires
            old(self).wf(),
        ensures
            final(self).wf(),
            !old(self).is_running ==> *final(self) == *old(self),
            old(self).is_running ==> final(self).snake_body@ == moved(
                old(self).snake_body@,
                old(self).head_after_step(),
            ),
            final(self).is_running == old(self).is_running,
            final(self).row_count == old(self).row_count,
            final(self).col_count == old(self).col_count,
            final(self).movement_direction == old(self).movement_direction,
            final(self).rng == old(self).rng,
            old(self).body_in_bounds() ==> final(self).body_in_bounds(),
    {
        if !self.is_running {
            return;
        }
        let len = self.snake_body.len();
        let head = self.snake_body[len - 1];
        let ghost body = self.snake_body@;
        let mut i: usize = 0;
        while i < len - 1
            invariant
                len == body.len(),
                len >= 1,
                i <= len - 1,
                old(self).wf(),
                self.is_running == old(self).is_running,
                self.row_count == old(self).row_count,
                self.col_count == old(self).col_count,
                self.movement_direction == old(self).movement_direction,
                self.rng == old(self).rng,
                body == old(self).snake_body@,
                self.snake_body@.len() == len,
                forall|j: int| 0 <= j < i ==> self.snake_body@[j] == body[j + 1],
                forall|j: int| i <= j < len ==> self.snake_body@[j] == body[j],
            decreases len - 1 - i,
        {
            let next = self.snake_body[i + 1];
            self.snake_body.set(i, next);
            i = i + 1;
        }
        let new_head = match self.movement_direction {
            Direction::Up => Cell { row: wrap_dec(head.row, self.row_count), col: head.col },
            Direction::Down => Cell { row: wrap_inc(head.row, self.row_count), col: head.col },
            Direction::Left => Cell { row: head.row, col: wrap_dec(head.col, self.col_count) },
            Direction::Right => Cell { row: head.row, col: wrap_inc(head.col, self.col_count) },
        };
        self.snake_body.set(len - 1, new_head);
        assert(self.snake_body@ =~= moved(body, new_head));
        proof {
            if old(self).body_in_bounds() {
                assert(old(self).in_bounds(body[len - 1]));
                lemma_next_head_in_bounds(head, self.movement_direction, self.row_count, self.col_count);
                assert forall|j: int| 0 <= j < self.snake_body@.len() implies #[trigger] self.in_bounds(
                    self.snake_body@[j],
                ) by {
                    if j < len - 1 {
                        assert(old(self).in_bounds(body[j + 1]));
                    }
                }
            }
        }
    }

    /// Points the snake in direction `d`, whatever it was before.
    pub fn set_direction(&mut self, d: Direction)
        ensures
            *final(self) == old(self).with_direction(d),
    {
        self.movement_direction = d;
    }

    /// Pauses a running game, or resumes a paused one.
    pub fn toggle_running(&mut self)
        ensures
            *final(self) == old(self).toggled(),
    {
        self.is_running = !self.is_running;
    }
}

} // verus!
