//! Food: where it lies, when the snake eats it, and where it goes next.

use crate::world::{draw_below, Cell, World};
use vstd::prelude::*;

verus! {

/// How many random cells are tried before the grid is searched in order.
pub const MAX_REROLLS: usize = 64;

/// What a food check did.
#[derive(Clone, Copy, Debug, PartialEq, Eq, Structural)]
pub enum Growth {
    /// The head is not on the food: nothing changed.
    NotEaten,
    /// The snake grew and the food moved to a free cell.
    Grew,
    /// The snake grew and filled the grid: no free cell is left for the food.
    GridFull,
}

/// `c` is on the grid and not under the snake.
pub open spec fn is_free(w: World, c: Cell) -> bool {
    w.in_bounds(c) && !w.snake_body@.contains(c)
}

/// Every cell of the grid is under the snake.
pub open spec fn grid_full(w: World) -> bool {
    forall|c: Cell| w.in_bounds(c) ==> #[trigger] w.snake_body@.contains(c)
}

/// `a` comes before `b` in row-major order.
pub open spec fn precedes(a: Cell, b: Cell) -> bool {
    a.row < b.row || (a.row == b.row && a.col < b.col)
}

/// `c` is the first free cell of the grid in row-major order.
pub open spec fn first_free_in_order(w: World, c: Cell) -> bool {
    &&& is_free(w, c)
    &&& forall|d: Cell| w.in_bounds(d) && #[trigger] precedes(d, c) ==> w.snake_body@.contains(d)
}

/// `cands[i]` is the first free cell among the candidates.
pub open spec fn first_free_candidate(w: World, cands: Seq<Cell>, i: int) -> bool {
    &&& 0 <= i < cands.len()
    &&& is_free(w, cands[i])
    &&& forall|j: int| 0 <= j < i ==> !is_free(w, #[trigger] cands[j])
}

/// No candidate is free.
pub open spec fn none_free(w: World, cands: Seq<Cell>) -> bool {
    forall|j: int| 0 <= j < cands.len() ==> !is_free(w, #[trigger] cands[j])
}

/// Whether `c` is on the grid and not under the snake.
pub fn cell_is_free(world: &World, c: Cell) -> (r: bool)
    ensures
        r == is_free(*world, c),
{
    if c.row >= world.row_count || c.col >= world.col_count {
        return false;
    }
    let n = world.snake_body.len();
    let mut i: usize = 0;
    while i < n
        invariant
            n == world.snake_body@.len(),
            i <= n,
            forall|j: int| 0 <= j < i ==> world.snake_body@[j] != c,
        decreases n - i,
    {
        if world.snake_body[i] == c {
            return false;
        }
        i = i + 1;
    }
    true
}

/// The first free cell in row-major order, or `None` when the snake covers
/// the whole grid.
pub fn first_free_cell(world: &World) -> (r: Option<Cell>)
    ensures
        match r {
            Some(c) => first_free_in_order(*world, c),
            None => grid_full(*world),
        },
{
    let mut row: usize = 0;
    while row < world.row_count
        invariant
            row <= world.row_count,
            forall|d: Cell| world.in_bounds(d) && d.row < row ==> #[trigger] world.snake_body@.contains(d),
        decreases world.row_count - row,
    {
        let mut col: usize = 0;
        while col < world.col_count
            invariant
                row < world.row_count,
                col <= world.col_count,
                forall|d: Cell|
                    world.in_bounds(d) && (d.row < row || (d.row == row && d.col < col))
                        ==> #[trigger] world.snake_body@.contains(d),
            decreases world.col_count - col,
        {
            let c = Cell { row, col };
            if cell_is_free(world, c) {
                return Some(c);
            }
            col = col + 1;
        }
        row = row + 1;
    }
    None
}

/// Picks where the food goes: the first free cell among `candidates`, else
/// the first free cell of the grid in row-major order, else `None` when the
/// grid is full.
pub fn choose_food(world: &World, candidates: &Vec<Cell>) -> (r: Option<Cell>)
    ensures
        match r {
            Some(c) => (exists|i: int|
                first_free_candidate(*world, candidates@, i) && candidates@[i] == c) || (
            none_free(*world, candidates@) && first_free_in_order(*world, c)),
            None => none_free(*world, candidates@) && grid_full(*world),
        },
{
    let n = candidates.len();
    let mut i: usize = 0;
    while i < n
        invariant
            n == candidates@.len(),
            i <= n,
            forall|j: int| 0 <= j < i ==> !is_free(*world, #[trigger] candidates@[j]),
        decreases n - i,
    {
        let c = candidates[i];
        if cell_is_free(world, c) {
            assert(first_free_candidate(*world, candidates@, i as int));
            return Some(c);
        }
        i = i + 1;
    }
    first_free_cell(world)
}

/// A cell of the grid drawn at random; only the random source changes.
pub fn place_initial(world: &mut World) -> (r: Cell)
    requires
        old(world).wf(),
    ensures
        final(world).in_bounds(r),
        final(world).is_running == old(world).is_running,
        final(world).row_count == old(world).row_count,
        final(world).col_count == old(world).col_count,
        final(world).movement_direction == old(world).movement_direction,
        final(world).snake_body == old(world).snake_body,
{
    let row = draw_below(&mut world.rng, world.row_count);
    let col = draw_below(&mut world.rng, world.col_count);
    Cell { row, col }
}

/// Grows the snake when its head is on the food, then moves the food.
///
/// Growth appends a copy of the head, which the next step leaves behind as
/// the new tail. The food is then moved to a free cell: random cells are
/// drawn until one is free, at most `MAX_REROLLS` times, and after that the
/// grid is searched in order. When no free cell is left, the food stays and
/// `GridFull` is returned.
pub fn check_and_grow(world: &mut World, food: &mut Cell) -> (r: Growth)
    requires
        old(world).wf(),
    ensures
        final(world).wf(),
        final(world).is_running == old(world).is_running,
        final(world).row_count == old(world).row_count,
        final(world).col_count == old(world).col_count,
        final(world).movement_direction == old(world).movement_direction,
        (r == Growth::NotEaten) <==> old(world).snake_body@.last() != *old(food),
        r == Growth::NotEaten ==> *final(world) == *old(world) && *final(food) == *old(food),
        r != Growth::NotEaten ==> final(world).snake_body@ == old(world).snake_body@.push(
            *old(food),
        ),
        r == Growth::Grew ==> is_free(*final(world), *final(food)),
        r == Growth::GridFull ==> grid_full(*final(world)) && *final(food) == *old(food),
        r != Growth::NotEaten ==> (r == Growth::GridFull <==> grid_full(*final(world))),
{
    let len = world.snake_body.len();
    let head = world.snake_body[len - 1];
    if head != *food {
        return Growth::NotEaten;
    }
    world.snake_body.push(head);
    let ghost grown = world.snake_body@;
    let mut candidates: Vec<Cell> = Vec::new();
    let mut found = false;
    let mut tries: usize = 0;
    while tries < MAX_REROLLS && !found
        invariant
            world.wf(),
            world.snake_body@ == grown,
            world.is_running == old(world).is_running,
            world.row_count == old(world).row_count,
            world.col_count == old(world).col_count,
            world.movement_direction == old(world).movement_direction,
        decreases MAX_REROLLS - tries,
    {
        let c = place_initial(world);
        candidates.push(c);
        found = cell_is_free(world, c);
        tries = tries + 1;
    }
    match choose_food(world, &candidates) {
        Some(c) => {
            *food = c;
            Growth::Grew
        },
        None => Growth::GridFull,
    }
}

} // verus!
