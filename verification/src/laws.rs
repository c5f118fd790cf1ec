//! What holds of every board and every grid.

use vstd::prelude::*;

use crate::board::{count_alive, indicator, lemma_coordinate, lemma_position, next_alive, Board};
use crate::grid::Grid;

verus! {

/// The coordinates of the rectangle whose row-major position is below `k`.
pub open spec fn first_coordinates(board: Board, k: nat) -> Set<(int, int)> {
    Set::new(|p: (int, int)| board.contains(p.0, p.1) && board.position(p.0, p.1) < k)
}

/// The first `k` coordinates of a board in row-major order are `k` in number.
pub proof fn lemma_first_coordinates(board: Board, k: nat)
    requires
        k <= board.cell_count(),
    ensures
        first_coordinates(board, k).finite(),
        first_coordinates(board, k).len() == k,
    decreases k,
{
    if k == 0 {
        assert(first_coordinates(board, k) =~= Set::<(int, int)>::empty());
    } else {
        let before = (k - 1) as nat;
        lemma_first_coordinates(board, before);
        lemma_coordinate(board.width, board.height, before as int);
        let p = (before as int % board.width, before as int / board.width);
        assert forall|q: (int, int)|
            first_coordinates(board, k).contains(q) == first_coordinates(board, before).insert(
                p,
            ).contains(q) by {
            if board.contains(q.0, q.1) {
                lemma_position(board.width, board.height, q.0, q.1);
            }
        }
        assert(first_coordinates(board, k) =~= first_coordinates(board, before).insert(p));
    }
}

/// A board of width `w` and height `h`, neither negative, has exactly
/// `w * h` coordinates; a board with a side of zero or less has none.
pub proof fn lemma_coordinates_count(board: Board)
    ensures
        board.coordinates().finite(),
        board.coordinates().len() == board.cell_count(),
        board.width >= 0 && board.height >= 0 ==> board.cell_count() == board.width
            * board.height,
{
    let n = board.cell_count();
    lemma_first_coordinates(board, n);
    assert forall|q: (int, int)|
        board.coordinates().contains(q) == first_coordinates(board, n).contains(q) by {
        if board.contains(q.0, q.1) {
            lemma_position(board.width, board.height, q.0, q.1);
        }
    }
    assert(board.coordinates() =~= first_coordinates(board, n));
    if board.width == 0 || board.height == 0 {
        assert(board.width * board.height == 0) by (nonlinear_arith)
            requires
                board.width == 0 || board.height == 0,
        ;
    }
}

/// The cells of a board in row-major order hold one cell per coordinate of
/// the rectangle: the cell of `(x, y)` stands at the position of `(x, y)`,
/// and every position holds the cell of a coordinate of the rectangle.
pub proof fn lemma_cells_one_per_coordinate(board: Board)
    requires
        board.wf(),
    ensures
        board.cells().len() == board.cell_count(),
        forall|x: int, y: int|
            board.contains(x, y) ==> 0 <= #[trigger] board.position(x, y) < board.cells().len()
                && Some(board.cells()[board.position(x, y)]) == board.lookup(x, y),
        forall|i: int|
            0 <= i < board.cells().len() ==> board.contains(
                (#[trigger] board.cells()[i]).x as int,
                board.cells()[i].y as int,
            ) && board.position(board.cells()[i].x as int, board.cells()[i].y as int) == i,
{
    assert forall|x: int, y: int| board.contains(x, y) implies 0 <= #[trigger] board.position(
        x,
        y,
    ) < board.cells().len() && Some(board.cells()[board.position(x, y)]) == board.lookup(
        x,
        y,
    ) by {
        lemma_position(board.width, board.height, x, y);
    }
    assert forall|i: int| 0 <= i < board.cells().len() implies board.contains(
        (#[trigger] board.cells()[i]).x as int,
        board.cells()[i].y as int,
    ) && board.position(board.cells()[i].x as int, board.cells()[i].y as int) == i by {
        lemma_coordinate(board.width, board.height, i);
    }
}

/// A grid made by `Grid::new` or `Grid::random` for a width and a height
/// that are not negative has exactly `width * height` cells, one per
/// coordinate of the rectangle. Stated of any grid of that size.
pub proof fn lemma_grid_cell_count(grid: Grid, width: int, height: int)
    requires
        grid@.width == width,
        grid@.height == height,
        width >= 0,
        height >= 0,
    ensures
        grid@.coordinates().finite(),
        grid@.coordinates().len() == width * height,
        grid@.cells().len() == width * height,
{
    lemma_coordinates_count(grid@);
}

/// The transition rule, case by case: a live cell lives on with two or
/// three live neighbours and dies otherwise; a dead cell comes alive with
/// exactly three and stays dead otherwise.
pub proof fn lemma_transition_table(live_neighbours: nat)
    ensures
        next_alive(true, live_neighbours) <==> live_neighbours == 2 || live_neighbours == 3,
        next_alive(false, live_neighbours) <==> live_neighbours == 3,
        live_neighbours <= 1 ==> !next_alive(true, live_neighbours),
        live_neighbours >= 4 ==> !next_alive(true, live_neighbours),
{
}

/// A step keeps the size of the board and leaves nothing alive outside the
/// rectangle.
pub proof fn lemma_step_keeps_shape(board: Board)
    requires
        board.wf(),
    ensures
        board.step().width == board.width,
        board.step().height == board.height,
        board.step().wf(),
{
}

/// A cell has at most eight neighbours, and no more live ones than it has
/// neighbours.
pub proof fn lemma_neighbours_bounded(board: Board, x: int, y: int)
    requires
        board.wf(),
    ensures
        board.neighbours(x, y).len() <= 8,
        board.live_neighbours(x, y) <= board.neighbours(x, y).len(),
        board.live_neighbours(x, y) == count_alive(board.neighbours(x, y)),
{
    board.lemma_count_alive_neighbours(x, y);
    assert(board.wf());
    assert(board.alive(x - 1, y - 1) ==> board.contains(x - 1, y - 1));
    assert(board.alive(x, y - 1) ==> board.contains(x, y - 1));
    assert(board.alive(x + 1, y - 1) ==> board.contains(x + 1, y - 1));
    assert(board.alive(x - 1, y) ==> board.contains(x - 1, y));
    assert(board.alive(x + 1, y) ==> board.contains(x + 1, y));
    assert(board.alive(x - 1, y + 1) ==> board.contains(x - 1, y + 1));
    assert(board.alive(x, y + 1) ==> board.contains(x, y + 1));
    assert(board.alive(x + 1, y + 1) ==> board.contains(x + 1, y + 1));
}

/// The boundary is closed: the corner cell `(0, 0)` has at most three
/// neighbours, exactly the cells at `(1, 0)`, `(0, 1)` and `(1, 1)` where
/// the board is at least two by two, and what lies beyond the edge is never
/// counted as alive.
pub proof fn lemma_corner_is_clipped(board: Board)
    requires
        board.wf(),
    ensures
        board.neighbours(0, 0).len() <= 3,
        board.live_neighbours(0, 0) <= 3,
        board.live_neighbours(0, 0) == indicator_sum3(
            board.alive(1, 0),
            board.alive(0, 1),
            board.alive(1, 1),
        ),
        board.width >= 2 && board.height >= 2 ==> board.neighbours(0, 0) == seq![
            board.lookup(1, 0).unwrap(),
            board.lookup(0, 1).unwrap(),
            board.lookup(1, 1).unwrap(),
        ],
{
    assert(!board.contains(-1, -1) && !board.contains(0, -1) && !board.contains(1, -1));
    assert(!board.contains(-1, 0) && !board.contains(-1, 1));
    assert(!board.alive(-1, -1) && !board.alive(0, -1) && !board.alive(1, -1));
    assert(!board.alive(-1, 0) && !board.alive(-1, 1));
    if board.width >= 2 && board.height >= 2 {
        assert(board.neighbours(0, 0) =~= seq![
            board.lookup(1, 0).unwrap(),
            board.lookup(0, 1).unwrap(),
            board.lookup(1, 1).unwrap(),
        ]);
    }
}

/// How many of three conditions hold.
pub open spec fn indicator_sum3(a: bool, b: bool, c: bool) -> nat {
    indicator(a) + indicator(b) + indicator(c)
}

/// Nothing outside the rectangle is alive, and no lookup finds a cell
/// there.
pub proof fn lemma_outside_is_dead(board: Board, x: int, y: int)
    requires
        board.wf(),
        !board.contains(x, y),
    ensures
        !board.alive(x, y),
        board.lookup(x, y).is_none(),
        board.slot(x, y).len() == 0,
{
}

/// Looking up is repeatable: what `cell` and `cell_neighbors` return
/// depends on the grid's cells and the coordinate alone, so two lookups with
/// no change to the grid between them give the same.
pub proof fn lemma_lookup_repeatable(first: Grid, second: Grid, x: int, y: int)
    requires
        first@ == second@,
    ensures
        first@.lookup(x, y) == second@.lookup(x, y),
        first@.neighbours(x, y) == second@.neighbours(x, y),
        first@.live_neighbours(x, y) == second@.live_neighbours(x, y),
{
}

/// A pattern that one step leaves unchanged is left unchanged by any
/// number of steps.
pub proof fn lemma_still_life_stays(board: Board, generations: nat)
    requires
        board.step() == board,
    ensures
        board.steps(generations) == board,
    decreases generations,
{
    if generations > 0 {
        lemma_still_life_stays(board, (generations - 1) as nat);
    }
}

/// A pattern that two steps bring back is brought back by any even number
/// of steps.
pub proof fn lemma_period_two(board: Board, rounds: nat)
    requires
        board.step().step() == board,
    ensures
        board.steps(2 * rounds) == board,
    decreases rounds,
{
    if rounds > 0 {
        lemma_period_two(board, (rounds - 1) as nat);
        assert(board.steps(2 * rounds) == board.steps((2 * rounds - 1) as nat).step());
        assert(board.steps((2 * rounds - 1) as nat) == board.steps(
            (2 * rounds - 2) as nat,
        ).step());
    }
}

} // verus!
