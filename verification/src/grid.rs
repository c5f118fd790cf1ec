//! The executable grid: a dense rectangle of cells kept in row-major order.

use vstd::prelude::*;

use crate::board::{
    all_within, area, lemma_coordinate, lemma_position, names, next_alive, Board, DEAD_CELL,
    LIVE_CELL,
};
use crate::cell::Cell;
use crate::chance::random_bool;
use crate::terminal::{clear_all, clear_all_text, cursor_goto, goto_text};

verus! {

/// Why an operation on a grid failed.
#[derive(Debug, Clone, Copy, PartialEq, Eq, Structural)]
pub enum GridError {
    /// The coordinate has no cell in the grid.
    CellOutOfBoundsError,
    /// Reserved; no operation returns it.
    UnknownError,
}

/// A rectangle of cells, one per coordinate in `[0, width) x [0, height)`.
#[derive(Debug)]
pub struct Grid {
    width: i32,
    height: i32,
    cells: Vec<Cell>,
}

/// `cells` holds one cell per coordinate of the rectangle, row by row, and
/// each cell carries the coordinate of its place.
pub open spec fn laid_out(cells: Seq<Cell>, width: int, height: int) -> bool {
    &&& cells.len() == area(width, height)
    &&& forall|i: int|
        0 <= i < cells.len() ==> (#[trigger] cells[i]).x == i % width && cells[i].y == i / width
}

impl View for Grid {
    type V = Board;

    closed spec fn view(&self) -> Board {
        Board {
            width: self.width as int,
            height: self.height as int,
            live: Set::new(
                |p: (int, int)|
                    0 <= p.0 < self.width && 0 <= p.1 < self.height && self.cells@[p.1
                        * self.width + p.0].is_alive,
            ),
        }
    }
}

impl Clone for Grid {
    fn clone(&self) -> (copy: Grid)
        ensures
            copy@ == self@,
    {
        proof {
            use_type_invariant(self);
        }
        let cells = self.cells.clone();
        assert(cells@ =~= self.cells@);
        Grid { width: self.width, height: self.height, cells }
    }
}

impl Grid {
    #[verifier::type_invariant]
    spec fn well_formed(self) -> bool {
        laid_out(self.cells@, self.width as int, self.height as int)
    }

    /// The view of a grid is a well-formed board.
    pub proof fn lemma_view_wf(self)
        ensures
            self@.wf(),
    {
    }

    /// A grid of the given size in which every cell is dead. A width or
    /// height of zero or less gives a grid without cells.
    pub fn new(width: i32, height: i32) -> (grid: Grid)
        ensures
            grid@.width == width,
            grid@.height == height,
            grid@.live == Set::<(int, int)>::empty(),
    {
        let cells = dead_cells(width, height);
        let grid = Grid { width, height, cells };
        assert(grid@.live =~= Set::<(int, int)>::empty()) by {
            assert forall|p: (int, int)| !grid@.live.contains(p) by {
                if 0 <= p.0 < width && 0 <= p.1 < height {
                    lemma_position(width as int, height as int, p.0, p.1);
                }
            }
        }
        grid
    }

    /// A grid of the given size in which exactly the cells at `live_cells`
    /// are alive; a coordinate may be listed more than once. Fails where one
    /// of the coordinates has no cell in the grid.
    pub fn from_seed(width: i32, height: i32, live_cells: &[(i32, i32)]) -> (seeded: Result<
        Grid,
        GridError,
    >)
        ensures
            match seeded {
                Ok(grid) => all_within(width as int, height as int, live_cells@) && grid@
                    == Board::seeded(width as int, height as int, live_cells@),
                Err(e) => e == GridError::CellOutOfBoundsError && !all_within(
                    width as int,
                    height as int,
                    live_cells@,
                ),
            },
    {
        let mut grid = Grid::new(width, height);
        let mut i: usize = 0;
        assert(grid@.live =~= Board::seeded(
            width as int,
            height as int,
            live_cells@.take(0),
        ).live);
        while i < live_cells.len()
            invariant
                0 <= i <= live_cells@.len(),
                all_within(width as int, height as int, live_cells@.take(i as int)),
                grid@ == Board::seeded(width as int, height as int, live_cells@.take(i as int)),
            decreases live_cells@.len() - i,
        {
            let (x, y) = live_cells[i];
            match grid.set_cell(x, y, true) {
                Ok(_) => {},
                Err(e) => {
                    assert(!grid@.contains(live_cells@[i as int].0 as int, y as int));
                    return Err(e);
                },
            }
            proof {
                let shorter = live_cells@.take(i as int);
                let longer = live_cells@.take(i + 1);
                let target = Board::seeded(width as int, height as int, longer);
                assert forall|p: (int, int)| grid@.live.contains(p) == target.live.contains(
                    p,
                ) by {
                    if grid@.live.contains(p) {
                        if p == (x as int, y as int) {
                            assert(names(longer, i as int, p));
                        } else {
                            let j = choose|j: int| names(shorter, j, p);
                            assert(names(longer, j, p));
                        }
                    }
                    if target.live.contains(p) {
                        let j = choose|j: int| names(longer, j, p);
                        if j < i {
                            assert(names(shorter, j, p));
                        }
                    }
                }
                assert(grid@.live =~= target.live);
                assert forall|j: int| 0 <= j < longer.len() implies 0 <= (#[trigger] longer[j]).0
                    < width && 0 <= longer[j].1 < height by {
                    if j < i {
                        assert(shorter[j] == longer[j]);
                    }
                }
            }
            i = i + 1;
        }
        assert(live_cells@.take(i as int) =~= live_cells@);
        Ok(grid)
    }

    /// A grid of the given size in which each cell is alive or dead by a
    /// draw of its own. Nothing is promised of the pattern.
    pub fn random(width: i32, height: i32) -> (grid: Grid)
        ensures
            grid@.width == width,
            grid@.height == height,
            grid@.wf(),
    {
        let mut grid = Grid::new(width, height);
        let mut y: i32 = 0;
        while y < height
            invariant
                0 <= y,
                grid@.width == width,
                grid@.height == height,
            decreases height - y,
        {
            let mut x: i32 = 0;
            while x < width
                invariant
                    0 <= y < height,
                    0 <= x,
                    grid@.width == width,
                    grid@.height == height,
                decreases width - x,
            {
                let drawn = random_bool();
                let _ = grid.set_cell(x, y, drawn);
                x = x + 1;
            }
            y = y + 1;
        }
        proof {
            grid.lemma_view_wf();
        }
        grid
    }

    /// The place of `(x, y)` in `cells`, or `None` where the grid has no such
    /// cell.
    fn index_of(&self, x: i32, y: i32) -> (index: Option<usize>)
        ensures
            match index {
                Some(i) => self@.contains(x as int, y as int) && i == y * self.width + x && i
                    < self.cells@.len(),
                None => !self@.contains(x as int, y as int),
            },
    {
        if 0 <= x && x < self.width && 0 <= y && y < self.height {
            proof {
                use_type_invariant(self);
                lemma_position(self.width as int, self.height as int, x as int, y as int);
            }
            let count: usize = self.cells.len();
            assert(y * self.width + x < count);
            Some((y as usize) * (self.width as usize) + (x as usize))
        } else {
            None
        }
    }

    /// The cell at `(x, y)`, or `None` where the grid has none.
    pub fn cell(&self, x: i32, y: i32) -> (found: Option<&Cell>)
        ensures
            match found {
                Some(cell) => self@.lookup(x as int, y as int) == Some(*cell),
                None => self@.lookup(x as int, y as int).is_none(),
            },
    {
        match self.index_of(x, y) {
            Some(i) => {
                proof {
                    use_type_invariant(self);
                    lemma_position(self.width as int, self.height as int, x as int, y as int);
                }
                Some(&self.cells[i])
            },
            None => None,
        }
    }

    /// The cells around `(x, y)`, or `None` where the grid has no cell at
    /// `(x, y)`.
    pub fn cell_neighbors(&self, x: i32, y: i32) -> (around: Option<Vec<Cell>>)
        ensures
            match around {
                Some(cells) => self@.contains(x as int, y as int) && cells@ == self@.neighbours(
                    x as int,
                    y as int,
                ),
                None => !self@.contains(x as int, y as int),
            },
    {
        match self.cell(x, y) {
            Some(cell) => Some(cell.neighbours(self)),
            None => None,
        }
    }

    /// Makes the cell at `(x, y)` alive or dead. Fails, and leaves the grid
    /// as it is, where the grid has no cell at `(x, y)`.
    pub fn set_cell(&mut self, x: i32, y: i32, is_alive: bool) -> (done: Result<(), GridError>)
        ensures
            match done {
                Ok(_) => old(self)@.contains(x as int, y as int) && final(self)@ == old(
                    self,
                )@.with_state(x as int, y as int, is_alive),
                Err(e) => e == GridError::CellOutOfBoundsError && !old(self)@.contains(
                    x as int,
                    y as int,
                ) && final(self)@ == old(self)@,
            },
    {
        match self.index_of(x, y) {
            Some(i) => {
                proof {
                    use_type_invariant(&*self);
                    lemma_position(self.width as int, self.height as int, x as int, y as int);
                }
                put(&mut self.cells, i, Cell::new(x, y, is_alive));
                proof {
                    let w = self.width as int;
                    let h = self.height as int;
                    lemma_position(w, h, x as int, y as int);
                    let target = old(self)@.with_state(x as int, y as int, is_alive);
                    assert forall|p: (int, int)| self@.live.contains(p) == target.live.contains(
                        p,
                    ) by {
                        if 0 <= p.0 < w && 0 <= p.1 < h {
                            lemma_position(w, h, p.0, p.1);
                        }
                    }
                    assert(self@.live =~= target.live);
                }
                Ok(())
            },
            None => Err(GridError::CellOutOfBoundsError),
        }
    }

    /// Flips the cell at `(x, y)` between alive and dead, and hands the grid
    /// back. Fails, and leaves the grid as it is, where the grid has no cell
    /// at `(x, y)`.
    pub fn toggle_cell(&mut self, x: i32, y: i32) -> (done: Result<&Grid, GridError>)
        ensures
            match done {
                Ok(grid) => old(self)@.contains(x as int, y as int) && final(self)@ == old(
                    self,
                )@.toggled(x as int, y as int) && grid@ == final(self)@,
                Err(e) => e == GridError::CellOutOfBoundsError && !old(self)@.contains(
                    x as int,
                    y as int,
                ) && final(self)@ == old(self)@,
            },
    {
        let is_alive = match self.cell(x, y) {
            Some(cell) => cell.is_alive,
            None => {
                return Err(GridError::CellOutOfBoundsError);
            },
        };
        match self.set_cell(x, y, !is_alive) {
            Ok(_) => Ok(self),
            Err(e) => Err(e),
        }
    }
}

impl Grid {
    /// The cells of the next generation, each computed from this one.
    fn next_cells(&self) -> (next: Vec<Cell>)
        ensures
            next@.len() == self.cells@.len(),
            forall|i: int|
                0 <= i < next@.len() ==> (#[trigger] next@[i]) == (Cell {
                    is_alive: next_alive(
                        self.cells@[i].is_alive,
                        self@.live_neighbours(self.cells@[i].x as int, self.cells@[i].y as int),
                    ),
                    ..self.cells@[i]
                }),
    {
        let mut next: Vec<Cell> = Vec::new();
        let mut i: usize = 0;
        while i < self.cells.len()
            invariant
                0 <= i <= self.cells@.len(),
                next@.len() == i,
                forall|j: int|
                    0 <= j < i ==> (#[trigger] next@[j]) == (Cell {
                        is_alive: next_alive(
                            self.cells@[j].is_alive,
                            self@.live_neighbours(
                                self.cells@[j].x as int,
                                self.cells@[j].y as int,
                            ),
                        ),
                        ..self.cells@[j]
                    }),
            decreases self.cells@.len() - i,
        {
            let cell = self.cells[i];
            let count = cell.live_neighbours_count(self);
            next.push(cell.next_state(count));
            i = i + 1;
        }
        next
    }

    /// Advances the grid by one generation and hands it back. Every cell
    /// changes at once: each is judged by the generation before the call.
    pub fn next_state(&mut self) -> (grid: &Grid)
        ensures
            final(self)@ == old(self)@.step(),
            grid@ == final(self)@,
    {
        let next = self.next_cells();
        proof {
            use_type_invariant(&*self);
        }
        self.cells = next;
        proof {
            let w = self.width as int;
            let h = self.height as int;
            let target = old(self)@.step();
            assert forall|p: (int, int)| self@.live.contains(p) == target.live.contains(p) by {
                if 0 <= p.0 < w && 0 <= p.1 < h {
                    lemma_position(w, h, p.0, p.1);
                }
            }
            assert(self@.live =~= target.live);
        }
        self
    }

    /// The grid as a frame for a terminal: the sequence that moves the
    /// cursor to the top left, the one that clears the screen, then the
    /// grid's text.
    pub fn render(&self) -> (frame: String)
        ensures
            frame@ == goto_text(1, 1) + clear_all_text() + self@.text(),
    {
        let mut frame = cursor_goto(1, 1);
        let clear = clear_all();
        frame.push_str(clear.as_str());
        let ghost head = frame@;
        let ghost text = self@.text();
        let ghost columns = self@.columns();
        let ghost rows = self@.rows();
        proof {
            self.lemma_view_wf();
            assert(frame@ =~= head + text.take(0));
        }
        let mut y: i32 = 0;
        while y < self.height
            invariant
                0 <= y <= rows,
                head == goto_text(1, 1) + clear_all_text(),
                text == self@.text(),
                columns == self@.columns(),
                rows == self@.rows(),
                self@.width == self.width,
                self@.height == self.height,
                frame@ == head + text.take(y * (columns + 1)),
            decreases self.height - y,
        {
            let mut x: i32 = 0;
            while x < self.width
                invariant
                    0 <= y < rows,
                    0 <= x <= columns,
                    text == self@.text(),
                    columns == self@.columns(),
                    rows == self@.rows(),
                    self@.width == self.width,
                    self@.height == self.height,
                    frame@ == head + text.take(y * (columns + 1) + x),
                decreases self.width - x,
            {
                let shown = match self.cell(x, y) {
                    Some(cell) => if cell.is_alive {
                        LIVE_CELL
                    } else {
                        DEAD_CELL
                    },
                    None => DEAD_CELL,
                };
                proof {
                    let k = y * (columns + 1) + x;
                    lemma_position(columns + 1, rows, x as int, y as int);
                    assert(rows * (columns + 1) == (columns + 1) * rows) by (nonlinear_arith);
                    assert(0 <= k < text.len());
                    assert(text[k] == shown);
                    assert(text.take(k + 1) =~= text.take(k).push(shown));
                    assert(head + text.take(k).push(shown) =~= (head + text.take(k)).push(shown));
                }
                frame.push(shown);
                x = x + 1;
            }
            proof {
                let k = y * (columns + 1) + columns;
                lemma_position(columns + 1, rows, columns, y as int);
                assert(rows * (columns + 1) == (columns + 1) * rows) by (nonlinear_arith);
                assert(0 <= k < text.len());
                assert(text[k] == '\n');
                assert(text.take(k + 1) =~= text.take(k).push('\n'));
                assert(head + text.take(k).push('\n') =~= (head + text.take(k)).push('\n'));
                assert(k + 1 == (y + 1) * (columns + 1)) by (nonlinear_arith)
                    requires
                        k == y * (columns + 1) + columns,
                ;
            }
            frame.push('\n');
            y = y + 1;
        }
        proof {
            assert(rows * (columns + 1) == y * (columns + 1));
            assert(text.take(y * (columns + 1)) =~= text);
        }
        frame
    }

    /// The cells in row-major order: the row `y == 0` from left to right,
    /// then the next.
    pub fn snapshot(&self) -> (cells: Vec<Cell>)
        ensures
            cells@ == self@.cells(),
    {
        let cells = self.cells.clone();
        proof {
            use_type_invariant(self);
            let w = self.width as int;
            let h = self.height as int;
            assert(cells@.len() == self.cells@.len());
            assert forall|i: int| 0 <= i < cells@.len() implies cells@[i] == self@.cells()[i] by {
                lemma_coordinate(w, h, i);
                assert(cells@[i] == self.cells@[i]);
            }
            assert(cells@ =~= self@.cells());
        }
        cells
    }
}

/// Replaces the cell at place `i`.
fn put(cells: &mut Vec<Cell>, i: usize, cell: Cell)
    requires
        i < old(cells)@.len(),
    ensures
        final(cells)@ == old(cells)@.update(i as int, cell),
    no_unwind
{
    cells[i] = cell;
}

/// The cells of an all-dead grid in row-major order.
fn dead_cells(width: i32, height: i32) -> (cells: Vec<Cell>)
    ensures
        laid_out(cells@, width as int, height as int),
        forall|i: int| 0 <= i < cells@.len() ==> !(#[trigger] cells@[i]).is_alive,
{
    let mut cells: Vec<Cell> = Vec::new();
    if width <= 0 || height <= 0 {
        return cells;
    }
    let mut y: i32 = 0;
    while y < height
        invariant
            0 < width,
            0 <= y <= height,
            cells@.len() == y * width,
            forall|i: int|
                0 <= i < cells@.len() ==> (#[trigger] cells@[i]).x == i % (width as int)
                    && cells@[i].y == i / (width as int) && !cells@[i].is_alive,
        decreases height - y,
    {
        let mut x: i32 = 0;
        while x < width
            invariant
                0 < width,
                0 <= y < height,
                0 <= x <= width,
                cells@.len() == y * width + x,
                forall|i: int|
                    0 <= i < cells@.len() ==> (#[trigger] cells@[i]).x == i % (width as int)
                        && cells@[i].y == i / (width as int) && !cells@[i].is_alive,
            decreases width - x,
        {
            proof {
                lemma_position(width as int, height as int, x as int, y as int);
            }
            cells.push(Cell::new(x, y, false));
            x = x + 1;
        }
        assert(y * width + width == (y + 1) * width) by (nonlinear_arith);
        y = y + 1;
    }
    assert(height * width == width * height) by (nonlinear_arith);
    cells
}

} // verus!
