//! The mathematical model: a rectangle of coordinates and the set of those
//! that are alive.

use vstd::prelude::*;

use crate::cell::Cell;

verus! {

/// One generation, as mathematics sees it.
///
/// `live` holds the coordinates of the live cells. Every other coordinate is
/// dead, those outside the rectangle included.
pub struct Board {
    pub width: int,
    pub height: int,
    pub live: Set<(int, int)>,
}

/// The transition rule for one cell: a live cell survives with two or three
/// live neighbours, a dead cell comes alive with exactly three.
pub open spec fn next_alive(alive: bool, live_neighbours: nat) -> bool {
    if alive {
        live_neighbours == 2 || live_neighbours == 3
    } else {
        live_neighbours == 3
    }
}

/// The number of coordinates in a `width` by `height` rectangle.
pub open spec fn area(width: int, height: int) -> nat {
    if width > 0 && height > 0 {
        (width * height) as nat
    } else {
        0
    }
}

/// The row-major position of an in-range coordinate is in range, and gives
/// the coordinate back.
pub proof fn lemma_position(width: int, height: int, x: int, y: int)
    requires
        0 <= x < width,
        0 <= y < height,
    ensures
        0 <= y * width <= y * width + x < area(width, height),
        (y * width + x) / width == y,
        (y * width + x) % width == x,
{
    assert(0 <= y * width && y * width + width <= height * width) by (nonlinear_arith)
        requires
            0 <= y < height,
            0 < width,
    ;
    assert(height * width == width * height) by (nonlinear_arith);
    vstd::arithmetic::div_mod::lemma_fundamental_div_mod_converse(y * width + x, width, y, x);
}

/// A position in range belongs to exactly one coordinate of the rectangle.
pub proof fn lemma_coordinate(width: int, height: int, i: int)
    requires
        0 <= i < area(width, height),
    ensures
        0 <= i % width < width,
        0 <= i / width < height,
        (i / width) * width + i % width == i,
{
    vstd::arithmetic::div_mod::lemma_fundamental_div_mod(i, width);
    vstd::arithmetic::div_mod::lemma_mod_bound(i, width);
    let q = i / width;
    let r = i % width;
    assert(width * q == q * width) by (nonlinear_arith);
    assert(0 <= q < height) by (nonlinear_arith)
        requires
            0 <= r < width,
            0 <= q * width + r < width * height,
            0 < height,
    ;
}

/// The glyph of a live cell, a white square.
pub const LIVE_CELL: char = '\u{2b1c}';

/// The glyph of a dead cell, a black square.
pub const DEAD_CELL: char = '\u{2b1b}';

/// The glyph that a frame shows for a cell.
pub open spec fn glyph(alive: bool) -> char {
    if alive {
        LIVE_CELL
    } else {
        DEAD_CELL
    }
}

/// 1 for `true`, 0 for `false`.
pub open spec fn indicator(b: bool) -> nat {
    if b {
        1
    } else {
        0
    }
}

/// How many cells of `cells` are alive.
pub open spec fn count_alive(cells: Seq<Cell>) -> nat
    decreases cells.len(),
{
    if cells.len() == 0 {
        0
    } else {
        count_alive(cells.drop_last()) + indicator(cells.last().is_alive)
    }
}

/// Counting the live cells of two sequences laid end to end adds up.
pub proof fn lemma_count_alive_concat(a: Seq<Cell>, b: Seq<Cell>)
    ensures
        count_alive(a + b) == count_alive(a) + count_alive(b),
    decreases b.len(),
{
    if b.len() == 0 {
        assert(a + b =~= a);
    } else {
        assert((a + b).drop_last() =~= a + b.drop_last());
        lemma_count_alive_concat(a, b.drop_last());
    }
}

/// Whether the `i`-th of `coordinates` is `p`.
pub open spec fn names(coordinates: Seq<(i32, i32)>, i: int, p: (int, int)) -> bool {
    0 <= i < coordinates.len() && coordinates[i].0 == p.0 && coordinates[i].1 == p.1
}

/// Whether every one of `coordinates` lies in `[0, width) x [0, height)`.
pub open spec fn all_within(width: int, height: int, coordinates: Seq<(i32, i32)>) -> bool {
    forall|i: int|
        0 <= i < coordinates.len() ==> 0 <= (#[trigger] coordinates[i]).0 < width && 0
            <= coordinates[i].1 < height
}

impl Board {
    /// The board of the given size in which exactly the listed coordinates
    /// are alive.
    pub open spec fn seeded(width: int, height: int, coordinates: Seq<(i32, i32)>) -> Board {
        Board {
            width,
            height,
            live: Set::new(|p: (int, int)| exists|i: int| names(coordinates, i, p)),
        }
    }

    /// Whether `(x, y)` lies in the rectangle.
    pub open spec fn contains(self, x: int, y: int) -> bool {
        0 <= x < self.width && 0 <= y < self.height
    }

    /// Whether the cell at `(x, y)` is alive. Coordinates outside a
    /// well-formed board are never alive.
    pub open spec fn alive(self, x: int, y: int) -> bool {
        self.live.contains((x, y))
    }

    /// The sides are those of a machine integer, and only coordinates of the
    /// rectangle are alive.
    pub open spec fn wf(self) -> bool {
        &&& i32::MIN <= self.width <= i32::MAX
        &&& i32::MIN <= self.height <= i32::MAX
        &&& forall|x: int, y: int| #[trigger] self.live.contains((x, y)) ==> self.contains(x, y)
    }

    /// All coordinates of the rectangle.
    pub open spec fn coordinates(self) -> Set<(int, int)> {
        Set::new(|p: (int, int)| self.contains(p.0, p.1))
    }

    /// The number of cells in the rectangle.
    pub open spec fn cell_count(self) -> nat {
        area(self.width, self.height)
    }

    /// The position of `(x, y)` in row-major order.
    pub open spec fn position(self, x: int, y: int) -> int {
        y * self.width + x
    }

    /// The cell at `(x, y)`, if the rectangle has one there.
    pub open spec fn lookup(self, x: int, y: int) -> Option<Cell> {
        if self.contains(x, y) {
            Some(Cell { x: x as i32, y: y as i32, is_alive: self.alive(x, y) })
        } else {
            None
        }
    }

    /// The cell at `(x, y)` as a sequence of one, or the empty sequence where
    /// the rectangle has none.
    pub open spec fn slot(self, x: int, y: int) -> Seq<Cell> {
        match self.lookup(x, y) {
            Some(c) => seq![c],
            None => Seq::empty(),
        }
    }

    /// The cells of the Moore neighbourhood of `(x, y)` that lie in the
    /// rectangle: the row above from left to right, then left and right, then
    /// the row below.
    pub open spec fn neighbours(self, x: int, y: int) -> Seq<Cell> {
        self.slot(x - 1, y - 1) + self.slot(x, y - 1) + self.slot(x + 1, y - 1)
            + self.slot(x - 1, y) + self.slot(x + 1, y)
            + self.slot(x - 1, y + 1) + self.slot(x, y + 1) + self.slot(x + 1, y + 1)
    }

    /// The number of live cells among the eight around `(x, y)`.
    pub open spec fn live_neighbours(self, x: int, y: int) -> nat {
        indicator(self.alive(x - 1, y - 1)) + indicator(self.alive(x, y - 1))
            + indicator(self.alive(x + 1, y - 1)) + indicator(self.alive(x - 1, y))
            + indicator(self.alive(x + 1, y)) + indicator(self.alive(x - 1, y + 1))
            + indicator(self.alive(x, y + 1)) + indicator(self.alive(x + 1, y + 1))
    }

    /// The board with the cell at `(x, y)` made alive or dead, and every
    /// other cell as it is.
    pub open spec fn with_state(self, x: int, y: int, is_alive: bool) -> Board {
        Board {
            live: if is_alive {
                self.live.insert((x, y))
            } else {
                self.live.remove((x, y))
            },
            ..self
        }
    }

    /// The board with the cell at `(x, y)` flipped.
    pub open spec fn toggled(self, x: int, y: int) -> Board {
        self.with_state(x, y, !self.alive(x, y))
    }

    /// The next generation: every cell of the rectangle changes at once, by
    /// the transition rule applied to this generation.
    pub open spec fn step(self) -> Board {
        Board {
            width: self.width,
            height: self.height,
            live: Set::new(
                |p: (int, int)|
                    self.contains(p.0, p.1) && next_alive(
                        self.alive(p.0, p.1),
                        self.live_neighbours(p.0, p.1),
                    ),
            ),
        }
    }

    /// A coordinate's slot holds one live cell where the coordinate is alive,
    /// and none otherwise.
    pub proof fn lemma_count_alive_slot(self, x: int, y: int)
        requires
            self.wf(),
        ensures
            count_alive(self.slot(x, y)) == indicator(self.alive(x, y)),
    {
        let s = self.slot(x, y);
        if self.contains(x, y) {
            assert(s.drop_last() =~= Seq::<Cell>::empty());
            assert(count_alive(s.drop_last()) == 0);
        }
    }

    /// The live cells among the neighbours of `(x, y)` are as many as the
    /// live coordinates around it.
    pub proof fn lemma_count_alive_neighbours(self, x: int, y: int)
        requires
            self.wf(),
        ensures
            count_alive(self.neighbours(x, y)) == self.live_neighbours(x, y),
    {
        let s1 = self.slot(x - 1, y - 1);
        let s2 = s1 + self.slot(x, y - 1);
        let s3 = s2 + self.slot(x + 1, y - 1);
        let s4 = s3 + self.slot(x - 1, y);
        let s5 = s4 + self.slot(x + 1, y);
        let s6 = s5 + self.slot(x - 1, y + 1);
        let s7 = s6 + self.slot(x, y + 1);
        self.lemma_count_alive_slot(x - 1, y - 1);
        self.lemma_count_alive_slot(x, y - 1);
        self.lemma_count_alive_slot(x + 1, y - 1);
        self.lemma_count_alive_slot(x - 1, y);
        self.lemma_count_alive_slot(x + 1, y);
        self.lemma_count_alive_slot(x - 1, y + 1);
        self.lemma_count_alive_slot(x, y + 1);
        self.lemma_count_alive_slot(x + 1, y + 1);
        lemma_count_alive_concat(s1, self.slot(x, y - 1));
        lemma_count_alive_concat(s2, self.slot(x + 1, y - 1));
        lemma_count_alive_concat(s3, self.slot(x - 1, y));
        lemma_count_alive_concat(s4, self.slot(x + 1, y));
        lemma_count_alive_concat(s5, self.slot(x - 1, y + 1));
        lemma_count_alive_concat(s6, self.slot(x, y + 1));
        lemma_count_alive_concat(s7, self.slot(x + 1, y + 1));
    }

    /// The board after `generations` steps.
    pub open spec fn steps(self, generations: nat) -> Board
        decreases generations,
    {
        if generations == 0 {
            self
        } else {
            self.steps((generations - 1) as nat).step()
        }
    }

    /// The number of glyphs in a row of the frame.
    pub open spec fn columns(self) -> int {
        if self.width > 0 {
            self.width
        } else {
            0
        }
    }

    /// The number of rows of the frame.
    pub open spec fn rows(self) -> int {
        if self.height > 0 {
            self.height
        } else {
            0
        }
    }

    /// The board as text: one glyph per cell, each row from left to right
    /// and ended by a newline, the row `y == 0` first.
    pub open spec fn text(self) -> Seq<char> {
        Seq::new(
            (self.rows() * (self.columns() + 1)) as nat,
            |k: int|
                if k % (self.columns() + 1) == self.columns() {
                    '\n'
                } else {
                    glyph(self.alive(k % (self.columns() + 1), k / (self.columns() + 1)))
                },
        )
    }

    /// The cells in row-major order.
    pub open spec fn cells(self) -> Seq<Cell> {
        Seq::new(
            self.cell_count(),
            |i: int|
                Cell {
                    x: (i % self.width) as i32,
                    y: (i / self.width) as i32,
                    is_alive: self.alive(i % self.width, i / self.width),
                },
        )
    }
}

} // verus!
