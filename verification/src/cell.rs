//! A single cell: its coordinate and whether it is alive.

use vstd::prelude::*;

use crate::board::{count_alive, next_alive};
use crate::grid::Grid;

verus! {

/// A cell of a grid, copied out by value.
#[derive(Debug, Clone, Copy, PartialEq, Eq, Structural)]
pub struct Cell {
    pub x: i32,
    pub y: i32,
    pub is_alive: bool,
}

impl Cell {
    /// A cell at `(x, y)`.
    pub fn new(x: i32, y: i32, is_alive: bool) -> (cell: Cell)
        ensures
            cell == (Cell { x, y, is_alive }),
    {
        Cell { x, y, is_alive }
    }

    /// Appends to `found` the cell of `grid` that lies `(dx, dy)` away from
    /// this one, if the grid has a cell there.
    fn push_neighbour(&self, grid: &Grid, dx: i32, dy: i32, found: &mut Vec<Cell>)
        requires
            -1 <= dx <= 1,
            -1 <= dy <= 1,
        ensures
            final(found)@ == old(found)@ + grid@.slot(self.x + dx, self.y + dy),
    {
        proof {
            grid.lemma_view_wf();
        }
        if let Some(nx) = self.x.checked_add(dx) {
            if let Some(ny) = self.y.checked_add(dy) {
                if let Some(cell) = grid.cell(nx, ny) {
                    found.push(*cell);
                    assert(found@ =~= old(found)@ + grid@.slot(self.x + dx, self.y + dy));
                    return ;
                }
            }
        }
        assert(found@ =~= old(found)@ + grid@.slot(self.x + dx, self.y + dy));
    }

    /// The cells of `grid` in the Moore neighbourhood of this cell's
    /// coordinate: up to eight, fewer at the grid's edges, none of them the
    /// cell itself.
    pub fn neighbours(&self, grid: &Grid) -> (around: Vec<Cell>)
        ensures
            around@ == grid@.neighbours(self.x as int, self.y as int),
    {
        let mut around: Vec<Cell> = Vec::new();
        self.push_neighbour(grid, -1, -1, &mut around);
        self.push_neighbour(grid, 0, -1, &mut around);
        self.push_neighbour(grid, 1, -1, &mut around);
        self.push_neighbour(grid, -1, 0, &mut around);
        self.push_neighbour(grid, 1, 0, &mut around);
        self.push_neighbour(grid, -1, 1, &mut around);
        self.push_neighbour(grid, 0, 1, &mut around);
        self.push_neighbour(grid, 1, 1, &mut around);
        assert(around@ =~= grid@.neighbours(self.x as int, self.y as int));
        around
    }

    /// How many of the cells around this cell's coordinate are alive in
    /// `grid`. The cell itself is not counted, and neither is anything beyond
    /// the grid's edges.
    pub fn live_neighbours_count(&self, grid: &Grid) -> (count: usize)
        ensures
            count == grid@.live_neighbours(self.x as int, self.y as int),
    {
        let around = self.neighbours(grid);
        let mut count: usize = 0;
        let mut i: usize = 0;
        while i < around.len()
            invariant
                0 <= i <= around@.len(),
                count == count_alive(around@.take(i as int)),
                count <= i,
            decreases around@.len() - i,
        {
            assert(around@.take(i + 1).drop_last() =~= around@.take(i as int));
            if around[i].is_alive {
                count = count + 1;
            }
            i = i + 1;
        }
        proof {
            assert(around@.take(i as int) =~= around@);
            grid.lemma_view_wf();
            grid@.lemma_count_alive_neighbours(self.x as int, self.y as int);
        }
        count
    }

    /// Flips the cell between alive and dead, and returns a copy of the
    /// flipped cell.
    pub fn toggle(&mut self) -> (flipped: Cell)
        ensures
            *final(self) == (Cell { is_alive: !old(self).is_alive, ..*old(self) }),
            flipped == *final(self),
    {
        self.is_alive = !self.is_alive;
        *self
    }

    /// This cell one generation later, given how many of its neighbours are
    /// alive now.
    pub fn next_state(&self, live_neighbour_count: usize) -> (next: Cell)
        ensures
            next == (Cell {
                is_alive: next_alive(self.is_alive, live_neighbour_count as nat),
                ..*self
            }),
    {
        let is_alive = if self.is_alive {
            live_neighbour_count == 2 || live_neighbour_count == 3
        } else {
            live_neighbour_count == 3
        };
        Cell { x: self.x, y: self.y, is_alive }
    }
}

} // verus!
