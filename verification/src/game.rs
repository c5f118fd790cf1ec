//! A run of generations: the grid, how many generations to show and how
//! long each stays on screen. The library decides what to show and whether
//! to go on; showing and waiting are the caller's.

use vstd::prelude::*;

use crate::grid::Grid;
use crate::terminal::{clear_all_text, goto_text};

verus! {

/// A grid with the settings of its run.
pub struct Game {
    pub grid: Grid,
    /// The number of the last generation to show, counted from zero.
    pub max_generations: usize,
    /// How long a frame stays on screen, in milliseconds.
    pub frame_delay: u64,
}

/// What to show for one generation, and what comes after it.
pub struct Frame {
    /// The frame, ready to be written to a terminal.
    pub text: String,
    /// The number of the generation to show next, after the frame delay, or
    /// `None` where this frame is the last.
    pub next_generation: Option<usize>,
}

impl Game {
    /// A run of `grid` up to generation `max_generations`, with
    /// `frame_delay` milliseconds between frames.
    pub fn new(grid: Grid, max_generations: usize, frame_delay: u64) -> (game: Game)
        ensures
            game.grid == grid,
            game.max_generations == max_generations,
            game.frame_delay == frame_delay,
    {
        Game { grid, max_generations, frame_delay }
    }

    /// One turn of the run: advances the grid by a generation, renders it,
    /// and says which generation follows. The run ends with the frame of
    /// generation `max_generations`; a generation past it ends the run too.
    pub fn advance(&mut self, current_generation: usize) -> (frame: Frame)
        ensures
            final(self).grid@ == old(self).grid@.step(),
            final(self).max_generations == old(self).max_generations,
            final(self).frame_delay == old(self).frame_delay,
            frame.text@ == goto_text(1, 1) + clear_all_text() + final(self).grid@.text(),
            frame.next_generation == if current_generation < old(self).max_generations {
                Some((current_generation + 1) as usize)
            } else {
                None
            },
    {
        let text = self.grid.next_state().render();
        let next_generation = if current_generation < self.max_generations {
            Some(current_generation + 1)
        } else {
            None
        };
        Frame { text, next_generation }
    }
}

} // verus!
