use game_of_life::board::{DEAD_CELL, LIVE_CELL};
use game_of_life::{Game, Grid};

const HOME_AND_CLEAR: &str = "\u{1b}[1;1H\u{1b}[2J";

#[test]
fn glyphs_are_the_two_squares() {
    assert_eq!(LIVE_CELL, '⬜');
    assert_eq!(DEAD_CELL, '⬛');
}

#[test]
fn render_starts_with_home_and_clear() {
    let frame = Grid::new(0, 0).render();
    assert_eq!(frame, HOME_AND_CLEAR);
    assert_eq!(frame.chars().count(), 10);
}

#[test]
fn render_shows_rows_of_glyphs() {
    let grid = Grid::from_seed(3, 2, &[(0, 0), (2, 1)]).unwrap();
    assert_eq!(grid.render(), format!("{}{}", HOME_AND_CLEAR, "⬜⬛⬛\n⬛⬛⬜\n"));
}

#[test]
fn render_without_columns_shows_empty_rows() {
    assert_eq!(Grid::new(0, 3).render(), format!("{}{}", HOME_AND_CLEAR, "\n\n\n"));
    assert_eq!(Grid::new(-2, 2).render(), format!("{}{}", HOME_AND_CLEAR, "\n\n"));
    assert_eq!(Grid::new(3, 0).render(), HOME_AND_CLEAR);
    assert_eq!(Grid::new(3, -1).render(), HOME_AND_CLEAR);
}

#[test]
fn render_of_a_single_cell() {
    assert_eq!(Grid::new(1, 1).render(), format!("{}{}", HOME_AND_CLEAR, "⬛\n"));
    let alive = Grid::from_seed(1, 1, &[(0, 0)]).unwrap();
    assert_eq!(alive.render(), format!("{}{}", HOME_AND_CLEAR, "⬜\n"));
}

#[test]
fn game_keeps_its_settings() {
    let game = Game::new(Grid::from_seed(2, 2, &[(1, 1)]).unwrap(), 7, 130);
    assert_eq!(game.max_generations, 7);
    assert_eq!(game.frame_delay, 130);
    assert_eq!(game.grid.cell(1, 1).unwrap().is_alive, true);
    assert_eq!(game.grid.snapshot().len(), 4);
}

#[test]
fn advance_steps_renders_and_counts() {
    let grid = Grid::from_seed(5, 5, &[(1, 2), (2, 2), (3, 2)]).unwrap();
    let mut game = Game::new(grid, 2, 10);

    let first = game.advance(0);
    assert_eq!(first.next_generation, Some(1));
    assert_eq!(
        first.text,
        format!("{}{}", HOME_AND_CLEAR, "⬛⬛⬛⬛⬛\n⬛⬛⬜⬛⬛\n⬛⬛⬜⬛⬛\n⬛⬛⬜⬛⬛\n⬛⬛⬛⬛⬛\n")
    );
    assert_eq!(first.text, game.grid.render());

    let second = game.advance(1);
    assert_eq!(second.next_generation, Some(2));
    assert_eq!(
        second.text,
        format!("{}{}", HOME_AND_CLEAR, "⬛⬛⬛⬛⬛\n⬛⬛⬛⬛⬛\n⬛⬜⬜⬜⬛\n⬛⬛⬛⬛⬛\n⬛⬛⬛⬛⬛\n")
    );

    let last = game.advance(2);
    assert_eq!(last.next_generation, None);
    assert_eq!(game.max_generations, 2);
    assert_eq!(game.frame_delay, 10);
}

#[test]
fn advance_past_the_last_generation_ends_the_run() {
    let mut game = Game::new(Grid::new(1, 1), 0, 1);
    assert_eq!(game.advance(0).next_generation, None);
    assert_eq!(game.advance(5).next_generation, None);
    assert_eq!(game.advance(usize::MAX).next_generation, None);
    let mut long = Game::new(Grid::new(1, 1), usize::MAX, 1);
    assert_eq!(long.advance(usize::MAX - 1).next_generation, Some(usize::MAX));
    assert_eq!(long.advance(usize::MAX).next_generation, None);
}

#[test]
fn a_run_shows_one_frame_more_than_its_last_generation() {
    let mut game = Game::new(Grid::random(4, 4), 3, 0);
    let mut generation = 0;
    let mut frames = 0;
    loop {
        let frame = game.advance(generation);
        frames += 1;
        match frame.next_generation {
            Some(next) => generation = next,
            None => break,
        }
    }
    assert_eq!(frames, 4);
    assert_eq!(generation, 3);
}
