use textris::colour::Colour;
use textris::game::Game;
use textris::model::FALL_INTERVAL_NANOS;

fn board(g: &Game) -> Vec<Colour> {
    let (w, h) = g.dims();
    let mut cells = Vec::new();
    for y in 0..h {
        for x in 0..w {
            cells.push(g.get(x, y));
        }
    }
    cells
}

fn display(g: &Game) -> Vec<Colour> {
    let (w, h) = g.dims();
    let mut cells = Vec::new();
    for y in 0..h {
        for x in 0..w {
            cells.push(g.display_get(x, y));
        }
    }
    cells
}

/// The cells that are drawn in `colour`, row by row.
fn drawn(g: &Game, colour: Colour) -> Vec<(isize, isize)> {
    let (w, h) = g.dims();
    let mut cells = Vec::new();
    for y in 0..h {
        for x in 0..w {
            if g.display_get(x, y) == colour {
                cells.push((x, y));
            }
        }
    }
    cells
}

/// The cells that the active piece covers where no block is locked, row by
/// row.
fn piece(g: &Game) -> Vec<(isize, isize)> {
    let (w, h) = g.dims();
    let mut cells = Vec::new();
    for y in 0..h {
        for x in 0..w {
            if g.display_get(x, y) != g.get(x, y) {
                cells.push((x, y));
            }
        }
    }
    cells
}

/// The cells that are locked, row by row.
fn locked(g: &Game) -> Vec<(isize, isize, Colour)> {
    let (w, h) = g.dims();
    let mut cells = Vec::new();
    for y in 0..h {
        for x in 0..w {
            if g.filled(x, y) {
                cells.push((x, y, g.get(x, y)));
            }
        }
    }
    cells
}

fn start(w: isize, h: isize, draw: usize) -> Game {
    Game::start(w, h, draw, 0).ok().expect("game could not be created")
}

/// A game of 10 by 20 with the bar standing in column 0, rows 0 to 3.
fn bar_in_first_column() -> Game {
    let mut g = start(10, 20, 6);
    assert!(g.rotate_clockwise());
    assert!(g.slide(-1));
    assert!(g.slide(-1));
    assert!(g.slide(-1));
    assert!(!g.slide(-1));
    assert_eq!(drawn(&g, Colour::Value(6)), vec![(0, 0), (0, 1), (0, 2), (0, 3)]);
    g
}

fn fill_row_but_first(g: &mut Game, y: isize, colour: Colour) {
    let (w, _) = g.dims();
    for x in 1..w {
        g.set(x, y, colour);
    }
}

#[test]
fn game_new() {
    let cases: Vec<(isize, isize, bool)> = vec![(3, 3, true), (4, 4, false), (10, 10, false)];

    for case in cases {
        let (w, h, err) = case;
        let g = Game::new(w, h);
        match g {
            Err(_) => assert!(err, "should have returned an error"),
            Ok(_) => assert!(!err, "should not have returned an error"),
        }
    }
}

#[test]
fn game_get_set() {
    let mut game = Game::new(10, 20).ok().expect("game could not be created");

    let cases: Vec<(isize, isize, Colour, Vec<(isize, isize, Colour)>)> = vec![(
        5,
        5,
        Colour::Value(0),
        vec![
            (-1, -1, Colour::Empty),
            (0, 0, Colour::Empty),
            (5, 5, Colour::Value(0)),
            (15, 5, Colour::Empty),
        ],
    )];

    for case in cases {
        let (x, y, colour, tests) = case;
        game.set(x, y, colour);

        for test in tests {
            let (x, y, want_colour) = test;

            let colour = game.get(x, y);

            assert!(
                colour == want_colour,
                "{}",
                format!(
                    "expected {0} to equal {1}",
                    colour.to_string(),
                    want_colour.to_string()
                )
            );
        }
    }
}

#[test]
fn game_merge() {
    let mut g = Game::new(10, 10).ok().expect("could not create new game");

    g.spawn(0, 0);

    g.merge();
}

#[test]
fn game_start_refuses_small_boards() {
    assert!(Game::new(4, 4).is_ok());
    assert!(Game::start(4, 4, 0, 0).is_ok());
    match Game::new(3, 10) {
        Err(e) => assert_eq!(e, "too small"),
        Ok(_) => panic!("a board of width 3 was accepted"),
    }
    match Game::start(3, 10, 0, 0) {
        Err(e) => assert_eq!(e, "too small"),
        Ok(_) => panic!("a board of width 3 was accepted"),
    }
    assert!(Game::new(10, 3).is_err());
    assert!(Game::new(0, 0).is_err());
    assert!(Game::new(-5, 20).is_err());
    assert!(Game::new(20, -5).is_err());
    assert!(Game::new(isize::MIN, isize::MIN).is_err());
    assert!(Game::start(4, 3, 2, 7).is_err());
}

#[test]
fn game_new_is_empty_and_playing() {
    for _ in 0..50 {
        let g = Game::new(10, 20).ok().expect("game could not be created");
        assert_eq!(g.dims(), (10, 20));
        assert_eq!(g.get_score(), 0);
        assert!(!g.is_game_over());
        assert!(board(&g).iter().all(|c| *c == Colour::Empty));
        assert_eq!(display(&g).iter().filter(|c| **c != Colour::Empty).count(), 4);
    }
}

#[test]
fn game_start_places_each_shape_at_the_top_centre() {
    let want: Vec<Vec<(isize, isize)>> = vec![
        vec![(5, 0), (4, 1), (5, 1), (6, 1)],
        vec![(4, 0), (5, 0), (6, 0), (4, 1)],
        vec![(4, 0), (5, 0), (6, 0), (6, 1)],
        vec![(4, 0), (5, 0), (4, 1), (5, 1)],
        vec![(4, 0), (5, 0), (5, 1), (6, 1)],
        vec![(5, 0), (6, 0), (4, 1), (5, 1)],
        vec![(3, 0), (4, 0), (5, 0), (6, 0)],
    ];
    for shape in 0..7 {
        let g = start(10, 20, shape);
        assert_eq!(drawn(&g, Colour::Value(shape)), want[shape]);
        assert!(locked(&g).is_empty());
        assert!(!g.is_game_over());
    }
    // On a board of odd width the middle is rounded down.
    let g = start(5, 4, 6);
    assert_eq!(drawn(&g, Colour::Value(6)), vec![(0, 0), (1, 0), (2, 0), (3, 0)]);
    let g = start(4, 4, 6);
    assert_eq!(drawn(&g, Colour::Value(6)), vec![(0, 0), (1, 0), (2, 0), (3, 0)]);
    let g = start(4, 4, 0);
    assert_eq!(drawn(&g, Colour::Value(0)), vec![(2, 0), (1, 1), (2, 1), (3, 1)]);
}

#[test]
fn game_display_get_shows_the_t_shape() {
    let g = start(10, 20, 0);
    let piece = vec![(5, 0), (4, 1), (5, 1), (6, 1)];
    for y in 0..20 {
        for x in 0..10 {
            if piece.contains(&(x, y)) {
                assert_eq!(g.display_get(x, y), Colour::Value(0));
            } else {
                assert_eq!(g.display_get(x, y), Colour::Empty);
            }
            assert_eq!(g.get(x, y), Colour::Empty);
            assert!(!g.filled(x, y));
        }
    }
}

#[test]
fn game_queries_outside_the_board_are_empty() {
    let mut g = start(10, 20, 0);
    g.set(0, 0, Colour::Value(3));
    g.set(9, 19, Colour::Value(4));
    for (x, y) in [
        (-1, 0),
        (0, -1),
        (10, 0),
        (0, 20),
        (10, 20),
        (isize::MAX, isize::MAX),
        (isize::MIN, isize::MIN),
        (isize::MAX, 0),
        (0, isize::MIN),
    ] {
        assert_eq!(g.get(x, y), Colour::Empty);
        assert_eq!(g.display_get(x, y), Colour::Empty);
        assert!(!g.filled(x, y));
    }
    assert_eq!(g.get(0, 0), Colour::Value(3));
    assert_eq!(g.get(9, 19), Colour::Value(4));
    assert!(g.filled(9, 19));
}

#[test]
fn game_display_get_prefers_the_piece() {
    let mut g = start(10, 20, 0);
    g.set(5, 0, Colour::Value(3));
    g.set(4, 0, Colour::Value(2));
    assert_eq!(g.get(5, 0), Colour::Value(3));
    assert_eq!(g.display_get(5, 0), Colour::Value(0));
    assert_eq!(g.display_get(4, 0), Colour::Value(2));
}

#[test]
fn game_set_ignores_cells_outside_the_board() {
    let mut g = start(10, 20, 0);
    let before = board(&g);
    for (x, y) in [(-1, 0), (0, -1), (10, 0), (0, 20), (isize::MAX, 5), (5, isize::MIN)] {
        g.set(x, y, Colour::Value(1));
    }
    assert_eq!(board(&g), before);
    g.set(3, 4, Colour::Value(1));
    assert_eq!(locked(&g), vec![(3, 4, Colour::Value(1))]);
    g.set(3, 4, Colour::Empty);
    assert!(locked(&g).is_empty());
}

#[test]
fn game_collision_and_out_of_bounds_take_any_position() {
    let mut g = start(10, 20, 0);
    g.set(5, 10, Colour::Value(1));
    let far = [isize::MIN, isize::MIN + 1, -1_000_000, -4, 24, 1_000_000, isize::MAX - 1, isize::MAX];
    for x in far {
        for y in far {
            assert!(!g.collision(x, y));
            assert!(g.out_of_bounds(x, y));
        }
        assert!(!g.collision(x, 0));
        assert!(g.out_of_bounds(x, 0));
        assert!(!g.collision(0, x));
        assert!(g.out_of_bounds(0, x));
    }
    // The T covers (1,0) (0,1) (1,1) (2,1) of its box.
    assert!(!g.out_of_bounds(0, 0));
    assert!(g.out_of_bounds(-1, 0));
    assert!(!g.out_of_bounds(7, 18));
    assert!(g.out_of_bounds(8, 18));
    assert!(g.out_of_bounds(7, 19));
    assert!(g.out_of_bounds(0, -1));
    assert!(g.collision(4, 10));
    assert!(g.collision(5, 9));
    assert!(g.collision(4, 9));
    assert!(g.collision(3, 9));
    assert!(!g.collision(5, 10));
    assert!(!g.collision(3, 10));
    assert!(!g.collision(2, 9));
    assert!(!g.collision(4, 8));
}

#[test]
fn game_slide_stops_at_the_walls() {
    let mut g = start(10, 20, 0);
    for _ in 0..4 {
        assert!(g.slide(-1));
    }
    assert_eq!(drawn(&g, Colour::Value(0)), vec![(1, 0), (0, 1), (1, 1), (2, 1)]);
    let before = display(&g);
    assert!(!g.slide(-1));
    assert_eq!(display(&g), before);
    for _ in 0..7 {
        assert!(g.slide(1));
    }
    assert_eq!(drawn(&g, Colour::Value(0)), vec![(8, 0), (7, 1), (8, 1), (9, 1)]);
    assert!(!g.slide(1));
    assert_eq!(drawn(&g, Colour::Value(0)), vec![(8, 0), (7, 1), (8, 1), (9, 1)]);
}

#[test]
fn game_slide_takes_any_distance() {
    let mut g = start(10, 20, 0);
    let before = display(&g);
    for dx in [isize::MAX, isize::MIN, isize::MAX - 4, isize::MIN + 4, 4, -5, 1000, -1000] {
        assert!(!g.slide(dx));
        assert_eq!(display(&g), before);
    }
    assert!(g.slide(0));
    assert_eq!(display(&g), before);
    assert!(g.slide(3));
    assert_eq!(drawn(&g, Colour::Value(0)), vec![(8, 0), (7, 1), (8, 1), (9, 1)]);
    assert!(g.slide(-7));
    assert_eq!(drawn(&g, Colour::Value(0)), vec![(1, 0), (0, 1), (1, 1), (2, 1)]);
}

#[test]
fn game_slide_stops_at_locked_blocks() {
    let mut g = start(10, 20, 0);
    g.set(7, 1, Colour::Value(2));
    g.set(3, 0, Colour::Value(2));
    let before = display(&g);
    assert!(!g.slide(1));
    assert_eq!(display(&g), before);
    assert!(g.slide(-1));
    assert!(!g.slide(-1));
    assert_eq!(drawn(&g, Colour::Value(0)), vec![(4, 0), (3, 1), (4, 1), (5, 1)]);
}

#[test]
fn game_down_at_moves_one_row_and_resets_the_timer() {
    let mut g = start(10, 20, 0);
    assert!(g.fall_due(FALL_INTERVAL_NANOS));
    assert!(g.down_at(400));
    assert_eq!(drawn(&g, Colour::Value(0)), vec![(5, 1), (4, 2), (5, 2), (6, 2)]);
    assert!(!g.fall_due(FALL_INTERVAL_NANOS));
    assert!(!g.fall_due(FALL_INTERVAL_NANOS + 399));
    assert!(g.fall_due(FALL_INTERVAL_NANOS + 400));
    for _ in 0..17 {
        assert!(g.down_at(500));
    }
    assert_eq!(drawn(&g, Colour::Value(0)), vec![(5, 18), (4, 19), (5, 19), (6, 19)]);
    let before = display(&g);
    assert!(!g.down_at(9000));
    assert_eq!(display(&g), before);
    // A refused move leaves the timer alone.
    assert!(g.fall_due(FALL_INTERVAL_NANOS + 500));
    assert!(!g.fall_due(FALL_INTERVAL_NANOS + 499));
}

#[test]
fn game_down_stops_on_locked_blocks() {
    let mut g = start(10, 20, 0);
    g.set(4, 3, Colour::Value(1));
    assert!(g.down_at(0));
    assert!(!g.down_at(0));
    assert_eq!(drawn(&g, Colour::Value(0)), vec![(5, 1), (4, 2), (5, 2), (6, 2)]);
}

#[test]
fn game_down_reads_the_clock() {
    let mut g = Game::new(10, 20).ok().expect("game could not be created");
    let before = board(&g);
    assert!(g.down());
    assert_eq!(board(&g), before);
    assert_eq!(display(&g).iter().filter(|c| **c != Colour::Empty).count(), 4);
    for x in 0..10 {
        assert_eq!(g.display_get(x, 0), Colour::Empty);
    }
}

#[test]
fn game_drop_at_goes_to_the_bottom() {
    let mut g = start(10, 20, 0);
    g.drop_at(77);
    assert_eq!(drawn(&g, Colour::Value(0)), vec![(5, 18), (4, 19), (5, 19), (6, 19)]);
    assert!(locked(&g).is_empty());
    assert_eq!(g.get_score(), 0);
    // The fall timer was reset.
    assert!(!g.fall_due(FALL_INTERVAL_NANOS + 76));
    assert!(g.fall_due(FALL_INTERVAL_NANOS + 77));
    // A second drop moves nothing and leaves the timer alone.
    g.drop_at(5000);
    assert_eq!(drawn(&g, Colour::Value(0)), vec![(5, 18), (4, 19), (5, 19), (6, 19)]);
    assert!(g.fall_due(FALL_INTERVAL_NANOS + 77));
}

#[test]
fn game_drop_at_stops_on_the_first_block() {
    let mut g = start(10, 20, 0);
    g.set(6, 10, Colour::Value(1));
    g.set(5, 15, Colour::Value(1));
    g.drop_at(0);
    assert_eq!(drawn(&g, Colour::Value(0)), vec![(5, 8), (4, 9), (5, 9), (6, 9)]);
}

#[test]
fn game_drop_reads_the_clock() {
    let mut g = Game::new(10, 20).ok().expect("game could not be created");
    g.drop();
    let cells: Vec<bool> = (0..10).map(|x| g.display_get(x, 19) != Colour::Empty).collect();
    assert!(cells.iter().any(|c| *c));
    assert!(locked(&g).is_empty());
    assert!(!g.down());
}

#[test]
fn game_rotate_turns_the_piece_in_place() {
    let mut g = start(10, 20, 0);
    assert!(g.rotate_clockwise());
    assert_eq!(drawn(&g, Colour::Value(0)), vec![(4, 0), (4, 1), (5, 1), (4, 2)]);
    assert!(g.rotate_anticlockwise());
    assert_eq!(drawn(&g, Colour::Value(0)), vec![(5, 0), (4, 1), (5, 1), (6, 1)]);
    assert!(g.rotate_anticlockwise());
    assert_eq!(drawn(&g, Colour::Value(0)), vec![(5, 0), (4, 1), (5, 1), (5, 2)]);
    assert!(g.rotate_clockwise());
    for _ in 0..4 {
        assert!(g.rotate_clockwise());
    }
    assert_eq!(drawn(&g, Colour::Value(0)), vec![(5, 0), (4, 1), (5, 1), (6, 1)]);
}

#[test]
fn game_rotate_is_undone_at_the_wall() {
    let mut g = start(10, 20, 6);
    assert!(g.rotate_clockwise());
    for _ in 0..6 {
        assert!(g.slide(1));
    }
    let upright = vec![(9, 0), (9, 1), (9, 2), (9, 3)];
    assert_eq!(drawn(&g, Colour::Value(6)), upright);
    assert!(!g.rotate_clockwise());
    assert_eq!(drawn(&g, Colour::Value(6)), upright);
    assert!(!g.rotate_anticlockwise());
    assert_eq!(drawn(&g, Colour::Value(6)), upright);
    assert!(g.slide(-3));
    assert!(g.rotate_clockwise());
    assert_eq!(drawn(&g, Colour::Value(6)), vec![(6, 0), (7, 0), (8, 0), (9, 0)]);
}

#[test]
fn game_rotate_is_undone_at_the_floor() {
    let mut g = start(10, 20, 6);
    g.drop_at(0);
    let flat = vec![(3, 19), (4, 19), (5, 19), (6, 19)];
    assert_eq!(drawn(&g, Colour::Value(6)), flat);
    assert!(!g.rotate_clockwise());
    assert_eq!(drawn(&g, Colour::Value(6)), flat);
    assert!(!g.rotate_anticlockwise());
    assert_eq!(drawn(&g, Colour::Value(6)), flat);
}

#[test]
fn game_rotate_is_undone_on_a_locked_block() {
    let mut g = start(10, 20, 0);
    g.set(4, 2, Colour::Value(3));
    let before = display(&g);
    assert!(!g.rotate_clockwise());
    assert_eq!(display(&g), before);
    assert!(g.rotate_anticlockwise());
    assert_eq!(drawn(&g, Colour::Value(0)), vec![(5, 0), (4, 1), (5, 1), (5, 2)]);
}

#[test]
fn game_is_full_line_wants_every_cell() {
    let mut g = start(10, 20, 0);
    assert!(!g.is_full_line(5));
    for x in 0..10 {
        assert!(!g.is_full_line(5));
        g.set(x, 5, Colour::Value(x as usize % 7));
    }
    assert!(g.is_full_line(5));
    assert!(!g.is_full_line(4));
    assert!(!g.is_full_line(6));
    for x in 0..10 {
        let was = g.get(x, 5);
        g.set(x, 5, Colour::Empty);
        assert!(!g.is_full_line(5));
        g.set(x, 5, was);
        assert!(g.is_full_line(5));
    }
    for y in [-1, 20, 21, isize::MAX, isize::MIN] {
        assert!(!g.is_full_line(y));
    }
}

#[test]
fn game_move_lines_down_shifts_the_rows_above() {
    let mut g = start(4, 6, 3);
    // Rows 0 to 4 each get a colour of their own.
    for y in 0..5 {
        for x in 0..4 {
            g.set(x, y, Colour::Value(y as usize));
        }
    }
    g.set(2, 5, Colour::Value(6));
    g.move_lines_down(3);
    for x in 0..4 {
        assert_eq!(g.get(x, 0), Colour::Empty);
        assert_eq!(g.get(x, 1), Colour::Value(0));
        assert_eq!(g.get(x, 2), Colour::Value(1));
        assert_eq!(g.get(x, 3), Colour::Value(2));
        assert_eq!(g.get(x, 4), Colour::Value(4));
    }
    assert_eq!(g.get(2, 5), Colour::Value(6));
    assert_eq!(g.get(1, 5), Colour::Empty);
    assert_eq!(g.get_score(), 0);
}

#[test]
fn game_move_lines_down_of_the_top_row_empties_it() {
    let mut g = start(4, 4, 3);
    for x in 0..4 {
        g.set(x, 0, Colour::Value(1));
        g.set(x, 1, Colour::Value(2));
    }
    g.move_lines_down(0);
    for x in 0..4 {
        assert_eq!(g.get(x, 0), Colour::Empty);
        assert_eq!(g.get(x, 1), Colour::Value(2));
    }
}

#[test]
fn game_move_lines_down_ignores_rows_outside_the_board() {
    let mut g = start(4, 4, 3);
    for x in 0..4 {
        g.set(x, 0, Colour::Value(1));
        g.set(x, 3, Colour::Value(2));
    }
    let before = board(&g);
    for y in [-1, 4, 5, isize::MAX, isize::MIN] {
        g.move_lines_down(y);
        assert_eq!(board(&g), before);
    }
}

#[test]
fn game_remove_lines_sweeps_the_rows_of_the_piece() {
    let mut g = start(4, 6, 3);
    // The square spans rows 0 and 1. Rows 1 and 2 are full.
    for x in 0..4 {
        g.set(x, 1, Colour::Value(1));
        g.set(x, 2, Colour::Value(2));
    }
    g.set(0, 0, Colour::Value(5));
    assert_eq!(g.remove_lines(), 1);
    // Row 1 went; row 0 came down; row 2 is outside the span and stays.
    assert_eq!(
        locked(&g),
        vec![
            (0, 1, Colour::Value(5)),
            (0, 2, Colour::Value(2)),
            (1, 2, Colour::Value(2)),
            (2, 2, Colour::Value(2)),
            (3, 2, Colour::Value(2)),
        ]
    );
    assert_eq!(g.get_score(), 0);
    assert_eq!(g.remove_lines(), 0);
}

#[test]
fn game_merge_locks_the_piece() {
    let mut g = start(10, 20, 0);
    g.drop_at(0);
    assert_eq!(g.merge(), 0);
    assert_eq!(g.get_score(), 0);
    assert_eq!(
        locked(&g),
        vec![
            (5, 18, Colour::Value(0)),
            (4, 19, Colour::Value(0)),
            (5, 19, Colour::Value(0)),
            (6, 19, Colour::Value(0)),
        ]
    );
}

#[test]
fn game_merge_clears_a_row() {
    let mut g = bar_in_first_column();
    fill_row_but_first(&mut g, 19, Colour::Value(1));
    g.set(5, 18, Colour::Value(2));
    g.set(7, 0, Colour::Value(3));
    g.drop_at(0);
    assert_eq!(drawn(&g, Colour::Value(6)), vec![(0, 16), (0, 17), (0, 18), (0, 19)]);
    let score = g.get_score();
    assert_eq!(g.merge(), 1);
    assert_eq!(g.get_score(), score + 2);
    // Row 19 went, every row above came down by one, and row 0 is empty.
    assert_eq!(
        locked(&g),
        vec![
            (7, 1, Colour::Value(3)),
            (0, 17, Colour::Value(6)),
            (0, 18, Colour::Value(6)),
            (0, 19, Colour::Value(6)),
            (5, 19, Colour::Value(2)),
        ]
    );
    for x in 0..10 {
        assert_eq!(g.get(x, 0), Colour::Empty);
    }
}

#[test]
fn game_merge_scores_two_to_the_number_of_rows() {
    for (rows, bonus) in [(0, 0), (1, 2), (2, 4), (3, 8), (4, 16)] {
        let mut g = bar_in_first_column();
        for y in (20 - rows)..20 {
            fill_row_but_first(&mut g, y, Colour::Value(1));
        }
        g.drop_at(0);
        assert_eq!(g.merge(), rows);
        assert_eq!(g.get_score(), bonus);
        let mut left = Vec::new();
        for y in (16 + rows)..20 {
            left.push((0, y, Colour::Value(6)));
        }
        assert_eq!(locked(&g), left);
    }
}

#[test]
fn game_score_adds_up() {
    let mut g = bar_in_first_column();
    fill_row_but_first(&mut g, 18, Colour::Value(1));
    fill_row_but_first(&mut g, 19, Colour::Value(1));
    g.drop_at(0);
    assert_eq!(g.merge(), 2);
    assert_eq!(g.get_score(), 4);
    g.spawn(6, 0);
    assert!(g.rotate_clockwise());
    assert!(g.slide(-3));
    fill_row_but_first(&mut g, 17, Colour::Value(1));
    g.drop_at(0);
    assert_eq!(piece(&g), vec![(0, 14), (0, 15), (0, 16), (0, 17)]);
    assert_eq!(g.merge(), 1);
    assert_eq!(g.get_score(), 6);
    g.spawn(0, 0);
    g.drop_at(0);
    assert_eq!(g.merge(), 0);
    assert_eq!(g.get_score(), 6);
}

#[test]
fn game_merge_clears_rows_that_are_apart() {
    let mut g = bar_in_first_column();
    fill_row_but_first(&mut g, 17, Colour::Value(1));
    fill_row_but_first(&mut g, 19, Colour::Value(2));
    g.set(3, 18, Colour::Value(4));
    g.set(4, 16, Colour::Value(5));
    g.drop_at(0);
    assert_eq!(g.merge(), 2);
    assert_eq!(g.get_score(), 4);
    assert_eq!(
        locked(&g),
        vec![
            (0, 18, Colour::Value(6)),
            (4, 18, Colour::Value(5)),
            (0, 19, Colour::Value(6)),
            (3, 19, Colour::Value(4)),
        ]
    );
}

#[test]
fn game_spawn_replaces_the_piece() {
    let mut g = start(10, 20, 0);
    g.drop_at(0);
    g.spawn(6, 1234);
    assert_eq!(drawn(&g, Colour::Value(6)), vec![(3, 0), (4, 0), (5, 0), (6, 0)]);
    assert!(drawn(&g, Colour::Value(0)).is_empty());
    assert!(!g.is_game_over());
    assert!(!g.fall_due(FALL_INTERVAL_NANOS + 1233));
    assert!(g.fall_due(FALL_INTERVAL_NANOS + 1234));
    g.spawn(7 * 5 + 3, 0);
    assert_eq!(drawn(&g, Colour::Value(3)), vec![(4, 0), (5, 0), (4, 1), (5, 1)]);
}

#[test]
fn game_random_spawns_a_piece_at_the_top() {
    let mut g = start(10, 20, 0);
    g.drop_at(0);
    assert_eq!(g.merge(), 0);
    for _ in 0..50 {
        g.random();
        assert!(!g.is_game_over());
        let shown: Vec<Colour> = display(&g);
        let top: usize = shown[..20].iter().filter(|c| **c != Colour::Empty).count();
        assert_eq!(top, 4);
        assert_eq!(locked(&g).len(), 4);
    }
}

#[test]
fn game_over_when_the_spawn_is_blocked() {
    let mut g = start(4, 4, 3);
    let mut downs = 0;
    while g.down_at(0) {
        downs += 1;
    }
    assert_eq!(downs, 2);
    assert_eq!(g.merge(), 0);
    g.spawn(3, 0);
    assert!(!g.is_game_over());
    while g.down_at(0) {
        downs += 1;
    }
    assert_eq!(downs, 2);
    assert_eq!(g.merge(), 0);
    g.spawn(3, 0);
    assert!(g.is_game_over());
    let cells = board(&g);
    let shown = display(&g);
    assert!(!g.slide(1));
    assert_eq!(board(&g), cells);
    assert_eq!(display(&g), shown);
    assert_eq!(locked(&g).len(), 8);
}

#[test]
fn game_over_with_a_random_piece() {
    let mut g = Game::new(4, 4).ok().expect("game could not be created");
    for y in 0..4 {
        for x in 0..4 {
            g.set(x, y, Colour::Value(1));
        }
    }
    g.random();
    assert!(g.is_game_over());
    assert!(!g.slide(1));
    assert!(!g.slide(-1));
}

#[test]
fn game_over_freezes_the_game() {
    let mut g = start(4, 4, 3);
    g.drop_at(0);
    g.merge();
    g.spawn(3, 0);
    g.drop_at(0);
    g.merge();
    g.spawn(3, 50);
    assert!(g.is_game_over());
    let cells = board(&g);
    let shown = display(&g);
    let score = g.get_score();

    assert!(!g.slide(1));
    assert!(!g.slide(-1));
    assert!(!g.down_at(10));
    assert!(!g.down());
    assert!(!g.rotate_clockwise());
    assert!(!g.rotate_anticlockwise());
    g.drop_at(10);
    g.drop();
    assert_eq!(g.merge(), 0);
    assert_eq!(g.remove_lines(), 0);
    g.spawn(6, 10);
    g.random();
    g.set(0, 0, Colour::Value(2));
    g.move_lines_down(3);
    assert!(!g.tick_at(60, 6));
    assert!(g.tick_at(FALL_INTERVAL_NANOS + 50, 6));
    assert!(g.tick_at(FALL_INTERVAL_NANOS + 50, 6));

    assert!(g.is_game_over());
    assert_eq!(board(&g), cells);
    assert_eq!(display(&g), shown);
    assert_eq!(g.get_score(), score);
    assert!(g.fall_due(FALL_INTERVAL_NANOS + 50));
    assert!(!g.fall_due(FALL_INTERVAL_NANOS + 49));
}

#[test]
fn game_restart_clears_everything() {
    let mut g = bar_in_first_column();
    fill_row_but_first(&mut g, 19, Colour::Value(1));
    g.set(4, 4, Colour::Value(2));
    g.drop_at(0);
    assert_eq!(g.merge(), 1);
    assert_eq!(g.get_score(), 2);
    g.restart(4, 99);
    assert_eq!(g.get_score(), 0);
    assert!(!g.is_game_over());
    assert!(locked(&g).is_empty());
    assert_eq!(g.dims(), (10, 20));
    assert_eq!(drawn(&g, Colour::Value(4)), vec![(4, 0), (5, 0), (5, 1), (6, 1)]);
    assert!(!g.fall_due(FALL_INTERVAL_NANOS + 98));
    assert!(g.fall_due(FALL_INTERVAL_NANOS + 99));
}

#[test]
fn game_new_game_leaves_game_over() {
    let mut g = start(4, 4, 3);
    for y in 0..4 {
        for x in 0..4 {
            g.set(x, y, Colour::Value(1));
        }
    }
    g.spawn(3, 0);
    assert!(g.is_game_over());
    g.new_game();
    assert!(!g.is_game_over());
    assert_eq!(g.get_score(), 0);
    assert!(locked(&g).is_empty());
    assert_eq!(display(&g).iter().filter(|c| **c != Colour::Empty).count(), 4);
    assert!(g.down());
}

#[test]
fn game_fall_due_after_the_interval() {
    assert_eq!(FALL_INTERVAL_NANOS, 1_000_000_000);
    let g = Game::start(10, 20, 0, 1000).ok().expect("game could not be created");
    assert!(!g.fall_due(0));
    assert!(!g.fall_due(999));
    assert!(!g.fall_due(1000));
    assert!(!g.fall_due(1_000_000_999));
    assert!(g.fall_due(1_000_001_000));
    assert!(g.fall_due(1_000_001_001));
    assert!(g.fall_due(u128::MAX));
    let g = Game::start(10, 20, 0, u128::MAX).ok().expect("game could not be created");
    assert!(!g.fall_due(u128::MAX));
    assert!(!g.fall_due(0));
}

#[test]
fn game_tick_at_waits_for_the_interval() {
    let mut g = start(10, 20, 0);
    let shown = display(&g);
    assert!(!g.tick_at(0, 1));
    assert!(!g.tick_at(999_999_999, 1));
    assert_eq!(display(&g), shown);
    assert!(g.tick_at(1_000_000_000, 1));
    assert_eq!(drawn(&g, Colour::Value(0)), vec![(5, 1), (4, 2), (5, 2), (6, 2)]);
    assert!(!g.tick_at(1_000_000_001, 1));
    assert!(!g.tick_at(1_999_999_999, 1));
    assert_eq!(drawn(&g, Colour::Value(0)), vec![(5, 1), (4, 2), (5, 2), (6, 2)]);
    assert!(g.tick_at(2_000_000_000, 1));
    assert_eq!(drawn(&g, Colour::Value(0)), vec![(5, 2), (4, 3), (5, 3), (6, 3)]);
}

#[test]
fn game_tick_at_locks_and_respawns() {
    let mut g = start(4, 4, 6);
    assert!(g.tick_at(1_000_000_000, 2));
    assert!(g.tick_at(2_000_000_000, 2));
    assert!(g.tick_at(3_000_000_000, 2));
    assert_eq!(drawn(&g, Colour::Value(6)), vec![(0, 3), (1, 3), (2, 3), (3, 3)]);
    assert!(locked(&g).is_empty());
    // The bar cannot fall: it is merged, its row is cleared, and the next
    // piece appears.
    assert!(g.tick_at(4_000_000_000, 2));
    assert!(locked(&g).is_empty());
    assert_eq!(g.get_score(), 2);
    assert_eq!(drawn(&g, Colour::Value(2)), vec![(1, 0), (2, 0), (3, 0), (3, 1)]);
    assert!(!g.is_game_over());
    assert!(!g.tick_at(4_999_999_999, 2));
    assert!(g.tick_at(5_000_000_000, 2));
    assert_eq!(drawn(&g, Colour::Value(2)), vec![(1, 1), (2, 1), (3, 1), (3, 2)]);
}

#[test]
fn game_tick_reads_the_clock() {
    let mut g = Game::new(10, 20).ok().expect("game could not be created");
    let shown = display(&g);
    // Far less than the fall interval has passed since the game was made.
    assert!(!g.tick());
    assert_eq!(display(&g), shown);
}

/// Whether the active piece is on the board and on no locked block.
fn piece_is_free(g: &Game) -> bool {
    let (w, h) = g.dims();
    let mut cells = 0;
    for y in 0..h {
        for x in 0..w {
            if g.display_get(x, y) != g.get(x, y) {
                if g.filled(x, y) {
                    return false;
                }
                cells += 1;
            }
        }
    }
    cells == 4
}

#[test]
fn game_play_keeps_the_piece_free_and_no_row_full() {
    let mut seed: u64 = 0x2545_f491_4f6c_dd1d;
    let mut next = move || {
        seed ^= seed << 13;
        seed ^= seed >> 7;
        seed ^= seed << 17;
        (seed >> 11) as usize
    };
    for (w, h) in [(4, 4), (5, 7), (10, 20), (6, 12)] {
        let mut g = Game::start(w, h, next(), 0).ok().expect("game could not be created");
        let mut now: u128 = 0;
        let mut score = 0;
        let mut steps = 0;
        while !g.is_game_over() && steps < 20_000 {
            steps += 1;
            assert!(piece_is_free(&g));
            for y in 0..h {
                assert!(!g.is_full_line(y));
            }
            assert!(g.get_score() >= score);
            score = g.get_score();
            now += 150_000_000;
            match next() % 7 {
                0 => {
                    g.slide(-1);
                }
                1 => {
                    g.slide(1);
                }
                2 => {
                    g.rotate_clockwise();
                }
                3 => {
                    g.rotate_anticlockwise();
                }
                4 => {
                    if !g.down_at(now) {
                        let lines = g.merge();
                        assert!(lines >= 0 && lines <= 4);
                        g.spawn(next(), now);
                    }
                }
                5 => {
                    g.drop_at(now);
                    assert!(!g.down_at(now));
                    let before = g.get_score();
                    let lines = g.merge();
                    let bonus = if lines > 0 { 1 << lines } else { 0 };
                    assert_eq!(g.get_score(), before + bonus);
                    g.spawn(next(), now);
                }
                _ => {
                    g.tick_at(now, next());
                }
            }
        }
        assert!(g.is_game_over());
        // The piece that ended the game lies on a locked block.
        assert!(g.collision(w / 2 - 2, 0) || g.collision(w / 2 - 1, 0));
    }
}
