use textris::block::Block;
use textris::colour::Colour;

const CANONICAL: [(u16, isize, isize); 7] = [
    (0x0072, 3, 2),
    (0x0017, 3, 2),
    (0x0047, 3, 2),
    (0x0033, 2, 2),
    (0x0063, 3, 2),
    (0x0036, 3, 2),
    (0x000f, 4, 1),
];

#[test]
fn block_new() {
    let b = Block::new();

    assert_eq!(b.value(), 0);
    assert_eq!(b.dims().0, 0);
    assert_eq!(b.dims().1, 0);
    assert_eq!(b.colour(), Colour::Empty);
}

#[test]
fn block_setup() {
    let mut b = Block::new();

    let cases: Vec<(u16, isize, isize, Colour)> = vec![(0x0072, 3, 2, Colour::Value(0))];

    for case in cases {
        let (value, width, height, colour) = case;

        b.setup(value, width, height, colour);

        assert_eq!(b.value(), value);
        assert_eq!(b.dims().0, width);
        assert_eq!(b.dims().1, height);
        assert_eq!(b.colour(), colour);
    }
}

#[test]
fn block_get() {
    let mut b = Block::new();

    b.setup(0xffff, 2, 2, Colour::Value(0));
    assert_eq!(b.get(-1, -1), false);
    assert_eq!(b.get(0, 0), true);
    assert_eq!(b.get(1, 0), true);
    assert_eq!(b.get(0, 1), true);
    assert_eq!(b.get(1, 1), true);
    assert_eq!(b.get(2, 2), false);
}

#[test]
fn block_rotate_clockwise() {
    let mut b = Block::new();

    let cases: Vec<(u16, isize, isize, u16, isize, isize)> = vec![(0x0072, 3, 2, 0x0131, 2, 3)];

    for case in cases {
        let (value, w, h, want_value, want_w, want_h) = case;

        b.setup(value, w, h, Colour::Value(0));
        b.rotate_clockwise();

        assert!(
            b.value() == want_value,
            "{}",
            format!(
                "received value 0x{0:04x?} instead of 0x{1:04x?}",
                b.value(),
                want_value
            )
        );
        assert!(
            b.dims().0 == want_w,
            "{}",
            format!("received w {0} instead of {1}", b.dims().0, want_w)
        );
        assert!(
            b.dims().1 == want_h,
            "{}",
            format!("received h {0} instead of {1}", b.dims().1, want_h)
        );
    }
}

#[test]
fn block_rotate_anticlockwise() {
    let mut b = Block::new();

    let cases: Vec<(u16, isize, isize, u16, isize, isize)> = vec![(0x0072, 3, 2, 0x0232, 2, 3)];

    for case in cases {
        let (value, w, h, want_value, want_w, want_h) = case;

        b.setup(value, w, h, Colour::Value(0));
        b.rotate_anticlockwise();

        assert!(
            b.value() == want_value,
            "{}",
            format!(
                "received value 0x{0:04x?} instead of 0x{1:04x?}",
                b.value(),
                want_value
            )
        );
        assert!(
            b.dims().0 == want_w,
            "{}",
            format!("received w {0} instead of {1}", b.dims().0, want_w)
        );
        assert!(
            b.dims().1 == want_h,
            "{}",
            format!("received h {0} instead of {1}", b.dims().1, want_h)
        );
    }
}

#[test]
fn block_setup_returns_spawn_offset() {
    let mut b = Block::new();
    assert_eq!(b.setup(0x0033, 2, 2, Colour::Value(3)), (-1, 0));
    assert_eq!(b.setup(0x0072, 3, 2, Colour::Value(0)), (-1, 0));
    assert_eq!(b.setup(0x000f, 4, 1, Colour::Value(6)), (-2, 0));
    assert_eq!(b.setup(0x0001, 1, 1, Colour::Value(1)), (0, 0));
    assert_eq!(b.setup(0x0000, 0, 0, Colour::Empty), (0, 0));
}

#[test]
fn block_setup_block_gives_the_canonical_shapes() {
    for (shape, want) in CANONICAL.iter().enumerate() {
        let mut b = Block::new();
        let offset = b.setup_block(shape);
        assert_eq!(b.value(), want.0);
        assert_eq!(b.dims(), (want.1, want.2));
        assert_eq!(b.colour(), Colour::Value(shape));
        assert_eq!(offset, (-(want.1 / 2), 0));
    }
}

#[test]
fn block_setup_block_wraps_the_shape_index() {
    let mut b = Block::new();
    b.setup_block(7);
    assert_eq!(b.value(), 0x0072);
    assert_eq!(b.colour(), Colour::Value(0));
    b.setup_block(13);
    assert_eq!(b.value(), 0x000f);
    assert_eq!(b.dims(), (4, 1));
    assert_eq!(b.colour(), Colour::Value(6));
    b.setup_block(usize::MAX);
    let shape = usize::MAX % 7;
    assert_eq!(b.value(), CANONICAL[shape].0);
    assert_eq!(b.colour(), Colour::Value(shape));
}

#[test]
fn block_test_is_the_t_shape() {
    let mut b = Block::new();
    assert_eq!(b.test(), (-1, 0));
    assert_eq!(b.value(), 0x0072);
    assert_eq!(b.dims(), (3, 2));
    assert_eq!(b.colour(), Colour::Value(0));
    assert!(b.get(1, 0));
    assert!(b.get(0, 1));
    assert!(b.get(1, 1));
    assert!(b.get(2, 1));
    assert!(!b.get(0, 0));
    assert!(!b.get(2, 0));
}

#[test]
fn block_random_is_a_canonical_shape() {
    for _ in 0..200 {
        let mut b = Block::new();
        let offset = b.random();
        let shape = match b.colour() {
            Colour::Value(v) => v,
            Colour::Empty => panic!("a random piece has a colour"),
        };
        assert!(shape < 7);
        assert_eq!(b.value(), CANONICAL[shape].0);
        assert_eq!(b.dims(), (CANONICAL[shape].1, CANONICAL[shape].2));
        assert_eq!(offset, (-(CANONICAL[shape].1 / 2), 0));
    }
}

#[test]
fn block_four_clockwise_turns_restore_every_shape() {
    for shape in 0..7 {
        let mut b = Block::new();
        b.setup_block(shape);
        let value = b.value();
        let dims = b.dims();
        for _ in 0..4 {
            b.rotate_clockwise();
        }
        assert_eq!(b.value(), value);
        assert_eq!(b.dims(), dims);
        assert_eq!(b.colour(), Colour::Value(shape));
    }
}

#[test]
fn block_clockwise_then_anticlockwise_restores_every_shape() {
    for shape in 0..7 {
        let mut b = Block::new();
        b.setup_block(shape);
        let value = b.value();
        let dims = b.dims();
        b.rotate_clockwise();
        b.rotate_anticlockwise();
        assert_eq!(b.value(), value);
        assert_eq!(b.dims(), dims);
        b.rotate_anticlockwise();
        b.rotate_clockwise();
        assert_eq!(b.value(), value);
        assert_eq!(b.dims(), dims);
    }
}

#[test]
fn block_rotation_keeps_four_cells() {
    for shape in 0..7 {
        let mut b = Block::new();
        b.setup_block(shape);
        for _ in 0..4 {
            b.rotate_clockwise();
            assert_eq!(b.value().count_ones(), 4);
            let (w, h) = b.dims();
            let mut cells = 0;
            for y in 0..h {
                for x in 0..w {
                    if b.get(x, y) {
                        cells += 1;
                    }
                }
            }
            assert_eq!(cells, 4);
        }
        for _ in 0..4 {
            b.rotate_anticlockwise();
            assert_eq!(b.value().count_ones(), 4);
        }
    }
}

#[test]
fn block_rotate_clockwise_moves_each_cell() {
    // The bar lies in row 0; turned clockwise it stands in column 0.
    let mut b = Block::new();
    b.setup_block(6);
    b.rotate_clockwise();
    assert_eq!(b.value(), 0x1111);
    assert_eq!(b.dims(), (1, 4));
    // The L: cells (0,0) (1,0) (2,0) (0,1) go to (1,0) (1,1) (1,2) (0,0).
    b.setup_block(1);
    b.rotate_clockwise();
    assert_eq!(b.value(), 0x0223);
    assert_eq!(b.dims(), (2, 3));
    // The square stays as it is.
    b.setup_block(3);
    b.rotate_clockwise();
    assert_eq!(b.value(), 0x0033);
    assert_eq!(b.dims(), (2, 2));
}

#[test]
fn block_rotate_anticlockwise_moves_each_cell() {
    let mut b = Block::new();
    b.setup_block(6);
    b.rotate_anticlockwise();
    assert_eq!(b.value(), 0x1111);
    assert_eq!(b.dims(), (1, 4));
    // The L: cells (0,0) (1,0) (2,0) (0,1) go to (0,2) (0,1) (0,0) (1,2).
    b.setup_block(1);
    b.rotate_anticlockwise();
    assert_eq!(b.value(), 0x0311);
    assert_eq!(b.dims(), (2, 3));
}

#[test]
fn block_rotation_drops_what_lies_outside_the_box() {
    let mut b = Block::new();
    b.setup(0xffff, 2, 2, Colour::Value(0));
    b.rotate_clockwise();
    assert_eq!(b.value(), 0x0033);
    assert_eq!(b.dims(), (2, 2));
}

#[test]
fn block_rotation_of_the_empty_piece() {
    let mut b = Block::new();
    b.rotate_clockwise();
    assert_eq!(b.value(), 0);
    assert_eq!(b.dims(), (0, 0));
    b.rotate_anticlockwise();
    assert_eq!(b.value(), 0);
    assert_eq!(b.dims(), (0, 0));
    assert_eq!(b.colour(), Colour::Empty);
}

#[test]
fn block_get_is_false_outside_the_box() {
    let mut b = Block::new();
    b.setup_block(6);
    assert!(b.get(3, 0));
    assert!(!b.get(4, 0));
    assert!(!b.get(0, 1));
    assert!(!b.get(isize::MAX, isize::MAX));
    assert!(!b.get(isize::MIN, isize::MIN));
    assert!(!b.get(0, -1));
}

#[test]
fn block_colour_is_kept_by_rotation() {
    let mut b = Block::new();
    b.setup_block(4);
    b.rotate_clockwise();
    assert_eq!(b.colour(), Colour::Value(4));
    b.rotate_anticlockwise();
    b.rotate_anticlockwise();
    assert_eq!(b.colour(), Colour::Value(4));
}
