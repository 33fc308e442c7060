use shellaga::buffer::{Buffer, Cell, Color, DEPTH_MAX};
use shellaga::math::{Transform, Vec3};
use shellaga::sprite::{render_to_buffer, Sprite};

fn glyph(c: char) -> Cell {
    Cell {
        fg: Color::Black,
        bg: Color::Black,
        depth: 0,
        character: Some(c),
    }
}

fn blank() -> Cell {
    Cell {
        fg: Color::Black,
        bg: Color::Black,
        depth: 0,
        character: None,
    }
}

fn one_cell_sprite(cell: Cell) -> Sprite {
    Sprite {
        buffer: Buffer::from_elem(1, 1, cell),
    }
}

#[test]
fn render_to_buffer_test() {
    let mut buffer = Buffer::from_elem(2, 3, Cell::default());
    let sprite = one_cell_sprite(glyph('x'));

    render_to_buffer(&sprite, &Transform::identity(), &mut buffer);

    for row in 0..2 {
        for col in 0..3 {
            let expected = if row == 0 && col == 0 {
                glyph('x')
            } else {
                Cell::default()
            };
            assert_eq!(buffer.get(row, col), expected);
        }
    }
}

#[test]
fn render_to_buffer_with_x_translation_test() {
    let mut buffer = Buffer::from_elem(2, 3, Cell::default());
    let sprite = one_cell_sprite(glyph('x'));

    render_to_buffer(
        &sprite,
        &Transform::from_translation(Vec3::new(1000, 0, 0)),
        &mut buffer,
    );

    for row in 0..2 {
        for col in 0..3 {
            let expected = if row == 0 && col == 1 {
                glyph('x')
            } else {
                Cell::default()
            };
            assert_eq!(buffer.get(row, col), expected);
        }
    }
}

#[test]
fn render_to_buffer_with_y_translation_test() {
    let mut buffer = Buffer::from_elem(2, 3, Cell::default());
    let sprite = one_cell_sprite(glyph('x'));

    render_to_buffer(
        &sprite,
        &Transform::from_translation(Vec3::new(0, 1000, 0)),
        &mut buffer,
    );

    for row in 0..2 {
        for col in 0..3 {
            let expected = if row == 1 && col == 0 {
                glyph('x')
            } else {
                Cell::default()
            };
            assert_eq!(buffer.get(row, col), expected);
        }
    }
}

#[test]
fn render_to_buffer_with_non_trivial_sprite_test() {
    let mut buffer = Buffer::from_elem(2, 3, Cell::default());

    let mut stamp = Buffer::from_elem(2, 2, glyph('x'));
    stamp.set(1, 0, blank());
    let sprite = Sprite { buffer: stamp };

    render_to_buffer(&sprite, &Transform::identity(), &mut buffer);

    // x x .
    // . x .
    assert_eq!(buffer.get(0, 0), glyph('x'));
    assert_eq!(buffer.get(0, 1), glyph('x'));
    assert_eq!(buffer.get(1, 1), glyph('x'));
    assert_eq!(buffer.get(0, 2), Cell::default());
    assert_eq!(buffer.get(1, 0), Cell::default());
    assert_eq!(buffer.get(1, 2), Cell::default());
}

#[test]
fn render_to_buffer_with_existing_texel_in_front() {
    let front = Cell {
        fg: Color::Black,
        bg: Color::Black,
        depth: -1000,
        character: Some('a'),
    };
    let mut buffer = Buffer::from_elem(1, 1, front);
    let sprite = one_cell_sprite(glyph('x'));

    render_to_buffer(&sprite, &Transform::identity(), &mut buffer);

    assert_eq!(buffer.get(0, 0), front);
}

#[test]
fn render_to_buffer_with_existing_texel_behind() {
    let behind = Cell {
        fg: Color::Black,
        bg: Color::Black,
        depth: -1000,
        character: Some('a'),
    };
    let mut buffer = Buffer::from_elem(1, 1, behind);
    let sprite = one_cell_sprite(glyph('x'));

    render_to_buffer(
        &sprite,
        &Transform::from_translation(Vec3::new(0, 0, -2000)),
        &mut buffer,
    );

    assert_eq!(
        buffer.get(0, 0),
        Cell {
            fg: Color::Black,
            bg: Color::Black,
            depth: -2000,
            character: Some('x'),
        }
    );
}

#[test]
fn equal_depth_keeps_existing_cell() {
    let existing = Cell {
        fg: Color::Black,
        bg: Color::Black,
        depth: 0,
        character: Some('a'),
    };
    let mut buffer = Buffer::from_elem(1, 1, existing);
    let sprite = one_cell_sprite(glyph('x'));

    render_to_buffer(&sprite, &Transform::identity(), &mut buffer);

    assert_eq!(buffer.get(0, 0), existing);
}

#[test]
fn transparent_cell_never_alters_buffer() {
    let existing = Cell {
        fg: Color::Black,
        bg: Color::Black,
        depth: 500,
        character: Some('a'),
    };
    let mut buffer = Buffer::from_elem(1, 1, existing);
    // A transparent cell far in front still writes nothing.
    let sprite = one_cell_sprite(Cell {
        fg: Color::White,
        bg: Color::White,
        depth: -9000,
        character: None,
    });

    render_to_buffer(&sprite, &Transform::identity(), &mut buffer);

    assert_eq!(buffer.get(0, 0), existing);
}

#[test]
fn off_buffer_sprite_is_clipped_cell_by_cell() {
    let mut buffer = Buffer::from_elem(2, 2, Cell::default());
    let sprite = Sprite {
        buffer: Buffer::from_elem(2, 2, glyph('x')),
    };

    // Fully outside: nothing written, no error.
    render_to_buffer(
        &sprite,
        &Transform::from_translation(Vec3::new(5000, 5000, 0)),
        &mut buffer,
    );
    for row in 0..2 {
        for col in 0..2 {
            assert_eq!(buffer.get(row, col), Cell::default());
        }
    }

    // Partially outside: only the overlapping corner cell is written.
    render_to_buffer(
        &sprite,
        &Transform::from_translation(Vec3::new(-1000, -1000, 0)),
        &mut buffer,
    );
    assert_eq!(buffer.get(0, 0), glyph('x'));
    assert_eq!(buffer.get(0, 1), Cell::default());
    assert_eq!(buffer.get(1, 0), Cell::default());
    assert_eq!(buffer.get(1, 1), Cell::default());
}

#[test]
fn buffer_set_and_get_round_trip() {
    let mut buffer = Buffer::from_elem(3, 4, Cell::default());
    assert_eq!(buffer.nrows(), 3);
    assert_eq!(buffer.ncols(), 4);
    buffer.set(2, 1, glyph('q'));
    assert_eq!(buffer.get(2, 1), glyph('q'));
    assert_eq!(buffer.get(2, 0), Cell::default());
    assert_eq!(buffer.get(0, 1), Cell::default());
    assert_eq!(Cell::default().depth, DEPTH_MAX);
    assert_eq!(Color::default(), Color::Black);
    assert_eq!(Cell::default().character, None);
}
