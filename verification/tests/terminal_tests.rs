use shellaga::buffer::{Buffer, Cell, Color};
use shellaga::terminal::{widget_writes, Rect};

fn glyph(c: char) -> Cell {
    Cell {
        fg: Color::Black,
        bg: Color::Black,
        depth: 0,
        character: Some(c),
    }
}

fn blank() -> Cell {
    Cell {
        fg: Color::Black,
        bg: Color::Black,
        depth: 0,
        character: None,
    }
}

/// Apply the core's computed writes to a real terminal content buffer, as
/// the renderer does.
fn apply(writes: Vec<(u64, Option<char>)>, buf: &mut ratatui::buffer::Buffer) {
    for (idx, ch) in writes {
        let mut cell = ratatui::buffer::Cell::default();
        if let Some(c) = ch {
            cell.set_char(c);
        }
        buf.content[idx as usize] = cell;
    }
}

fn terminal_buffer(width: u16, height: u16) -> ratatui::buffer::Buffer {
    ratatui::buffer::Buffer {
        area: ratatui::layout::Rect {
            x: 0,
            y: 0,
            width,
            height,
        },
        content: vec![Default::default(); (width as usize) * (height as usize)],
    }
}

#[test]
fn render_top_left() {
    let buffer = Buffer::from_elem(1, 1, glyph('x'));
    let mut tb = terminal_buffer(2, 2);

    let mut expected = tb.clone();
    expected.content[0].set_char('x');

    let writes = widget_writes(
        &buffer,
        Rect {
            x: 0,
            y: 0,
            width: 1,
            height: 1,
        },
        tb.area.width,
    );
    apply(writes, &mut tb);

    assert_eq!(tb, expected);
}

#[test]
fn render_translated() {
    let buffer = Buffer::from_elem(1, 1, glyph('x'));
    let mut tb = terminal_buffer(2, 2);

    let mut expected = tb.clone();
    expected.content[3].set_char('x');

    let writes = widget_writes(
        &buffer,
        Rect {
            x: 1,
            y: 1,
            width: 1,
            height: 1,
        },
        tb.area.width,
    );
    apply(writes, &mut tb);

    assert_eq!(tb, expected);
}

fn two_by_two() -> Buffer {
    // x x
    // . x
    let mut b = Buffer::from_elem(2, 2, glyph('x'));
    b.set(1, 0, blank());
    b
}

#[test]
fn render_2d_translated() {
    let buffer = two_by_two();
    let mut tb = terminal_buffer(4, 4);

    // 0 0 0 0
    // 0 x x 0
    // 0 0 x 0
    // 0 0 0 0
    let mut expected = tb.clone();
    expected.content[5].set_char('x');
    expected.content[6].set_char('x');
    expected.content[10].set_char('x');

    let writes = widget_writes(
        &buffer,
        Rect {
            x: 1,
            y: 1,
            width: 2,
            height: 2,
        },
        tb.area.width,
    );
    apply(writes, &mut tb);

    assert_eq!(tb, expected);
}

#[test]
fn render_2d_translated_x() {
    let buffer = two_by_two();
    let mut tb = terminal_buffer(4, 4);

    // 0 0 x x
    // 0 0 0 x
    // 0 0 0 0
    // 0 0 0 0
    let mut expected = tb.clone();
    expected.content[2].set_char('x');
    expected.content[3].set_char('x');
    expected.content[7].set_char('x');

    let writes = widget_writes(
        &buffer,
        Rect {
            x: 2,
            y: 0,
            width: 2,
            height: 2,
        },
        tb.area.width,
    );
    apply(writes, &mut tb);

    assert_eq!(tb, expected);
}

#[test]
fn render_2d_translated_y() {
    let buffer = two_by_two();
    let mut tb = terminal_buffer(4, 4);

    // 0 0 0 0
    // 0 0 0 0
    // x x 0 0
    // 0 x 0 0
    let mut expected = tb.clone();
    expected.content[8].set_char('x');
    expected.content[9].set_char('x');
    expected.content[13].set_char('x');

    let writes = widget_writes(
        &buffer,
        Rect {
            x: 0,
            y: 2,
            width: 2,
            height: 2,
        },
        tb.area.width,
    );
    apply(writes, &mut tb);

    assert_eq!(tb, expected);
}

#[test]
fn writes_are_clipped_to_area() {
    // A buffer wider and taller than the area only writes the area.
    let buffer = Buffer::from_elem(3, 5, glyph('z'));
    let writes = widget_writes(
        &buffer,
        Rect {
            x: 0,
            y: 0,
            width: 2,
            height: 1,
        },
        8,
    );
    assert_eq!(writes.len(), 2);
    assert_eq!(writes[0], (0, Some('z')));
    assert_eq!(writes[1], (1, Some('z')));
}
