//! The hand-off from the frame buffer to the terminal renderer: which cells
//! of the renderer's flat content array get written, and with what glyph,
//! when the buffer is drawn into a target area. The terminal itself (raw
//! mode, alternate screen, the draw call) lives outside the core.

use vstd::prelude::*;

use crate::buffer::{Buffer, Cell};

verus! {

/// A rectangle of the terminal, as the renderer's layout hands it out:
/// offset and size in character cells.
#[derive(Clone, Copy, PartialEq, Eq, Structural, Debug)]
pub struct Rect {
    pub x: u16,
    pub y: u16,
    pub width: u16,
    pub height: u16,
}

/// The smaller of two values.
pub open spec fn min2(a: int, b: int) -> int {
    if a < b {
        a
    } else {
        b
    }
}

/// The flat index in the renderer's content array (rows of `buf_width`)
/// that buffer position `(row, col)` lands on, offset by the target area.
pub open spec fn cell_write_index(area: Rect, buf_width: int, row: int, col: int) -> int {
    buf_width * (row + area.y as int) + col + area.x as int
}

/// The writes one buffer row emits: its cells' glyphs, clipped to the
/// area's width; rows below the area's height emit nothing.
pub open spec fn row_writes(cells_row: Seq<Cell>, row: int, area: Rect, buf_width: int) -> Seq<
    (int, Option<char>),
> {
    if row < area.height as int {
        Seq::new(
            min2(cells_row.len() as int, area.width as int) as nat,
            |c: int| (cell_write_index(area, buf_width, row, c), cells_row[c].character),
        )
    } else {
        Seq::empty()
    }
}

/// The writes the first `n` buffer rows emit, in row-major order.
pub open spec fn widget_writes_to(
    cells: Seq<Seq<Cell>>,
    area: Rect,
    buf_width: int,
    n: int,
) -> Seq<(int, Option<char>)>
    decreases n,
{
    if n <= 0 {
        Seq::empty()
    } else {
        widget_writes_to(cells, area, buf_width, n - 1) + (if n - 1 < cells.len() {
            row_writes(cells[n - 1], n - 1, area, buf_width)
        } else {
            Seq::empty()
        })
    }
}

/// Every write drawing the buffer into `area` emits, in row-major order.
pub open spec fn widget_writes_spec(cells: Seq<Seq<Cell>>, area: Rect, buf_width: int) -> Seq<
    (int, Option<char>),
> {
    widget_writes_to(cells, area, buf_width, cells.len() as int)
}

/// Compute the renderer writes for drawing the buffer into `area` of a
/// content array `buf_width` cells wide: one `(flat index, glyph)` pair per
/// in-area buffer cell, row-major, exactly as [`widget_writes_spec`] lists
/// them.
pub fn widget_writes(buffer: &Buffer, area: Rect, buf_width: u16) -> (r: Vec<(u64, Option<char>)>)
    ensures
        r@.len() == widget_writes_spec(buffer@, area, buf_width as int).len(),
        forall|k: int|
            #![trigger r@[k]]
            0 <= k < r@.len() ==> r@[k].0 as int == widget_writes_spec(
                buffer@,
                area,
                buf_width as int,
            )[k].0 && r@[k].1 == widget_writes_spec(buffer@, area, buf_width as int)[k].1,
{
    let ghost cells = buffer@;
    let ghost bw = buf_width as int;
    let nrows: usize = buffer.nrows();
    let mut r: Vec<(u64, Option<char>)> = Vec::new();
    let mut row: usize = 0;
    while row < nrows
        invariant
            cells == buffer@,
            bw == buf_width as int,
            nrows == cells.len(),
            row <= nrows,
            r@.len() == widget_writes_to(cells, area, bw, row as int).len(),
            forall|k: int|
                #![trigger r@[k]]
                0 <= k < r@.len() ==> r@[k].0 as int == widget_writes_to(
                    cells,
                    area,
                    bw,
                    row as int,
                )[k].0 && r@[k].1 == widget_writes_to(cells, area, bw, row as int)[k].1,
        decreases nrows - row,
    {
        let ghost prev_writes = widget_writes_to(cells, area, bw, row as int);
        if row < area.height as usize {
            let ncols: usize = buffer.ncols();
            let limit: usize = if ncols < area.width as usize {
                ncols
            } else {
                area.width as usize
            };
            proof {
                assert((buf_width as int) * (row as int + area.y as int) <= 65_535 * 131_070)
                    by (nonlinear_arith)
                    requires
                        0 <= buf_width as int <= 65_535,
                        0 <= row as int + area.y as int <= 131_070,
                ;
            }
            let base: u64 = (buf_width as u64) * (row as u64 + area.y as u64);
            let mut col: usize = 0;
            while col < limit
                invariant
                    cells == buffer@,
                    bw == buf_width as int,
                    nrows == cells.len(),
                    row < nrows,
                    row < area.height as usize,
                    ncols == cells[row as int].len(),
                    limit == min2(ncols as int, area.width as int),
                    base == bw * (row as int + area.y as int),
                    base <= 0x2_0000_0000u64,
                    col <= limit,
                    prev_writes == widget_writes_to(cells, area, bw, row as int),
                    r@.len() == prev_writes.len() + col,
                    forall|k: int|
                        #![trigger r@[k]]
                        0 <= k < prev_writes.len() ==> r@[k].0 as int == prev_writes[k].0 && r@[k].1
                            == prev_writes[k].1,
                    forall|c: int|
                        #![trigger r@[prev_writes.len() + c]]
                        0 <= c < col ==> r@[prev_writes.len() + c].0 as int == cell_write_index(
                            area,
                            bw,
                            row as int,
                            c,
                        ) && r@[prev_writes.len() + c].1 == cells[row as int][c].character,
                decreases limit - col,
            {
                let cell: Cell = buffer.get(row, col);
                let index: u64 = base + col as u64 + area.x as u64;
                r.push((index, cell.character));
                col += 1;
            }
        }
        proof {
            let cur = widget_writes_to(cells, area, bw, row as int + 1);
            assert(cur == prev_writes + row_writes(cells[row as int], row as int, area, bw));
            assert forall|k: int|
                #![trigger r@[k]]
                0 <= k < r@.len() implies r@[k].0 as int == cur[k].0 && r@[k].1 == cur[k].1 by {
                if k < prev_writes.len() {
                    assert(cur[k] == prev_writes[k]);
                    assert(r@[k].0 as int == prev_writes[k].0 && r@[k].1 == prev_writes[k].1);
                } else {
                    let c = k - prev_writes.len();
                    assert(0 <= c < row_writes(cells[row as int], row as int, area, bw).len());
                    assert(cur[k] == row_writes(cells[row as int], row as int, area, bw)[c]);
                    assert(row_writes(cells[row as int], row as int, area, bw)[c]
                        == (cell_write_index(area, bw, row as int, c), cells[row as int][c].character));
                    assert(r@[prev_writes.len() + c].0 as int == cell_write_index(
                        area,
                        bw,
                        row as int,
                        c,
                    ));
                    assert(r@[prev_writes.len() + c].1 == cells[row as int][c].character);
                }
            }
        }
        row += 1;
    }
    r
}

} // verus!
