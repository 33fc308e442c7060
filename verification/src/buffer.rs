//! The character frame buffer: a 2D grid of [`Cell`]s with per-cell depth,
//! stored in an `ndarray::Array2` and repainted by the compositor every tick.

use vstd::prelude::*;

verus! {

/// Terminal colors a cell can carry.
#[derive(Clone, Copy, PartialEq, Eq, Debug)]
pub enum Color {
    Black,
    Red,
    Green,
    Yellow,
    Blue,
    Magenta,
    Cyan,
    Gray,
    DarkGray,
    LightRed,
    LightGreen,
    LightYellow,
    LightBlue,
    LightMagenta,
    LightCyan,
    White,
}

impl Default for Color {
    fn default() -> (r: Self)
        ensures
            r == Color::Black,
    {
        Self::Black
    }
}

/// Depth of a cell nothing has drawn to: infinitely far away, so a cleared
/// buffer never shows content.
pub const DEPTH_MAX: i64 = i64::MAX;

/// One character cell: an optional glyph (`None` renders as transparent),
/// foreground and background colors, and a depth used by the compositor.
/// Lower depth values are closer to the viewer.
#[derive(Clone, Copy, PartialEq, Eq, Debug)]
pub struct Cell {
    pub fg: Color,
    pub bg: Color,
    pub depth: i64,
    pub character: Option<char>,
}

impl Default for Cell {
    /// An empty cell: no glyph, black colors, maximal depth.
    fn default() -> (r: Self)
        ensures
            r == Cell::empty_spec(),
    {
        Cell { fg: Color::Black, bg: Color::Black, depth: DEPTH_MAX, character: None }
    }
}

impl Cell {
    /// The value `Cell::default()` returns.
    pub open spec fn empty_spec() -> Cell {
        Cell { fg: Color::Black, bg: Color::Black, depth: DEPTH_MAX as i64, character: None }
    }

    /// A visible glyph in the default colors at the front depth layer.
    pub open spec fn glyph_spec(c: char) -> Cell {
        Cell { fg: Color::Black, bg: Color::Black, depth: 0, character: Some(c) }
    }

    /// A visible glyph in the default colors at the front depth layer.
    pub fn glyph(c: char) -> (r: Cell)
        ensures
            r == Cell::glyph_spec(c),
    {
        Cell { fg: Color::Black, bg: Color::Black, depth: 0, character: Some(c) }
    }
}

/// The frame buffer: a fixed-size 2D grid of cells. Exactly one instance
/// exists per running game; it is cleared at the start of every tick and
/// repainted before being handed to the renderer. It wraps an
/// `ndarray::Array2` whose contents Verus tracks through [`buffer_cells`].
#[verifier::external_body]
#[derive(Debug, PartialEq)]
pub struct Buffer(ndarray::Array2<Cell>);

/// The cells the buffer's 2D array holds, row by row.
pub uninterp spec fn buffer_cells(b: Buffer) -> Seq<Seq<Cell>>;

impl View for Buffer {
    type V = Seq<Seq<Cell>>;

    open spec fn view(&self) -> Seq<Seq<Cell>> {
        buffer_cells(*self)
    }
}

impl Buffer {
    /// Relies on `ndarray::Array2::from_elem`: a rows-by-cols array with
    /// every element the given one.
    #[verifier::external_body]
    pub fn from_elem(rows: usize, cols: usize, fill: Cell) -> (r: Buffer)
        requires
            rows * cols <= 100_000_000,
        ensures
            buffer_cells(r).len() == rows,
            forall|i: int|
                0 <= i < rows ==> #[trigger] buffer_cells(r)[i] =~= Seq::new(
                    cols as nat,
                    |j: int| fill,
                ),
    {
        Buffer(ndarray::Array2::from_elem((rows, cols), fill))
    }

    /// Relies on `ndarray::ArrayBase::nrows`: the number of rows.
    #[verifier::external_body]
    pub fn nrows(&self) -> (r: usize)
        ensures
            r == buffer_cells(*self).len(),
    {
        self.0.nrows()
    }

    /// Relies on `ndarray::ArrayBase::ncols`: the number of columns, which
    /// every row of a 2D array has.
    #[verifier::external_body]
    pub fn ncols(&self) -> (r: usize)
        ensures
            forall|i: int|
                0 <= i < buffer_cells(*self).len() ==> #[trigger] buffer_cells(*self)[i].len()
                    == r,
    {
        self.0.ncols()
    }

    /// Relies on `ndarray`'s `Index` impl: the element at `[row, col]`.
    #[verifier::external_body]
    pub fn get(&self, row: usize, col: usize) -> (r: Cell)
        requires
            row < buffer_cells(*self).len(),
            col < buffer_cells(*self)[row as int].len(),
        ensures
            r == buffer_cells(*self)[row as int][col as int],
    {
        self.0[[row, col]]
    }

    /// Relies on `ndarray`'s `IndexMut` impl: overwrites the element at
    /// `[row, col]` and nothing else.
    #[verifier::external_body]
    pub fn set(&mut self, row: usize, col: usize, cell: Cell)
        requires
            row < buffer_cells(*old(self)).len(),
            col < buffer_cells(*old(self))[row as int].len(),
        ensures
            buffer_cells(*final (self)) =~= buffer_cells(*old(self)).update(
                row as int,
                buffer_cells(*old(self))[row as int].update(col as int, cell),
            ),
    {
        self.0[[row, col]] = cell;
    }
}

/// A buffer's cells after a clear: the same shape, every cell empty.
pub open spec fn cleared(b: Seq<Seq<Cell>>) -> Seq<Seq<Cell>> {
    Seq::new(b.len(), |i: int| Seq::new(b[i].len(), |j: int| Cell::empty_spec()))
}

/// Reset every cell of the buffer to the empty cell (no glyph, maximal
/// depth), keeping its size; run at the start of every tick.
pub fn clear_buffer(buffer: &mut Buffer)
    ensures
        final (buffer)@ =~~= cleared(old(buffer)@),
{
    let rows: usize = buffer.nrows();
    let mut r: usize = 0;
    while r < rows
        invariant
            rows == buffer@.len(),
            r <= rows,
            buffer@.len() == old(buffer)@.len(),
            forall|i: int| 0 <= i < rows ==> #[trigger] buffer@[i].len() == old(buffer)@[i].len(),
            forall|i: int|
                0 <= i < r ==> #[trigger] buffer@[i] =~= Seq::new(
                    old(buffer)@[i].len(),
                    |j: int| Cell::empty_spec(),
                ),
        decreases rows - r,
    {
        let cols: usize = buffer.ncols();
        let mut c: usize = 0;
        while c < cols
            invariant
                rows == buffer@.len(),
                r < rows,
                c <= cols,
                buffer@[r as int].len() == cols,
                buffer@.len() == old(buffer)@.len(),
                forall|i: int|
                    0 <= i < rows ==> #[trigger] buffer@[i].len() == old(buffer)@[i].len(),
                forall|i: int|
                    0 <= i < r ==> #[trigger] buffer@[i] =~= Seq::new(
                        old(buffer)@[i].len(),
                        |j: int| Cell::empty_spec(),
                    ),
                forall|j: int|
                    0 <= j < c ==> #[trigger] buffer@[r as int][j] == Cell::empty_spec(),
            decreases cols - c,
        {
            buffer.set(r, c, Cell::default());
            c += 1;
        }
        proof {
            assert(buffer@[r as int] =~= Seq::new(
                old(buffer)@[r as int].len(),
                |j: int| Cell::empty_spec(),
            ));
        }
        r += 1;
    }
    proof {
        assert(buffer@ =~~= cleared(old(buffer)@));
    }
}

} // verus!
