//! Sprites and the depth-ordered compositor.
//!
//! A sprite is a small owned grid of cells stamped onto the frame buffer at
//! its owner's effective position. A sprite cell with no character is
//! transparent; a cell with one overwrites the target only if its effective
//! depth (transform `z` plus the cell's own depth) is strictly in front of
//! what is already there, so at equal depth the first-drawn cell wins.

use vstd::prelude::*;

use crate::buffer::{Buffer, Cell};
use crate::math::{round_to_cell, round_milli, sadd, Transform, Vec3};

verus! {

/// A stamp: an owned 2D grid of cells, pure data consumed by the compositor.
pub struct Sprite {
    pub buffer: Buffer,
}

/// The outcome of compositing sprite cell `src` (at transform depth `z`)
/// over buffer cell `dst`: transparent cells change nothing, and a glyph
/// lands only when its effective depth is strictly lower (closer) than the
/// depth already present.
pub open spec fn composite_cell(dst: Cell, src: Cell, z: int) -> Cell {
    if src.character is None {
        dst
    } else {
        let d = sadd(z, src.depth as int);
        if d < dst.depth as int {
            Cell { fg: src.fg, bg: src.bg, depth: d as i64, character: src.character }
        } else {
            dst
        }
    }
}

/// Whether buffer position `(r, c)` is covered by a sprite of cells `src`
/// whose top-left cell lands on buffer position `(ty, tx)`.
pub open spec fn covered(src: Seq<Seq<Cell>>, tx: int, ty: int, r: int, c: int) -> bool {
    &&& 0 <= r - ty < src.len()
    &&& 0 <= c - tx < src[r - ty].len()
}

/// The buffer cell at `(r, c)` after blitting `src` over `dst` at cell
/// offset `(tx, ty)` and depth `z`: positions the sprite does not cover keep
/// their old value, covered ones pass the per-cell depth test.
pub open spec fn blit_cell(
    dst: Seq<Seq<Cell>>,
    src: Seq<Seq<Cell>>,
    tx: int,
    ty: int,
    z: int,
    r: int,
    c: int,
) -> Cell {
    if covered(src, tx, ty, r, c) {
        composite_cell(dst[r][c], src[r - ty][c - tx], z)
    } else {
        dst[r][c]
    }
}

/// The whole buffer after a blit: same shape, each cell per [`blit_cell`].
pub open spec fn blit_spec(
    dst: Seq<Seq<Cell>>,
    src: Seq<Seq<Cell>>,
    tx: int,
    ty: int,
    z: int,
) -> Seq<Seq<Cell>> {
    Seq::new(dst.len(), |r: int| Seq::new(dst[r].len(), |c: int| blit_cell(dst, src, tx, ty, z, r, c)))
}

/// Stamp the sprite onto the buffer: each sprite cell with a character is
/// depth-tested against the buffer cell at the sprite-local offset plus the
/// rounded transform translation. Writes that fall outside the buffer are
/// skipped cell by cell (clipping), never an error; transparent sprite cells
/// never alter the buffer.
pub fn render_to_buffer(sprite: &Sprite, transform: &Transform, buffer: &mut Buffer)
    ensures
        final (buffer)@ =~~= blit_spec(
            old(buffer)@,
            sprite.buffer@,
            round_to_cell(transform.translation.x as int),
            round_to_cell(transform.translation.y as int),
            transform.translation.z as int,
        ),
{
    let ghost dst0 = buffer@;
    let ghost src = sprite.buffer@;
    let tx: i64 = round_milli(transform.translation.x);
    let ty: i64 = round_milli(transform.translation.y);
    let z: i64 = transform.translation.z;
    let src_rows: usize = sprite.buffer.nrows();
    let dst_rows: usize = buffer.nrows();

    let mut row: usize = 0;
    while row < src_rows
        invariant
            src_rows == src.len(),
            src == sprite.buffer@,
            tx as int == round_to_cell(transform.translation.x as int),
            ty as int == round_to_cell(transform.translation.y as int),
            z == transform.translation.z,
            dst_rows == dst0.len(),
            row <= src_rows,
            buffer@.len() == dst0.len(),
            forall|r: int| 0 <= r < dst0.len() ==> #[trigger] buffer@[r].len() == dst0[r].len(),
            forall|r: int, c: int|
                0 <= r < dst0.len() && 0 <= c < dst0[r].len() ==> #[trigger] buffer@[r][c] == (
                if covered(src, tx as int, ty as int, r, c) && r - ty < row {
                    blit_cell(dst0, src, tx as int, ty as int, z as int, r, c)
                } else {
                    dst0[r][c]
                }),
        decreases src_rows - row,
    {
        let src_cols: usize = sprite.buffer.ncols();
        let target_r: i128 = row as i128 + ty as i128;
        let mut col: usize = 0;
        while col < src_cols
            invariant
                src_rows == src.len(),
                src == sprite.buffer@,
                row < src_rows,
                src_cols == src[row as int].len(),
                target_r == row as i128 + ty as i128,
                tx as int == round_to_cell(transform.translation.x as int),
                ty as int == round_to_cell(transform.translation.y as int),
                z == transform.translation.z,
                dst_rows == dst0.len(),
                col <= src_cols,
                buffer@.len() == dst0.len(),
                forall|r: int| 0 <= r < dst0.len() ==> #[trigger] buffer@[r].len() == dst0[r].len(),
                forall|r: int, c: int|
                    0 <= r < dst0.len() && 0 <= c < dst0[r].len() ==> #[trigger] buffer@[r][c] == (
                    if covered(src, tx as int, ty as int, r, c) && (r - ty < row || (r - ty == row
                        && c - tx < col)) {
                        blit_cell(dst0, src, tx as int, ty as int, z as int, r, c)
                    } else {
                        dst0[r][c]
                    }),
            decreases src_cols - col,
        {
            if target_r >= 0 && target_r < dst_rows as i128 {
                let y: usize = target_r as usize;
                let target_c: i128 = col as i128 + tx as i128;
                let row_len: usize = row_length(buffer, y);
                if target_c >= 0 && target_c < row_len as i128 {
                    let x: usize = target_c as usize;
                    let scell: Cell = sprite.buffer.get(row, col);
                    if scell.character.is_some() {
                        let dcell: Cell = buffer.get(y, x);
                        let d: i64 = crate::math::sat_add(z, scell.depth);
                        if d < dcell.depth {
                            buffer.set(
                                y,
                                x,
                                Cell { fg: scell.fg, bg: scell.bg, depth: d, character: scell.character },
                            );
                        }
                    }
                }
            }
            col += 1;
        }
        row += 1;
    }

    proof {
        assert forall|r: int|
            0 <= r < dst0.len() implies #[trigger] buffer@[r] =~= blit_spec(
            dst0,
            src,
            tx as int,
            ty as int,
            z as int,
        )[r] by {
            assert forall|c: int| 0 <= c < dst0[r].len() implies #[trigger] buffer@[r][c]
                == blit_cell(dst0, src, tx as int, ty as int, z as int, r, c) by {
                if covered(src, tx as int, ty as int, r, c) {
                    assert(r - ty < src_rows);
                }
            }
        }
    }
}

/// Length of one buffer row (every row has the buffer's column count).
fn row_length(buffer: &Buffer, row: usize) -> (r: usize)
    requires
        row < buffer@.len(),
    ensures
        r == buffer@[row as int].len(),
{
    buffer.ncols()
}

/// Does this entity get painted: live, with a sprite and a position.
pub open spec fn renders(e: crate::entity::Entity) -> bool {
    e.alive && e.sprite is Some && e.transform is Some
}

/// The buffer after painting the first `n` entities in index order: each
/// sprite-bearing, positioned, live entity is blitted at its effective
/// translation.
pub open spec fn rendered_buffer(
    dst: Seq<Seq<Cell>>,
    s: Seq<crate::entity::Entity>,
    n: int,
) -> Seq<Seq<Cell>>
    decreases n,
{
    if n <= 0 {
        dst
    } else {
        let prev = rendered_buffer(dst, s, n - 1);
        if 0 <= n - 1 < s.len() && renders(s[n - 1]) {
            let eff = crate::entity::eff_translation_spec(s, n - 1);
            blit_spec(
                prev,
                (s[n - 1].sprite->0).buffer@,
                round_to_cell(eff.x as int),
                round_to_cell(eff.y as int),
                eff.z as int,
            )
        } else {
            prev
        }
    }
}

/// A painted buffer keeps the destination's shape.
pub proof fn lemma_rendered_dims(dst: Seq<Seq<Cell>>, s: Seq<crate::entity::Entity>, n: int)
    ensures
        rendered_buffer(dst, s, n).len() == dst.len(),
        forall|r: int|
            0 <= r < dst.len() ==> #[trigger] rendered_buffer(dst, s, n)[r].len() == dst[r].len(),
    decreases n,
{
    if n > 0 {
        lemma_rendered_dims(dst, s, n - 1);
    }
}

/// Repaint the buffer from the world: every live entity with a sprite and
/// a position is stamped on, in entity-index order, depth deciding what
/// shows through.
pub fn render(w: &crate::entity::World, buffer: &mut Buffer)
    requires
        crate::entity::entities_wf(w.entities@),
    ensures
        final (buffer)@ == rendered_buffer(old(buffer)@, w.entities@, w.entities@.len() as int),
{
    let ghost dst0 = buffer@;
    let ghost s = w.entities@;
    let effs: Vec<Vec3> = w.all_eff_translations();
    let n: usize = w.entities.len();
    let mut i: usize = 0;
    while i < n
        invariant
            n == s.len(),
            s == w.entities@,
            effs@.len() == n,
            forall|j: int|
                0 <= j < n ==> #[trigger] effs@[j] == crate::entity::eff_translation_spec(s, j),
            i <= n,
            buffer@ == rendered_buffer(dst0, s, i as int),
        decreases n - i,
    {
        let alive: bool = w.entities[i].alive;
        let has_t: bool = w.entities[i].transform.is_some();
        if alive && has_t {
            match &w.entities[i].sprite {
                Some(sp) => {
                    let t: Transform = Transform::from_translation(effs[i]);
                    render_to_buffer(sp, &t, buffer);
                },
                None => {},
            }
        }
        i += 1;
    }
}

/// Compositing depth test: with a glyph present, the sprite cell lands iff
/// its effective depth `d1 = z + src.depth` is strictly less than the
/// buffer cell's depth `d0`; at `d1 > d0` and on the tie `d1 == d0` the
/// existing cell is kept.
pub proof fn lemma_depth_test(dst: Cell, src: Cell, z: int)
    requires
        src.character is Some,
    ensures
        sadd(z, src.depth as int) < dst.depth as int ==> composite_cell(dst, src, z) == (Cell {
            fg: src.fg,
            bg: src.bg,
            depth: sadd(z, src.depth as int) as i64,
            character: src.character,
        }),
        sadd(z, src.depth as int) >= dst.depth as int ==> composite_cell(dst, src, z) == dst,
{
}

/// Compositing transparency: a sprite cell with no character never alters
/// the buffer cell it covers, whatever the depths are.
pub proof fn lemma_transparency(dst: Cell, src: Cell, z: int)
    requires
        src.character is None,
    ensures
        composite_cell(dst, src, z) == dst,
{
}

/// Compositing clipping: a blit never changes the buffer's shape, and a
/// buffer position the sprite does not cover — in particular every position
/// when the sprite's target coordinates lie wholly outside the buffer —
/// keeps its old cell.
pub proof fn lemma_clipping(
    dst: Seq<Seq<Cell>>,
    src: Seq<Seq<Cell>>,
    tx: int,
    ty: int,
    z: int,
    r: int,
    c: int,
)
    requires
        0 <= r < dst.len(),
        0 <= c < dst[r].len(),
        !covered(src, tx, ty, r, c),
    ensures
        blit_spec(dst, src, tx, ty, z).len() == dst.len(),
        blit_spec(dst, src, tx, ty, z)[r].len() == dst[r].len(),
        blit_spec(dst, src, tx, ty, z)[r][c] == dst[r][c],
{
}

} // verus!
