//! The multi-resolution renderer: flattens a scene graph (board plus
//! entities) into a glyph-cell buffer at one of three zoom densities.
//!
//! A glyph cell carries two vertically stacked logical pixels: the
//! upper-half-block character with an independent foreground (top
//! pixel) and background (bottom pixel). `Far` maps one board cell to
//! one pixel, `Middle` to a 2 by 2 pixel block, and `Close` to a 4 by 4
//! block with a pre-authored sprite overlaid on the player. Writes that
//! would leave the buffer are clipped.

use vstd::prelude::*;
use vstd::arithmetic::div_mod::lemma_fundamental_div_mod;
use vstd::arithmetic::div_mod::lemma_fundamental_div_mod_converse;
use vstd::arithmetic::div_mod::lemma_mod_bound;
use vstd::arithmetic::mul::lemma_mul_inequality;

use crate::colors::Rgb;
use crate::grid::GlyphCells;
use crate::grid::pix_grid;
use crate::soko_loader::in_grid;
use crate::sprites::get_player_sprite_4;
use crate::sprites::spec_player_sprite_4;
use crate::types::Coordinate;
use crate::types::Entity;
use crate::types::GlyphCell;
use crate::types::RenderGraph;
use crate::types::RenderItem;
use crate::types::RenderNode;
use crate::types::Tile;
use crate::types::World;
use crate::types::Zoom;
use crate::types::spec_tile_color;

verus! {

/// Whether `c` is a valid cell of the glyph buffer view `g`.
pub open spec fn glyph_in_bounds(c: Coordinate, g: Seq<Seq<GlyphCell>>) -> bool {
    c.y < g.len() && c.x < g[c.y as int].len()
}

/// True iff `position` lies inside the buffer.
pub fn is_in_bounds(position: &Coordinate, buffer: &GlyphCells) -> (r: bool)
    requires
        buffer.wf(),
    ensures
        r == glyph_in_bounds(*position, buffer@),
{
    let height = buffer.rows();
    let width = buffer.cols();
    position.x < width && position.y < height
}

/// The square of a cell at `pos`, scaled by `size`, paints the top
/// pixel of glyph cell `(gy, gx)`.
pub open spec fn covers_fg(pos: Coordinate, size: int, gy: int, gx: int) -> bool {
    pos.x * size <= gx < pos.x * size + size && pos.y * size <= 2 * gy < pos.y * size + size
}

/// The square of a cell at `pos`, scaled by `size`, paints the bottom
/// pixel of glyph cell `(gy, gx)`.
pub open spec fn covers_bg(pos: Coordinate, size: int, gy: int, gx: int) -> bool {
    pos.x * size <= gx < pos.x * size + size && pos.y * size <= 2 * gy + 1 < pos.y * size + size
}

/// What one glyph cell holds after a square of `color` is drawn over
/// `old`: a painted top pixel sets the half-block glyph and the
/// foreground, a painted bottom pixel sets the background.
pub open spec fn spec_square_write(
    old: GlyphCell,
    color: Rgb,
    pos: Coordinate,
    size: int,
    gy: int,
    gx: int,
) -> GlyphCell {
    GlyphCell {
        glyph: if covers_fg(pos, size, gy, gx) {
            '\u{2580}'
        } else {
            old.glyph
        },
        fg: if covers_fg(pos, size, gy, gx) {
            Some(color)
        } else {
            old.fg
        },
        bg: if covers_bg(pos, size, gy, gx) {
            Some(color)
        } else {
            old.bg
        },
    }
}

/// Pixel `(py, px)` comes before the scan position `(cy, cx)` in
/// row-major order.
pub open spec fn pix_before(py: int, px: int, cy: int, cx: int) -> bool {
    py < cy || (py == cy && px < cx)
}

/// `spec_square_write` restricted to the pixels a row-major scan has
/// already visited.
pub open spec fn spec_square_write_upto(
    old: GlyphCell,
    color: Rgb,
    pos: Coordinate,
    size: int,
    gy: int,
    gx: int,
    cy: int,
    cx: int,
) -> GlyphCell {
    GlyphCell {
        glyph: if covers_fg(pos, size, gy, gx) && pix_before(2 * gy, gx, cy, cx) {
            '\u{2580}'
        } else {
            old.glyph
        },
        fg: if covers_fg(pos, size, gy, gx) && pix_before(2 * gy, gx, cy, cx) {
            Some(color)
        } else {
            old.fg
        },
        bg: if covers_bg(pos, size, gy, gx) && pix_before(2 * gy + 1, gx, cy, cx) {
            Some(color)
        } else {
            old.bg
        },
    }
}

/// Draws one `size` by `size` square of `color` for the board or entity
/// cell at `position`, packing two pixel rows per glyph row; pixels
/// outside the buffer are clipped.
#[verifier::rlimit(100)]
pub fn draw_square(color: Rgb, position: Coordinate, size: usize, glyph_buffer: GlyphCells) -> (r:
    GlyphCells)
    requires
        glyph_buffer.wf(),
        size >= 1,
        position.x * size + size <= usize::MAX,
        position.y * size + size <= usize::MAX,
    ensures
        r.wf(),
        r@.len() == glyph_buffer@.len(),
        forall|i: int| 0 <= i < r@.len() ==> (#[trigger] r@[i]).len() == glyph_buffer@[i].len(),
        forall|gy: int, gx: int|
            0 <= gy < r@.len() && 0 <= gx < r@[gy].len() ==> #[trigger] r@[gy][gx]
                == spec_square_write(glyph_buffer@[gy][gx], color, position, size as int, gy, gx),
{
    let ghost orig = glyph_buffer@;
    let x = position.x * size;
    let y = position.y * size;
    let mut buf = glyph_buffer;
    let rows = buf.rows();
    let cols = buf.cols();
    let mut yi = y;
    while yi < y + size
        invariant
            buf.wf(),
            rows == buf@.len(),
            forall|i: int| 0 <= i < buf@.len() ==> (#[trigger] buf@[i]).len() == cols,
            buf@.len() == orig.len(),
            forall|i: int| 0 <= i < orig.len() ==> (#[trigger] orig[i]).len() == cols,
            x == position.x * size,
            y == position.y * size,
            size >= 1,
            y <= yi <= y + size,
            y + size <= usize::MAX,
            x + size <= usize::MAX,
            forall|gy: int, gx: int|
                0 <= gy < buf@.len() && 0 <= gx < cols ==> #[trigger] buf@[gy][gx]
                    == spec_square_write_upto(
                    orig[gy][gx],
                    color,
                    position,
                    size as int,
                    gy,
                    gx,
                    yi as int,
                    x as int,
                ),
        decreases y + size - yi,
    {
        let mut xi = x;
        while xi < x + size
            invariant
                buf.wf(),
                rows == buf@.len(),
                forall|i: int| 0 <= i < buf@.len() ==> (#[trigger] buf@[i]).len() == cols,
                buf@.len() == orig.len(),
                forall|i: int| 0 <= i < orig.len() ==> (#[trigger] orig[i]).len() == cols,
                x == position.x * size,
                y == position.y * size,
                size >= 1,
                y <= yi < y + size,
                x <= xi <= x + size,
                y + size <= usize::MAX,
                x + size <= usize::MAX,
                forall|gy: int, gx: int|
                    0 <= gy < buf@.len() && 0 <= gx < cols ==> #[trigger] buf@[gy][gx]
                        == spec_square_write_upto(
                        orig[gy][gx],
                        color,
                        position,
                        size as int,
                        gy,
                        gx,
                        yi as int,
                        xi as int,
                    ),
            decreases x + size - xi,
        {
            let gy = yi / 2;
            if gy < rows && xi < cols {
                let mut cell = buf.get(gy, xi);
                if yi % 2 == 0 {
                    cell.glyph = '\u{2580}';
                    cell.fg = Some(color);
                } else {
                    cell.bg = Some(color);
                }
                buf.set(gy, xi, cell);
            }
            proof {
                assert forall|gy2: int, gx2: int|
                    0 <= gy2 < buf@.len() && 0 <= gx2 < cols implies #[trigger] buf@[gy2][gx2]
                    == spec_square_write_upto(
                    orig[gy2][gx2],
                    color,
                    position,
                    size as int,
                    gy2,
                    gx2,
                    yi as int,
                    xi as int + 1,
                ) by {
                    assert(2 * (yi as int / 2) == yi as int || 2 * (yi as int / 2) + 1
                        == yi as int);
                }
            }
            xi = xi + 1;
        }
        proof {
            assert forall|gy2: int, gx2: int|
                0 <= gy2 < buf@.len() && 0 <= gx2 < cols implies #[trigger] buf@[gy2][gx2]
                == spec_square_write_upto(
                orig[gy2][gx2],
                color,
                position,
                size as int,
                gy2,
                gx2,
                yi as int + 1,
                x as int,
            ) by {}
        }
        yi = yi + 1;
    }
    proof {
        assert forall|gy2: int, gx2: int|
            0 <= gy2 < buf@.len() && 0 <= gx2 < cols implies #[trigger] buf@[gy2][gx2]
            == spec_square_write(orig[gy2][gx2], color, position, size as int, gy2, gx2) by {}
    }
    buf
}

/// The colour of logical pixel `(py, px)` under the board alone, at
/// `size` pixels per board cell: the colour of the tile the pixel falls
/// in, or nothing outside the board or on an uncoloured tile.
pub open spec fn spec_tile_paint(g: Seq<Seq<Tile>>, size: int, py: int, px: int) -> Option<Rgb> {
    if size > 0 && in_grid(g, py / size, px / size) {
        spec_tile_color(g[py / size][px / size])
    } else {
        None
    }
}

/// What one glyph cell holds after the whole board is drawn over `old`.
pub open spec fn spec_board_write(
    old: GlyphCell,
    g: Seq<Seq<Tile>>,
    size: int,
    gy: int,
    gx: int,
) -> GlyphCell {
    let top = spec_tile_paint(g, size, 2 * gy, gx);
    let bot = spec_tile_paint(g, size, 2 * gy + 1, gx);
    GlyphCell {
        glyph: if top is Some {
            '\u{2580}'
        } else {
            old.glyph
        },
        fg: if top is Some {
            top
        } else {
            old.fg
        },
        bg: if bot is Some {
            bot
        } else {
            old.bg
        },
    }
}

/// Board cell `(cy, cx)` comes before the scan position in row-major
/// order.
pub open spec fn cell_before(cy: int, cx: int, yi: int, xi: int) -> bool {
    cy < yi || (cy == yi && cx < xi)
}

/// `spec_board_write` restricted to the board cells a row-major scan
/// has already visited.
pub open spec fn spec_board_write_upto(
    old: GlyphCell,
    g: Seq<Seq<Tile>>,
    size: int,
    gy: int,
    gx: int,
    yi: int,
    xi: int,
) -> GlyphCell {
    let top = spec_tile_paint(g, size, 2 * gy, gx);
    let bot = spec_tile_paint(g, size, 2 * gy + 1, gx);
    GlyphCell {
        glyph: if top is Some && cell_before((2 * gy) / size, gx / size, yi, xi) {
            '\u{2580}'
        } else {
            old.glyph
        },
        fg: if top is Some && cell_before((2 * gy) / size, gx / size, yi, xi) {
            top
        } else {
            old.fg
        },
        bg: if bot is Some && cell_before((2 * gy + 1) / size, gx / size, yi, xi) {
            bot
        } else {
            old.bg
        },
    }
}

/// A square drawn for board cell `(yi, xi)` paints exactly the pixels
/// whose scaled-down position is that cell.
proof fn lemma_covers_is_cell(pos: Coordinate, size: int, gy: int, gx: int)
    requires
        size >= 1,
    ensures
        covers_fg(pos, size, gy, gx) <==> ((2 * gy) / size == pos.y && gx / size == pos.x && gx
            >= 0 && gy >= 0),
        covers_bg(pos, size, gy, gx) <==> ((2 * gy + 1) / size == pos.y && gx / size == pos.x && gx
            >= 0 && gy >= 0),
{
    assert(pos.x * size >= 0 && pos.y * size >= 0) by (nonlinear_arith)
        requires
            size >= 1,
            pos.x >= 0,
            pos.y >= 0,
    {}
    if pos.x * size <= gx < pos.x * size + size {
        lemma_fundamental_div_mod_converse(gx, size, pos.x as int, gx - pos.x * size);
        assert(gx / size == pos.x && gx >= 0);
    }
    if pos.y * size <= 2 * gy < pos.y * size + size {
        lemma_fundamental_div_mod_converse(2 * gy, size, pos.y as int, 2 * gy - pos.y * size);
        assert((2 * gy) / size == pos.y && gy >= 0);
    }
    if pos.y * size <= 2 * gy + 1 < pos.y * size + size {
        lemma_fundamental_div_mod_converse(
            2 * gy + 1,
            size,
            pos.y as int,
            2 * gy + 1 - pos.y * size,
        );
        assert((2 * gy + 1) / size == pos.y && gy >= 0);
    }
    if gx >= 0 && gx / size == pos.x {
        lemma_fundamental_div_mod(gx, size);
        lemma_mod_bound(gx, size);
        assert(pos.x * size <= gx < pos.x * size + size) by (nonlinear_arith)
            requires
                gx == size * (gx / size) + gx % size,
                gx / size == pos.x,
                0 <= gx % size < size,
        {}
    }
    if gy >= 0 && (2 * gy) / size == pos.y {
        lemma_fundamental_div_mod(2 * gy, size);
        lemma_mod_bound(2 * gy, size);
        assert(pos.y * size <= 2 * gy < pos.y * size + size) by (nonlinear_arith)
            requires
                2 * gy == size * ((2 * gy) / size) + (2 * gy) % size,
                (2 * gy) / size == pos.y,
                0 <= (2 * gy) % size < size,
        {}
    }
    if gy >= 0 && (2 * gy + 1) / size == pos.y {
        lemma_fundamental_div_mod(2 * gy + 1, size);
        lemma_mod_bound(2 * gy + 1, size);
        assert(pos.y * size <= 2 * gy + 1 < pos.y * size + size) by (nonlinear_arith)
            requires
                2 * gy + 1 == size * ((2 * gy + 1) / size) + (2 * gy + 1) % size,
                (2 * gy + 1) / size == pos.y,
                0 <= (2 * gy + 1) % size < size,
        {}
    }
}

/// Renders one scene item at `pixel_size` pixels per board cell: the
/// board paints every coloured tile as a square, an entity paints one
/// square in its own colour.
#[verifier::rlimit(100)]
pub fn render_pixels(pixel_size: usize, item: RenderItem, glyph_buffer: GlyphCells) -> (r:
    GlyphCells)
    requires
        glyph_buffer.wf(),
        pixel_size >= 1,
        item matches RenderItem::Board(b) ==> b.wf() && b@.len() * pixel_size + pixel_size
            <= usize::MAX && (b@.len() > 0 ==> b@[0].len() * pixel_size + pixel_size
            <= usize::MAX),
        item matches RenderItem::Entity(e) ==> e.spec_position().y * pixel_size + pixel_size
            <= usize::MAX && e.spec_position().x * pixel_size + pixel_size <= usize::MAX,
    ensures
        r.wf(),
        r@.len() == glyph_buffer@.len(),
        forall|i: int| 0 <= i < r@.len() ==> (#[trigger] r@[i]).len() == glyph_buffer@[i].len(),
        item matches RenderItem::Board(b) ==> forall|gy: int, gx: int|
            0 <= gy < r@.len() && 0 <= gx < r@[gy].len() ==> #[trigger] r@[gy][gx]
                == spec_board_write(glyph_buffer@[gy][gx], b@, pixel_size as int, gy, gx),
        item matches RenderItem::Entity(e) ==> forall|gy: int, gx: int|
            0 <= gy < r@.len() && 0 <= gx < r@[gy].len() ==> #[trigger] r@[gy][gx]
                == spec_square_write(
                glyph_buffer@[gy][gx],
                e.spec_entity_color(),
                e.spec_position(),
                pixel_size as int,
                gy,
                gx,
            ),
{
    match item {
        RenderItem::Board(board) => {
            let ghost g = board@;
            let ghost orig = glyph_buffer@;
            let mut buf = glyph_buffer;
            let rows = board.rows();
            let cols = board.cols();
            let brows = buf.rows();
            let bcols = buf.cols();
            let mut yi: usize = 0;
            while yi < rows
                invariant
                    buf.wf(),
                    board.wf(),
                    g == board@,
                    rows == g.len(),
                    forall|i: int| 0 <= i < g.len() ==> (#[trigger] g[i]).len() == cols,
                    rows * pixel_size + pixel_size <= usize::MAX,
                    rows > 0 ==> cols * pixel_size + pixel_size <= usize::MAX,
                    pixel_size >= 1,
                    yi <= rows,
                    buf@.len() == orig.len(),
                    brows == buf@.len(),
                    forall|i: int| 0 <= i < buf@.len() ==> (#[trigger] buf@[i]).len() == bcols,
                    forall|i: int| 0 <= i < orig.len() ==> (#[trigger] orig[i]).len() == bcols,
                    forall|gy: int, gx: int|
                        0 <= gy < buf@.len() && 0 <= gx < bcols ==> #[trigger] buf@[gy][gx]
                            == spec_board_write_upto(
                            orig[gy][gx],
                            g,
                            pixel_size as int,
                            gy,
                            gx,
                            yi as int,
                            0,
                        ),
                decreases rows - yi,
            {
                let mut xi: usize = 0;
                while xi < cols
                    invariant
                        buf.wf(),
                        board.wf(),
                        g == board@,
                        rows == g.len(),
                        forall|i: int| 0 <= i < g.len() ==> (#[trigger] g[i]).len() == cols,
                        rows * pixel_size + pixel_size <= usize::MAX,
                        cols * pixel_size + pixel_size <= usize::MAX,
                        pixel_size >= 1,
                        yi < rows,
                        xi <= cols,
                        buf@.len() == orig.len(),
                        brows == buf@.len(),
                        forall|i: int| 0 <= i < buf@.len() ==> (#[trigger] buf@[i]).len() == bcols,
                        forall|i: int| 0 <= i < orig.len() ==> (#[trigger] orig[i]).len() == bcols,
                        forall|gy: int, gx: int|
                            0 <= gy < buf@.len() && 0 <= gx < bcols ==> #[trigger] buf@[gy][gx]
                                == spec_board_write_upto(
                                orig[gy][gx],
                                g,
                                pixel_size as int,
                                gy,
                                gx,
                                yi as int,
                                xi as int,
                            ),
                    decreases cols - xi,
                {
                    let ghost before = buf@;
                    proof {
                        lemma_mul_inequality(xi as int + 1, cols as int, pixel_size as int);
                        lemma_mul_inequality(yi as int + 1, rows as int, pixel_size as int);
                        assert((xi as int) * pixel_size + pixel_size == (xi as int + 1)
                            * pixel_size) by (nonlinear_arith)
                        {}
                        assert((yi as int) * pixel_size + pixel_size == (yi as int + 1)
                            * pixel_size) by (nonlinear_arith)
                        {}
                    }
                    let tile = board.get(yi, xi);
                    match tile.color() {
                        Some(color) => {
                            buf = draw_square(
                                color,
                                Coordinate { x: xi, y: yi },
                                pixel_size,
                                buf,
                            );
                        },
                        None => {},
                    }
                    proof {
                        let s = pixel_size as int;
                        let pos = Coordinate { x: xi, y: yi };
                        assert forall|gy: int, gx: int|
                            0 <= gy < buf@.len() && 0 <= gx < bcols implies #[trigger] buf@[gy][gx]
                            == spec_board_write_upto(
                            orig[gy][gx],
                            g,
                            s,
                            gy,
                            gx,
                            yi as int,
                            xi as int + 1,
                        ) by {
                            lemma_covers_is_cell(pos, s, gy, gx);
                        }
                    }
                    xi = xi + 1;
                }
                proof {
                    assert forall|gy: int, gx: int|
                        0 <= gy < buf@.len() && 0 <= gx < bcols implies #[trigger] buf@[gy][gx]
                        == spec_board_write_upto(
                        orig[gy][gx],
                        g,
                        pixel_size as int,
                        gy,
                        gx,
                        yi as int + 1,
                        0,
                    ) by {
                        let s = pixel_size as int;
                        if 0 <= gy < buf@.len() && 0 <= gx < bcols {
                            if (2 * gy) / s == yi as int && gx / s >= cols {
                                assert(spec_tile_paint(g, s, 2 * gy, gx) is None) by {
                                    if in_grid(g, (2 * gy) / s, gx / s) {
                                    }
                                }
                            }
                            if (2 * gy + 1) / s == yi as int && gx / s >= cols {
                                assert(spec_tile_paint(g, s, 2 * gy + 1, gx) is None) by {
                                    if in_grid(g, (2 * gy + 1) / s, gx / s) {
                                    }
                                }
                            }
                        }
                    }
                }
                yi = yi + 1;
            }
            proof {
                assert forall|gy: int, gx: int|
                    0 <= gy < buf@.len() && 0 <= gx < bcols implies #[trigger] buf@[gy][gx]
                    == spec_board_write(orig[gy][gx], g, pixel_size as int, gy, gx) by {
                    let s = pixel_size as int;
                    if spec_tile_paint(g, s, 2 * gy, gx) is Some {
                        assert(in_grid(g, (2 * gy) / s, gx / s));
                    }
                    if spec_tile_paint(g, s, 2 * gy + 1, gx) is Some {
                        assert(in_grid(g, (2 * gy + 1) / s, gx / s));
                    }
                }
            }
            buf
        },
        RenderItem::Entity(entity) => {
            let pos = entity.get_position();
            let color = entity.color();
            draw_square(color, pos, pixel_size, glyph_buffer)
        },
    }
}

/// What one glyph cell holds after one entity is drawn at close zoom
/// over `old`: a box fills its 2 by 4 glyph block with its colour; the
/// player overlays the pre-authored sprite, whose absent colours leave
/// the paint under them showing.
pub open spec fn spec_close_entity_cell(cell: GlyphCell, e: Entity, gy: int, gx: int) -> GlyphCell {
    let p = e.spec_position();
    if 2 * p.y <= gy < 2 * p.y + 2 && 4 * p.x <= gx < 4 * p.x + 4 {
        match e {
            Entity::SokoBox { .. } => GlyphCell {
                glyph: '\u{2580}',
                fg: Some(e.spec_entity_color()),
                bg: Some(e.spec_entity_color()),
            },
            Entity::Player { .. } => {
                let sp = spec_player_sprite_4()[gy - 2 * p.y][gx - 4 * p.x];
                GlyphCell {
                    glyph: sp.glyph,
                    fg: if sp.fg is Some {
                        sp.fg
                    } else {
                        cell.fg
                    },
                    bg: if sp.bg is Some {
                        sp.bg
                    } else {
                        cell.bg
                    },
                }
            },
        }
    } else {
        cell
    }
}

/// The player overlay restricted to the first `k` sprite cells in
/// row-major order.
pub open spec fn spec_sprite_write_upto(
    cell: GlyphCell,
    p: Coordinate,
    gy: int,
    gx: int,
    k: int,
) -> GlyphCell {
    if 2 * p.y <= gy < 2 * p.y + 2 && 4 * p.x <= gx < 4 * p.x + 4 && (gy - 2 * p.y) * 4 + (gx - 4
        * p.x) < k {
        let sp = spec_player_sprite_4()[gy - 2 * p.y][gx - 4 * p.x];
        GlyphCell {
            glyph: sp.glyph,
            fg: if sp.fg is Some {
                sp.fg
            } else {
                cell.fg
            },
            bg: if sp.bg is Some {
                sp.bg
            } else {
                cell.bg
            },
        }
    } else {
        cell
    }
}

/// Renders one scene item at close zoom: the board and the boxes paint
/// 4 by 4 squares; the player is replaced by its sprite, anchored at
/// the top-left of its block, with absent sprite colours transparent.
#[verifier::rlimit(100)]
pub fn render_sprites(item: RenderItem, glyph_buffer: GlyphCells) -> (r: GlyphCells)
    requires
        glyph_buffer.wf(),
        item matches RenderItem::Board(b) ==> b.wf() && b@.len() * 4 + 4 <= usize::MAX && (b@.len()
            > 0 ==> b@[0].len() * 4 + 4 <= usize::MAX),
        item matches RenderItem::Entity(e) ==> e.spec_position().y * 4 + 4 <= usize::MAX
            && e.spec_position().x * 4 + 4 <= usize::MAX,
    ensures
        r.wf(),
        r@.len() == glyph_buffer@.len(),
        forall|i: int| 0 <= i < r@.len() ==> (#[trigger] r@[i]).len() == glyph_buffer@[i].len(),
        item matches RenderItem::Board(b) ==> forall|gy: int, gx: int|
            0 <= gy < r@.len() && 0 <= gx < r@[gy].len() ==> #[trigger] r@[gy][gx]
                == spec_board_write(glyph_buffer@[gy][gx], b@, 4, gy, gx),
        item matches RenderItem::Entity(e) ==> forall|gy: int, gx: int|
            0 <= gy < r@.len() && 0 <= gx < r@[gy].len() ==> #[trigger] r@[gy][gx]
                == spec_close_entity_cell(glyph_buffer@[gy][gx], *e, gy, gx),
{
    match item {
        RenderItem::Board(board) => render_pixels(4, RenderItem::Board(board), glyph_buffer),
        RenderItem::Entity(entity) => {
            let pos = entity.get_position();
            match entity {
                Entity::Player { .. } => {
                    let ghost orig = glyph_buffer@;
                    let mut buf = glyph_buffer;
                    let rows = buf.rows();
                    let cols = buf.cols();
                    let player_sprite = get_player_sprite_4();
                    let mut k: usize = 0;
                    while k < 8
                        invariant
                            buf.wf(),
                            k <= 8,
                            pos == entity.spec_position(),
                            pos.y * 4 + 4 <= usize::MAX,
                            pos.x * 4 + 4 <= usize::MAX,
                            pix_grid(player_sprite.chars) == spec_player_sprite_4(),
                            buf@.len() == orig.len(),
                            rows == buf@.len(),
                            forall|i: int| 0 <= i < buf@.len() ==> (#[trigger] buf@[i]).len()
                                == cols,
                            forall|i: int| 0 <= i < orig.len() ==> (#[trigger] orig[i]).len()
                                == cols,
                            forall|gy: int, gx: int|
                                0 <= gy < buf@.len() && 0 <= gx < cols ==> #[trigger] buf@[gy][gx]
                                    == spec_sprite_write_upto(
                                    orig[gy][gx],
                                    pos,
                                    gy,
                                    gx,
                                    k as int,
                                ),
                        decreases 8 - k,
                    {
                        let syi = k / 4;
                        let sxi = k % 4;
                        let gy = pos.y * 2 + syi;
                        let gx = pos.x * 4 + sxi;
                        if gy < rows && gx < cols {
                            let sp = player_sprite.get(syi, sxi);
                            let mut cell = buf.get(gy, gx);
                            cell.glyph = sp.glyph;
                            if sp.fg.is_some() {
                                cell.fg = sp.fg;
                            }
                            if sp.bg.is_some() {
                                cell.bg = sp.bg;
                            }
                            buf.set(gy, gx, cell);
                        }
                        proof {
                            assert forall|gy2: int, gx2: int|
                                0 <= gy2 < buf@.len() && 0 <= gx2 < cols implies #[trigger] buf@[gy2][gx2]
                                == spec_sprite_write_upto(
                                orig[gy2][gx2],
                                pos,
                                gy2,
                                gx2,
                                k as int + 1,
                            ) by {
                                assert(syi as int == (k as int) / 4 && sxi as int == (k as int)
                                    % 4);
                            }
                        }
                        k = k + 1;
                    }
                    proof {
                        assert forall|gy2: int, gx2: int|
                            0 <= gy2 < buf@.len() && 0 <= gx2 < cols implies #[trigger] buf@[gy2][gx2]
                            == spec_close_entity_cell(orig[gy2][gx2], *entity, gy2, gx2) by {}
                    }
                    buf
                },
                Entity::SokoBox { .. } => {
                    let ghost orig = glyph_buffer@;
                    let color = entity.color();
                    let buf = draw_square(color, pos, 4, glyph_buffer);
                    proof {
                        assert forall|gy: int, gx: int|
                            0 <= gy < buf@.len() && 0 <= gx < buf@[gy].len() implies #[trigger] buf@[gy][gx]
                            == spec_close_entity_cell(orig[gy][gx], *entity, gy, gx) by {}
                    }
                    buf
                },
            }
        },
    }
}

/// The scene graph has its standard two-level shape: a board at the
/// root, one childless entity node per entity.
pub open spec fn graph_std_shape(graph: RenderGraph) -> bool {
    &&& graph.root.item matches RenderItem::Board(_)
    &&& graph.root.children matches Some(cs) && forall|i: int|
        0 <= i < cs@.len() ==> ((#[trigger] cs@[i]).item matches RenderItem::Entity(_)
            && cs@[i].children is None)
}

/// The board the scene graph's root wraps.
pub open spec fn graph_board(graph: RenderGraph) -> Seq<Seq<Tile>> {
    match graph.root.item {
        RenderItem::Board(b) => b@,
        RenderItem::Entity(_) => Seq::empty(),
    }
}

/// The entities the scene graph's children wrap, in child order.
pub open spec fn graph_entities(graph: RenderGraph) -> Seq<Entity> {
    match graph.root.children {
        Some(cs) => cs@.map_values(
            |n: RenderNode| match n.item {
                RenderItem::Entity(e) => *e,
                RenderItem::Board(_) => Entity::Player { position: Coordinate { x: 0, y: 0 } },
            },
        ),
        None => Seq::empty(),
    }
}

/// Builds the scene graph of a world: the root wraps the board and has
/// one child per entity, in entity-list order, which fixes the paint
/// order.
pub fn generate_render_graph<'a>(world: &'a World) -> (r: RenderGraph<'a>)
    ensures
        graph_std_shape(r),
        graph_board(r) == world.board@,
        graph_entities(r) == world.entities@,
        match r.root.item {
            RenderItem::Board(b) => *b == world.board,
            RenderItem::Entity(_) => false,
        },
{
    let mut children: Vec<RenderNode<'a>> = Vec::new();
    let mut i: usize = 0;
    while i < world.entities.len()
        invariant
            i <= world.entities@.len(),
            children@.len() == i,
            forall|j: int|
                0 <= j < i ==> ((#[trigger] children@[j]).item matches RenderItem::Entity(e) && *e
                    == world.entities@[j] && children@[j].children is None),
        decreases world.entities@.len() - i,
    {
        children.push(RenderNode { item: RenderItem::Entity(&world.entities[i]), children: None });
        i = i + 1;
    }
    let r = RenderGraph {
        root: RenderNode { item: RenderItem::Board(&world.board), children: Some(children) },
    };
    proof {
        assert(graph_entities(r) =~= world.entities@);
    }
    r
}

/// The pixel edge length of one board cell at each zoom density.
pub open spec fn zoom_size(zoom: Zoom) -> int {
    match zoom {
        Zoom::Close => 4,
        Zoom::Middle => 2,
        Zoom::Far => 1,
    }
}

/// What one glyph cell of the finished frame holds: the board painted
/// over a blank buffer, then each entity painted in list order, the
/// later paint winning.
pub open spec fn spec_rendered_cell(
    g: Seq<Seq<Tile>>,
    es: Seq<Entity>,
    zoom: Zoom,
    gy: int,
    gx: int,
) -> GlyphCell
    decreases es.len(),
{
    if es.len() == 0 {
        spec_board_write(GlyphCell::blank(), g, zoom_size(zoom), gy, gx)
    } else {
        let prev = spec_rendered_cell(g, es.drop_last(), zoom, gy, gx);
        match zoom {
            Zoom::Close => spec_close_entity_cell(prev, es.last(), gy, gx),
            Zoom::Middle => spec_square_write(
                prev,
                es.last().spec_entity_color(),
                es.last().spec_position(),
                2,
                gy,
                gx,
            ),
            Zoom::Far => spec_square_write(
                prev,
                es.last().spec_entity_color(),
                es.last().spec_position(),
                1,
                gy,
                gx,
            ),
        }
    }
}

/// The board and every entity lie within the sizes the renderer can
/// scale without overflow, at any zoom.
pub open spec fn spec_scene_fits(g: Seq<Seq<Tile>>, es: Seq<Entity>) -> bool {
    &&& g.len() * 4 + 4 <= usize::MAX
    &&& g.len() > 0 ==> g[0].len() * 4 + 4 <= usize::MAX
    &&& forall|i: int|
        0 <= i < es.len() ==> (#[trigger] es[i]).spec_position().y * 4 + 4 <= usize::MAX
            && es[i].spec_position().x * 4 + 4 <= usize::MAX
}

/// Flattens a standard scene graph into a fresh `height` by `width`
/// glyph buffer at the chosen zoom: the board first, then each entity
/// in child order.
#[verifier::rlimit(100)]
pub fn glypherize_graph(graph: RenderGraph, height: usize, width: usize, zoom: Zoom) -> (r:
    GlyphCells)
    requires
        graph_std_shape(graph),
        (match graph.root.item {
            RenderItem::Board(b) => b.wf(),
            RenderItem::Entity(_) => false,
        }),
        spec_scene_fits(graph_board(graph), graph_entities(graph)),
        height <= isize::MAX,
        width <= isize::MAX,
        height * width <= isize::MAX,
    ensures
        r.wf(),
        r@.len() == height,
        forall|i: int| 0 <= i < r@.len() ==> (#[trigger] r@[i]).len() == width,
        forall|gy: int, gx: int|
            0 <= gy < height && 0 <= gx < width ==> #[trigger] r@[gy][gx] == spec_rendered_cell(
                graph_board(graph),
                graph_entities(graph),
                zoom,
                gy,
                gx,
            ),
{
    let ghost g = graph_board(graph);
    let ghost es = graph_entities(graph);
    let mut buf = GlyphCells::new(height, width);
    let size: usize = match zoom {
        Zoom::Close => 4,
        Zoom::Middle => 2,
        Zoom::Far => 1,
    };
    // the board is always visited before its children
    buf = match &graph.root.item {
        RenderItem::Board(board) => {
            match zoom {
                Zoom::Close => render_sprites(RenderItem::Board(board), buf),
                _ => render_pixels(size, RenderItem::Board(board), buf),
            }
        },
        RenderItem::Entity(_) => buf,
    };
    proof {
        assert(es.subrange(0, 0) =~= Seq::<Entity>::empty());
        assert forall|gy: int, gx: int|
            0 <= gy < height && 0 <= gx < width implies #[trigger] buf@[gy][gx]
            == spec_rendered_cell(g, es.subrange(0, 0), zoom, gy, gx) by {}
    }
    match &graph.root.children {
        Some(children) => {
            let mut i: usize = 0;
            while i < children.len()
                invariant
                    buf.wf(),
                    i <= children@.len(),
                    es.len() == children@.len(),
                    graph_std_shape(graph),
                    es == graph_entities(graph),
                    g == graph_board(graph),
                    children@ == (match graph.root.children {
                        Some(cs) => cs@,
                        None => Seq::<RenderNode>::empty(),
                    }),
                    spec_scene_fits(g, es),
                    buf@.len() == height,
                    forall|k: int| 0 <= k < buf@.len() ==> (#[trigger] buf@[k]).len() == width,
                    forall|gy: int, gx: int|
                        0 <= gy < height && 0 <= gx < width ==> #[trigger] buf@[gy][gx]
                            == spec_rendered_cell(g, es.subrange(0, i as int), zoom, gy, gx),
                decreases children@.len() - i,
            {
                let ghost before = buf@;
                proof {
                    assert((#[trigger] children@[i as int]).item matches RenderItem::Entity(e) && *e
                        == es[i as int]);
                }
                match &children[i].item {
                    RenderItem::Entity(e) => {
                        buf = match zoom {
                            Zoom::Close => render_sprites(RenderItem::Entity(e), buf),
                            Zoom::Middle => render_pixels(2, RenderItem::Entity(e), buf),
                            Zoom::Far => render_pixels(1, RenderItem::Entity(e), buf),
                        };
                    },
                    RenderItem::Board(_) => {},
                }
                proof {
                    assert(es.subrange(0, i as int + 1).drop_last() =~= es.subrange(0, i as int));
                    assert(es.subrange(0, i as int + 1).last() == es[i as int]);
                    assert forall|gy: int, gx: int|
                        0 <= gy < height && 0 <= gx < width implies #[trigger] buf@[gy][gx]
                        == spec_rendered_cell(g, es.subrange(0, i as int + 1), zoom, gy, gx) by {}
                }
                i = i + 1;
            }
            proof {
                assert(es.subrange(0, es.len() as int) =~= es);
            }
        },
        None => {},
    }
    buf
}

/// Renders one world into a fresh `height` by `width` glyph buffer at
/// the chosen zoom. The scene graph is built and flattened in one pass;
/// the world itself is never changed.
pub fn render_world(world: &World, height: usize, width: usize, zoom: Zoom) -> (r: GlyphCells)
    requires
        world.wf(),
        spec_scene_fits(world.board@, world.entities@),
        height <= isize::MAX,
        width <= isize::MAX,
        height * width <= isize::MAX,
    ensures
        r.wf(),
        r@.len() == height,
        forall|i: int| 0 <= i < r@.len() ==> (#[trigger] r@[i]).len() == width,
        forall|gy: int, gx: int|
            0 <= gy < height && 0 <= gx < width ==> #[trigger] r@[gy][gx] == spec_rendered_cell(
                world.board@,
                world.entities@,
                zoom,
                gy,
                gx,
            ),
{
    let graph = generate_render_graph(world);
    glypherize_graph(graph, height, width, zoom)
}

} // verus!
