//! Two-dimensional grids backed by `ndarray`.
//!
//! A level's board, the renderer's glyph buffer and a sprite's bitmap
//! are all rectangular `ndarray::Array2` grids. Verus cannot look
//! inside that type, so each grid lives in a hidden holder struct whose
//! contents are named by an uninterpreted view (`tile_grid`,
//! `glyph_grid`, `pix_grid`): a sequence of rows, each row a sequence
//! of cells. Small trusted wrappers state what `Array2::from_elem`,
//! `from_shape_vec`, indexing and assignment do to that view, and
//! everything else about `Board` and `GlyphCells` is verified against
//! it.

use vstd::prelude::*;

use crate::types::GlyphCell;
use crate::types::Tile;

verus! {

/// Holds the `ndarray` grid of tiles; opaque to the verifier.
#[derive(Debug)]
#[verifier::external_body]
pub struct TileGrid {
    cells: ndarray::Array2<Tile>,
}

/// What the tile grid holds: one sequence per row, in row order.
pub uninterp spec fn tile_grid(g: TileGrid) -> Seq<Seq<Tile>>;

/// Holds the `ndarray` grid of glyph cells; opaque to the verifier.
#[derive(Debug)]
#[verifier::external_body]
pub struct GlyphGrid {
    cells: ndarray::Array2<GlyphCell>,
}

/// What the glyph grid holds: one sequence per row, in row order.
pub uninterp spec fn glyph_grid(g: GlyphGrid) -> Seq<Seq<GlyphCell>>;

/// Holds the `ndarray` grid of a sprite's cells; opaque to the verifier.
#[derive(Debug)]
#[verifier::external_body]
pub struct PixGrid {
    cells: ndarray::Array2<crate::sprites::CharPixel>,
}

/// What the sprite grid holds: one sequence per row, in row order.
pub uninterp spec fn pix_grid(g: PixGrid) -> Seq<Seq<crate::sprites::CharPixel>>;

/// Relies on `ndarray::Array2::from_shape_vec` with a standard layout:
/// the vector's elements laid out row-major into a `rows` by `cols`
/// array. The call errors when the product of the non-zero axis
/// lengths overflows `isize` or differs from the vector's length, so
/// each dimension and the product are required to fit (with one
/// dimension zero the checked product is the other dimension alone)
/// and the length must equal the product; under that the call cannot
/// fail.
#[verifier::external_body]
pub(crate) fn pix_grid_from_vec(rows: usize, cols: usize, v: Vec<crate::sprites::CharPixel>) -> (g:
    PixGrid)
    requires
        rows <= isize::MAX,
        cols <= isize::MAX,
        rows * cols <= isize::MAX,
        v.len() == rows * cols,
    ensures
        pix_grid(g).len() == rows,
        forall|y: int| 0 <= y < rows ==> (#[trigger] pix_grid(g)[y]).len() == cols,
        forall|y: int, x: int|
            0 <= y < rows && 0 <= x < cols ==> #[trigger] pix_grid(g)[y][x] == v@[y * cols + x],
{
    PixGrid { cells: ndarray::Array2::from_shape_vec((rows, cols), v).unwrap() }
}

/// Relies on `ndarray` indexing, as `tile_grid_get` does.
#[verifier::external_body]
pub(crate) fn pix_grid_get(g: &PixGrid, y: usize, x: usize) -> (c: crate::sprites::CharPixel)
    requires
        y < pix_grid(*g).len(),
        x < pix_grid(*g)[y as int].len(),
    ensures
        c == pix_grid(*g)[y as int][x as int],
{
    g.cells[[y, x]]
}

/// All rows of a grid view have the width of the first row.
pub open spec fn grid_rect<T>(g: Seq<Seq<T>>) -> bool {
    forall|i: int| 0 <= i < g.len() ==> (#[trigger] g[i]).len() == g[0].len()
}

/// Relies on `ndarray::Array2::from_elem`: a `rows` by `cols` array in
/// which every element is a copy of `fill`. `from_elem` panics when the
/// product of the non-zero axis lengths overflows `isize`, so each
/// dimension and the product are required to fit: with one dimension
/// zero the checked product is the other dimension alone.
#[verifier::external_body]
fn tile_grid_new(rows: usize, cols: usize, fill: Tile) -> (g: TileGrid)
    requires
        rows <= isize::MAX,
        cols <= isize::MAX,
        rows * cols <= isize::MAX,
    ensures
        tile_grid(g).len() == rows,
        forall|y: int| 0 <= y < rows ==> (#[trigger] tile_grid(g)[y]).len() == cols,
        forall|y: int, x: int|
            0 <= y < rows && 0 <= x < cols ==> #[trigger] tile_grid(g)[y][x] == fill,
{
    TileGrid { cells: ndarray::Array2::from_elem((rows, cols), fill) }
}

/// Relies on `ndarray` indexing (`Index<[usize; 2]>`): the element at
/// row `y`, column `x`.
#[verifier::external_body]
fn tile_grid_get(g: &TileGrid, y: usize, x: usize) -> (t: Tile)
    requires
        y < tile_grid(*g).len(),
        x < tile_grid(*g)[y as int].len(),
    ensures
        t == tile_grid(*g)[y as int][x as int],
{
    g.cells[[y, x]]
}

/// Relies on `ndarray` index assignment (`IndexMut<[usize; 2]>`): writes
/// the element at row `y`, column `x` and leaves every other element.
#[verifier::external_body]
fn tile_grid_set(g: &mut TileGrid, y: usize, x: usize, t: Tile)
    requires
        y < tile_grid(*old(g)).len(),
        x < tile_grid(*old(g))[y as int].len(),
    ensures
        tile_grid(*final(g)) == tile_grid(*old(g)).update(
            y as int,
            tile_grid(*old(g))[y as int].update(x as int, t),
        ),
{
    g.cells[[y, x]] = t;
}

/// Relies on `ndarray::ArrayBase::clone`: an owned array equal to the
/// original, element for element.
#[verifier::external_body]
fn tile_grid_clone(g: &TileGrid) -> (r: TileGrid)
    ensures
        tile_grid(r) == tile_grid(*g),
{
    TileGrid { cells: g.cells.clone() }
}

/// Relies on `ndarray::Array2::from_elem`, as `tile_grid_new` does,
/// with the same bound on each dimension and on the product.
#[verifier::external_body]
fn glyph_grid_new(rows: usize, cols: usize, fill: GlyphCell) -> (g: GlyphGrid)
    requires
        rows <= isize::MAX,
        cols <= isize::MAX,
        rows * cols <= isize::MAX,
    ensures
        glyph_grid(g).len() == rows,
        forall|y: int| 0 <= y < rows ==> (#[trigger] glyph_grid(g)[y]).len() == cols,
        forall|y: int, x: int|
            0 <= y < rows && 0 <= x < cols ==> #[trigger] glyph_grid(g)[y][x] == fill,
{
    GlyphGrid { cells: ndarray::Array2::from_elem((rows, cols), fill) }
}

/// Relies on `ndarray` indexing, as `tile_grid_get` does.
#[verifier::external_body]
fn glyph_grid_get(g: &GlyphGrid, y: usize, x: usize) -> (c: GlyphCell)
    requires
        y < glyph_grid(*g).len(),
        x < glyph_grid(*g)[y as int].len(),
    ensures
        c == glyph_grid(*g)[y as int][x as int],
{
    g.cells[[y, x]].clone()
}

/// Relies on `ndarray` index assignment, as `tile_grid_set` does.
#[verifier::external_body]
fn glyph_grid_set(g: &mut GlyphGrid, y: usize, x: usize, c: GlyphCell)
    requires
        y < glyph_grid(*old(g)).len(),
        x < glyph_grid(*old(g))[y as int].len(),
    ensures
        glyph_grid(*final(g)) == glyph_grid(*old(g)).update(
            y as int,
            glyph_grid(*old(g))[y as int].update(x as int, c),
        ),
{
    g.cells[[y, x]] = c;
}

/// A level's static grid of tiles, row-major and rectangular.
#[derive(Debug)]
pub struct Board {
    rows: usize,
    cols: usize,
    grid: TileGrid,
}

impl View for Board {
    type V = Seq<Seq<Tile>>;

    closed spec fn view(&self) -> Seq<Seq<Tile>> {
        tile_grid(self.grid)
    }
}

impl Board {
    /// The stored dimensions agree with the contents.
    pub closed spec fn shape_ok(&self) -> bool {
        &&& self.rows == self@.len()
        &&& forall|i: int| 0 <= i < self@.len() ==> (#[trigger] self@[i]).len() == self.cols
    }

    /// A board is well formed when it is rectangular.
    pub open spec fn wf(&self) -> bool {
        self.shape_ok() && grid_rect(self@)
    }

    /// Allocates a `rows` by `cols` board filled with `fill`.
    pub fn new(rows: usize, cols: usize, fill: Tile) -> (b: Board)
        requires
            rows <= isize::MAX,
            cols <= isize::MAX,
            rows * cols <= isize::MAX,
        ensures
            b.wf(),
            b@.len() == rows,
            forall|y: int| 0 <= y < rows ==> (#[trigger] b@[y]).len() == cols,
            forall|y: int, x: int| 0 <= y < rows && 0 <= x < cols ==> #[trigger] b@[y][x] == fill,
    {
        let grid = tile_grid_new(rows, cols, fill);
        Board { rows, cols, grid }
    }

    /// The number of rows.
    pub fn rows(&self) -> (r: usize)
        requires
            self.wf(),
        ensures
            r == self@.len(),
    {
        self.rows
    }

    /// The number of columns (the width of every row).
    pub fn cols(&self) -> (c: usize)
        requires
            self.wf(),
        ensures
            self@.len() > 0 ==> c == self@[0].len(),
            forall|i: int| 0 <= i < self@.len() ==> (#[trigger] self@[i]).len() == c,
    {
        self.cols
    }

    /// The tile at row `y`, column `x`.
    pub fn get(&self, y: usize, x: usize) -> (t: Tile)
        requires
            y < self@.len(),
            x < self@[y as int].len(),
        ensures
            t == self@[y as int][x as int],
    {
        tile_grid_get(&self.grid, y, x)
    }

    /// Writes the tile at row `y`, column `x`; every other cell keeps its value.
    pub fn set(&mut self, y: usize, x: usize, t: Tile)
        requires
            y < old(self)@.len(),
            x < old(self)@[y as int].len(),
        ensures
            final(self)@ == old(self)@.update(
                y as int,
                old(self)@[y as int].update(x as int, t),
            ),
            old(self).wf() ==> final(self).wf(),
    {
        proof {
            assert(old(self).wf() ==> old(self).shape_ok());
        }
        tile_grid_set(&mut self.grid, y, x, t);
    }

    /// A structurally new board with the same contents.
    pub fn duplicate(&self) -> (b: Board)
        ensures
            b@ == self@,
            b.wf() == self.wf(),
    {
        Board { rows: self.rows, cols: self.cols, grid: tile_grid_clone(&self.grid) }
    }
}

/// The renderer's output buffer: a rectangular grid of glyph cells.
#[derive(Debug)]
pub struct GlyphCells {
    rows: usize,
    cols: usize,
    grid: GlyphGrid,
}

impl View for GlyphCells {
    type V = Seq<Seq<GlyphCell>>;

    closed spec fn view(&self) -> Seq<Seq<GlyphCell>> {
        glyph_grid(self.grid)
    }
}

impl GlyphCells {
    /// The stored dimensions agree with the contents.
    pub closed spec fn shape_ok(&self) -> bool {
        &&& self.rows == self@.len()
        &&& forall|i: int| 0 <= i < self@.len() ==> (#[trigger] self@[i]).len() == self.cols
    }

    /// A glyph buffer is well formed when it is rectangular.
    pub open spec fn wf(&self) -> bool {
        self.shape_ok() && grid_rect(self@)
    }

    /// Allocates a `rows` by `cols` buffer of blank cells.
    pub fn new(rows: usize, cols: usize) -> (b: GlyphCells)
        requires
            rows <= isize::MAX,
            cols <= isize::MAX,
            rows * cols <= isize::MAX,
        ensures
            b.wf(),
            b@.len() == rows,
            forall|y: int| 0 <= y < rows ==> (#[trigger] b@[y]).len() == cols,
            forall|y: int, x: int|
                0 <= y < rows && 0 <= x < cols ==> #[trigger] b@[y][x] == GlyphCell::blank(),
    {
        let grid = glyph_grid_new(rows, cols, GlyphCell::new());
        GlyphCells { rows, cols, grid }
    }

    /// The number of rows.
    pub fn rows(&self) -> (r: usize)
        requires
            self.wf(),
        ensures
            r == self@.len(),
    {
        self.rows
    }

    /// The number of columns (the width of every row).
    pub fn cols(&self) -> (c: usize)
        requires
            self.wf(),
        ensures
            self@.len() > 0 ==> c == self@[0].len(),
            forall|i: int| 0 <= i < self@.len() ==> (#[trigger] self@[i]).len() == c,
    {
        self.cols
    }

    /// The cell at row `y`, column `x`.
    pub fn get(&self, y: usize, x: usize) -> (c: GlyphCell)
        requires
            y < self@.len(),
            x < self@[y as int].len(),
        ensures
            c == self@[y as int][x as int],
    {
        glyph_grid_get(&self.grid, y, x)
    }

    /// Writes the cell at row `y`, column `x`; every other cell keeps its value.
    pub fn set(&mut self, y: usize, x: usize, c: GlyphCell)
        requires
            y < old(self)@.len(),
            x < old(self)@[y as int].len(),
        ensures
            final(self)@ == old(self)@.update(
                y as int,
                old(self)@[y as int].update(x as int, c),
            ),
            old(self).wf() ==> final(self).wf(),
    {
        proof {
            assert(old(self).wf() ==> old(self).shape_ok());
        }
        glyph_grid_set(&mut self.grid, y, x, c);
    }
}

} // verus!
