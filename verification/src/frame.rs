//! The frame buffer: a fixed-size grid of single-glyph cells that every
//! drawable entity paints into. One frame is built per tick and then handed,
//! whole, to the renderer.

use vstd::prelude::*;

verus! {

/// Glyph of an empty cell.
pub const BLANK: char = ' ';

/// A `cols x rows` grid of glyphs, indexed column-first: cell `(x, y)` is
/// column `x`, row `y`.
pub struct Frame {
    cols: usize,
    rows: usize,
    cells: Vec<Vec<char>>,
}

impl Frame {
    /// The grid as a sequence of columns, each a sequence of glyphs.
    pub closed spec fn grid(self) -> Seq<Seq<char>> {
        self.cells@.map_values(|c: Vec<char>| c@)
    }

    pub closed spec fn spec_cols(self) -> int {
        self.cols as int
    }

    pub closed spec fn spec_rows(self) -> int {
        self.rows as int
    }

    /// The grid really has the advertised dimensions.
    pub open spec fn wf(self) -> bool {
        &&& self.grid().len() == self.spec_cols()
        &&& forall|x: int|
            0 <= x < self.spec_cols() ==> (#[trigger] self.grid()[x]).len() == self.spec_rows()
    }

    /// Glyph at cell `(x, y)`.
    pub open spec fn at(self, x: int, y: int) -> char {
        self.grid()[x][y]
    }

    pub fn num_cols(&self) -> (r: usize)
        ensures
            r == self.spec_cols(),
    {
        self.cols
    }

    pub fn num_rows(&self) -> (r: usize)
        ensures
            r == self.spec_rows(),
    {
        self.rows
    }

    pub fn get(&self, x: usize, y: usize) -> (r: char)
        requires
            self.wf(),
            x < self.spec_cols(),
            y < self.spec_rows(),
        ensures
            r == self.at(x as int, y as int),
    {
        proof {
            assert(self.grid().len() == self.cells@.len());
            assert(self.grid()[x as int] == self.cells@[x as int]@);
        }
        self.cells[x][y]
    }

    /// Paint `glyph` at cell `(x, y)`; every other cell keeps its glyph.
    pub fn set(&mut self, x: usize, y: usize, glyph: char)
        requires
            old(self).wf(),
            x < old(self).spec_cols(),
            y < old(self).spec_rows(),
        ensures
            final(self).wf(),
            final(self).spec_cols() == old(self).spec_cols(),
            final(self).spec_rows() == old(self).spec_rows(),
            final(self).grid() == old(self).grid().update(
                x as int,
                old(self).grid()[x as int].update(y as int, glyph),
            ),
    {
        proof {
            assert(old(self).grid().len() == old(self).cells@.len());
            assert(old(self).grid()[x as int] == old(self).cells@[x as int]@);
        }
        let col = &mut self.cells[x];
        col.set(y, glyph);
        assert(self.grid() =~= old(self).grid().update(
            x as int,
            old(self).grid()[x as int].update(y as int, glyph),
        ));
    }
}

/// A blank frame: every cell holds `BLANK`.
pub fn new_frame(cols: usize, rows: usize) -> (r: Frame)
    ensures
        r.wf(),
        r.spec_cols() == cols,
        r.spec_rows() == rows,
        forall|x: int, y: int| 0 <= x < cols && 0 <= y < rows ==> r.at(x, y) == BLANK,
{
    let mut cells: Vec<Vec<char>> = Vec::new();
    let mut x: usize = 0;
    while x < cols
        invariant
            x <= cols,
            cells@.len() == x,
            forall|i: int|
                0 <= i < x ==> (#[trigger] cells@[i])@.len() == rows,
            forall|i: int, j: int|
                0 <= i < x && 0 <= j < rows ==> cells@[i]@[j] == BLANK,
        decreases cols - x,
    {
        let mut col: Vec<char> = Vec::new();
        let mut y: usize = 0;
        while y < rows
            invariant
                y <= rows,
                col@.len() == y,
                forall|j: int| 0 <= j < y ==> col@[j] == BLANK,
            decreases rows - y,
        {
            col.push(BLANK);
            y = y + 1;
        }
        cells.push(col);
        x = x + 1;
    }
    Frame { cols, rows, cells }
}

} // verus!
