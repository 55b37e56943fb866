//! The diff renderer's compute half: turn `(previous, current, force_redraw)`
//! into the exact, column-major list of cell writes the terminal needs.
//! Performing the writes (cursor moves and glyph output) is plumbing around
//! the library; here the diff itself is pinned down: a cell is written iff it
//! changed (or a full redraw is forced), with the current frame's glyph, in
//! strict column-major order.

use vstd::prelude::*;
use crate::frame::Frame;

verus! {

/// One terminal update: paint `glyph` at cell `(x, y)`.
#[derive(Clone, Copy, PartialEq, Eq, Structural, Debug)]
pub struct CellWrite {
    pub x: usize,
    pub y: usize,
    pub glyph: char,
}

/// `w1` strictly precedes `w2` in column-major order.
pub open spec fn write_order(w1: CellWrite, w2: CellWrite) -> bool {
    w1.x < w2.x || (w1.x == w2.x && w1.y < w2.y)
}

/// Some write in the list targets cell `(cx, cy)`.
pub open spec fn has_write(writes: Seq<CellWrite>, cx: int, cy: int) -> bool {
    exists|k: int| 0 <= k < writes.len() && (#[trigger] writes[k]).x == cx && writes[k].y == cy
}

proof fn lemma_has_write_push(writes: Seq<CellWrite>, w: CellWrite, cx: int, cy: int)
    requires
        has_write(writes, cx, cy) || (w.x == cx && w.y == cy),
    ensures
        has_write(writes.push(w), cx, cy),
{
    if has_write(writes, cx, cy) {
        let k = choose|k: int|
            0 <= k < writes.len() && (#[trigger] writes[k]).x == cx && writes[k].y == cy;
        assert(writes.push(w)[k] == writes[k]);
        assert((#[trigger] writes.push(w)[k]).x == cx && writes.push(w)[k].y == cy);
    } else {
        let n = writes.len() as int;
        assert(writes.push(w)[n] == w);
        assert((#[trigger] writes.push(w)[n]).x == cx && writes.push(w)[n].y == cy);
    }
}

/// The writes needed to turn the terminal showing `prev` into one showing
/// `curr`: exactly the changed cells (every cell when `force` is set), each
/// with `curr`'s glyph, in strict column-major order. With `force` unset and
/// identical frames there is nothing to write.
pub fn render_diff(prev: &Frame, curr: &Frame, force: bool) -> (writes: Vec<CellWrite>)
    requires
        prev.wf(),
        curr.wf(),
        prev.spec_cols() == curr.spec_cols(),
        prev.spec_rows() == curr.spec_rows(),
    ensures
        forall|k: int|
            0 <= k < writes@.len() ==> {
                let w = #[trigger] writes@[k];
                &&& w.x < curr.spec_cols()
                &&& w.y < curr.spec_rows()
                &&& w.glyph == curr.at(w.x as int, w.y as int)
                &&& (force || curr.at(w.x as int, w.y as int) != prev.at(w.x as int, w.y as int))
            },
        forall|cx: int, cy: int|
            #![trigger has_write(writes@, cx, cy)]
            0 <= cx < curr.spec_cols() && 0 <= cy < curr.spec_rows() && (force || curr.at(cx, cy)
                != prev.at(cx, cy)) ==> has_write(writes@, cx, cy),
        forall|k1: int, k2: int|
            0 <= k1 < k2 < writes@.len() ==> write_order(
                #[trigger] writes@[k1],
                #[trigger] writes@[k2],
            ),
        (!force && (forall|cx: int, cy: int|
            0 <= cx < curr.spec_cols() && 0 <= cy < curr.spec_rows() ==> curr.at(cx, cy)
                == prev.at(cx, cy))) ==> writes@.len() == 0,
{
    let cols = curr.num_cols();
    let rows = curr.num_rows();
    let mut writes: Vec<CellWrite> = Vec::new();
    let mut x: usize = 0;
    while x < cols
        invariant
            cols == curr.spec_cols(),
            rows == curr.spec_rows(),
            prev.wf(),
            curr.wf(),
            prev.spec_cols() == curr.spec_cols(),
            prev.spec_rows() == curr.spec_rows(),
            x <= cols,
            forall|k: int|
                0 <= k < writes@.len() ==> {
                    let w = #[trigger] writes@[k];
                    &&& w.x < x
                    &&& w.y < rows
                    &&& w.glyph == curr.at(w.x as int, w.y as int)
                    &&& (force || curr.at(w.x as int, w.y as int) != prev.at(
                        w.x as int,
                        w.y as int,
                    ))
                },
            forall|cx: int, cy: int|
                #![trigger has_write(writes@, cx, cy)]
                0 <= cx < x && 0 <= cy < rows && (force || curr.at(cx, cy) != prev.at(cx, cy))
                    ==> has_write(writes@, cx, cy),
            forall|k1: int, k2: int|
                0 <= k1 < k2 < writes@.len() ==> write_order(
                    #[trigger] writes@[k1],
                    #[trigger] writes@[k2],
                ),
        decreases cols - x,
    {
        let mut y: usize = 0;
        while y < rows
            invariant
                cols == curr.spec_cols(),
                rows == curr.spec_rows(),
                prev.wf(),
                curr.wf(),
                prev.spec_cols() == curr.spec_cols(),
                prev.spec_rows() == curr.spec_rows(),
                x < cols,
                y <= rows,
                forall|k: int|
                    0 <= k < writes@.len() ==> {
                        let w = #[trigger] writes@[k];
                        &&& (w.x < x || (w.x == x && w.y < y))
                        &&& w.x < cols
                        &&& w.y < rows
                        &&& w.glyph == curr.at(w.x as int, w.y as int)
                        &&& (force || curr.at(w.x as int, w.y as int) != prev.at(
                            w.x as int,
                            w.y as int,
                        ))
                    },
                forall|cx: int, cy: int|
                    #![trigger has_write(writes@, cx, cy)]
                    0 <= cx < cols && 0 <= cy < rows && (cx < x || (cx == x && cy < y)) && (force
                        || curr.at(cx, cy) != prev.at(cx, cy)) ==> has_write(writes@, cx, cy),
                forall|k1: int, k2: int|
                    0 <= k1 < k2 < writes@.len() ==> write_order(
                        #[trigger] writes@[k1],
                        #[trigger] writes@[k2],
                    ),
            decreases rows - y,
        {
            let cg = curr.get(x, y);
            let pg = prev.get(x, y);
            if force || cg != pg {
                let ghost before = writes@;
                writes.push(CellWrite { x, y, glyph: cg });
                proof {
                    assert(writes@ == before.push(CellWrite { x, y, glyph: cg }));
                    assert forall|cx: int, cy: int|
                        #![trigger has_write(writes@, cx, cy)]
                        0 <= cx < cols && 0 <= cy < rows && (cx < x || (cx == x && cy < y + 1)) && (
                        force || curr.at(cx, cy) != prev.at(cx, cy)) implies has_write(
                        writes@,
                        cx,
                        cy,
                    ) by {
                        if cx == x && cy == y {
                            lemma_has_write_push(before, CellWrite { x, y, glyph: cg }, cx, cy);
                        } else {
                            assert(has_write(before, cx, cy));
                            lemma_has_write_push(before, CellWrite { x, y, glyph: cg }, cx, cy);
                        }
                    }
                }
            } else {
                proof {
                    assert forall|cx: int, cy: int|
                        #![trigger has_write(writes@, cx, cy)]
                        0 <= cx < cols && 0 <= cy < rows && (cx < x || (cx == x && cy < y + 1)) && (
                        force || curr.at(cx, cy) != prev.at(cx, cy)) implies has_write(
                        writes@,
                        cx,
                        cy,
                    ) by {
                        assert(!(cx == x && cy == y));
                    }
                }
            }
            y = y + 1;
        }
        x = x + 1;
    }
    proof {
        if !force && (forall|cx: int, cy: int|
            0 <= cx < curr.spec_cols() && 0 <= cy < curr.spec_rows() ==> curr.at(cx, cy)
                == prev.at(cx, cy)) && writes@.len() > 0 {
            let w = writes@[0];
            assert(curr.at(w.x as int, w.y as int) != prev.at(w.x as int, w.y as int));
            assert(curr.at(w.x as int, w.y as int) == prev.at(w.x as int, w.y as int));
        }
    }
    writes
}

} // verus!
