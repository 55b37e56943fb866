//! The invader formation: a collection of live invaders moved as a unit by a
//! bounce-and-descend state machine. The formation advances horizontally at a
//! cadence recomputed every move from the live population (fewer invaders,
//! faster moves); whenever the next horizontal step would push any invader
//! past a grid edge, that move instead descends the whole formation one row
//! and reverses direction.

use vstd::prelude::*;
use crate::frame::Frame;

verus! {

/// Floor of the interval between formation moves, in milliseconds.
pub const MOVE_BASE_MS: u64 = 250;

/// Milliseconds added to the move interval per live invader.
pub const MOVE_PER_INVADER_MS: u64 = 25;

/// Population beyond which the move interval stops growing.
pub const MOVE_COUNT_CAP: u64 = 1000000;

/// Glyph of an invader in the early half of its move countdown.
pub const INVADER_GLYPH_EARLY: char = 'x';

/// Glyph of an invader in the late half of its move countdown.
pub const INVADER_GLYPH_LATE: char = '+';

/// One live enemy at a grid cell.
#[derive(Clone, Copy, PartialEq, Eq, Structural, Debug)]
pub struct Invader {
    pub x: usize,
    pub y: usize,
}

/// Direction of the formation's horizontal movement.
#[derive(Clone, Copy, PartialEq, Eq, Structural, Debug)]
pub enum Direction {
    Left,
    Right,
}

pub open spec fn flipped(d: Direction) -> Direction {
    match d {
        Direction::Left => Direction::Right,
        Direction::Right => Direction::Left,
    }
}

/// Some live invader occupies cell `(x, y)`.
pub open spec fn occupied_in(army: Seq<Invader>, x: int, y: int) -> bool {
    exists|i: int| 0 <= i < army.len() && army[i].x == x && army[i].y == y
}

/// No two live invaders share a cell.
pub open spec fn distinct_cells(army: Seq<Invader>) -> bool {
    forall|i: int, j: int|
        0 <= i < j < army.len() ==> !((#[trigger] army[i]).x == (#[trigger] army[j]).x
            && army[i].y == army[j].y)
}

/// The army with the (unique, given `distinct_cells`) invader at `(x, y)`
/// removed.
pub open spec fn kill_at(army: Seq<Invader>, x: int, y: int) -> Seq<Invader> {
    army.remove(choose|i: int| 0 <= i < army.len() && army[i].x == x && army[i].y == y)
}

/// Interval until the formation's next move, as a function of the live
/// population alone: it shrinks monotonically as invaders die.
pub open spec fn spec_move_interval(n: int) -> int {
    if n > MOVE_COUNT_CAP {
        MOVE_BASE_MS + MOVE_PER_INVADER_MS * MOVE_COUNT_CAP
    } else {
        MOVE_BASE_MS + MOVE_PER_INVADER_MS * n
    }
}

/// Fewer live invaders never slow the formation down.
pub proof fn lemma_move_interval_monotonic(n1: int, n2: int)
    requires
        0 <= n1 <= n2,
    ensures
        spec_move_interval(n1) <= spec_move_interval(n2),
{
}

/// Glyph the whole formation paints this tick, by countdown phase.
pub open spec fn spec_invader_glyph(timer: int, count: int) -> char {
    if timer >= spec_move_interval(count) / 2 {
        INVADER_GLYPH_EARLY
    } else {
        INVADER_GLYPH_LATE
    }
}

/// Would the pending horizontal step push some invader past a grid edge?
pub open spec fn would_descend(army: Seq<Invader>, dir: Direction, cols: int) -> bool {
    match dir {
        Direction::Left => exists|i: int| 0 <= i < army.len() && (#[trigger] army[i]).x == 0,
        Direction::Right => exists|i: int|
            0 <= i < army.len() && (#[trigger] army[i]).x + 1 == cols,
    }
}

pub open spec fn stepped_invader(inv: Invader, dir: Direction) -> Invader {
    match dir {
        Direction::Left => Invader { x: (inv.x - 1) as usize, y: inv.y },
        Direction::Right => Invader { x: (inv.x + 1) as usize, y: inv.y },
    }
}

/// Every invader shifted one column in `dir`.
pub open spec fn stepped(army: Seq<Invader>, dir: Direction) -> Seq<Invader> {
    army.map_values(|inv: Invader| stepped_invader(inv, dir))
}

/// Every invader shifted one row down.
pub open spec fn descended(army: Seq<Invader>) -> Seq<Invader> {
    army.map_values(|inv: Invader| Invader { x: inv.x, y: (inv.y + 1) as usize })
}

/// Some live invader has reached row `rows - 1` (the player's row).
pub open spec fn reached_bottom_in(army: Seq<Invader>, rows: int) -> bool {
    exists|i: int| 0 <= i < army.len() && (#[trigger] army[i]).y + 1 >= rows
}

/// One formation tick: `(army, direction, timer, moved)` after `delta` ms.
/// While the countdown has not run out only the countdown changes; when it
/// runs out the formation takes its move (descend-and-reverse at an edge,
/// a plain horizontal step otherwise) and the countdown is rearmed from the
/// current population.
pub open spec fn formation_step(
    army: Seq<Invader>,
    dir: Direction,
    timer: u64,
    delta: u64,
    cols: int,
) -> (Seq<Invader>, Direction, int, bool) {
    if delta < timer {
        (army, dir, timer - delta, false)
    } else {
        let rearmed = spec_move_interval(army.len() as int);
        if army.len() == 0 {
            (army, dir, rearmed, false)
        } else if would_descend(army, dir, cols) {
            (descended(army), flipped(dir), rearmed, true)
        } else {
            (stepped(army, dir), dir, rearmed, true)
        }
    }
}

/// Formation movement never places a live invader outside the grid's
/// columns: whenever the pending step would cross a boundary, that move
/// descends one row and reverses direction instead of stepping.
pub proof fn lemma_formation_stays_in_grid(
    army: Seq<Invader>,
    dir: Direction,
    timer: u64,
    delta: u64,
    cols: int,
)
    requires
        forall|i: int| 0 <= i < army.len() ==> (#[trigger] army[i]).x < cols,
    ensures
        ({
            let f = formation_step(army, dir, timer, delta, cols);
            &&& forall|i: int| 0 <= i < f.0.len() ==> (#[trigger] f.0[i]).x < cols
            &&& (delta >= timer && army.len() > 0 && would_descend(army, dir, cols)) ==> (f.0
                == descended(army) && f.1 == flipped(dir))
        }),
{
    let f = formation_step(army, dir, timer, delta, cols);
    if delta >= timer && army.len() > 0 && !would_descend(army, dir, cols) {
        assert forall|i: int| 0 <= i < f.0.len() implies (#[trigger] f.0[i]).x < cols by {
            assert(f.0[i] == stepped_invader(army[i], dir));
            match dir {
                Direction::Left => {
                    assert(army[i].x != 0);
                },
                Direction::Right => {
                    assert(army[i].x + 1 != cols);
                },
            }
        }
    } else if delta >= timer && army.len() > 0 {
        assert forall|i: int| 0 <= i < f.0.len() implies (#[trigger] f.0[i]).x < cols by {
            assert(f.0[i] == (Invader { x: army[i].x, y: (army[i].y + 1) as usize }));
        }
    }
}

/// Cells of the default starting formation: every other column away from the
/// side edges, every other row in the upper part of the grid.
pub open spec fn formation_cell(cols: int, rows: int, x: int, y: int) -> bool {
    &&& 1 < x
    &&& x < cols - 2
    &&& 0 < y
    &&& y < rows / 2
    &&& x % 2 == 0
    &&& y % 2 == 0
}

/// The invader formation and its movement state machine.
pub struct Invaders {
    pub cols: usize,
    pub rows: usize,
    pub army: Vec<Invader>,
    pub direction: Direction,
    pub timer_ms: u64,
}

impl Invaders {
    /// Every invader on the grid, no two on the same cell.
    pub open spec fn wf(self) -> bool {
        &&& 1 <= self.cols
        &&& 2 <= self.rows
        &&& forall|i: int|
            0 <= i < self.army@.len() ==> (#[trigger] self.army@[i]).x < self.cols
                && self.army@[i].y < self.rows
        &&& distinct_cells(self.army@)
    }

    pub open spec fn spec_all_dead(self) -> bool {
        self.army@.len() == 0
    }

    pub open spec fn spec_reached_bottom(self) -> bool {
        reached_bottom_in(self.army@, self.rows as int)
    }

    pub open spec fn occupied(self, x: int, y: int) -> bool {
        occupied_in(self.army@, x, y)
    }

    /// The starting formation on a `cols x rows` grid, moving right, with the
    /// move countdown armed from the starting population.
    pub fn new(cols: usize, rows: usize) -> (r: Invaders)
        requires
            1 <= cols,
            2 <= rows,
        ensures
            r.wf(),
            r.cols == cols,
            r.rows == rows,
            r.direction == Direction::Right,
            r.timer_ms == spec_move_interval(r.army@.len() as int),
            forall|x: int, y: int|
                0 <= x < cols && 0 <= y < rows ==> (occupied_in(r.army@, x, y)
                    <==> formation_cell(cols as int, rows as int, x, y)),
    {
        let mut army: Vec<Invader> = Vec::new();
        let mut x: usize = 0;
        while x < cols
            invariant
                x <= cols,
                2 <= rows,
                forall|k: int|
                    0 <= k < army@.len() ==> formation_cell(
                        cols as int,
                        rows as int,
                        (#[trigger] army@[k]).x as int,
                        army@[k].y as int,
                    ),
                forall|k: int|
                    0 <= k < army@.len() ==> (#[trigger] army@[k]).x < x,
                forall|a: int, b: int|
                    0 <= a < x && 0 <= b < rows && formation_cell(cols as int, rows as int, a, b)
                        ==> occupied_in(army@, a, b),
                distinct_cells(army@),
            decreases cols - x,
        {
            let mut y: usize = 0;
            while y < rows
                invariant
                    y <= rows,
                    x < cols,
                    2 <= rows,
                    forall|k: int|
                        0 <= k < army@.len() ==> formation_cell(
                            cols as int,
                            rows as int,
                            (#[trigger] army@[k]).x as int,
                            army@[k].y as int,
                        ),
                    forall|k: int|
                        0 <= k < army@.len() ==> (#[trigger] army@[k]).x < x || (army@[k].x == x
                            && army@[k].y < y),
                    forall|a: int, b: int|
                        0 <= a < x && 0 <= b < rows && formation_cell(
                            cols as int,
                            rows as int,
                            a,
                            b,
                        ) ==> occupied_in(army@, a, b),
                    forall|b: int|
                        0 <= b < y && formation_cell(cols as int, rows as int, x as int, b)
                            ==> occupied_in(army@, x as int, b),
                    distinct_cells(army@),
                decreases rows - y,
            {
                if x > 1 && cols > 2 && x < cols - 2 && y > 0 && y < rows / 2 && x % 2 == 0 && y % 2
                    == 0 {
                    let ghost before = army@;
                    army.push(Invader { x, y });
                    proof {
                        assert(army@.last() == Invader { x, y });
                        assert forall|a: int, b: int|
                            0 <= a < x && 0 <= b < rows && formation_cell(
                                cols as int,
                                rows as int,
                                a,
                                b,
                            ) implies occupied_in(army@, a, b) by {
                            assert(occupied_in(before, a, b));
                            let i = choose|i: int|
                                0 <= i < before.len() && before[i].x == a && before[i].y == b;
                            assert(army@[i].x == a && army@[i].y == b);
                        }
                        assert forall|b: int|
                            0 <= b < y + 1 && formation_cell(cols as int, rows as int, x as int, b)
                            implies occupied_in(army@, x as int, b) by {
                            if b < y {
                                assert(occupied_in(before, x as int, b));
                                let i = choose|i: int|
                                    0 <= i < before.len() && before[i].x == x as int && before[i].y
                                        == b;
                                assert(army@[i].x == x as int && army@[i].y == b);
                            } else {
                                assert(army@[army@.len() - 1].x == x as int);
                                assert(army@[army@.len() - 1].y == b);
                            }
                        }
                    }
                } else {
                    proof {
                        assert forall|b: int|
                            0 <= b < y + 1 && formation_cell(cols as int, rows as int, x as int, b)
                            implies occupied_in(army@, x as int, b) by {
                            assert(b != y);
                        }
                    }
                }
                y = y + 1;
            }
            proof {
                assert forall|a: int, b: int|
                    0 <= a < x + 1 && 0 <= b < rows && formation_cell(cols as int, rows as int, a, b)
                    implies occupied_in(army@, a, b) by {
                    if a == x {
                        assert(b < rows);
                        assert(occupied_in(army@, x as int, b));
                    }
                }
            }
            x = x + 1;
        }
        let timer = move_interval_ms(army.len());
        proof {
            assert forall|a: int, b: int|
                0 <= a < cols && 0 <= b < rows && occupied_in(army@, a, b) implies formation_cell(
                cols as int,
                rows as int,
                a,
                b,
            ) by {
                let i = choose|i: int| 0 <= i < army@.len() && army@[i].x == a && army@[i].y == b;
                assert(formation_cell(cols as int, rows as int, army@[i].x as int, army@[i].y as int));
            }
        }
        Invaders { cols, rows, army, direction: Direction::Right, timer_ms: timer }
    }

    /// A formation with a caller-supplied army, for synthetic scenarios on
    /// small grids.
    pub fn with_army(cols: usize, rows: usize, army: Vec<Invader>) -> (r: Invaders)
        requires
            1 <= cols,
            2 <= rows,
            forall|i: int|
                0 <= i < army@.len() ==> (#[trigger] army@[i]).x < cols && army@[i].y < rows,
            distinct_cells(army@),
        ensures
            r.wf(),
            r.cols == cols,
            r.rows == rows,
            r.army@ == army@,
            r.direction == Direction::Right,
            r.timer_ms == spec_move_interval(army@.len() as int),
    {
        let timer = move_interval_ms(army.len());
        Invaders { cols, rows, army, direction: Direction::Right, timer_ms: timer }
    }

    /// Number of live invaders.
    pub fn count(&self) -> (r: usize)
        ensures
            r == self.army@.len(),
    {
        self.army.len()
    }

    /// The win condition: true exactly when no invader is left alive.
    pub fn all_dead(&self) -> (r: bool)
        ensures
            r == self.spec_all_dead(),
    {
        self.army.len() == 0
    }

    /// The lose condition: true exactly when some live invader has reached
    /// the player's row.
    pub fn reached_bottom(&self) -> (r: bool)
        requires
            self.wf(),
        ensures
            r == self.spec_reached_bottom(),
    {
        let n = self.army.len();
        let mut i: usize = 0;
        while i < n
            invariant
                n == self.army@.len(),
                i <= n,
                2 <= self.rows,
                forall|j: int| 0 <= j < i ==> (#[trigger] self.army@[j]).y + 1 < self.rows,
            decreases n - i,
        {
            if self.army[i].y >= self.rows - 1 {
                return true;
            }
            i = i + 1;
        }
        false
    }

    fn at_edge(&self) -> (r: bool)
        requires
            self.wf(),
        ensures
            r == would_descend(self.army@, self.direction, self.cols as int),
    {
        let n = self.army.len();
        let mut i: usize = 0;
        while i < n
            invariant
                n == self.army@.len(),
                i <= n,
                self.wf(),
                self.direction is Left ==> forall|j: int|
                    0 <= j < i ==> (#[trigger] self.army@[j]).x != 0,
                self.direction is Right ==> forall|j: int|
                    0 <= j < i ==> (#[trigger] self.army@[j]).x + 1 != self.cols,
            decreases n - i,
        {
            let inv = self.army[i];
            match self.direction {
                Direction::Left => {
                    if inv.x == 0 {
                        return true;
                    }
                },
                Direction::Right => {
                    if inv.x + 1 == self.cols {
                        return true;
                    }
                },
            }
            i = i + 1;
        }
        false
    }

    /// Advance the countdown by `delta_ms`; when it runs out, take the
    /// formation's move and rearm the countdown from the live population.
    /// Returns whether the formation actually changed position.
    pub fn update(&mut self, delta_ms: u64) -> (moved: bool)
        requires
            old(self).wf(),
            !old(self).spec_reached_bottom(),
        ensures
            final(self).wf(),
            final(self).cols == old(self).cols,
            final(self).rows == old(self).rows,
            ({
                let t = formation_step(
                    old(self).army@,
                    old(self).direction,
                    old(self).timer_ms,
                    delta_ms,
                    old(self).cols as int,
                );
                &&& final(self).army@ == t.0
                &&& final(self).direction == t.1
                &&& final(self).timer_ms == t.2
                &&& moved == t.3
            }),
    {
        if delta_ms < self.timer_ms {
            self.timer_ms = self.timer_ms - delta_ms;
            return false;
        }
        self.timer_ms = move_interval_ms(self.army.len());
        if self.army.len() == 0 {
            return false;
        }
        let descend = self.at_edge();
        let ghost before = self.army@;
        let n = self.army.len();
        if descend {
            let mut i: usize = 0;
            while i < n
                invariant
                    n == self.army@.len(),
                    n == before.len(),
                    i <= n,
                    self.cols == old(self).cols,
                    self.rows == old(self).rows,
                    self.direction == old(self).direction,
                    self.timer_ms == spec_move_interval(before.len() as int),
                    before == old(self).army@,
                    distinct_cells(before),
                    forall|j: int|
                        0 <= j < before.len() ==> (#[trigger] before[j]).x < self.cols,
                    forall|j: int|
                        0 <= j < before.len() ==> (#[trigger] before[j]).y + 1 < self.rows,
                    forall|j: int|
                        i <= j < n ==> #[trigger] self.army@[j] == before[j],
                    forall|j: int|
                        0 <= j < i ==> #[trigger] self.army@[j] == (Invader {
                            x: before[j].x,
                            y: (before[j].y + 1) as usize,
                        }),
                decreases n - i,
            {
                let inv = self.army[i];
                proof {
                    assert(before[i as int].y + 1 < self.rows);
                }
                self.army.set(i, Invader { x: inv.x, y: inv.y + 1 });
                i = i + 1;
            }
            self.direction = match self.direction {
                Direction::Left => Direction::Right,
                Direction::Right => Direction::Left,
            };
            proof {
                assert(self.army@ =~= descended(before));
                assert forall|a: int, b: int| 0 <= a < b < self.army@.len() implies !(
                (#[trigger] self.army@[a]).x == (#[trigger] self.army@[b]).x && self.army@[a].y
                    == self.army@[b].y) by {
                    assert(!(before[a].x == before[b].x && before[a].y == before[b].y));
                }
            }
            true
        } else {
            let goes_left = match self.direction {
                Direction::Left => true,
                Direction::Right => false,
            };
            let mut i: usize = 0;
            while i < n
                invariant
                    n == self.army@.len(),
                    n == before.len(),
                    i <= n,
                    goes_left == (self.direction is Left),
                    !would_descend(before, self.direction, self.cols as int),
                    self.cols == old(self).cols,
                    self.rows == old(self).rows,
                    self.direction == old(self).direction,
                    self.timer_ms == spec_move_interval(before.len() as int),
                    before == old(self).army@,
                    distinct_cells(before),
                    forall|j: int|
                        0 <= j < before.len() ==> (#[trigger] before[j]).y < self.rows,
                    forall|j: int|
                        0 <= j < before.len() ==> (#[trigger] before[j]).x < self.cols,
                    forall|j: int|
                        i <= j < n ==> #[trigger] self.army@[j] == before[j],
                    forall|j: int|
                        0 <= j < i ==> #[trigger] self.army@[j] == stepped_invader(
                            before[j],
                            self.direction,
                        ),
                decreases n - i,
            {
                let inv = self.army[i];
                if goes_left {
                    proof {
                        assert(before[i as int].x != 0);
                    }
                    self.army.set(i, Invader { x: inv.x - 1, y: inv.y });
                } else {
                    proof {
                        assert(before[i as int].x + 1 != self.cols);
                    }
                    self.army.set(i, Invader { x: inv.x + 1, y: inv.y });
                }
                i = i + 1;
            }
            proof {
                assert(self.army@ =~= stepped(before, self.direction));
                assert forall|a: int, b: int| 0 <= a < b < self.army@.len() implies !(
                (#[trigger] self.army@[a]).x == (#[trigger] self.army@[b]).x && self.army@[a].y
                    == self.army@[b].y) by {
                    assert(!(before[a].x == before[b].x && before[a].y == before[b].y));
                    assert(self.army@[a] == stepped_invader(before[a], self.direction));
                    assert(self.army@[b] == stepped_invader(before[b], self.direction));
                }
            }
            true
        }
    }

    /// Remove the live invader at exactly `(x, y)`, if there is one. Returns
    /// whether a kill happened; on a kill the population shrinks by exactly
    /// one and the cell is no longer occupied.
    pub fn try_kill_invader_at(&mut self, x: usize, y: usize) -> (killed: bool)
        requires
            old(self).wf(),
        ensures
            final(self).wf(),
            final(self).cols == old(self).cols,
            final(self).rows == old(self).rows,
            final(self).direction == old(self).direction,
            final(self).timer_ms == old(self).timer_ms,
            killed == old(self).occupied(x as int, y as int),
            !killed ==> final(self).army@ == old(self).army@,
            killed ==> final(self).army@ == kill_at(old(self).army@, x as int, y as int),
            killed ==> final(self).army@.len() + 1 == old(self).army@.len(),
            killed ==> !final(self).occupied(x as int, y as int),
            !old(self).spec_reached_bottom() ==> !final(self).spec_reached_bottom(),
    {
        let n = self.army.len();
        let mut i: usize = 0;
        while i < n
            invariant
                n == self.army@.len(),
                i <= n,
                self.wf(),
                *self == *old(self),
                forall|j: int|
                    0 <= j < i ==> !((#[trigger] self.army@[j]).x == x && self.army@[j].y == y),
            decreases n - i,
        {
            let inv = self.army[i];
            if inv.x == x && inv.y == y {
                let ghost before = self.army@;
                self.army.remove(i);
                proof {
                    let w = choose|k: int|
                        0 <= k < before.len() && before[k].x == x && before[k].y == y;
                    assert(before[i as int].x == x && before[i as int].y == y);
                    assert(w == i as int);
                    assert(self.army@ == kill_at(before, x as int, y as int));
                    assert forall|a: int, b: int| 0 <= a < b < self.army@.len() implies !(
                    (#[trigger] self.army@[a]).x == (#[trigger] self.army@[b]).x && self.army@[a].y
                        == self.army@[b].y) by {
                        let oa = if a < i { a } else { a + 1 };
                        let ob = if b < i { b } else { b + 1 };
                        assert(self.army@[a] == before[oa]);
                        assert(self.army@[b] == before[ob]);
                    }
                    assert forall|k: int| 0 <= k < self.army@.len() implies !(
                    (#[trigger] self.army@[k]).x == x && self.army@[k].y == y) by {
                        let ok = if k < i { k } else { k + 1 };
                        assert(self.army@[k] == before[ok]);
                        if ok != i {
                            if ok < i {
                                assert(!(before[ok].x == x && before[ok].y == y));
                            } else {
                                assert(!(before[i as int].x == before[ok].x && before[i as int].y
                                    == before[ok].y));
                            }
                        }
                    }
                    assert forall|k: int| 0 <= k < self.army@.len() implies (
                    #[trigger] self.army@[k]).x < self.cols && self.army@[k].y < self.rows by {
                        let ok = if k < i { k } else { k + 1 };
                        assert(self.army@[k] == before[ok]);
                    }
                    if !reached_bottom_in(before, self.rows as int) {
                        assert forall|k: int| 0 <= k < self.army@.len() implies (
                        #[trigger] self.army@[k]).y + 1 < self.rows by {
                            let ok = if k < i { k } else { k + 1 };
                            assert(self.army@[k] == before[ok]);
                            assert(before[ok].y + 1 < self.rows);
                        }
                    }
                }
                return true;
            }
            i = i + 1;
        }
        false
    }

    /// Paint every live invader's glyph; every other cell is untouched.
    pub fn draw(&self, frame: &mut Frame)
        requires
            self.wf(),
            old(frame).wf(),
            old(frame).spec_cols() == self.cols,
            old(frame).spec_rows() == self.rows,
        ensures
            final(frame).wf(),
            final(frame).spec_cols() == old(frame).spec_cols(),
            final(frame).spec_rows() == old(frame).spec_rows(),
            forall|cx: int, cy: int|
                0 <= cx < old(frame).spec_cols() && 0 <= cy < old(frame).spec_rows()
                    ==> final(frame).at(cx, cy) == (if self.occupied(cx, cy) {
                    spec_invader_glyph(self.timer_ms as int, self.army@.len() as int)
                } else {
                    old(frame).at(cx, cy)
                }),
    {
        let interval = move_interval_ms(self.army.len());
        let g = if self.timer_ms >= interval / 2 {
            INVADER_GLYPH_EARLY
        } else {
            INVADER_GLYPH_LATE
        };
        let n = self.army.len();
        let mut i: usize = 0;
        while i < n
            invariant
                n == self.army@.len(),
                i <= n,
                self.wf(),
                g == spec_invader_glyph(self.timer_ms as int, self.army@.len() as int),
                frame.wf(),
                frame.spec_cols() == self.cols,
                frame.spec_rows() == self.rows,
                forall|cx: int, cy: int|
                    0 <= cx < frame.spec_cols() && 0 <= cy < frame.spec_rows()
                        ==> frame.at(cx, cy) == (if occupied_in(self.army@.take(i as int), cx, cy) {
                        g
                    } else {
                        old(frame).at(cx, cy)
                    }),
            decreases n - i,
        {
            let inv = self.army[i];
            let ghost prev = *frame;
            frame.set(inv.x, inv.y, g);
            proof {
                assert forall|cx: int, cy: int|
                    0 <= cx < frame.spec_cols() && 0 <= cy < frame.spec_rows()
                    implies frame.at(cx, cy) == (if occupied_in(
                    self.army@.take(i + 1),
                    cx,
                    cy,
                ) {
                    g
                } else {
                    old(frame).at(cx, cy)
                }) by {
                    let t = self.army@.take(i + 1);
                    if cx == inv.x && cy == inv.y {
                        assert(t[i as int] == self.army@[i as int]);
                        assert(occupied_in(t, cx, cy));
                    } else {
                        assert(frame.at(cx, cy) == prev.at(cx, cy));
                        if occupied_in(t, cx, cy) {
                            let k = choose|k: int| 0 <= k < t.len() && t[k].x == cx && t[k].y == cy;
                            assert(t[k] == self.army@[k]);
                            assert(k < i);
                            assert(occupied_in(self.army@.take(i as int), cx, cy));
                        } else {
                            assert forall|k: int|
                                0 <= k < i implies !((#[trigger] self.army@.take(i as int)[k]).x
                                == cx && self.army@.take(i as int)[k].y == cy) by {
                                assert(t[k] == self.army@.take(i as int)[k]);
                            }
                        }
                    }
                }
            }
            i = i + 1;
        }
        proof {
            assert(self.army@.take(n as int) =~= self.army@);
        }
    }
}

/// Interval until the next formation move for a population of `count`.
pub fn move_interval_ms(count: usize) -> (r: u64)
    ensures
        r == spec_move_interval(count as int),
{
    let capped: u64 = if count as u64 > MOVE_COUNT_CAP {
        MOVE_COUNT_CAP
    } else {
        count as u64
    };
    MOVE_BASE_MS + MOVE_PER_INVADER_MS * capped
}

} // verus!
