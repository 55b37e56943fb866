//! The player ship: a position clamped to the grid, and an ordered
//! collection of at most three live shots. Shooting is rate-limited purely by
//! that capacity; movement at an edge clamps silently.

use vstd::prelude::*;
use crate::frame::Frame;
use crate::invaders::{Invaders, Invader, occupied_in, kill_at, reached_bottom_in};
use crate::shot::Shot;

verus! {

/// Most shots that may be live at once; a further shot is refused.
pub const MAX_SHOTS: usize = 3;

/// Glyph of the player ship.
pub const PLAYER_GLYPH: char = 'A';

/// Every shot advanced by `delta` milliseconds.
pub open spec fn advanced(shots: Seq<Shot>, delta: u64) -> Seq<Shot> {
    shots.map_values(|s: Shot| s.updated(delta))
}

/// The shots that survive pruning: dead ones dropped, order kept.
pub open spec fn pruned(shots: Seq<Shot>) -> Seq<Shot>
    decreases shots.len(),
{
    if shots.len() == 0 {
        Seq::empty()
    } else {
        let rest = pruned(shots.drop_last());
        if shots.last().spec_dead() {
            rest
        } else {
            rest.push(shots.last())
        }
    }
}

/// Collision resolution over the shots in firing order: a travelling shot
/// over a cell still occupied when its turn comes kills that invader and
/// turns exploding; every other shot is untouched. Returns the shots, the
/// surviving army, and whether any hit occurred.
pub open spec fn resolved(shots: Seq<Shot>, army: Seq<Invader>) -> (Seq<Shot>, Seq<Invader>, bool)
    decreases shots.len(),
{
    if shots.len() == 0 {
        (shots, army, false)
    } else {
        let prev = resolved(shots.drop_last(), army);
        let s = shots.last();
        if !s.exploding && occupied_in(prev.1, s.x as int, s.y as int) {
            (prev.0.push(s.after_explode()), kill_at(prev.1, s.x as int, s.y as int), true)
        } else {
            (prev.0.push(s), prev.1, prev.2)
        }
    }
}

/// How many of these shots are exploding.
pub open spec fn explosions(shots: Seq<Shot>) -> int
    decreases shots.len(),
{
    if shots.len() == 0 {
        0
    } else {
        explosions(shots.drop_last()) + if shots.last().exploding {
            1int
        } else {
            0int
        }
    }
}

/// A shot and an invader on the same cell produce exactly one kill and one
/// exploding shot: collision resolution keeps every shot, shrinks the
/// population by exactly one invader per shot it turns exploding, and
/// reports a hit exactly when the population shrank.
pub proof fn lemma_one_kill_per_explosion(shots: Seq<Shot>, army: Seq<Invader>)
    ensures
        ({
            let t = resolved(shots, army);
            &&& t.0.len() == shots.len()
            &&& t.1.len() <= army.len()
            &&& t.1.len() + explosions(t.0) == army.len() + explosions(shots)
            &&& t.2 == (t.1.len() < army.len())
        }),
    decreases shots.len(),
{
    if shots.len() == 0 {
    } else {
        lemma_one_kill_per_explosion(shots.drop_last(), army);
        let prev = resolved(shots.drop_last(), army);
        let s = shots.last();
        if !s.exploding && occupied_in(prev.1, s.x as int, s.y as int) {
            let w = choose|i: int|
                0 <= i < prev.1.len() && prev.1[i].x == s.x as int && prev.1[i].y == s.y as int;
            assert(prev.1.remove(w).len() == prev.1.len() - 1);
            assert(explosions(prev.0.push(s.after_explode())) == explosions(prev.0) + 1) by {
                assert(prev.0.push(s.after_explode()).drop_last() =~= prev.0);
            }
        } else {
            assert(explosions(prev.0.push(s)) == explosions(prev.0) + if s.exploding {
                1int
            } else {
                0int
            }) by {
                assert(prev.0.push(s).drop_last() =~= prev.0);
            }
            assert(explosions(shots) == explosions(shots.drop_last()) + if s.exploding {
                1int
            } else {
                0int
            });
        }
    }
}

/// Glyph of the last shot in firing order occupying `(cx, cy)`, if any:
/// later-fired shots paint over earlier ones.
pub open spec fn shots_glyph_at(shots: Seq<Shot>, cx: int, cy: int) -> Option<char>
    decreases shots.len(),
{
    if shots.len() == 0 {
        None
    } else {
        let s = shots.last();
        if s.x == cx && s.y == cy {
            Some(s.glyph())
        } else {
            shots_glyph_at(shots.drop_last(), cx, cy)
        }
    }
}

/// The player ship.
pub struct Player {
    pub cols: usize,
    pub x: usize,
    pub y: usize,
    pub shots: Vec<Shot>,
}

/// What the player paints at `(cx, cy)`: a shot glyph if a shot is there
/// (shots are drawn after the ship), the ship glyph on the ship's cell,
/// nothing elsewhere.
pub open spec fn paint_at(p: Player, cx: int, cy: int) -> Option<char> {
    match shots_glyph_at(p.shots@, cx, cy) {
        Some(g) => Some(g),
        None => if p.x == cx && p.y == cy {
            Some(PLAYER_GLYPH)
        } else {
            None
        },
    }
}

impl Player {
    /// On the grid, at most `MAX_SHOTS` shots, every shot above the ship and
    /// inside the grid's columns.
    pub open spec fn wf(self) -> bool {
        &&& self.x < self.cols
        &&& 1 <= self.y
        &&& self.shots@.len() <= MAX_SHOTS
        &&& forall|i: int|
            0 <= i < self.shots@.len() ==> (#[trigger] self.shots@[i]).x < self.cols
                && self.shots@[i].y < self.y
    }

    /// A fresh ship: centred on the bottom row of a `cols x rows` grid, no
    /// shots.
    pub fn new(cols: usize, rows: usize) -> (r: Player)
        requires
            1 <= cols,
            2 <= rows,
        ensures
            r.wf(),
            r.cols == cols,
            r.x == cols / 2,
            r.y == rows - 1,
            r.shots@.len() == 0,
    {
        Player { cols, x: cols / 2, y: rows - 1, shots: Vec::new() }
    }

    /// Step one column left; at the left edge the position is unchanged.
    /// Either way `x` stays within `[0, cols - 1]`.
    pub fn move_left(&mut self)
        requires
            old(self).wf(),
        ensures
            final(self).wf(),
            final(self).cols == old(self).cols,
            final(self).y == old(self).y,
            final(self).shots@ == old(self).shots@,
            old(self).x > 0 ==> final(self).x == old(self).x - 1,
            old(self).x == 0 ==> final(self).x == old(self).x,
    {
        if self.x > 0 {
            self.x = self.x - 1;
        }
    }

    /// Step one column right; at the right edge the position is unchanged.
    /// Either way `x` stays within `[0, cols - 1]`.
    pub fn move_right(&mut self)
        requires
            old(self).wf(),
        ensures
            final(self).wf(),
            final(self).cols == old(self).cols,
            final(self).y == old(self).y,
            final(self).shots@ == old(self).shots@,
            old(self).x + 1 < old(self).cols ==> final(self).x == old(self).x + 1,
            old(self).x + 1 == old(self).cols ==> final(self).x == old(self).x,
    {
        if self.x + 1 < self.cols {
            self.x = self.x + 1;
        }
    }

    /// Fire a shot from just above the ship. Refused, with the player left
    /// exactly as it was, whenever `MAX_SHOTS` shots are already live.
    pub fn shoot(&mut self) -> (fired: bool)
        requires
            old(self).wf(),
        ensures
            final(self).wf(),
            fired == (old(self).shots@.len() < MAX_SHOTS),
            !fired ==> *final(self) == *old(self),
            fired ==> final(self).shots@ == old(self).shots@.push(
                Shot::fresh(old(self).x, (old(self).y - 1) as usize),
            ),
            final(self).cols == old(self).cols,
            final(self).x == old(self).x,
            final(self).y == old(self).y,
    {
        if self.shots.len() >= MAX_SHOTS {
            return false;
        }
        let s = Shot::new(self.x, self.y - 1);
        self.shots.push(s);
        true
    }

    /// Advance every shot's timer by `delta_ms`, then prune the dead ones.
    /// A shot that dies this tick is pruned only after having been advanced,
    /// so it was drawn exploding for one frame before removal shows.
    pub fn update(&mut self, delta_ms: u64)
        requires
            old(self).wf(),
        ensures
            final(self).wf(),
            final(self).cols == old(self).cols,
            final(self).x == old(self).x,
            final(self).y == old(self).y,
            final(self).shots@ == pruned(advanced(old(self).shots@, delta_ms)),
    {
        let ghost orig = self.shots@;
        let n = self.shots.len();
        let mut i: usize = 0;
        while i < n
            invariant
                n == self.shots@.len(),
                n == orig.len(),
                i <= n,
                self.cols == old(self).cols,
                self.x == old(self).x,
                self.y == old(self).y,
                orig == old(self).shots@,
                forall|j: int| i <= j < n ==> #[trigger] self.shots@[j] == orig[j],
                forall|j: int| 0 <= j < i ==> #[trigger] self.shots@[j] == orig[j].updated(delta_ms),
            decreases n - i,
        {
            let mut s = self.shots[i];
            s.update(delta_ms);
            self.shots.set(i, s);
            i = i + 1;
        }
        proof {
            assert(self.shots@ =~= advanced(orig, delta_ms));
        }
        let ghost upd = self.shots@;
        proof {
            assert forall|j: int|
                0 <= j < upd.len() implies (#[trigger] upd[j]).x < self.cols && upd[j].y < self.y
            by {
                assert(upd[j] == orig[j].updated(delta_ms));
                assert(orig[j].x < old(self).cols && orig[j].y < old(self).y);
            }
        }
        let mut kept: Vec<Shot> = Vec::new();
        let mut i: usize = 0;
        while i < n
            invariant
                n == self.shots@.len(),
                n == upd.len(),
                i <= n,
                self.shots@ == upd,
                self.cols == old(self).cols,
                self.x == old(self).x,
                self.y == old(self).y,
                kept@.len() <= i,
                kept@ == pruned(upd.take(i as int)),
                forall|j: int|
                    0 <= j < upd.len() ==> (#[trigger] upd[j]).x < self.cols && upd[j].y < self.y,
                forall|j: int|
                    0 <= j < kept@.len() ==> (#[trigger] kept@[j]).x < self.cols && kept@[j].y
                        < self.y,
            decreases n - i,
        {
            let s = self.shots[i];
            if !s.dead() {
                kept.push(s);
            }
            proof {
                assert(upd.take(i + 1).drop_last() =~= upd.take(i as int));
                assert(upd.take(i + 1).last() == upd[i as int]);
            }
            i = i + 1;
        }
        proof {
            assert(upd.take(n as int) =~= upd);
        }
        self.shots = kept;
    }

    /// Resolve collisions: every travelling shot over a still-occupied cell
    /// kills that invader and turns exploding. Returns whether any hit
    /// occurred this call.
    pub fn detect_hits(&mut self, invaders: &mut Invaders) -> (hit: bool)
        requires
            old(self).wf(),
            old(invaders).wf(),
        ensures
            final(self).wf(),
            final(invaders).wf(),
            final(self).cols == old(self).cols,
            final(self).x == old(self).x,
            final(self).y == old(self).y,
            final(invaders).cols == old(invaders).cols,
            final(invaders).rows == old(invaders).rows,
            final(invaders).direction == old(invaders).direction,
            final(invaders).timer_ms == old(invaders).timer_ms,
            ({
                let t = resolved(old(self).shots@, old(invaders).army@);
                &&& final(self).shots@ == t.0
                &&& final(invaders).army@ == t.1
                &&& hit == t.2
            }),
            !old(invaders).spec_reached_bottom() ==> !final(invaders).spec_reached_bottom(),
    {
        let ghost orig = self.shots@;
        let ghost army0 = old(invaders).army@;
        let n = self.shots.len();
        let mut hit_something = false;
        let mut i: usize = 0;
        while i < n
            invariant
                n == self.shots@.len(),
                n == orig.len(),
                i <= n,
                self.cols == old(self).cols,
                self.x == old(self).x,
                self.y == old(self).y,
                invaders.wf(),
                invaders.cols == old(invaders).cols,
                invaders.rows == old(invaders).rows,
                invaders.direction == old(invaders).direction,
                invaders.timer_ms == old(invaders).timer_ms,
                army0 == old(invaders).army@,
                forall|j: int| i <= j < n ==> #[trigger] self.shots@[j] == orig[j],
                forall|j: int|
                    0 <= j < n ==> (#[trigger] self.shots@[j]).x == orig[j].x && self.shots@[j].y
                        == orig[j].y,
                ({
                    let t = resolved(orig.take(i as int), army0);
                    &&& self.shots@.take(i as int) == t.0
                    &&& invaders.army@ == t.1
                    &&& hit_something == t.2
                }),
                !reached_bottom_in(army0, invaders.rows as int) ==> !reached_bottom_in(
                    invaders.army@,
                    invaders.rows as int,
                ),
            decreases n - i,
        {
            let s = self.shots[i];
            proof {
                assert(orig.take(i + 1).drop_last() =~= orig.take(i as int));
                assert(orig.take(i + 1).last() == orig[i as int]);
            }
            if !s.exploding {
                if invaders.try_kill_invader_at(s.x, s.y) {
                    hit_something = true;
                    let mut sc = s;
                    sc.explode();
                    self.shots.set(i, sc);
                }
            }
            proof {
                assert(self.shots@.take(i + 1) =~= self.shots@.take(i as int).push(
                    self.shots@[i as int],
                ));
            }
            i = i + 1;
        }
        proof {
            assert(orig.take(n as int) =~= orig);
            assert(self.shots@.take(n as int) =~= self.shots@);
        }
        hit_something
    }

    /// Paint the ship, then every shot in firing order; every cell the
    /// player owns nothing on is untouched.
    pub fn draw(&self, frame: &mut Frame)
        requires
            self.wf(),
            old(frame).wf(),
            self.cols == old(frame).spec_cols(),
            self.y < old(frame).spec_rows(),
        ensures
            final(frame).wf(),
            final(frame).spec_cols() == old(frame).spec_cols(),
            final(frame).spec_rows() == old(frame).spec_rows(),
            forall|cx: int, cy: int|
                0 <= cx < old(frame).spec_cols() && 0 <= cy < old(frame).spec_rows()
                    ==> final(frame).at(cx, cy) == (match paint_at(*self, cx, cy) {
                    Some(g) => g,
                    None => old(frame).at(cx, cy),
                }),
    {
        frame.set(self.x, self.y, PLAYER_GLYPH);
        let n = self.shots.len();
        let mut i: usize = 0;
        while i < n
            invariant
                n == self.shots@.len(),
                i <= n,
                self.wf(),
                frame.wf(),
                frame.spec_cols() == old(frame).spec_cols(),
                frame.spec_rows() == old(frame).spec_rows(),
                self.cols == frame.spec_cols(),
                self.y < frame.spec_rows(),
                forall|cx: int, cy: int|
                    0 <= cx < frame.spec_cols() && 0 <= cy < frame.spec_rows()
                        ==> frame.at(cx, cy) == (match shots_glyph_at(
                        self.shots@.take(i as int),
                        cx,
                        cy,
                    ) {
                        Some(g) => g,
                        None => if self.x == cx && self.y == cy {
                            PLAYER_GLYPH
                        } else {
                            old(frame).at(cx, cy)
                        },
                    }),
            decreases n - i,
        {
            let s = self.shots[i];
            let ghost prev = *frame;
            s.draw(frame);
            proof {
                assert(self.shots@.take(i + 1).drop_last() =~= self.shots@.take(i as int));
                assert(self.shots@.take(i + 1).last() == self.shots@[i as int]);
                assert forall|cx: int, cy: int|
                    0 <= cx < frame.spec_cols() && 0 <= cy < frame.spec_rows()
                    implies frame.at(cx, cy) == (match shots_glyph_at(
                    self.shots@.take(i + 1),
                    cx,
                    cy,
                ) {
                    Some(g) => g,
                    None => if self.x == cx && self.y == cy {
                        PLAYER_GLYPH
                    } else {
                        old(frame).at(cx, cy)
                    },
                }) by {
                    if cx == s.x && cy == s.y {
                        assert(frame.at(cx, cy) == s.glyph());
                    } else {
                        assert(frame.at(cx, cy) == prev.at(cx, cy));
                    }
                }
            }
            i = i + 1;
        }
        proof {
            assert(self.shots@.take(n as int) =~= self.shots@);
        }
    }
}

} // verus!
