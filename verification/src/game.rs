//! The game loop's decision half: what each key does, and what one
//! simulation tick does, in the fixed order the game demands — shot aging,
//! collision resolution, formation movement, drawing, then the win check
//! before the lose check. The loop around it (polling keys, playing sounds,
//! writing frames to the terminal, sleeping) is plumbing that hands plain
//! values in and out.

use vstd::prelude::*;
use crate::frame::{Frame, new_frame, BLANK};
use crate::invaders::{
    Invaders, formation_step, occupied_in, reached_bottom_in, spec_invader_glyph,
};
use crate::player::{Player, MAX_SHOTS, advanced, paint_at, pruned, resolved};
use crate::shot::Shot;

verus! {

/// One logical key action; anything else a keyboard yields is ignored
/// before it reaches the game.
#[derive(Clone, Copy, PartialEq, Eq, Structural, Debug)]
pub enum InputAction {
    Left,
    Right,
    Shoot,
    Quit,
}

/// How a finished game ended. Win is checked first and is authoritative
/// when both conditions hold on the same tick.
#[derive(Clone, Copy, PartialEq, Eq, Structural, Debug)]
pub enum Outcome {
    Win,
    Lose,
}

/// What applying one input produced: whether a shot was fired (the shot
/// sound plays) and whether the player asked to quit (the loop stops).
#[derive(Clone, Copy, PartialEq, Eq, Structural, Debug)]
pub struct InputResponse {
    pub fired: bool,
    pub quit: bool,
}

/// What one simulation tick produced: whether any shot hit (the hit sound
/// plays at most once), whether the formation changed position (the move
/// sound plays), the freshly drawn frame, and how the game ended, if it did.
pub struct TickResult {
    pub hit: bool,
    pub moved: bool,
    pub frame: Frame,
    pub outcome: Option<Outcome>,
}

/// The whole simulation state: the player and the invader formation on one
/// grid.
pub struct Game {
    pub player: Player,
    pub invaders: Invaders,
}

impl Game {
    /// Player and formation agree on the grid: same columns, and the player
    /// sits on the last row.
    pub open spec fn wf(self) -> bool {
        &&& self.player.wf()
        &&& self.invaders.wf()
        &&& self.player.cols == self.invaders.cols
        &&& self.player.y + 1 == self.invaders.rows
    }

    /// A fresh game on a `cols x rows` grid: centred player with no shots,
    /// the standard starting formation.
    pub fn new(cols: usize, rows: usize) -> (r: Game)
        requires
            1 <= cols,
            2 <= rows,
        ensures
            r.wf(),
            r.player.cols == cols,
            r.player.x == cols / 2,
            r.player.y == rows - 1,
            r.player.shots@.len() == 0,
            r.invaders.cols == cols,
            r.invaders.rows == rows,
    {
        Game { player: Player::new(cols, rows), invaders: Invaders::new(cols, rows) }
    }

    /// Apply one input immediately, as the loop reads it: movement clamps at
    /// the edges, shooting is refused at capacity, quitting changes nothing.
    pub fn handle_input(&mut self, action: InputAction) -> (r: InputResponse)
        requires
            old(self).wf(),
        ensures
            final(self).wf(),
            final(self).invaders == old(self).invaders,
            final(self).player.cols == old(self).player.cols,
            final(self).player.y == old(self).player.y,
            r.quit == (action is Quit),
            action is Left ==> ({
                &&& !r.fired
                &&& final(self).player.shots@ == old(self).player.shots@
                &&& old(self).player.x > 0 ==> final(self).player.x == old(self).player.x - 1
                &&& old(self).player.x == 0 ==> final(self).player.x == old(self).player.x
            }),
            action is Right ==> ({
                &&& !r.fired
                &&& final(self).player.shots@ == old(self).player.shots@
                &&& old(self).player.x + 1 < old(self).player.cols ==> final(self).player.x == old(
                    self).player.x + 1
                &&& old(self).player.x + 1 == old(self).player.cols ==> final(self).player.x
                    == old(self).player.x
            }),
            action is Shoot ==> ({
                &&& final(self).player.x == old(self).player.x
                &&& r.fired == (old(self).player.shots@.len() < MAX_SHOTS)
                &&& r.fired ==> final(self).player.shots@ == old(self).player.shots@.push(
                    Shot::fresh(old(self).player.x, (old(self).player.y - 1) as usize))
                &&& !r.fired ==> final(self).player == old(self).player
            }),
            action is Quit ==> !r.fired && final(self).player == old(self).player,
    {
        match action {
            InputAction::Left => {
                self.player.move_left();
                InputResponse { fired: false, quit: false }
            },
            InputAction::Right => {
                self.player.move_right();
                InputResponse { fired: false, quit: false }
            },
            InputAction::Shoot => {
                let fired = self.player.shoot();
                InputResponse { fired, quit: false }
            },
            InputAction::Quit => InputResponse { fired: false, quit: true },
        }
    }

    /// One simulation tick, in the loop's fixed order: age and prune the
    /// player's shots, resolve collisions, move the formation, draw the
    /// player then the formation into a fresh frame, then check win before
    /// lose — a tick on which the last invader dies is a win even if an
    /// invader also stands on the player's row.
    pub fn tick(&mut self, delta_ms: u64) -> (r: TickResult)
        requires
            old(self).wf(),
            !old(self).invaders.spec_reached_bottom(),
        ensures
            final(self).wf(),
            final(self).player.cols == old(self).player.cols,
            final(self).player.x == old(self).player.x,
            final(self).player.y == old(self).player.y,
            final(self).invaders.cols == old(self).invaders.cols,
            final(self).invaders.rows == old(self).invaders.rows,
            ({
                let shots1 = pruned(advanced(old(self).player.shots@, delta_ms));
                let t = resolved(shots1, old(self).invaders.army@);
                let f = formation_step(
                    t.1,
                    old(self).invaders.direction,
                    old(self).invaders.timer_ms,
                    delta_ms,
                    old(self).invaders.cols as int,
                );
                &&& final(self).player.shots@ == t.0
                &&& r.hit == t.2
                &&& final(self).invaders.army@ == f.0
                &&& final(self).invaders.direction == f.1
                &&& final(self).invaders.timer_ms == f.2
                &&& r.moved == f.3
                &&& r.outcome == (if f.0.len() == 0 {
                    Some(Outcome::Win)
                } else if reached_bottom_in(f.0, old(self).invaders.rows as int) {
                    Some(Outcome::Lose)
                } else {
                    None
                })
                &&& r.frame.wf()
                &&& r.frame.spec_cols() == old(self).invaders.cols
                &&& r.frame.spec_rows() == old(self).invaders.rows
                &&& forall|cx: int, cy: int|
                    0 <= cx < old(self).invaders.cols && 0 <= cy < old(self).invaders.rows
                        ==> r.frame.at(cx, cy) == (if occupied_in(f.0, cx, cy) {
                        spec_invader_glyph(f.2, f.0.len() as int)
                    } else {
                        match paint_at(final(self).player, cx, cy) {
                            Some(g) => g,
                            None => BLANK,
                        }
                    })
            }),
    {
        self.player.update(delta_ms);
        let hit = self.player.detect_hits(&mut self.invaders);
        let moved = self.invaders.update(delta_ms);
        let mut frame = new_frame(self.invaders.cols, self.invaders.rows);
        self.player.draw(&mut frame);
        let ghost after_player = frame;
        self.invaders.draw(&mut frame);
        let outcome = if self.invaders.all_dead() {
            Some(Outcome::Win)
        } else if self.invaders.reached_bottom() {
            Some(Outcome::Lose)
        } else {
            None
        };
        proof {
            assert forall|cx: int, cy: int|
                0 <= cx < old(self).invaders.cols && 0 <= cy < old(self).invaders.rows
                implies frame.at(cx, cy) == (if occupied_in(self.invaders.army@, cx, cy) {
                spec_invader_glyph(self.invaders.timer_ms as int, self.invaders.army@.len() as int)
            } else {
                match paint_at(self.player, cx, cy) {
                    Some(g) => g,
                    None => BLANK,
                }
            }) by {
                if !occupied_in(self.invaders.army@, cx, cy) {
                    assert(frame.at(cx, cy) == after_player.at(cx, cy));
                }
            }
        }
        TickResult { hit, moved, frame, outcome }
    }
}

} // verus!
