//! A projectile fired by the player. A shot travels upward one cell at a
//! fixed cadence, transitions to an explosion when it hits an invader or
//! reaches its travel limit (the top row), and is pruned once the explosion
//! display time has elapsed.

use vstd::prelude::*;
use crate::frame::Frame;

verus! {

/// Milliseconds between one-cell moves of a travelling shot.
pub const SHOT_STEP_MS: u64 = 50;

/// Milliseconds an explosion stays on screen before the shot counts as dead.
pub const SHOT_EXPLODE_MS: u64 = 250;

/// Travelling-shot glyph.
pub const SHOT_GLYPH: char = '|';

/// Explosion glyph.
pub const EXPLOSION_GLYPH: char = '*';

/// One projectile: a position, an exploding flag, and a countdown that times
/// both travel steps and the explosion display.
#[derive(Clone, Copy, PartialEq, Eq, Structural, Debug)]
pub struct Shot {
    pub x: usize,
    pub y: usize,
    pub exploding: bool,
    pub timer_ms: u64,
}

impl Shot {
    /// A freshly fired shot at `(x, y)`: travelling, first move due after one
    /// full step interval.
    pub open spec fn fresh(x: usize, y: usize) -> Shot {
        Shot { x, y, exploding: false, timer_ms: SHOT_STEP_MS }
    }

    /// The shot after `delta_ms` of time has passed: the countdown shrinks;
    /// when it runs out a travelling shot moves up one cell and rearms, and
    /// on reaching the top row it turns into an explosion instead.
    pub open spec fn updated(self, delta_ms: u64) -> Shot {
        let t = if delta_ms >= self.timer_ms {
            0u64
        } else {
            (self.timer_ms - delta_ms) as u64
        };
        if t == 0 && !self.exploding {
            let ny = if self.y > 0 {
                (self.y - 1) as usize
            } else {
                0usize
            };
            if ny == 0 {
                Shot { y: ny, exploding: true, timer_ms: SHOT_EXPLODE_MS, ..self }
            } else {
                Shot { y: ny, timer_ms: SHOT_STEP_MS, ..self }
            }
        } else {
            Shot { timer_ms: t, ..self }
        }
    }

    /// The shot after being told it hit something.
    pub open spec fn after_explode(self) -> Shot {
        Shot { exploding: true, timer_ms: SHOT_EXPLODE_MS, ..self }
    }

    /// A shot is dead once its explosion display time has elapsed.
    pub open spec fn spec_dead(self) -> bool {
        self.exploding && self.timer_ms == 0
    }

    /// Glyph the shot paints: a bar while travelling, a star while exploding.
    pub open spec fn glyph(self) -> char {
        if self.exploding {
            EXPLOSION_GLYPH
        } else {
            SHOT_GLYPH
        }
    }

    pub fn new(x: usize, y: usize) -> (r: Shot)
        ensures
            r == Shot::fresh(x, y),
    {
        Shot { x, y, exploding: false, timer_ms: SHOT_STEP_MS }
    }

    /// Advance the shot's internal timer by `delta_ms`.
    pub fn update(&mut self, delta_ms: u64)
        ensures
            *final(self) == old(self).updated(delta_ms),
    {
        if delta_ms >= self.timer_ms {
            self.timer_ms = 0;
        } else {
            self.timer_ms = self.timer_ms - delta_ms;
        }
        if self.timer_ms == 0 && !self.exploding {
            if self.y > 0 {
                self.y = self.y - 1;
            }
            if self.y == 0 {
                self.exploding = true;
                self.timer_ms = SHOT_EXPLODE_MS;
            } else {
                self.timer_ms = SHOT_STEP_MS;
            }
        }
    }

    /// Turn the shot into an explosion (called when it hits an invader).
    pub fn explode(&mut self)
        ensures
            *final(self) == old(self).after_explode(),
    {
        self.exploding = true;
        self.timer_ms = SHOT_EXPLODE_MS;
    }

    /// Whether the shot should be pruned from its owner's collection.
    pub fn dead(&self) -> (r: bool)
        ensures
            r == self.spec_dead(),
    {
        self.exploding && self.timer_ms == 0
    }

    /// Paint the shot's glyph at its cell; every other cell is untouched.
    pub fn draw(&self, frame: &mut Frame)
        requires
            old(frame).wf(),
            self.x < old(frame).spec_cols(),
            self.y < old(frame).spec_rows(),
        ensures
            final(frame).wf(),
            final(frame).spec_cols() == old(frame).spec_cols(),
            final(frame).spec_rows() == old(frame).spec_rows(),
            final(frame).at(self.x as int, self.y as int) == self.glyph(),
            forall|cx: int, cy: int|
                0 <= cx < old(frame).spec_cols() && 0 <= cy < old(frame).spec_rows()
                    && !(cx == self.x && cy == self.y)
                    ==> final(frame).at(cx, cy) == old(frame).at(cx, cy),
    {
        let g = if self.exploding {
            EXPLOSION_GLYPH
        } else {
            SHOT_GLYPH
        };
        frame.set(self.x, self.y, g);
    }
}

} // verus!
