//! Core of a terminal Space-Invaders game: a fixed-size frame buffer that
//! entities paint into, a player with capacity-limited shots, an invader
//! formation driven by a bounce-and-descend state machine, a collision
//! resolver, a diff-based renderer, and the per-tick decision logic of the
//! game loop. Terminal, keyboard and audio plumbing live outside the library
//! and exchange plain values with it.

pub mod frame;
pub mod game;
pub mod invaders;
pub mod player;
pub mod render;
pub mod shot;
