//! A grid snake simulation: a state machine that moves a snake on a fixed
//! grid in response to relative turn commands, detects collisions, grows the
//! snake on food and reports a reward per step.

pub mod direction;
pub mod stage;
pub mod snake;
pub mod apple;
pub mod game;
mod rng;
