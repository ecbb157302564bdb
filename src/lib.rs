//! Simulation core of a scrolling boat-combat arcade game: terrain
//! generation, spawning, movement and aiming, combat resolution, difficulty
//! and score. Positions and sizes count thousandths of a world unit, angles
//! count microradians, and time counts milliseconds.
use vstd::prelude::*;

pub mod geometry;
pub mod angle;
pub mod timer;
mod random;
pub mod entity;
pub mod event;
pub mod combat;
pub mod environment;
pub mod score;
pub mod difficulty;
pub mod power_up;
pub mod motion;
pub mod spawner;
pub mod game;

verus! {

} // verus!
