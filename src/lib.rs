//! Simulation core of a vertical swing-and-climb arcade game: a player body
//! that grapples onto floating anchors to climb as high as it can, with
//! fixed-point physics, a spawn and despawn cycle for the anchors, and the
//! game's state machine.
pub mod entities;
pub mod geometry;
pub mod hook;
pub mod laws;
pub mod lifecycle;
pub mod physics;
pub mod world;

pub use entities::{Anchor, Board, Player};
pub use geometry::Point;
pub use world::{GameState, HookLine, TickEvents, TickInput, World};
