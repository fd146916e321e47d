//! The server-authoritative core of a multiplayer space game: the world and
//! its tick, the messages that carry it to clients, and the state that
//! connections share.
//!
//! Numbers of the motion model are carried as IEEE 754 bit patterns
//! ([`math::Scalar`]). The library compares them, flips their sign and moves
//! them; arithmetic on them is done by the caller.

pub mod client;
pub mod connection;
pub mod entities;
pub mod game;
pub mod ids;
pub mod math;
pub mod network;
pub mod physics;
pub mod session;
pub mod world;

pub use client::{NetworkedPlayer, Player};
pub use entities::{Asteroid, Color, Ship};
pub use game::Game;
pub use math::{Scalar, Vec2};
pub use network::{ClientInput, DeltaState, GameState, ServerMessage, ShipUpdate};
pub use physics::{
    check_collision, collides_with_any, validate_input, wrap_position, Input, PhysicsConstants,
};
pub use session::GameSnapshot;
