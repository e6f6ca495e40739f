//! Simulation core of a top-down arcade game in which player-held lights
//! attract colored fireflies across a tile world toward scoring zones.
//!
//! Positions are whole pixels; distances carry a sub-pixel remainder in
//! fixed point; headings are whole degrees with table sine and cosine.
//! Chance comes from a seeded generator that the caller owns.

pub mod geometry;
pub mod random;
pub mod palette;
pub mod world;
pub mod camera;
pub mod particles;
pub mod player;
pub mod firefly;
pub mod text;
pub mod fireflies;
pub mod state;
pub mod messages;
