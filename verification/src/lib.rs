//! A procedural tether: a chain of rigid segments that grows, one link at a
//! time, between a stake anchored in the world and a moving target.
//!
//! The library decides and records; it moves nothing. A [`world::Tether`]
//! holds the state of the chain ([`chain::ChainInfo`]) together with the
//! bodies and the joints of its world. Whoever runs the simulation tells it
//! where the bodies are, calls [`world::Tether::tick`] once per step, and
//! makes in the physics engine what the tick reports: a stake and its
//! joint, or a new segment, a joint moved and a joint added.
//!
//! All quantities are whole numbers: lengths and coordinates in
//! millimetres, times in microseconds, compliance in millionths.
//!
//! [`laws`] states what holds of every tether over every run of events.

pub mod bodies;
pub mod chain;
pub mod cooldown;
pub mod geometry;
pub mod joints;
pub mod laws;
pub mod player;
pub mod world;
