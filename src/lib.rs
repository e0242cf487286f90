//! A particle-interaction engine driven one step at a time by a host.
//!
//! The library holds the particle store, the behaviour tree and the rules
//! that decide, for every particle and step, which forces act on it and which
//! tags it receives. Arithmetic on coordinates and the spatial index belong to
//! the host, which hands the library neighbour lists and coordinates as plain
//! values and applies the motions that a step returns.
pub mod behaviour;
pub mod engine;
pub mod tags;
pub mod text;

pub use behaviour::{evaluate, Kind, Motion, Node, Push, TagTest};
pub use engine::{SimError, Simulation};
pub use tags::TagMap;
