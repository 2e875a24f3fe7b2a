//! Authoritative movement and state synchronisation for a networked board game: the board
//! graph, junction occupancy, the per-player movement state machine, the server's move
//! validator and integrator, and the snapshots that keep every client's mirror in line.

pub mod client;
pub mod geometry;
pub mod map;
pub mod occupancy;
pub mod players;
pub mod protocol;
pub mod server;
pub mod session;
pub mod sync;
