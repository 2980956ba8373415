//! A real-time session gateway library.
//!
//! Clients open a persistent bidirectional connection, authenticate with a
//! bearer token, are admitted into exactly one room bound to a resource
//! (script) identifier, and thereafter exchange messages fanned out to room
//! members and forwarded to an external message bus.
//!
//! This crate holds the coordination core as verified state machines: the
//! connection lifecycle, the heartbeat supervisor, the room admission and
//! fanout manager, and the bus-bridge link bookkeeping.  Transport, token
//! decoding, JSON parsing and the concrete store/bus backends live outside
//! the library and drive it by plain values.

pub mod auth;
pub mod broker;
pub mod codec;
pub mod conn;
pub mod heartbeat;
pub mod messages;
pub mod room;
pub mod room_manager;
pub mod store;
