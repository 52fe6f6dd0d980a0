//! Authoritative core of a multiplayer space-combat arena server.
//!
//! The crate holds the parts of a room that are decided with integers,
//! booleans and collections: the per-ship input queue, the entity store
//! and its link to physics bodies, the systems of a tick that work on the
//! store, the tick and snapshot counters, the snapshot and the debug view
//! of the physics world, the message schema and the room's roster. Every
//! real number is carried as its IEEE-754 bit pattern and never
//! interpreted here; integration, trigonometry and clamping are done by
//! the host around this crate.

pub mod components;
pub mod input;
pub mod messages;
pub mod queries;
pub mod room;
pub mod simulation;
pub mod snapshot;
pub mod store;
pub mod systems;
pub mod wire_format;
