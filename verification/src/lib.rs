//! A verified input bridge for a fixed-rate simulation: a binding layer that
//! maps raw physical input to logical actions and axes, a pure wire codec for
//! the network protocol's action records, an append-only event log, and a
//! per-tick orchestrator that exchanges events with an asynchronous network
//! domain through a pair of non-blocking channels.

pub mod events;
pub mod codec;
pub mod bindings;
pub mod handler;
pub mod log;
pub mod bridge;
pub mod tick;

pub use events::Binding;
pub use events::PhysicalInput;
pub use events::SemanticInputEvent;
pub use events::WireActionRecord;
