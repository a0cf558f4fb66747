//! Real-time event-distribution hub: a topic registry with bounded fan-out
//! buffers, per-connection subscription records, and the tagged wire protocol
//! that drives them.

pub mod api;
pub mod codec;
pub mod error;
pub mod hub;
pub mod laws;
pub mod messages;
pub mod models;
pub mod mux;
pub mod text;
pub mod uid;
