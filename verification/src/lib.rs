//! Core of a chat backend: a verified room registry with membership and
//! fan-out bookkeeping, the per-connection session state machine, the wire
//! codec for chat payloads, and the query builders used by the surrounding
//! storage layer.

pub mod codec;
pub mod laws;
pub mod query_builder;
pub mod query_builder_basic;
pub mod registry;
pub mod room;
pub mod session;
pub mod text;
