//! Telemetry identifiers, protocol messages and the trace store of the telemetry viewer,
//! with their parsing, formatting and processing proved against mathematical models.

pub mod hexfmt;
pub mod text;
pub mod id;
pub mod protocol;
pub mod wire;
pub mod store;
pub mod filter;
pub mod selection;
pub mod connection;
pub mod command;
pub mod state;
pub mod server;
pub mod test_helpers;
pub mod collector;
pub mod pretty;
pub mod span;
pub mod timeline;
pub mod viewer;
