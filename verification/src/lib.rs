//! Client side of the landlord launcher: argument parsing, the wire protocol
//! and the decisions of the upload handshake and of the event multiplexer.

pub mod args;
pub mod bindings;
pub mod proto;
pub mod text;
