//! The session: packet builders, packet parsers and the state machine that uses them.

pub mod client;
pub mod msg;
pub mod parser;
pub mod text;
