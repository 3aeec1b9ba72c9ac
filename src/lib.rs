//! Client-side core of a length-prefixed, optionally compressed game protocol: the VarInt
//! codec, frame reassembly over a byte stream, the compression layer, packet builders and
//! parsers, and the session state machine that ties them together.

/// The VarInt codec, byte helpers and stream splitting.
pub mod util;

/// Frames back from an arbitrarily chunked stream.
pub mod reassembly;

/// One frame resolved to packet id and body.
pub mod frame;

/// Builders, parsers and the session state machine.
pub mod protocol;

/// Commands from the console.
pub mod command;

/// Startup settings.
pub mod config;

/// The authentication service's messages and the decisions on them.
pub mod yggdrasil;

/// Early builders of the pre-session packets.
pub mod msg;

/// Early builders and parsers in the compressed layout.
pub mod client;

/// Early parsers of whole uncompressed-length frames.
pub mod parse;

/// Early parsers of whole frames in the compressed layout.
pub mod parser;
