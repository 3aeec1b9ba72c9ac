//! Early parsers that take a whole frame in the compressed layout.

pub mod login;
pub mod mapper;
pub mod play;
