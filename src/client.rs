//! Early forms of the packet builders and parsers, which handle whole frames in the
//! compressed layout.

pub mod msg;
pub mod parser;
