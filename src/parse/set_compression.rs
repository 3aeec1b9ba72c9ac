use crate::parse::{framed_body, framed_body_spec};
use crate::protocol::parser::login::set_compression::{self as body_parser, set_compression_spec};
use crate::protocol::parser::mapper;
use vstd::prelude::*;

verus! {

/// Reads the threshold from a whole set-compression frame (length byte, then the id).
pub fn parse(pkt: Vec<u8>) -> (r: Option<i32>)
    ensures
        match framed_body_spec(pkt@, mapper::SET_COMPRESSION, 1) {
            Some(b) => r == set_compression_spec(b),
            None => r is None,
        },
{
    match framed_body(&pkt, mapper::SET_COMPRESSION, 1) {
        Some(b) => body_parser::parse(b),
        None => None,
    }
}

} // verus!
