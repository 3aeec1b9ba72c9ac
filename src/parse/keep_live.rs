use crate::parse::{framed_body, framed_body_spec};
use crate::protocol::parser::mapper;
use vstd::prelude::*;

verus! {

/// Reads the keep-alive id from a whole keep-alive frame.
pub fn parse(pkt: Vec<u8>) -> (r: Option<Vec<u8>>)
    ensures
        match r {
            Some(id) => framed_body_spec(pkt@, mapper::KEEP_LIVE, 2) == Some(id@),
            None => framed_body_spec(pkt@, mapper::KEEP_LIVE, 2) is None,
        },
{
    framed_body(&pkt, mapper::KEEP_LIVE, 2)
}

} // verus!
