use crate::protocol::msg::mapper;
use crate::protocol::msg::{build_frame, outbound_frame};
use vstd::prelude::*;

verus! {

/// Echoes a keep-alive: the id bytes go back exactly as they came.
pub fn new(id: Vec<u8>, compress: bool) -> (r: Vec<u8>)
    ensures
        r@ == outbound_frame(mapper::KEEP_LIVE, id@, compress),
{
    build_frame(mapper::KEEP_LIVE, id, compress)
}

} // verus!
