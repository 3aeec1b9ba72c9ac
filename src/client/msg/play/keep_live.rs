use crate::protocol::msg::mapper;
use crate::protocol::msg::outbound_frame;
use crate::protocol::msg::play::keep_live as reply;
use vstd::prelude::*;

verus! {

/// Echoes a keep-alive id in the compressed layout.
pub fn new(id: Vec<u8>) -> (r: Vec<u8>)
    ensures
        r@ == outbound_frame(mapper::KEEP_LIVE, id@, true),
{
    reply::new(id, true)
}

} // verus!
