use crate::protocol::msg::mapper;
use crate::protocol::msg::{build_frame, outbound_frame};
use vstd::prelude::*;

verus! {

/// Asks the server to respawn the player (client command "perform respawn").
pub fn new(compress: bool) -> (r: Vec<u8>)
    ensures
        r@ == outbound_frame(mapper::RESPAWN, seq![0u8], compress),
{
    let mut body: Vec<u8> = Vec::new();
    body.push(0);
    proof {
        assert(body@ =~= seq![0u8]);
    }
    build_frame(mapper::RESPAWN, body, compress)
}

} // verus!
