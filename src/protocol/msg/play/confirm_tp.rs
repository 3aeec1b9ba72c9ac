use crate::protocol::msg::mapper;
use crate::protocol::msg::{build_frame, outbound_frame};
use crate::util::transfer_var::{push_varint, varint_bytes};
use vstd::prelude::*;

verus! {

/// Confirms teleport `id` (sent as a VarInt).
pub fn new(id: i32, compress: bool) -> (r: Vec<u8>)
    ensures
        r@ == outbound_frame(mapper::CONFIRM_TP, varint_bytes((id as u32) as nat), compress),
{
    let mut body: Vec<u8> = Vec::new();
    push_varint(&mut body, (#[verifier::truncate] (id as u32)) as u64);
    proof {
        assert(body@ =~= varint_bytes((id as u32) as nat));
    }
    build_frame(mapper::CONFIRM_TP, body, compress)
}

} // verus!
