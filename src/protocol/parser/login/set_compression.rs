use crate::util::transfer_var::{read_varint, varint_at};
use vstd::prelude::*;

verus! {

/// The threshold that a set-compression body carries: its leading VarInt.
pub open spec fn set_compression_spec(p: Seq<u8>) -> Option<i32> {
    match varint_at(p) {
        Some((w, t)) => Some(t),
        None => None,
    }
}

/// Reads the compression threshold from a set-compression body.
pub fn parse(pkt: Vec<u8>) -> (r: Option<i32>)
    ensures
        r == set_compression_spec(pkt@),
{
    proof {
        assert(pkt@.subrange(0, pkt.len() as int) =~= pkt@);
    }
    match read_varint(&pkt, 0) {
        Some((w, t)) => Some(t),
        None => None,
    }
}

} // verus!
