use crate::protocol::parser::{be_nat, le_nat, lemma_pow256_four, read_be, read_le};
use crate::util::transfer_var::{read_varint, varint_at};
use vstd::prelude::*;

verus! {

/// Fields of a sync-player-position body: the bits of x, y and z (big-endian IEEE 754
/// doubles), of yaw and pitch (singles, read little-endian), whether the position is
/// absolute (flags byte 0), and the teleport id.
pub open spec fn sync_player_position_spec(p: Seq<u8>) -> Option<
    (u64, u64, u64, u32, u32, bool, i32),
> {
    if p.len() < 33 {
        None
    } else {
        match varint_at(p.subrange(33, p.len() as int)) {
            None => None,
            Some((_, tp_id)) => Some(
                (
                    be_nat(p.subrange(0, 8)) as u64,
                    be_nat(p.subrange(8, 16)) as u64,
                    be_nat(p.subrange(16, 24)) as u64,
                    le_nat(p.subrange(24, 28)) as u32,
                    le_nat(p.subrange(28, 32)) as u32,
                    p[32] == 0,
                    tp_id,
                ),
            ),
        }
    }
}

/// Reads a sync-player-position body; see [`sync_player_position_spec`].
pub fn parse(pkt: Vec<u8>) -> (r: Option<(u64, u64, u64, u32, u32, bool, i32)>)
    ensures
        r == sync_player_position_spec(pkt@),
{
    if pkt.len() < 33 {
        return None;
    }
    let x = read_be(&pkt, 0, 8);
    let y = read_be(&pkt, 8, 8);
    let z = read_be(&pkt, 16, 8);
    let yaw = read_le(&pkt, 24, 4);
    let pitch = read_le(&pkt, 28, 4);
    proof {
        lemma_pow256_four();
    }
    let is_abs = pkt[32] == 0;
    match read_varint(&pkt, 33) {
        Some((_, tp_id)) => Some((x, y, z, yaw as u32, pitch as u32, is_abs, tp_id)),
        None => None,
    }
}

} // verus!
