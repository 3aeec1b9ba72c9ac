use crate::protocol::parser::{be_nat, lemma_pow256_four, read_be};
use crate::util::transfer_var::{read_varint, varint_at};
use vstd::prelude::*;

verus! {

/// Fields of a set-health body: the bits of the health (a big-endian IEEE 754 single), the
/// food level, and the bits of the saturation (likewise).
pub open spec fn set_health_spec(p: Seq<u8>) -> Option<(u32, i32, u32)> {
    if p.len() < 4 {
        None
    } else {
        match varint_at(p.subrange(4, p.len() as int)) {
            None => None,
            Some((w, food)) => if p.len() < 8 + w {
                None
            } else {
                Some(
                    (
                        be_nat(p.subrange(0, 4)) as u32,
                        food,
                        be_nat(p.subrange(4 + w, 8 + w)) as u32,
                    ),
                )
            },
        }
    }
}

/// Reads a set-health body; see [`set_health_spec`].
pub fn parse(pkt: Vec<u8>) -> (r: Option<(u32, i32, u32)>)
    ensures
        r == set_health_spec(pkt@),
{
    if pkt.len() < 4 {
        return None;
    }
    let health = read_be(&pkt, 0, 4);
    proof {
        lemma_pow256_four();
    }
    let (w, food) = match read_varint(&pkt, 4) {
        Some(x) => x,
        None => {
            return None;
        },
    };
    if pkt.len() - 4 - w < 4 {
        return None;
    }
    let saturation = read_be(&pkt, 4 + w, 4);
    Some((health as u32, food, saturation as u32))
}

} // verus!
