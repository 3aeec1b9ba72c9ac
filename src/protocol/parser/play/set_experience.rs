use crate::protocol::parser::{be_nat, lemma_pow256_four, read_be};
use crate::util::transfer_var::{read_varint, varint_at};
use vstd::prelude::*;

verus! {

/// Fields of a set-experience body: the bits of the experience bar (a big-endian IEEE 754
/// single), the level and the total experience.
pub open spec fn set_experience_spec(p: Seq<u8>) -> Option<(u32, i32, i32)> {
    if p.len() < 4 {
        None
    } else {
        match varint_at(p.subrange(4, p.len() as int)) {
            None => None,
            Some((w, level)) => match varint_at(p.subrange(4 + w, p.len() as int)) {
                None => None,
                Some((_, total)) => Some((be_nat(p.subrange(0, 4)) as u32, level, total)),
            },
        }
    }
}

/// Reads a set-experience body; see [`set_experience_spec`].
pub fn parse(pkt: Vec<u8>) -> (r: Option<(u32, i32, i32)>)
    ensures
        r == set_experience_spec(pkt@),
{
    if pkt.len() < 4 {
        return None;
    }
    let bar = read_be(&pkt, 0, 4);
    proof {
        lemma_pow256_four();
    }
    let (w, level) = match read_varint(&pkt, 4) {
        Some(x) => x,
        None => {
            return None;
        },
    };
    match read_varint(&pkt, 4 + w) {
        Some((_, total)) => Some((bar as u32, level, total)),
        None => None,
    }
}

} // verus!
