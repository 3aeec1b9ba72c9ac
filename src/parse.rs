//! Early parsers that take a whole uncompressed-length frame: a one-byte length, then the
//! packet id at a fixed place, then the body.

pub mod keep_live;
pub mod login_success;
pub mod set_compression;

use crate::util::bytes::sub_vec;
use vstd::prelude::*;

verus! {

/// The body of a whole frame whose one-byte length matches and whose byte at `id_at` is
/// `id`: the bytes after that id.
pub open spec fn framed_body_spec(p: Seq<u8>, id: u8, id_at: int) -> Option<Seq<u8>> {
    if p.len() == 0 || p.len() - 1 != p[0] as int || p.len() <= id_at || p[id_at] != id {
        None
    } else {
        Some(p.subrange(id_at + 1, p.len() as int))
    }
}

/// Checks a whole frame's length byte and packet id and gives its body; see
/// [`framed_body_spec`].
pub fn framed_body(p: &Vec<u8>, id: u8, id_at: usize) -> (r: Option<Vec<u8>>)
    ensures
        match r {
            Some(b) => framed_body_spec(p@, id, id_at as int) == Some(b@),
            None => framed_body_spec(p@, id, id_at as int) is None,
        },
{
    if p.len() == 0 || p.len() - 1 != p[0] as usize || p.len() <= id_at || p[id_at] != id {
        None
    } else {
        Some(sub_vec(p, id_at + 1, p.len()))
    }
}

} // verus!
