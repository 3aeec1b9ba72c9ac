use crate::protocol::parser::{latin1, latin1_string};
use crate::util::bytes::sub_vec;
use vstd::prelude::*;

verus! {

/// Fields of a login success body: the 16-byte uuid, then the user name with a one-byte
/// length.
pub open spec fn login_success_spec(p: Seq<u8>) -> Option<(Seq<u8>, Seq<char>)> {
    if p.len() < 17 || p.len() < 17 + p[16] as int {
        None
    } else {
        Some((p.subrange(0, 16), latin1(p.subrange(17, 17 + p[16] as int))))
    }
}

/// Reads a login success body; see [`login_success_spec`].
pub fn parse(pkt: Vec<u8>) -> (r: Option<(Vec<u8>, String)>)
    ensures
        match r {
            Some((u, name)) => login_success_spec(pkt@) == Some((u@, name@)),
            None => login_success_spec(pkt@) is None,
        },
{
    if pkt.len() < 17 {
        return None;
    }
    let n = pkt[16] as usize;
    if pkt.len() < 17 + n {
        return None;
    }
    let uuid = sub_vec(&pkt, 0, 16);
    let username = latin1_string(&pkt, 17, 17 + n);
    Some((uuid, username))
}

} // verus!
