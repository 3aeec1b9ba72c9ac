use crate::protocol::parser::{latin1, latin1_string};
use vstd::prelude::*;

verus! {

/// Fields of a login plugin request body: message id, channel, then a marker byte 1 and
/// optionally the data, each text with a one-byte length.
pub open spec fn login_plugin_request_spec(p: Seq<u8>) -> Option<(u8, Seq<char>, Seq<char>)> {
    if p.len() < 2 {
        None
    } else {
        let n = p[1] as int;
        if p.len() < 3 + n || p[2 + n] != 1 {
            None
        } else if p.len() == 3 + n {
            Some((p[0], latin1(p.subrange(2, 2 + n)), seq![]))
        } else {
            let dn = p[3 + n] as int;
            if p.len() < 4 + n + dn {
                None
            } else {
                Some((p[0], latin1(p.subrange(2, 2 + n)), latin1(p.subrange(4 + n, 4 + n + dn))))
            }
        }
    }
}

/// Reads a login plugin request body; see [`login_plugin_request_spec`].
pub fn parse(pkt: Vec<u8>) -> (r: Option<(u8, String, String)>)
    ensures
        match r {
            Some((id, c, d)) => login_plugin_request_spec(pkt@) == Some((id, c@, d@)),
            None => login_plugin_request_spec(pkt@) is None,
        },
{
    if pkt.len() < 2 {
        return None;
    }
    let id = pkt[0];
    let n = pkt[1] as usize;
    if pkt.len() < 3 + n || pkt[2 + n] != 1 {
        return None;
    }
    let channel = latin1_string(&pkt, 2, 2 + n);
    if pkt.len() == 3 + n {
        let data = String::new();
        proof {
            assert(data@ =~= Seq::<char>::empty());
        }
        return Some((id, channel, data));
    }
    let dn = pkt[3 + n] as usize;
    if pkt.len() < 4 + n + dn {
        return None;
    }
    let data = latin1_string(&pkt, 4 + n, 4 + n + dn);
    Some((id, channel, data))
}

} // verus!
