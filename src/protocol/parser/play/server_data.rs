use crate::protocol::parser::{utf8_string, utf8_text};
use crate::util::bytes::sub_vec;
use vstd::prelude::*;

verus! {

/// Fields of a server data body: the message of the day and the icon, each UTF-8 text with
/// a one-byte length, then whether secure chat is enforced.
pub open spec fn server_data_spec(p: Seq<u8>) -> Option<(Seq<char>, Seq<u8>, bool)> {
    if p.len() < 1 || p.len() < 2 + p[0] as int {
        None
    } else {
        let n = p[0] as int;
        let m = p[1 + n] as int;
        if p.len() < 3 + n + m {
            None
        } else {
            match (utf8_text(p.subrange(1, 1 + n)), utf8_text(p.subrange(2 + n, 2 + n + m))) {
                (Some(motd), Some(_)) => Some((motd, p.subrange(2 + n, 2 + n + m), p[2 + n + m] == 1)),
                _ => None,
            }
        }
    }
}

/// The raw bytes of the message of the day in a server data body.
pub open spec fn motd_bytes(p: Seq<u8>) -> Seq<u8> {
    p.subrange(1, 1 + p[0] as int)
}

/// Reads a server data body; see [`server_data_spec`].
pub fn parse(pkt: Vec<u8>) -> (r: Option<(String, Vec<u8>, bool)>)
    ensures
        match r {
            Some((motd, icon, enforce)) => server_data_spec(pkt@) == Some((motd@, icon@, enforce)),
            None => server_data_spec(pkt@) is None,
        },
{
    if pkt.len() < 1 {
        return None;
    }
    let n = pkt[0] as usize;
    if pkt.len() < 2 + n {
        return None;
    }
    let m = pkt[1 + n] as usize;
    if pkt.len() < 3 + n + m {
        return None;
    }
    let motd = match utf8_string(&pkt, 1, 1 + n) {
        Some(s) => s,
        None => {
            return None;
        },
    };
    match utf8_string(&pkt, 2 + n, 2 + n + m) {
        Some(_) => {},
        None => {
            return None;
        },
    }
    let icon = sub_vec(&pkt, 2 + n, 2 + n + m);
    let enforce = pkt[2 + n + m] == 1;
    Some((motd, icon, enforce))
}

} // verus!
