use crate::protocol::parser::{utf8_string, utf8_text};
use vstd::prelude::*;

verus! {

/// The channel on which the server names its software.
pub open spec fn brand_channel() -> Seq<char> {
    "minecraft:brand"@
}

/// Fields of a plugin message body: the channel, and on the brand channel the data, each
/// UTF-8 text with a one-byte length. Data on other channels is not read.
pub open spec fn plugin_message_spec(p: Seq<u8>) -> Option<(Seq<char>, Seq<char>)> {
    if p.len() < 1 || p.len() < 1 + p[0] as int {
        None
    } else {
        let n = p[0] as int;
        match utf8_text(p.subrange(1, 1 + n)) {
            None => None,
            Some(channel) => if channel != brand_channel() {
                Some((channel, seq![]))
            } else if p.len() < 2 + n || p.len() < 2 + n + p[1 + n] as int {
                None
            } else {
                match utf8_text(p.subrange(2 + n, 2 + n + p[1 + n] as int)) {
                    None => None,
                    Some(data) => Some((channel, data)),
                }
            },
        }
    }
}

/// Reads a plugin message body; see [`plugin_message_spec`].
pub fn parse(pkt: Vec<u8>) -> (r: Option<(String, String)>)
    ensures
        match r {
            Some((c, d)) => plugin_message_spec(pkt@) == Some((c@, d@)),
            None => plugin_message_spec(pkt@) is None,
        },
{
    if pkt.len() < 1 {
        return None;
    }
    let n = pkt[0] as usize;
    if pkt.len() < 1 + n {
        return None;
    }
    let channel = match utf8_string(&pkt, 1, 1 + n) {
        Some(c) => c,
        None => {
            return None;
        },
    };
    let brand = String::from_str("minecraft:brand");
    if !channel.eq(&brand) {
        let data = String::new();
        proof {
            assert(data@ =~= Seq::<char>::empty());
        }
        return Some((channel, data));
    }
    if pkt.len() < 2 + n {
        return None;
    }
    let dn = pkt[1 + n] as usize;
    if pkt.len() < 2 + n + dn {
        return None;
    }
    match utf8_string(&pkt, 2 + n, 2 + n + dn) {
        Some(d) => Some((channel, d)),
        None => None,
    }
}

} // verus!
