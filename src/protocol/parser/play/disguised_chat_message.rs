use crate::protocol::parser::{read_string, string_at};
use crate::util::transfer_var::{read_varint, varint_at};
use vstd::prelude::*;

verus! {

/// Fields of a disguised chat message body: the message, the chat type, the chat type's
/// name, whether a target name follows, and that name (empty when none follows). The texts
/// are protocol strings.
pub open spec fn disguised_chat_message_spec(p: Seq<u8>) -> Option<
    (Seq<char>, i32, Seq<char>, bool, Seq<char>),
> {
    match string_at(p) {
        None => None,
        Some((msg, a)) => match varint_at(p.subrange(a, p.len() as int)) {
            None => None,
            Some((w, chat_type)) => match string_at(p.subrange(a + w, p.len() as int)) {
                None => None,
                Some((name, b)) => {
                    let k = a + w + b;
                    if p.len() <= k {
                        None
                    } else if p[k] == 1 {
                        match string_at(p.subrange(k + 1, p.len() as int)) {
                            None => None,
                            Some((target, _)) => Some((msg, chat_type, name, true, target)),
                        }
                    } else {
                        Some((msg, chat_type, name, false, seq![]))
                    }
                },
            },
        },
    }
}

/// Reads a disguised chat message body; see [`disguised_chat_message_spec`].
pub fn parse(pkt: Vec<u8>) -> (r: Option<(String, i32, String, bool, String)>)
    ensures
        match r {
            Some((msg, chat_type, name, has_target, target)) => disguised_chat_message_spec(pkt@)
                == Some((msg@, chat_type, name@, has_target, target@)),
            None => disguised_chat_message_spec(pkt@) is None,
        },
{
    proof {
        assert(pkt@.subrange(0, pkt.len() as int) =~= pkt@);
    }
    let (msg, a) = match read_string(&pkt, 0) {
        Some(x) => x,
        None => {
            return None;
        },
    };
    let (w, chat_type) = match read_varint(&pkt, a) {
        Some(x) => x,
        None => {
            return None;
        },
    };
    let (name, b) = match read_string(&pkt, a + w) {
        Some(x) => x,
        None => {
            return None;
        },
    };
    let k = a + w + b;
    if pkt.len() <= k {
        return None;
    }
    if pkt[k] == 1 {
        match read_string(&pkt, k + 1) {
            Some((target, _)) => Some((msg, chat_type, name, true, target)),
            None => None,
        }
    } else {
        let target = String::new();
        proof {
            assert(target@ =~= Seq::<char>::empty());
        }
        Some((msg, chat_type, name, false, target))
    }
}

} // verus!
