use crate::parse::{framed_body, framed_body_spec};
use crate::protocol::parser::login::login_plugin_request::{self as body_parser, login_plugin_request_spec};
use crate::protocol::parser::mapper;
use vstd::prelude::*;

verus! {

/// Fields of a whole login plugin request frame: the message id (as one byte), channel
/// and data.
pub open spec fn framed_login_plugin_request_spec(p: Seq<u8>) -> Option<(Seq<u8>, Seq<char>, Seq<char>)> {
    match framed_body_spec(p, mapper::LOGIN_PLUGIN_REQUEST, 2) {
        None => None,
        Some(b) => match login_plugin_request_spec(b) {
            None => None,
            Some((id, c, d)) => Some((seq![id], c, d)),
        },
    }
}

/// Reads a whole login plugin request frame; see [`framed_login_plugin_request_spec`].
pub fn parse(pkt: Vec<u8>) -> (r: Option<(Vec<u8>, String, String)>)
    ensures
        match r {
            Some((id, c, d)) => framed_login_plugin_request_spec(pkt@) == Some((id@, c@, d@)),
            None => framed_login_plugin_request_spec(pkt@) is None,
        },
{
    let body = match framed_body(&pkt, mapper::LOGIN_PLUGIN_REQUEST, 2) {
        Some(b) => b,
        None => {
            return None;
        },
    };
    match body_parser::parse(body) {
        Some((id, c, d)) => {
            let mut idv: Vec<u8> = Vec::new();
            idv.push(id);
            proof {
                assert(idv@ =~= seq![id]);
            }
            Some((idv, c, d))
        },
        None => None,
    }
}

} // verus!
