use crate::parse::{framed_body, framed_body_spec};
use crate::protocol::parser::login::login_success::{self as body_parser, login_success_spec};
use crate::protocol::parser::mapper;
use vstd::prelude::*;

verus! {

/// Reads the uuid and user name from a whole login success frame.
pub fn parse(pkt: Vec<u8>) -> (r: Option<(Vec<u8>, String)>)
    ensures
        match r {
            Some((u, name)) => framed_body_spec(pkt@, mapper::LOGIN_SUCCESS, 2) matches Some(b)
                && login_success_spec(b) == Some((u@, name@)),
            None => framed_body_spec(pkt@, mapper::LOGIN_SUCCESS, 2) matches Some(b) ==> login_success_spec(b) is None,
        },
{
    match framed_body(&pkt, mapper::LOGIN_SUCCESS, 2) {
        Some(b) => body_parser::parse(b),
        None => None,
    }
}

} // verus!
