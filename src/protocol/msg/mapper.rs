//! Ids of the packets that the client sends.

use vstd::prelude::*;

verus! {

pub const HANDSHAKE: u8 = 0x00;

pub const LOGIN_START: u8 = 0x00;

pub const LOGIN_PLUGIN_RESPONSE: u8 = 0x02;

pub const PLUGIN_MESSAGE: u8 = 0x0D;

pub const CONFIRM_TP: u8 = 0x00;

pub const KEEP_LIVE: u8 = 0x12;

pub const RESPAWN: u8 = 0x07;

pub const CHAT_MESSAGE: u8 = 0x05;

pub const CHAT_COMMAND: u8 = 0x04;

pub const CLIENT_INFORMATION: u8 = 0x08;

} // verus!
