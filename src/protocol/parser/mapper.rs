//! Ids of the packets that the server sends, each meaningful in one state only.

use vstd::prelude::*;

verus! {

pub const LOGIN_SUCCESS: u8 = 0x02;

pub const SET_COMPRESSION: u8 = 0x03;

pub const LOGIN_PLUGIN_REQUEST: u8 = 0x04;

pub const KEEP_LIVE: u8 = 0x23;

pub const SYNC_PLAYER_POSITION: u8 = 0x3C;

pub const CHANGE_DIFFICULTY: u8 = 0x0C;

pub const SERVER_DATA: u8 = 0x45;

pub const PLUGIN_MESSAGE: u8 = 0x17;

pub const DISCONNECT: u8 = 0x1A;

pub const SYSTEM_CHAT_MESSAGE: u8 = 0x64;

pub const UPDATE_TIME: u8 = 0x5E;

pub const SET_EXPERIENCE: u8 = 0x56;

pub const SET_HEALTH: u8 = 0x57;

pub const DISGUISED_CHAT_MESSAGE: u8 = 0x1B;

} // verus!
