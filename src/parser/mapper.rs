pub use crate::protocol::parser::mapper::{
    CHANGE_DIFFICULTY, KEEP_LIVE, LOGIN_PLUGIN_REQUEST, LOGIN_SUCCESS, SERVER_DATA,
    SET_COMPRESSION, SYNC_PLAYER_POSITION,
};
