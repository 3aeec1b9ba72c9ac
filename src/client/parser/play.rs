pub mod change_difficulty;
pub mod keep_live;
pub mod server_data;
pub mod sync_player_position;
