pub mod change_difficulty;
pub mod disguised_chat_message;
pub mod keep_live;
pub mod plugin_message;
pub mod server_data;
pub mod set_experience;
pub mod set_health;
pub mod sync_player_position;
pub mod update_time;
