pub mod change_difficulty;
pub mod sync_player_position;
