pub use crate::protocol::parser::play::sync_player_position::parse;
