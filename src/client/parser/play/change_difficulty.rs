pub use crate::protocol::parser::play::change_difficulty::parse;
