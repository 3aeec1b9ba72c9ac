pub use crate::protocol::parser::play::keep_live::parse;
