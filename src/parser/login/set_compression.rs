pub use crate::parse::set_compression::parse;
