pub use crate::protocol::msg::play::respawn::new;
