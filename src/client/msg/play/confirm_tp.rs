pub use crate::protocol::msg::play::confirm_tp::new;
