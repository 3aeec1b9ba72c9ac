pub mod login;
pub mod play;
