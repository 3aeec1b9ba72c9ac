pub mod chat_command;
pub mod chat_message;
pub mod client_information;
pub mod confirm_tp;
pub mod keep_live;
pub mod plugin_message;
pub mod respawn;
