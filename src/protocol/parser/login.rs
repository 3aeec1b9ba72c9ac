pub mod login_plugin_request;
pub mod login_success;
pub mod set_compression;
