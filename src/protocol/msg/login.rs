pub mod login_plugin_response;
pub mod login_start;
