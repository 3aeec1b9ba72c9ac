pub mod login_plugin_response;
