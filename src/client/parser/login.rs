pub mod login_plugin_request;
