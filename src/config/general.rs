use vstd::prelude::*;

verus! {

/// Account, servers and client language.
pub struct General {
    pub account: Account,
    pub auth_server: AuthServer,
    pub server: Server,
    pub lang: String,
}

/// The account to log in with; a password of "-" means offline, an empty one means ask.
pub struct Account {
    pub username: String,
    pub password: String,
}

/// The authentication server.
pub struct AuthServer {
    pub host: String,
    pub port: i64,
}

/// The game server.
pub struct Server {
    pub host: String,
    pub port: i64,
}

} // verus!
