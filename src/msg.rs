//! Packets sent before the session is established, and early forms of two login packets.

pub mod handshake;
pub mod login_mod_check;
pub mod login_start;
