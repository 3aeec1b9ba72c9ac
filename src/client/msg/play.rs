pub mod confirm_tp;
pub mod keep_live;
pub mod respawn;
