pub mod bytes;
pub mod split;
pub mod transfer;
pub mod transfer_var;
