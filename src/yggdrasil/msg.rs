pub mod authenticate;
pub mod refresh;
