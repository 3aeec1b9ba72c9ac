pub mod set_compression;
