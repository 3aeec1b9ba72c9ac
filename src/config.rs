//! Startup settings, as plain data.

pub mod buffer;
pub mod general;
pub mod log;

use vstd::prelude::*;

verus! {

/// All startup settings.
pub struct Config {
    pub general: general::General,
    pub buffer: buffer::Buffer,
    pub log: log::Log,
}

} // verus!
