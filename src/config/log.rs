use vstd::prelude::*;

verus! {

/// Logging settings.
pub struct Log {
    pub log_level: String,
}

} // verus!
