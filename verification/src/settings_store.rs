//! Persistent settings (not kept yet).
use vstd::prelude::*;

verus! {

/// Initializes the settings store; there is nothing to set up yet.
pub fn init() {
}

} // verus!
