//! Diff mode: both sides are listed over the same key space and the
//! data-map task matches the objects as they arrive from either side.
use vstd::prelude::*;

verus! {

/// The notice given once both sides have been listed.
pub fn diff_complete_notice() -> (r: &'static str)
    ensures
        r@ == "diff mode comparison complete — data_map will finalize output"@,
{
    "diff mode comparison complete — data_map will finalize output"
}

/// Diff mode keeps no state of its own beyond what the data-map task holds.
pub fn init_diff_state() {
}

} // verus!
