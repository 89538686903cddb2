//! Instructions that a test driver hands to a simulated backend.

use vstd::prelude::*;

verus! {

/// What a simulated backend is told to do for one request: which bucket it
/// really serves, and whether it should fail at random.
#[derive(Debug)]
pub struct BackendS3Instructions {
    pub real_bucket: String,
    pub rand_fail: bool,
}

} // verus!
