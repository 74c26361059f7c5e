//! The store of captures, as far as the proxy knows it.

use vstd::prelude::*;
use vstd::string::StringExecFns;

verus! {

/// Why the store did not do what it was asked: whatever went wrong in it,
/// this is all that is told.
#[derive(Clone, Copy, Debug, PartialEq, Eq)]
pub enum StorageError {
    Unknown,
}

impl StorageError {
    /// The error in words.
    pub fn message(&self) -> (r: String)
        ensures
            r@ == "unknown storage error"@,
    {
        String::from_str("unknown storage error")
    }
}

} // verus!
