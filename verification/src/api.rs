//! The operator's interface, as far as it decides anything.

use vstd::prelude::*;

verus! {

/// The status of an answer that carries what was asked for.
pub const OK: u16 = 200;

/// The status of an answer to a question about a capture that is not in
/// the store.
pub const NOT_FOUND: u16 = 404;

/// The status of the answer to a question about one capture.
pub fn lookup_status(found: bool) -> (r: u16)
    ensures
        r == if found {
            OK
        } else {
            NOT_FOUND
        },
{
    if found {
        OK
    } else {
        NOT_FOUND
    }
}

} // verus!
