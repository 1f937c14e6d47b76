//! The server clock.

use vstd::prelude::*;

verus! {

/// Relies on `jsonwebtoken::get_current_timestamp`: seconds since the Unix
/// epoch by the system clock (it panics only on a clock set before 1970).
/// Nothing is known of the value: every caller is verified for all of them.
#[verifier::external_body]
pub(crate) fn current_timestamp() -> (r: u64) {
    jsonwebtoken::get_current_timestamp()
}

} // verus!
