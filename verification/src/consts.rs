use vstd::prelude::*;

verus! {

/// The expiry timestamp that marks a key which never expires.
pub const NO_EXPIRY: u64 = 0;

} // verus!
