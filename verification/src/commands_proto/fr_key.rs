use vstd::prelude::*;

verus! {

/// The forms a key can take.
#[derive(Clone, PartialEq, Eq, Hash, Debug)]
pub enum Key {
    StringKey(String),
}

} // verus!
