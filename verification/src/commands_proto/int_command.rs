use vstd::prelude::*;

verus! {

/// The integer commands.
#[derive(Clone, PartialEq, Eq, Hash, Debug)]
pub enum Command {
    IncrementBy(i32),
}

} // verus!
