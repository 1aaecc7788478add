use vstd::prelude::*;
use crate::commands_proto::AtomicFrValue;

verus! {

/// The set commands.
#[derive(Clone, PartialEq, Eq, Hash, Debug)]
pub enum Command {
    Add(AtomicFrValue),
    Remove(AtomicFrValue),
    Contains(AtomicFrValue),
}

} // verus!
