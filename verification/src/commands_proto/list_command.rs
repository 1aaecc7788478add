use vstd::prelude::*;
use crate::commands_proto::AtomicFrValue;

verus! {

/// The list commands.
#[derive(Clone, PartialEq, Eq, Hash, Debug)]
pub enum Command {
    Append(AtomicFrValue),
    RemoveAt(i32),
    RemoveAll(AtomicFrValue),
    FirstAppearance(AtomicFrValue),
}

} // verus!
