use vstd::prelude::*;
use crate::commands_proto::{AtomicFrValue, ListValue, SetValue};

verus! {

/// The kinds of value a key can hold.
#[derive(Clone, PartialEq, Eq, Hash, Debug)]
pub enum Value {
    AtomicValue(AtomicFrValue),
    SetValue(SetValue),
    ListValue(ListValue),
}

} // verus!
