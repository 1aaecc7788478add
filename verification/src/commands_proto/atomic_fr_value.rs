use vstd::prelude::*;
use crate::value_structs::AtomicView;

verus! {

/// The kinds of atomic value.
#[derive(Clone, PartialEq, Eq, Hash, Debug)]
pub enum Value {
    IntValue(i32),
    StringValue(String),
    BoolValue(bool),
}

impl View for Value {
    type V = AtomicView;

    open spec fn view(&self) -> AtomicView {
        match self {
            Value::IntValue(i) => AtomicView::Int(*i),
            Value::StringValue(s) => AtomicView::Str(s@),
            Value::BoolValue(b) => AtomicView::Bool(*b),
        }
    }
}

} // verus!
