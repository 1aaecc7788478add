//! The messages exchanged with clients of the cache.
use vstd::prelude::*;

pub mod atomic_fr_value;
pub mod fr_key;
pub mod fr_value;
pub mod int_command;
pub mod list_command;
pub mod set_commnad;

verus! {

/// A key of the cache.
#[derive(Clone, PartialEq, Eq, Hash, Debug)]
pub struct FrKey {
    pub key: Option<fr_key::Key>,
}

impl View for FrKey {
    type V = Option<Seq<char>>;

    open spec fn view(&self) -> Option<Seq<char>> {
        match self.key {
            Some(fr_key::Key::StringKey(s)) => Some(s@),
            None => None,
        }
    }
}

/// A single integer, string or boolean value.
#[derive(Clone, PartialEq, Eq, Hash, Debug)]
pub struct AtomicFrValue {
    pub value: Option<atomic_fr_value::Value>,
}

/// The elements of a set value, in no particular order.
#[derive(Clone, PartialEq, Eq, Hash, Debug)]
pub struct SetValue {
    pub values: Vec<AtomicFrValue>,
}

/// The elements of a list value, in order.
#[derive(Clone, PartialEq, Eq, Hash, Debug)]
pub struct ListValue {
    pub values: Vec<AtomicFrValue>,
}

/// A value together with the moment (microseconds since the Unix epoch) at which
/// it expires; `NO_EXPIRY` means never.
#[derive(Clone, PartialEq, Eq, Hash, Debug)]
pub struct FrValue {
    pub value: Option<fr_value::Value>,
    pub expiry_timestamp_micros: u64,
}

/// A request to store `value` under `key`.
#[derive(Clone, PartialEq, Eq, Hash, Debug)]
pub struct SetRequest {
    pub key: Option<FrKey>,
    pub value: Option<FrValue>,
    pub only_if_not_exists: bool,
    pub return_value: bool,
}

/// The answer to a get or a set request.
#[derive(Clone, PartialEq, Eq, Hash, Debug)]
pub struct FrResponse {
    pub value: Option<FrValue>,
}

/// The answer to an integer, list or set command.
#[derive(Clone, PartialEq, Eq, Hash, Debug)]
pub struct FrAtomicResponse {
    pub value: Option<AtomicFrValue>,
}

/// A command on an integer value.
#[derive(Clone, PartialEq, Eq, Hash, Debug)]
pub struct IntCommand {
    pub key: Option<FrKey>,
    pub command: Option<int_command::Command>,
}

/// A command on a list value.
#[derive(Clone, PartialEq, Eq, Hash, Debug)]
pub struct ListCommand {
    pub key: Option<FrKey>,
    pub command: Option<list_command::Command>,
}

/// A command on a set value.
#[derive(Clone, PartialEq, Eq, Hash, Debug)]
pub struct SetCommnad {
    pub key: Option<FrKey>,
    pub command: Option<set_commnad::Command>,
}

} // verus!
