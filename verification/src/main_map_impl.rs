//! The requests the cache answers: each one is checked, carried out on the map, and
//! answered with a response or with a status that says why it failed.
use vstd::prelude::*;
use crate::commands::get::{entry_at, expire_key, get_from_map, maybe_entry_view};
use crate::commands::int_operations::{atomic_result_view, increment_fits, increment_outcome, int_increment};
use crate::commands::list_operations::{
    append_outcome, first_appearance_outcome, int_result_view, list_append, list_first_appearance,
    list_remove_by_index, list_remove_by_value, remove_all_outcome, remove_at_outcome,
};
use crate::commands::set::{set_outcome, set_value_in_map};
use crate::commands::set_operations::{
    bool_result_view, set_add, set_add_outcome, set_contains, set_contains_outcome, set_remove, set_remove_outcome,
};
use crate::commands_proto::{
    atomic_fr_value, int_command, list_command, set_commnad, AtomicFrValue, FrAtomicResponse,
    FrKey, FrResponse, IntCommand, ListCommand, SetCommnad, SetRequest,
};
use crate::dash_collections::{cache_map_contents, cache_map_len, cache_map_new};
use crate::value_structs::{
    atomic_message_view, fr_value_is_storable, message_describes, AtomicView, CacheFRMap,
    EntryView,
};

verus! {

/// Why a request failed.
#[derive(Clone, Copy, Debug, PartialEq, Eq, Structural)]
pub enum Code {
    InvalidArgument,
    NotFound,
    AlreadyExists,
    Aborted,
    Unimplemented,
}

/// A failed request's status: why it failed, and a message.
#[derive(Clone, Debug, PartialEq, Eq)]
pub struct Status {
    pub code: Code,
    pub message: String,
}

/// The status has the code and the message.
pub open spec fn status_is(s: Status, code: Code, message: Seq<char>) -> bool {
    s.code == code && s.message@ == message
}

/// A status with the code and the message.
fn status(code: Code, message: &str) -> (r: Status)
    ensures
        status_is(r, code, message@),
{
    Status { code, message: message.to_string() }
}

/// A status with the code and the message.
fn status_of(code: Code, message: String) -> (r: Status)
    ensures
        status_is(r, code, message@),
{
    Status { code, message }
}

/// The answer to an atomic command, from the command's result: the value, or a status
/// with `Aborted` and the command's error.
pub open spec fn atomic_answer(r: Result<FrAtomicResponse, Status>, outcome: Result<AtomicView, Seq<char>>) -> bool {
    match outcome {
        Ok(a) => r matches Ok(resp) && resp.value matches Some(m) && atomic_message_view(m) == Some(a),
        Err(e) => r matches Err(s) && status_is(s, Code::Aborted, e),
    }
}

/// The answer to a request that lacks its key or its command.
pub open spec fn refused(r: Result<FrAtomicResponse, Status>, code: Code, message: Seq<char>) -> bool {
    r matches Err(s) && status_is(s, code, message)
}

/// The answer to a get or set request is a status with the code and the message.
pub open spec fn response_refused(r: Result<FrResponse, Status>, code: Code, message: Seq<char>) -> bool {
    r matches Err(s) && status_is(s, code, message)
}

/// The cache: the map from keys to entries, and the requests it answers.
pub struct CacheFRMapImpl {
    pub map: CacheFRMap,
}

impl View for CacheFRMapImpl {
    type V = Map<Option<Seq<char>>, EntryView>;

    open spec fn view(&self) -> Map<Option<Seq<char>>, EntryView> {
        cache_map_contents(self.map)
    }
}

/// The values a list command carries all carry an atomic value.
pub open spec fn list_command_is_complete(request: ListCommand) -> bool {
    request.key is Some ==> match request.command {
        Some(list_command::Command::Append(v)) => v.value is Some,
        Some(list_command::Command::RemoveAll(v)) => v.value is Some,
        Some(list_command::Command::FirstAppearance(v)) => v.value is Some,
        _ => true,
    }
}

/// The value a set command carries carries an atomic value.
pub open spec fn set_command_is_complete(request: SetCommnad) -> bool {
    request.key is Some ==> match request.command {
        Some(set_commnad::Command::Add(v)) => v.value is Some,
        Some(set_commnad::Command::Remove(v)) => v.value is Some,
        Some(set_commnad::Command::Contains(v)) => v.value is Some,
        None => true,
    }
}

impl CacheFRMapImpl {
    /// A cache with no entry.
    pub fn new() -> (r: Self)
        ensures
            r@.is_empty(),
    {
        CacheFRMapImpl { map: cache_map_new() }
    }

    /// The number of entries the map holds, expired ones included.
    pub fn len(&self) -> (r: usize)
        ensures
            r == self@.len(),
    {
        cache_map_len(&self.map)
    }

    /// Answers a get: the entry under the key as a message, or `NotFound` when the key is
    /// absent or has expired (an expired entry is removed).
    pub fn get(&mut self, request: FrKey) -> (r: Result<FrResponse, Status>)
        ensures
            exists|now: u64| {
                &&& final(self)@ == expire_key(old(self)@, request@, now)
                &&& match entry_at(final(self)@, request@) {
                    Some(e) => r matches Ok(resp) && resp.value matches Some(v) && message_describes(v, e),
                    None => r matches Err(s) && status_is(s, Code::NotFound, "Key not found"@),
                }
            },
    {
        let ghost before = self@;
        let ghost k = request@;
        let maybe_value = get_from_map(&mut self.map, request);
        let ghost now = choose|now: u64| {
            &&& cache_map_contents(self.map) == expire_key(before, k, now)
            &&& maybe_entry_view(maybe_value) == entry_at(cache_map_contents(self.map), k)
        };
        let r = match maybe_value {
            Some(value) => Ok(FrResponse { value: Some(value.to_fr_value()) }),
            None => Err(status(Code::NotFound, "Key not found")),
        };
        proof {
            assert(self@ == expire_key(before, k, now));
        }
        r
    }

    /// Answers a set: a missing key or value is refused with `InvalidArgument`; a key that
    /// exists when only a new one is wanted is refused with `AlreadyExists`; otherwise the
    /// value is stored and, if asked for, handed back.
    pub fn set(&mut self, request: SetRequest) -> (r: Result<FrResponse, Status>)
        requires
            request.key is Some ==> (request.value matches Some(v) ==> fr_value_is_storable(v)),
        ensures
            match (request.key, request.value) {
                (None, _) => final(self)@ == old(self)@ && response_refused(r, Code::InvalidArgument, "key is required"@),
                (Some(_), None) => final(self)@ == old(self)@ && response_refused(r, Code::InvalidArgument, "value is required"@),
                (Some(k), Some(v)) => {
                    let (outcome, m) = set_outcome(old(self)@, k@, v, request.only_if_not_exists);
                    &&& final(self)@ == m
                    &&& match outcome {
                        Ok(_) => r == Ok::<FrResponse, Status>(FrResponse {
                            value: if request.return_value { Some(v) } else { None },
                        }),
                        Err(e) => r matches Err(s) && status_is(s, Code::AlreadyExists, e),
                    }
                },
            },
    {
        let key = match request.key {
            Some(k) => k,
            None => return Err(status(Code::InvalidArgument, "key is required")),
        };
        let value = match request.value {
            Some(v) => v,
            None => return Err(status(Code::InvalidArgument, "value is required")),
        };
        let result = set_value_in_map(&mut self.map, key, value, request.only_if_not_exists);
        match result {
            Ok(value) => if request.return_value {
                Ok(FrResponse { value: Some(value) })
            } else {
                Ok(FrResponse { value: None })
            },
            Err(e) => Err(status_of(Code::AlreadyExists, e)),
        }
    }

    /// Answers an integer command: a missing key is refused with `InvalidArgument`, a
    /// missing command with `Unimplemented`; an increment answers the new value, or
    /// `Aborted` with the command's error.
    pub fn int_operation(&mut self, request: IntCommand) -> (r: Result<FrAtomicResponse, Status>)
        requires
            request.key matches Some(k) ==> (request.command matches Some(int_command::Command::IncrementBy(n))
                ==> increment_fits(old(self)@, k@, n)),
        ensures
            match (request.key, request.command) {
                (None, _) => final(self)@ == old(self)@ && refused(r, Code::InvalidArgument, "key is required"@),
                (Some(_), None) => final(self)@ == old(self)@ && refused(r, Code::Unimplemented, "Not implemented"@),
                (Some(k), Some(int_command::Command::IncrementBy(n))) => exists|now: u64| #![trigger expire_key(old(self)@, k@, now)] {
                    let (outcome, m) = increment_outcome(expire_key(old(self)@, k@, now), k@, n);
                    final(self)@ == m && atomic_answer(r, outcome)
                },
            },
    {
        let key = match request.key {
            Some(k) => k,
            None => return Err(status(Code::InvalidArgument, "key is required")),
        };
        match request.command {
            Some(int_command::Command::IncrementBy(increment_by)) => {
                let result = int_increment(&mut self.map, key, increment_by);
                match result {
                    Ok(atomic_value) => Ok(FrAtomicResponse { value: Some(atomic_value.to_atomic_fr_value()) }),
                    Err(e) => Err(status_of(Code::Aborted, e)),
                }
            },
            None => Err(status(Code::Unimplemented, "Not implemented")),
        }
    }

    /// Answers a list command: a missing key is refused with `InvalidArgument`, a missing
    /// command with `Unimplemented`; otherwise the command's result, or `Aborted` with its
    /// error. Removing by value answers the number removed; finding answers the index.
    pub fn list_operation(&mut self, request: ListCommand) -> (r: Result<FrAtomicResponse, Status>)
        requires
            list_command_is_complete(request),
        ensures
            match (request.key, request.command) {
                (None, _) => final(self)@ == old(self)@ && refused(r, Code::InvalidArgument, "key is required"@),
                (Some(_), None) => final(self)@ == old(self)@ && refused(r, Code::Unimplemented, "Not implemented"@),
                (Some(k), Some(list_command::Command::Append(v))) => exists|now: u64| #![trigger expire_key(old(self)@, k@, now)] {
                    let (outcome, m) = append_outcome(expire_key(old(self)@, k@, now), k@, atomic_message_view(v).unwrap());
                    final(self)@ == m && atomic_answer(r, outcome)
                },
                (Some(k), Some(list_command::Command::RemoveAt(i))) => exists|now: u64| #![trigger expire_key(old(self)@, k@, now)] {
                    let (outcome, m) = remove_at_outcome(expire_key(old(self)@, k@, now), k@, i);
                    final(self)@ == m && atomic_answer(r, outcome)
                },
                (Some(k), Some(list_command::Command::RemoveAll(v))) => exists|now: u64| #![trigger expire_key(old(self)@, k@, now)] {
                    let (outcome, m) = remove_all_outcome(expire_key(old(self)@, k@, now), k@, atomic_message_view(v).unwrap());
                    &&& final(self)@ == m
                    &&& atomic_answer(r, match outcome { Ok(n) => Ok(AtomicView::Int(n)), Err(e) => Err(e) })
                },
                (Some(k), Some(list_command::Command::FirstAppearance(v))) => exists|now: u64| #![trigger expire_key(old(self)@, k@, now)] {
                    let (outcome, m) = first_appearance_outcome(expire_key(old(self)@, k@, now), k@, atomic_message_view(v).unwrap());
                    final(self)@ == m && atomic_answer(r, outcome)
                },
            },
    {
        let key = match request.key {
            Some(k) => k,
            None => return Err(status(Code::InvalidArgument, "key is required")),
        };
        let ghost before = self@;
        let ghost kv = key@;
        match request.command {
            Some(list_command::Command::Append(append_value)) => {
                let ghost v = atomic_message_view(append_value).unwrap();
                let result = list_append(&mut self.map, key, append_value);
                let ghost now = choose|now: u64| (atomic_result_view(result), self@) == append_outcome(expire_key(before, kv, now), kv, v);
                let r = match result {
                    Ok(atomic_value) => Ok(FrAtomicResponse { value: Some(atomic_value.to_atomic_fr_value()) }),
                    Err(e) => Err(status_of(Code::Aborted, e)),
                };
                proof {
                    assert(self@ == append_outcome(expire_key(before, kv, now), kv, v).1);
                }
                r
            },
            Some(list_command::Command::RemoveAt(remove_by_index)) => {
                let result = list_remove_by_index(&mut self.map, key, remove_by_index);
                let ghost now = choose|now: u64| (atomic_result_view(result), self@) == remove_at_outcome(expire_key(before, kv, now), kv, remove_by_index);
                let r = match result {
                    Ok(atomic_value) => Ok(FrAtomicResponse { value: Some(atomic_value.to_atomic_fr_value()) }),
                    Err(e) => Err(status_of(Code::Aborted, e)),
                };
                proof {
                    assert(self@ == remove_at_outcome(expire_key(before, kv, now), kv, remove_by_index).1);
                }
                r
            },
            Some(list_command::Command::RemoveAll(remove_by_value)) => {
                let ghost v = atomic_message_view(remove_by_value).unwrap();
                let result = list_remove_by_value(&mut self.map, key, remove_by_value);
                let ghost now = choose|now: u64| (int_result_view(result), self@) == remove_all_outcome(expire_key(before, kv, now), kv, v);
                let r = match result {
                    Ok(removed_count) => Ok(FrAtomicResponse {
                        value: Some(AtomicFrValue { value: Some(atomic_fr_value::Value::IntValue(removed_count)) }),
                    }),
                    Err(e) => Err(status_of(Code::Aborted, e)),
                };
                proof {
                    assert(self@ == remove_all_outcome(expire_key(before, kv, now), kv, v).1);
                }
                r
            },
            Some(list_command::Command::FirstAppearance(searched_value)) => {
                let ghost v = atomic_message_view(searched_value).unwrap();
                let result = list_first_appearance(&mut self.map, key, searched_value);
                let ghost now = choose|now: u64| (atomic_result_view(result), self@) == first_appearance_outcome(expire_key(before, kv, now), kv, v);
                let r = match result {
                    Ok(first_index) => Ok(FrAtomicResponse { value: Some(first_index.to_atomic_fr_value()) }),
                    Err(e) => Err(status_of(Code::Aborted, e)),
                };
                proof {
                    assert(self@ == first_appearance_outcome(expire_key(before, kv, now), kv, v).1);
                }
                r
            },
            None => Err(status(Code::Unimplemented, "Not implemented")),
        }
    }

    /// Answers a set command: a missing key is refused with `InvalidArgument`, a missing
    /// command with `Unimplemented`; otherwise the command's result, or `Aborted` with its
    /// error. Asking whether the set holds a value answers a boolean.
    pub fn set_operation(&mut self, request: SetCommnad) -> (r: Result<FrAtomicResponse, Status>)
        requires
            set_command_is_complete(request),
        ensures
            match (request.key, request.command) {
                (None, _) => final(self)@ == old(self)@ && refused(r, Code::InvalidArgument, "key is required"@),
                (Some(_), None) => final(self)@ == old(self)@ && refused(r, Code::Unimplemented, "Not implemented"@),
                (Some(k), Some(set_commnad::Command::Add(v))) => exists|now: u64| #![trigger expire_key(old(self)@, k@, now)] {
                    let (outcome, m) = set_add_outcome(expire_key(old(self)@, k@, now), k@, atomic_message_view(v).unwrap());
                    final(self)@ == m && atomic_answer(r, outcome)
                },
                (Some(k), Some(set_commnad::Command::Remove(v))) => exists|now: u64| #![trigger expire_key(old(self)@, k@, now)] {
                    let (outcome, m) = set_remove_outcome(expire_key(old(self)@, k@, now), k@, atomic_message_view(v).unwrap());
                    final(self)@ == m && atomic_answer(r, outcome)
                },
                (Some(k), Some(set_commnad::Command::Contains(v))) => exists|now: u64| #![trigger expire_key(old(self)@, k@, now)] {
                    let (outcome, m) = set_contains_outcome(expire_key(old(self)@, k@, now), k@, atomic_message_view(v).unwrap());
                    &&& final(self)@ == m
                    &&& atomic_answer(r, match outcome { Ok(b) => Ok(AtomicView::Bool(b)), Err(e) => Err(e) })
                },
            },
    {
        let key = match request.key {
            Some(k) => k,
            None => return Err(status(Code::InvalidArgument, "key is required")),
        };
        let ghost before = self@;
        let ghost kv = key@;
        match request.command {
            Some(set_commnad::Command::Add(add_value)) => {
                let ghost v = atomic_message_view(add_value).unwrap();
                let result = set_add(&mut self.map, key, add_value);
                let ghost now = choose|now: u64| (atomic_result_view(result), self@) == set_add_outcome(expire_key(before, kv, now), kv, v);
                let r = match result {
                    Ok(atomic_value) => Ok(FrAtomicResponse { value: Some(atomic_value.to_atomic_fr_value()) }),
                    Err(e) => Err(status_of(Code::Aborted, e)),
                };
                proof {
                    assert(self@ == set_add_outcome(expire_key(before, kv, now), kv, v).1);
                }
                r
            },
            Some(set_commnad::Command::Remove(remove_value)) => {
                let ghost v = atomic_message_view(remove_value).unwrap();
                let result = set_remove(&mut self.map, key, remove_value);
                let ghost now = choose|now: u64| (atomic_result_view(result), self@) == set_remove_outcome(expire_key(before, kv, now), kv, v);
                let r = match result {
                    Ok(atomic_value) => Ok(FrAtomicResponse { value: Some(atomic_value.to_atomic_fr_value()) }),
                    Err(e) => Err(status_of(Code::Aborted, e)),
                };
                proof {
                    assert(self@ == set_remove_outcome(expire_key(before, kv, now), kv, v).1);
                }
                r
            },
            Some(set_commnad::Command::Contains(searched_value)) => {
                let ghost v = atomic_message_view(searched_value).unwrap();
                let result = set_contains(&mut self.map, key, searched_value);
                let ghost now = choose|now: u64| (bool_result_view(result), self@) == set_contains_outcome(expire_key(before, kv, now), kv, v);
                let r = match result {
                    Ok(contains) => Ok(FrAtomicResponse {
                        value: Some(AtomicFrValue { value: Some(atomic_fr_value::Value::BoolValue(contains)) }),
                    }),
                    Err(e) => Err(status_of(Code::Aborted, e)),
                };
                proof {
                    assert(self@ == set_contains_outcome(expire_key(before, kv, now), kv, v).1);
                }
                r
            },
            None => Err(status(Code::Unimplemented, "Not implemented")),
        }
    }
}

} // verus!
