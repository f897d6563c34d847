//! Namespaces: registers by name, each holding a value or a type.
//!
//! A namespace is a list of entries. The first entry under a name is the
//! one that counts; writing under a name that is there replaces it.

use vstd::prelude::*;
use crate::methods::signature_view;
use crate::value::{closure_view, copy_type, copy_value, TypeDef, Value};

verus! {

/// The registers of values.
pub type Namespace = Vec<(String, Value)>;

/// The registers of types.
pub type Typespace = Vec<(String, TypeDef)>;

/// The place of the first entry under `key` from `at` on, or the number of entries.
pub open spec fn place_from<V>(entries: Seq<(Seq<char>, V)>, key: Seq<char>, at: int) -> int
    decreases entries.len() - at,
{
    if 0 <= at < entries.len() && entries[at].0 != key {
        place_from(entries, key, at + 1)
    } else {
        at
    }
}

/// What a namespace holds under `key`, if anything.
pub open spec fn found<V>(entries: Seq<(Seq<char>, V)>, key: Seq<char>) -> Option<V> {
    let place = place_from(entries, key, 0);
    if 0 <= place < entries.len() {
        Some(entries[place].1)
    } else {
        None
    }
}

/// The namespace with `value` under `key`: in place of what was there, or
/// as a new last entry.
pub open spec fn stored<V>(entries: Seq<(Seq<char>, V)>, key: Seq<char>, value: V) -> Seq<
    (Seq<char>, V),
> {
    let place = place_from(entries, key, 0);
    if 0 <= place < entries.len() {
        entries.update(place, (key, value))
    } else {
        entries.push((key, value))
    }
}

/// The value under `key`, if there is one.
pub fn read_value(values: &Namespace, key: &str) -> (out: Option<Value>)
    ensures
        match out {
            Some(value) => found(closure_view(*values), key@) == Some(value@),
            None => found(closure_view(*values), key@) is None,
        },
{
    let ghost entries = closure_view(*values);
    let mut at: usize = 0;
    while at < values.len()
        invariant
            at <= values.len(),
            entries == closure_view(*values),
            place_from(entries, key@, 0) == place_from(entries, key@, at as int),
        decreases values.len() - at,
    {
        if crate::string::same_text(values[at].0.as_str(), key) {
            return Some(copy_value(&values[at].1));
        }
        at += 1;
    }
    None
}

/// The type under `key`, if there is one.
pub fn read_type(types: &Typespace, key: &str) -> (out: Option<TypeDef>)
    ensures
        match out {
            Some(typedef) => found(signature_view(*types), key@) == Some(typedef@),
            None => found(signature_view(*types), key@) is None,
        },
{
    let ghost entries = signature_view(*types);
    let mut at: usize = 0;
    while at < types.len()
        invariant
            at <= types.len(),
            entries == signature_view(*types),
            place_from(entries, key@, 0) == place_from(entries, key@, at as int),
        decreases types.len() - at,
    {
        if crate::string::same_text(types[at].0.as_str(), key) {
            return Some(copy_type(&types[at].1));
        }
        at += 1;
    }
    None
}

/// Writes a value under `key`.
pub fn write_value(values: &mut Namespace, key: &str, value: Value)
    ensures
        closure_view(*final(values)) == stored(closure_view(*old(values)), key@, value@),
{
    let ghost entries = closure_view(*values);
    let mut at: usize = 0;
    while at < values.len()
        invariant
            at <= values.len(),
            entries == closure_view(*values),
            values == old(values),
            place_from(entries, key@, 0) == place_from(entries, key@, at as int),
        decreases values.len() - at,
    {
        if crate::string::same_text(values[at].0.as_str(), key) {
            values.set(at, (key.to_owned(), value));
            assert(closure_view(*values) =~= stored(entries, key@, value@));
            return ;
        }
        at += 1;
    }
    values.push((key.to_owned(), value));
    assert(closure_view(*values) =~= stored(entries, key@, value@));
}

/// Writes a type under `key`.
pub fn write_type(types: &mut Typespace, key: &str, typedef: TypeDef)
    ensures
        signature_view(*final(types)) == stored(signature_view(*old(types)), key@, typedef@),
{
    let ghost entries = signature_view(*types);
    let mut at: usize = 0;
    while at < types.len()
        invariant
            at <= types.len(),
            entries == signature_view(*types),
            types == old(types),
            place_from(entries, key@, 0) == place_from(entries, key@, at as int),
        decreases types.len() - at,
    {
        if crate::string::same_text(types[at].0.as_str(), key) {
            types.set(at, (key.to_owned(), typedef));
            assert(signature_view(*types) =~= stored(entries, key@, typedef@));
            return ;
        }
        at += 1;
    }
    types.push((key.to_owned(), typedef));
    assert(signature_view(*types) =~= stored(entries, key@, typedef@));
}

} // verus!
