//! Reading TOML values with `toml`.

use vstd::prelude::*;

verus! {

/// A TOML value of `toml`.
#[verifier::external_type_specification]
#[verifier::external_body]
pub struct ExTomlValue(toml::Value);

/// A map of `toml`; a TOML table is one from names to values.
#[verifier::external_type_specification]
#[verifier::external_body]
#[verifier::reject_recursive_types(K)]
#[verifier::reject_recursive_types(V)]
pub struct ExTomlMap<K, V>(toml::map::Map<K, V>);

/// The table that a TOML value is; other values are none.
pub uninterp spec fn toml_table(value: toml::Value) -> Option<toml::Table>;

/// What a TOML table holds under each name.
pub uninterp spec fn table_members(table: toml::Table) -> Map<Seq<char>, toml::Value>;

/// The text of a TOML string; other values have none.
pub uninterp spec fn toml_text(value: toml::Value) -> Option<Seq<char>>;

/// What a TOML value holds under a name: nothing where it is no table.
pub open spec fn toml_lookup(value: toml::Value, name: Seq<char>) -> Option<toml::Value> {
    match toml_table(value) {
        Some(table) => if table_members(table).contains_key(name) {
            Some(table_members(table)[name])
        } else {
            None
        },
        None => None,
    }
}

/// The text that a TOML value holds under a name, if it holds a text there.
pub open spec fn toml_text_at(value: toml::Value, name: Seq<char>) -> Option<Seq<char>> {
    match toml_lookup(value, name) {
        Some(found) => toml_text(found),
        None => None,
    }
}

/// `toml::Value::as_table` gives the table that a value is, and nothing of a
/// value that is no table.
pub assume_specification[ toml::Value::as_table ](value: &toml::Value) -> (table: Option<
    &toml::Table,
>)
    ensures
        match table {
            Some(t) => toml_table(*value) == Some(*t),
            None => toml_table(*value) is None,
        },
;

/// `toml::Value::is_table` says whether a value is a table.
pub assume_specification[ toml::Value::is_table ](value: &toml::Value) -> (yes: bool)
    ensures
        yes == (toml_table(*value) is Some),
;

/// `toml::Value::as_str` gives the text of a string, and nothing of any other
/// value.
pub assume_specification[ toml::Value::as_str ](value: &toml::Value) -> (text: Option<&str>)
    ensures
        match text {
            Some(t) => toml_text(*value) == Some(t@),
            None => toml_text(*value) is None,
        },
;

/// Calls `toml::Value::get` with a text, which finds what a table holds under
/// that name, and nothing in a value that is no table.
#[verifier::external_body]
pub(crate) fn toml_member<'a>(value: &'a toml::Value, name: &str) -> (member: Option<
    &'a toml::Value,
>)
    ensures
        match member {
            Some(found) => toml_lookup(*value, name@) == Some(*found),
            None => toml_lookup(*value, name@) is None,
        },
{
    value.get(name)
}

/// The list holds what the table holds, each name once.
pub open spec fn lists_members(
    entries: Seq<(&String, &toml::Value)>,
    members: Map<Seq<char>, toml::Value>,
) -> bool {
    &&& forall|i: int, j: int|
        #![trigger entries[i], entries[j]]
        0 <= i < j < entries.len() ==> entries[i].0@ != entries[j].0@
    &&& forall|i: int|
        #![trigger entries[i]]
        0 <= i < entries.len() ==> members.contains_key(entries[i].0@) && members[entries[i].0@]
            == *entries[i].1
    &&& forall|name: Seq<char>| #[trigger]
        members.contains_key(name) ==> exists|i: int|
            0 <= i < entries.len() && (#[trigger] entries[i]).0@ == name
}

/// Calls `iter` of `toml::map::Map` and lists what it walks over: every entry of
/// the table once. In which order is left open.
#[verifier::external_body]
pub(crate) fn table_entries<'a>(table: &'a toml::Table) -> (entries: Vec<
    (&'a String, &'a toml::Value),
>)
    ensures
        lists_members(entries@, table_members(*table)),
{
    table.iter().collect()
}

} // verus!
