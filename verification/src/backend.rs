//! What a search needs of its backing store before the first query: a
//! connection, the tables, and, for the vector mode, embeddings.

use crate::error::SearchError;
use crate::params::{is_truthy, is_truthy_flag};
use crate::text::same_text;
use vstd::prelude::*;
use vstd::string::StringExecFns;
use vstd::utf8::encode_utf8;

verus! {

/// Whether embeddings are enabled, given the value of `ENABLE_EMBEDDINGS`
/// where it is set: on for `1`, and for `true` or `yes` in any mix of case.
pub fn embeddings_enabled(setting: &Option<String>) -> (r: bool)
    ensures
        r == (setting matches Some(value) && is_truthy(encode_utf8(value@))),
{
    match setting {
        Some(value) => is_truthy_flag(value.as_str()),
        None => false,
    }
}

/// Whether embeddings stay enabled once the store is open: they do where
/// they were enabled and the store has some.
pub fn embeddings_in_use(enabled: bool, store_has_embeddings: bool) -> (r: bool)
    ensures
        r == (enabled && store_has_embeddings),
{
    enabled && store_has_embeddings
}

/// Whether the store has embeddings, given what the probes found: whether
/// the place for them exists, and how many of them are there. A probe that
/// failed counts as `None`.
pub fn embeddings_available(place_exists: Option<bool>, count: Option<i64>) -> (r: bool)
    ensures
        r == (place_exists == Some(true) && count is Some && count->0 > 0),
{
    match (place_exists, count) {
        (Some(true), Some(n)) => n > 0,
        _ => false,
    }
}

/// Whether `names` holds `name`.
pub open spec fn names_table(names: Seq<String>, name: Seq<char>) -> bool {
    exists|i: int| 0 <= i < names.len() && (#[trigger] names[i])@ == name
}

/// Whether `names` holds `name`.
pub fn has_table(names: &Vec<String>, name: &str) -> (r: bool)
    ensures
        r == names_table(names@, name@),
{
    let mut i: usize = 0;
    while i < names.len()
        invariant
            i <= names.len(),
            forall|j: int| 0 <= j < i ==> (#[trigger] names[j])@ != name@,
        decreases names.len() - i,
    {
        if same_text(names[i].as_str(), name) {
            return true;
        }
        i += 1;
    }
    false
}

/// Asks for the table `packages`: a store without it cannot be searched.
pub fn require_packages_table(names: &Vec<String>) -> (r: Result<(), SearchError>)
    ensures
        match r {
            Ok(_) => names_table(names@, "packages"@),
            Err(error) => {
                &&& !names_table(names@, "packages"@)
                &&& error matches SearchError::TableNotFound(table)
                &&& table@ == "packages"@
            },
        },
{
    if has_table(names, "packages") {
        Ok(())
    } else {
        Err(SearchError::TableNotFound(String::from_str("packages")))
    }
}

/// The table to search: `packages` where the store has it, and else the
/// first table of the store. A store without tables cannot be searched.
pub fn select_table(names: &Vec<String>) -> (r: Result<String, SearchError>)
    ensures
        match r {
            Ok(table) => {
                &&& names.len() > 0
                &&& table@ == (if names_table(names@, "packages"@) {
                    "packages"@
                } else {
                    names[0]@
                })
            },
            Err(error) => {
                &&& names.len() == 0
                &&& error matches SearchError::TableNotFound(detail)
                &&& detail@ == "no tables found in database"@
            },
        },
{
    if names.len() == 0 {
        Err(SearchError::TableNotFound(String::from_str("no tables found in database")))
    } else if has_table(names, "packages") {
        Ok(String::from_str("packages"))
    } else {
        Ok(names[0].clone())
    }
}

/// Whether the store has the compact schema: the table of compressed
/// records and the full-text index over them.
pub fn has_minified_schema(names: &Vec<String>) -> (r: bool)
    ensures
        r == (names_table(names@, "packages_kv"@) && names_table(names@, "packages_fts"@)),
{
    has_table(names, "packages_kv") && has_table(names, "packages_fts")
}

/// Checks what a compact store was opened with: the schema and the
/// dictionary are both needed.
pub fn check_minified_store(names: &Vec<String>, has_dictionary: bool) -> (r: Result<
    bool,
    SearchError,
>)
    ensures
        match r {
            Ok(ready) => {
                &&& ready
                &&& names_table(names@, "packages_kv"@)
                &&& names_table(names@, "packages_fts"@)
                &&& has_dictionary
            },
            Err(error) => {
                &&& error matches SearchError::DatabaseError(detail)
                &&& if names_table(names@, "packages_kv"@) && names_table(names@, "packages_fts"@) {
                    !has_dictionary && detail@ == "Failed to load compression dictionary"@
                } else {
                    detail@ == "Minified schema required but not found"@
                }
            },
        },
{
    if !has_minified_schema(names) {
        Err(SearchError::DatabaseError(String::from_str("Minified schema required but not found")))
    } else if !has_dictionary {
        Err(SearchError::DatabaseError(String::from_str("Failed to load compression dictionary")))
    } else {
        Ok(true)
    }
}

} // verus!
