//! Language profiles: a capitalization policy and an ordered dictionary.

use vstd::prelude::*;
use indexmap::IndexMap;

verus! {

/// The insertion-ordered map of the `indexmap` crate, carried opaquely.
#[verifier::external_type_specification]
#[verifier::external_body]
#[verifier::reject_recursive_types(K)]
#[verifier::reject_recursive_types(V)]
#[verifier::reject_recursive_types(S)]
pub struct ExIndexMap<K, V, S>(indexmap::IndexMap<K, V, S>);

/// The word/translation pairs that a dictionary holds, in the order in
/// which the map keeps them: that of insertion, for a map that was only
/// ever inserted into.
pub uninterp spec fn dict_entries(dict: IndexMap<String, String>) -> Seq<(Seq<char>, Seq<char>)>;

/// How the case of the input and of each replacement is treated.
#[derive(Debug, Clone, Copy, PartialEq, Eq, Structural)]
pub enum CapitalizationMode {
    /// Everything is lowercased.
    Lower,
    /// Each replacement follows the case of the text it replaces.
    Preserve,
    /// Everything is uppercased.
    Upper,
}

/// A named dictionary with its capitalization policy.
#[derive(Debug, PartialEq, Eq)]
pub struct Language {
    pub name: String,
    pub lower_mode: CapitalizationMode,
    pub dict: IndexMap<String, String>,
}

impl Language {
    /// The dictionary as a sequence of (word, translation) pairs, in order.
    pub open spec fn entries(&self) -> Seq<(Seq<char>, Seq<char>)> {
        dict_entries(self.dict)
    }

    /// Number of dictionary entries.
    pub fn entry_count(&self) -> (n: usize)
        ensures
            n == self.entries().len(),
    {
        dict_len(&self.dict)
    }

    /// The `index`-th dictionary entry in insertion order, if there is one.
    pub fn entry(&self, index: usize) -> (r: Option<(&String, &String)>)
        ensures
            r is Some <==> index < self.entries().len(),
            r matches Some((word, translation)) ==> {
                &&& word@ == self.entries()[index as int].0
                &&& translation@ == self.entries()[index as int].1
            },
    {
        dict_get_index(&self.dict, index)
    }
}

/// Calls `IndexMap::len`: the number of key-value pairs in the map.
#[verifier::external_body]
fn dict_len(dict: &IndexMap<String, String>) -> (n: usize)
    ensures
        n == dict_entries(*dict).len(),
{
    dict.len()
}

/// Calls `IndexMap::get_index`: the key-value pair at position `index` of
/// the insertion order, or `None` where `index` is not below the length.
#[verifier::external_body]
fn dict_get_index(dict: &IndexMap<String, String>, index: usize) -> (r: Option<(&String, &String)>)
    ensures
        r is Some <==> index < dict_entries(*dict).len(),
        r matches Some((key, value)) ==> {
            &&& key@ == dict_entries(*dict)[index as int].0
            &&& value@ == dict_entries(*dict)[index as int].1
        },
{
    dict.get_index(index)
}

} // verus!
