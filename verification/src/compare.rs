//! What a report is to compare: named rows, each pointing at counters of a
//! run.

use vstd::prelude::*;
use indexmap::IndexMap;
use crate::text::same_text;
use crate::lookup::{first_index, lemma_first_index_found, lemma_first_index_absent};

verus! {

/// A bench of a run: the group it belongs to and its place in the group.
#[derive(Debug, Clone, PartialEq, Eq)]
pub struct Reference {
    /// The name of the group.
    pub command: String,
    /// The place of the bench in the group, from zero.
    pub index: usize,
}

/// One row of a comparison within a single run: a counter of one bench
/// against the same counter of another.
#[derive(Debug, Clone, PartialEq, Eq)]
pub struct Compare {
    /// The name of the counter.
    pub measure: String,
    pub before: Reference,
    pub after: Reference,
}

/// One table of a comparison between two runs: a counter of the benches of
/// one group, each in the earlier run against itself in the later run.
#[derive(Debug)]
pub struct VersusOther {
    /// The name of the counter.
    pub measure: String,
    /// The name of the group.
    pub command: String,
    /// The rows in the order in which they are shown: under the name of the
    /// row the place of its bench in the group.
    pub rows: IndexMap<String, usize>,
}

/// The rows that a map of a table holds, name and place, in the order of
/// the map.
pub uninterp spec fn place_entries(rows: IndexMap<String, usize>) -> Seq<(String, usize)>;

/// The tables that a map of a comparison between two runs holds, name and
/// table, in the order of the map.
pub uninterp spec fn versus_other_entries(render: IndexMap<String, VersusOther>) -> Seq<(String, VersusOther)>;

/// The rows that a map of a table within one run holds, name and row, in
/// the order of the map.
pub uninterp spec fn compare_entries(rows: IndexMap<String, Compare>) -> Seq<(String, Compare)>;

/// The tables that a map of a comparison within one run holds, name and
/// rows, in the order of the map.
pub uninterp spec fn versus_self_entries(render: IndexMap<String, IndexMap<String, Compare>>) -> Seq<(String, IndexMap<String, Compare>)>;

/// `IndexMap::len`: the number of rows in the map.
#[verifier::external_body]
pub(crate) fn places_len(rows: &IndexMap<String, usize>) -> (n: usize)
    ensures
        n == place_entries(*rows).len(),
{
    rows.len()
}

/// `IndexMap::get_index`: the row at a place in the order of the map, none
/// from its length on.
#[verifier::external_body]
pub(crate) fn places_get_index(rows: &IndexMap<String, usize>, index: usize) -> (r: Option<
    (&String, &usize),
>)
    ensures
        index < place_entries(*rows).len() ==> r == Some(
            (&place_entries(*rows)[index as int].0, &place_entries(*rows)[index as int].1),
        ),
        index >= place_entries(*rows).len() ==> r is None,
{
    rows.get_index(index)
}

/// `IndexMap::len`: the number of tables in the map.
#[verifier::external_body]
pub(crate) fn versus_other_len(render: &IndexMap<String, VersusOther>) -> (n: usize)
    ensures
        n == versus_other_entries(*render).len(),
{
    render.len()
}

/// `IndexMap::get_index`: the table at a place in the order of the map,
/// none from its length on.
#[verifier::external_body]
pub(crate) fn versus_other_get_index(render: &IndexMap<String, VersusOther>, index: usize) -> (r:
    Option<(&String, &VersusOther)>)
    ensures
        index < versus_other_entries(*render).len() ==> r == Some(
            (
                &versus_other_entries(*render)[index as int].0,
                &versus_other_entries(*render)[index as int].1,
            ),
        ),
        index >= versus_other_entries(*render).len() ==> r is None,
{
    render.get_index(index)
}

/// `IndexMap::len`: the number of rows in the map.
#[verifier::external_body]
pub(crate) fn compares_len(rows: &IndexMap<String, Compare>) -> (n: usize)
    ensures
        n == compare_entries(*rows).len(),
{
    rows.len()
}

/// `IndexMap::get_index`: the row at a place in the order of the map, none
/// from its length on.
#[verifier::external_body]
pub(crate) fn compares_get_index(rows: &IndexMap<String, Compare>, index: usize) -> (r: Option<
    (&String, &Compare),
>)
    ensures
        index < compare_entries(*rows).len() ==> r == Some(
            (&compare_entries(*rows)[index as int].0, &compare_entries(*rows)[index as int].1),
        ),
        index >= compare_entries(*rows).len() ==> r is None,
{
    rows.get_index(index)
}

/// `IndexMap::len`: the number of tables in the map.
#[verifier::external_body]
pub(crate) fn versus_self_len(render: &IndexMap<String, IndexMap<String, Compare>>) -> (n: usize)
    ensures
        n == versus_self_entries(*render).len(),
{
    render.len()
}

/// `IndexMap::get_index`: the table at a place in the order of the map,
/// none from its length on.
#[verifier::external_body]
pub(crate) fn versus_self_get_index(
    render: &IndexMap<String, IndexMap<String, Compare>>,
    index: usize,
) -> (r: Option<(&String, &IndexMap<String, Compare>)>)
    ensures
        index < versus_self_entries(*render).len() ==> r == Some(
            (
                &versus_self_entries(*render)[index as int].0,
                &versus_self_entries(*render)[index as int].1,
            ),
        ),
        index >= versus_self_entries(*render).len() ==> r is None,
{
    render.get_index(index)
}

/// The names of the groups that have a repetition count of their own.
pub open spec fn override_names(overrides: Seq<(String, u32)>) -> Seq<Seq<char>> {
    Seq::new(overrides.len(), |i: int| overrides[i].0@)
}

/// How often the commands of a group are repeated: as often as the first
/// entry for the group says, 20 times where there is none.
pub open spec fn repetitions_of(overrides: Seq<(String, u32)>, group: Seq<char>) -> u32 {
    match first_index(override_names(overrides), group) {
        Some(i) => overrides[i].1,
        None => 20,
    }
}

/// Looks up how often the commands of a group are repeated.
pub fn repetitions_for_group(overrides: &Vec<(String, u32)>, group: &str) -> (r: u32)
    ensures
        r == repetitions_of(overrides@, group@),
{
    let mut i: usize = 0;
    while i < overrides.len()
        invariant
            i <= overrides@.len(),
            forall|j: int| 0 <= j < i ==> override_names(overrides@)[j] != group@,
        decreases overrides@.len() - i,
    {
        if same_text(overrides[i].0.as_str(), group) {
            proof {
                assert(override_names(overrides@)[i as int] == group@);
                lemma_first_index_found(override_names(overrides@), group@, i as int);
            }
            return overrides[i].1;
        }
        i = i + 1;
    }
    proof {
        lemma_first_index_absent(override_names(overrides@), group@);
    }
    20
}

} // verus!
