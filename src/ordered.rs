//! The outcomes of a run as an insertion-ordered map from candidate to
//! outcome, kept in an `indexmap::IndexMap`.

use vstd::prelude::*;
use indexmap::IndexMap;
use crate::status::TestStatus;

verus! {

#[verifier::external_type_specification]
#[verifier::external_body]
#[verifier::reject_recursive_types(K)]
#[verifier::reject_recursive_types(V)]
#[verifier::reject_recursive_types(S)]
pub struct ExIndexMap<K, V, S>(IndexMap<K, V, S>);

/// The entries of a map of outcomes, in the map's order.
pub uninterp spec fn result_entries(m: IndexMap<usize, TestStatus>) -> Seq<(usize, TestStatus)>;

/// No candidate appears twice among the entries.
pub open spec fn distinct_keys(entries: Seq<(usize, TestStatus)>) -> bool {
    forall|i: int, j: int| 0 <= i < j < entries.len() ==> entries[i].0 != entries[j].0
}

/// Relies on `IndexMap::new`: a new map holds no entry.
#[verifier::external_body]
pub(crate) fn new_result_map() -> (r: IndexMap<usize, TestStatus>)
    ensures
        result_entries(r) == Seq::<(usize, TestStatus)>::empty(),
{
    IndexMap::new()
}

/// Relies on `IndexMap::len`: the number of entries.
#[verifier::external_body]
pub(crate) fn result_map_len(m: &IndexMap<usize, TestStatus>) -> (r: usize)
    ensures
        r == result_entries(*m).len(),
{
    m.len()
}

/// Relies on `IndexMap::insert`: a key not in the map is added last in
/// order, with `None` returned; a key already there keeps its place, its
/// value is replaced and the old one returned. Keys stay distinct.
#[verifier::external_body]
pub(crate) fn insert_result(m: &mut IndexMap<usize, TestStatus>, key: usize, value: TestStatus) -> (r: Option<TestStatus>)
    ensures
        distinct_keys(result_entries(*old(m))) ==> distinct_keys(result_entries(*final(m))),
        (forall|i: int|
            0 <= i < result_entries(*old(m)).len() ==> (#[trigger] result_entries(*old(m))[i]).0
                != key) ==> result_entries(*final(m)) == result_entries(*old(m)).push((key, value))
            && r is None,
        forall|i: int|
            0 <= i < result_entries(*old(m)).len() && (#[trigger] result_entries(*old(m))[i]).0
                == key && distinct_keys(result_entries(*old(m))) ==> result_entries(*final(m))
                == result_entries(*old(m)).update(i, (key, value)) && r == Some(
                result_entries(*old(m))[i].1,
            ),
{
    m.insert(key, value)
}

/// Relies on `IndexMap::get_index`: the entry at a position of the order.
#[verifier::external_body]
pub(crate) fn result_at(m: &IndexMap<usize, TestStatus>, index: usize) -> (r: Option<(&usize, &TestStatus)>)
    ensures
        index < result_entries(*m).len() ==> r is Some,
        r matches Some(p) ==> index < result_entries(*m).len() && *p.0 == result_entries(*m)[index as int].0,
        r matches Some(p) ==> *p.1 == result_entries(*m)[index as int].1,
        index >= result_entries(*m).len() ==> r is None,
{
    m.get_index(index)
}

} // verus!
