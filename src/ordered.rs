//! The ordered job mapping, held in a `linked_hash_map::LinkedHashMap`.
use vstd::prelude::*;

use linked_hash_map::LinkedHashMap;

use crate::model::Job;

verus! {

#[verifier::external_type_specification]
#[verifier::external_body]
#[verifier::reject_recursive_types(K)]
#[verifier::reject_recursive_types(V)]
#[verifier::reject_recursive_types(S)]
pub struct ExLinkedHashMap<K, V, S>(LinkedHashMap<K, V, S>);

/// The entries of a job mapping, in insertion order.
pub uninterp spec fn job_entries(m: LinkedHashMap<String, Job>) -> Seq<(String, Job)>;

/// Relies on `LinkedHashMap::len`: the number of entries.
#[verifier::external_body]
pub(crate) fn job_count(m: &LinkedHashMap<String, Job>) -> (r: usize)
    ensures
        r == job_entries(*m).len(),
{
    m.len()
}

/// Relies on `LinkedHashMap::iter`: it visits the entries in insertion order,
/// and a key occurs in one entry only.
#[verifier::external_body]
pub(crate) fn job_at(m: &LinkedHashMap<String, Job>, i: usize) -> (r: (&String, &Job))
    requires
        i < job_entries(*m).len(),
    ensures
        *r.0 == job_entries(*m)[i as int].0,
        *r.1 == job_entries(*m)[i as int].1,
        forall|j: int|
            0 <= j < job_entries(*m).len() && j != i ==> job_entries(*m)[j].0@ != r.0@,
{
    m.iter().nth(i).unwrap()
}

} // verus!
