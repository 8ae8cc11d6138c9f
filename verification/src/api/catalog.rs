//! The repository catalog: the sorted list of repository names.

use vstd::prelude::*;
use crate::db::Registry;
use crate::textorder::chars_lt;

verus! {

/// The names of all repositories, ascending: exactly the repository table,
/// in its sorted order.
pub fn catalog(registry: &Registry) -> (names: Vec<String>)
    requires
        registry.wf(),
    ensures
        names@.len() == registry.repositories@.len(),
        forall|k: int| 0 <= k < names@.len() ==> (#[trigger] names@[k])@ == registry.repositories@[k]@,
        forall|k1: int, k2: int|
            0 <= k1 < k2 < names@.len() ==> chars_lt((#[trigger] names@[k1])@, (#[trigger] names@[k2])@),
{
    let repositories = crate::db::repositories::list(registry);
    let mut names: Vec<String> = Vec::new();
    let mut i: usize = 0;
    while i < repositories.len()
        invariant
            0 <= i <= repositories@.len(),
            names@.len() == i,
            forall|k: int| 0 <= k < i ==> (#[trigger] names@[k])@ == repositories@[k].name@,
        decreases repositories@.len() - i,
    {
        names.push(repositories[i].name.clone());
        i += 1;
    }
    names
}

} // verus!
