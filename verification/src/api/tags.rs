//! The tag listing of a repository: the tag names, newest first.

use vstd::prelude::*;
use crate::db::Registry;

verus! {

/// The tag names of a repository: each stored tag once, nothing else,
/// ordered by update time descending.
pub fn tags(registry: &Registry, name: &String) -> (listed: Vec<String>)
    requires
        registry.wf(),
    ensures
        forall|k1: int, k2: int|
            0 <= k1 < k2 < listed@.len() ==> (#[trigger] listed@[k1])@ != (
            #[trigger] listed@[k2])@,
        forall|k: int|
            0 <= k < listed@.len() ==> registry.tags_view().contains_key(
                (name@, (#[trigger] listed@[k])@),
            ),
        forall|key: (Seq<char>, Seq<char>)|
            #[trigger] registry.tags_view().contains_key(key) && key.0 == name@ ==> exists|k: int|
                0 <= k < listed@.len() && (#[trigger] listed@[k])@ == key.1,
        forall|k1: int, k2: int|
            0 <= k1 < k2 < listed@.len() ==> registry.tags_view()[(name@, (
            #[trigger] listed@[k1])@)].0 >= registry.tags_view()[(name@, (
            #[trigger] listed@[k2])@)].0,
{
    let rows = crate::db::tags::list(registry, name);
    let mut listed: Vec<String> = Vec::new();
    let mut i: usize = 0;
    while i < rows.len()
        invariant
            0 <= i <= rows@.len(),
            listed@.len() == i,
            forall|k: int| 0 <= k < i ==> (#[trigger] listed@[k])@ == rows@[k].name@,
        decreases rows@.len() - i,
    {
        listed.push(rows[i].name.clone());
        i += 1;
    }
    proof {
        assert forall|key: (Seq<char>, Seq<char>)|
            #[trigger] registry.tags_view().contains_key(key) && key.0 == name@ implies exists|
            k: int,
        | 0 <= k < listed@.len() && (#[trigger] listed@[k])@ == key.1 by {
            let k = choose|k: int| 0 <= k < rows@.len() && (#[trigger] rows@[k]).name@ == key.1;
            assert(listed@[k]@ == key.1);
        }
    }
    listed
}

} // verus!
