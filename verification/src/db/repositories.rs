//! Repository table operations: list the repository names ascending and
//! record a name, keeping the table sorted and free of duplicates.

use vstd::prelude::*;
use crate::db::{Registry, Repository};
use crate::textorder::{
    chars_lt,
    str_lt,
    lemma_chars_lt_total,
    lemma_chars_lt_transitive,
};

verus! {

/// The repository names, ascending. The result lists exactly the stored
/// names, in the table's sorted order.
pub fn list(registry: &Registry) -> (repositories: Vec<Repository>)
    requires
        registry.wf(),
    ensures
        repositories@.len() == registry.repositories@.len(),
        forall|k: int|
            0 <= k < repositories@.len() ==> (#[trigger] repositories@[k]).name@
                == registry.repositories@[k]@,
        forall|k1: int, k2: int|
            0 <= k1 < k2 < repositories@.len() ==> chars_lt(
                (#[trigger] repositories@[k1]).name@,
                (#[trigger] repositories@[k2]).name@,
            ),
{
    let mut result: Vec<Repository> = Vec::new();
    let mut i: usize = 0;
    let n = registry.repositories.len();
    while i < n
        invariant
            0 <= i <= n,
            n == registry.repositories@.len(),
            result@.len() == i,
            forall|k: int|
                0 <= k < i ==> (#[trigger] result@[k]).name@ == registry.repositories@[k]@,
        decreases n - i,
    {
        result.push(Repository { name: registry.repositories[i].clone() });
        i += 1;
    }
    result
}

/// Record a repository name; recording a stored name changes nothing.
pub fn save(registry: &mut Registry, name: &String)
    requires
        old(registry).wf(),
    ensures
        final(registry).wf(),
        final(registry).repos_view() == old(registry).repos_view().insert(name@),
        final(registry).blobs@ == old(registry).blobs@,
        final(registry).manifests@ == old(registry).manifests@,
        final(registry).tags@ == old(registry).tags@,
        final(registry).manifest_blobs@ == old(registry).manifest_blobs@,
{
    let mut pos: usize = 0;
    let n = registry.repositories.len();
    while pos < n && str_lt(&registry.repositories[pos], name)
        invariant
            0 <= pos <= n,
            n == registry.repositories@.len(),
            *registry == *old(registry),
            forall|k: int| 0 <= k < pos ==> chars_lt((#[trigger] registry.repositories@[k])@, name@),
        ensures
            0 <= pos <= n,
            forall|k: int| 0 <= k < pos ==> chars_lt((#[trigger] registry.repositories@[k])@, name@),
            pos < n ==> !chars_lt(registry.repositories@[pos as int]@, name@),
        decreases n - pos,
    {
        pos += 1;
    }
    if pos < n && registry.repositories[pos] == *name {
        proof {
            assert(registry.repositories@.map_values(|s: String| s@)[pos as int] == name@);
            assert(registry.repos_view().contains(name@));
            assert(registry.repos_view() =~= old(registry).repos_view().insert(name@));
        }
        return ;
    }
    let ghost snap = registry.repositories@;
    let ghost p: int = pos as int;
    registry.repositories.insert(pos, name.clone());
    proof {
        snap.insert_ensures(p, *name);
        assert(registry.repositories@ == snap.insert(p, *name));
        if p < snap.len() {
            // the row at the insertion point neither precedes nor equals the
            // name, so the name precedes it
            if !chars_lt(name@, snap[p]@) {
                lemma_chars_lt_total(snap[p]@, name@);
            }
            assert(chars_lt(name@, snap[p]@));
        }
        assert forall|k1: int, k2: int|
            0 <= k1 < k2 < registry.repositories@.len() implies chars_lt(
            (#[trigger] registry.repositories@[k1])@,
            (#[trigger] registry.repositories@[k2])@,
        ) by {
            let a = if k1 < p {
                snap[k1]
            } else if k1 == p {
                *name
            } else {
                snap[k1 - 1]
            };
            assert(registry.repositories@[k1] == a);
            let b = if k2 < p {
                snap[k2]
            } else if k2 == p {
                *name
            } else {
                snap[k2 - 1]
            };
            assert(registry.repositories@[k2] == b);
            if k2 == p {
                // everything before the insertion point precedes the name
            } else if k1 == p {
                // the name precedes the row at the insertion point, which
                // precedes every later row
                if k2 - 1 > p {
                    lemma_chars_lt_transitive(name@, snap[p]@, snap[k2 - 1]@);
                }
            } else if k1 < p && k2 - 1 >= p && k2 - 1 > k1 {
                assert(chars_lt(snap[k1]@, snap[k2 - 1]@));
            }
        }
        assert(registry.blob_pairs() =~= old(registry).blob_pairs());
        assert(registry.manifest_pairs() =~= old(registry).manifest_pairs());
        assert(registry.tag_pairs() =~= old(registry).tag_pairs());
        assert(registry.edge_pairs() =~= old(registry).edge_pairs());
        assert forall|x: Seq<char>| registry.repos_view().contains(x) implies old(registry).repos_view().insert(name@).contains(x) by {
            let k = choose|k: int|
                0 <= k < registry.repositories@.len() && (
                #[trigger] registry.repositories@[k])@ == x;
            if k != p {
                let k0: int = if k < p {
                    k
                } else {
                    k - 1
                };
                assert(old(registry).repositories@.map_values(|s: String| s@)[k0] == x);
            }
        }
        assert forall|x: Seq<char>|
            old(registry).repos_view().insert(name@).contains(x) implies registry.repos_view().contains(
            x,
        ) by {
            if x == name@ {
                assert(registry.repositories@.map_values(|s: String| s@)[p] == x);
            } else {
                let k = choose|k: int|
                    0 <= k < old(registry).repositories@.len() && (
                    #[trigger] old(registry).repositories@[k])@ == x;
                if k < p {
                    assert(registry.repositories@.map_values(|s: String| s@)[k] == x);
                } else {
                    assert(registry.repositories@.map_values(|s: String| s@)[k + 1] == x);
                }
            }
        }
        assert(registry.repos_view() =~= old(registry).repos_view().insert(name@));
    }
}

} // verus!
