//! Manifest table operations: fetch, save and delete a raw manifest body
//! keyed by repository and content digest.

use vstd::prelude::*;
use crate::db::{ManifestRow, Registry, manifest_digest_chars};
use crate::errors::RegistryError;
use crate::kvmap::{
    lemma_kv_map_push,
    lemma_kv_map_remove,
    lemma_kv_map_update_value,
};

verus! {

/// The index of the manifest row keyed by repository and digest, if any.
pub(crate) fn find(manifests: &Vec<ManifestRow>, repository: &String, digest: &String) -> (position:
    Option<usize>)
    ensures
        match position {
            Some(i) => i < manifests@.len() && manifests@[i as int].repository@ == repository@
                && manifests@[i as int].digest@ == digest@,
            None => forall|i: int|
                0 <= i < manifests@.len() ==> !((#[trigger] manifests@[i]).repository@
                    == repository@ && manifests@[i].digest@ == digest@),
        },
{
    let mut i: usize = 0;
    while i < manifests.len()
        invariant
            0 <= i <= manifests@.len(),
            forall|j: int|
                0 <= j < i ==> !((#[trigger] manifests@[j]).repository@ == repository@
                    && manifests@[j].digest@ == digest@),
        decreases manifests@.len() - i,
    {
        if manifests[i].repository == *repository && manifests[i].digest == *digest {
            return Some(i);
        }
        i += 1;
    }
    None
}

/// The raw body of the manifest keyed by repository and digest.
pub fn get(registry: &Registry, repository: &String, digest: &String) -> (result: Result<
    String,
    RegistryError,
>)
    requires
        registry.wf(),
    ensures
        match result {
            Ok(value) => registry.manifests_view().contains_key((repository@, digest@)) && value@
                == registry.manifests_view()[(repository@, digest@)],
            Err(err) => err == RegistryError::ManifestUnknown
                && !registry.manifests_view().contains_key((repository@, digest@)),
        },
{
    match find(&registry.manifests, repository, digest) {
        Some(i) => {
            proof {
                registry.lemma_manifest_index(i as int);
            }
            Ok(registry.manifests[i].value.clone())
        },
        None => {
            proof {
                registry.lemma_manifest_contains(repository@, digest@);
            }
            Err(RegistryError::ManifestUnknown)
        },
    }
}

/// Save a manifest body under its repository and content digest; saving the
/// same key again replaces the body. The digest must be the body's SHA-256
/// content address: callers compute it from the raw bytes and never take a
/// digest from a client for storage keying.
pub fn save(registry: &mut Registry, repository: &String, digest: &String, value: &String)
    requires
        old(registry).wf(),
        digest@ == manifest_digest_chars(value@),
    ensures
        final(registry).wf(),
        final(registry).manifests_view() == old(registry).manifests_view().insert(
            (repository@, digest@),
            value@,
        ),
        final(registry).blobs@ == old(registry).blobs@,
        final(registry).tags@ == old(registry).tags@,
        final(registry).manifest_blobs@ == old(registry).manifest_blobs@,
        final(registry).repositories@ == old(registry).repositories@,
{
    let row = ManifestRow {
        repository: repository.clone(),
        digest: digest.clone(),
        value: value.clone(),
    };
    match find(&registry.manifests, repository, digest) {
        Some(i) => {
            registry.manifests[i] = row;
            proof {
                assert(registry.edge_pairs() =~= old(registry).edge_pairs());
                assert(registry.manifest_pairs() =~= old(registry).manifest_pairs().update(
                    i as int,
                    ((repository@, digest@), value@),
                ));
                lemma_kv_map_update_value(old(registry).manifest_pairs(), i as int, value@);
            }
        },
        None => {
            registry.manifests.push(row);
            proof {
                assert(registry.edge_pairs() =~= old(registry).edge_pairs());
                assert(registry.manifest_pairs() =~= old(registry).manifest_pairs().push(
                    ((repository@, digest@), value@),
                ));
                lemma_kv_map_push(
                    old(registry).manifest_pairs(),
                    (repository@, digest@),
                    value@,
                );
                assert forall|i: int, j: int|
                    0 <= i < j < registry.manifest_pairs().len() implies registry.manifest_pairs()[i].0
                    != registry.manifest_pairs()[j].0 by {
                    if j == registry.manifest_pairs().len() - 1 {
                        assert(!(old(registry).manifests@[i].repository@ == repository@ && old(
                            registry,
                        ).manifests@[i].digest@ == digest@));
                    }
                }
            }
        },
    }
}

/// Delete the manifest keyed by repository and digest, if stored.
pub fn delete(registry: &mut Registry, repository: &String, digest: &String)
    requires
        old(registry).wf(),
    ensures
        final(registry).wf(),
        final(registry).manifests_view() == old(registry).manifests_view().remove(
            (repository@, digest@),
        ),
        final(registry).blobs@ == old(registry).blobs@,
        final(registry).tags@ == old(registry).tags@,
        final(registry).manifest_blobs@ == old(registry).manifest_blobs@,
        final(registry).repositories@ == old(registry).repositories@,
{
    match find(&registry.manifests, repository, digest) {
        Some(i) => {
            registry.manifests.remove(i);
            proof {
                assert(registry.edge_pairs() =~= old(registry).edge_pairs());
                assert(registry.manifest_pairs() =~= old(registry).manifest_pairs().remove(
                    i as int,
                ));
                lemma_kv_map_remove(old(registry).manifest_pairs(), i as int);
            }
        },
        None => {
            proof {
                old(registry).lemma_manifest_contains(repository@, digest@);
                assert(old(registry).manifests_view().remove((repository@, digest@))
                    =~= old(registry).manifests_view());
            }
        },
    }
}

} // verus!
