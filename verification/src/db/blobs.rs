//! Blob table operations: fetch a payload or its length, upsert a payload
//! under a key, rekey a finished upload to its content digest, and maintain
//! the manifest-to-blob edge table.

use vstd::prelude::*;
use vstd::slice::slice_to_vec;
use crate::db::{BlobRow, EdgeRow, Registry};
use crate::errors::RegistryError;
use crate::kvmap::{
    lemma_kv_map_push,
    lemma_kv_map_remove,
    lemma_kv_map_update_key,
    lemma_kv_map_update_value,
};

verus! {

/// The blob map after a finished upload is rekeyed from its session key to
/// its content digest: the row moves to the new key, except that a row
/// already stored under the new key is kept and the old row merely dropped —
/// identical content is deduplicated.
pub open spec fn rekeyed(
    blobs: Map<Seq<char>, Seq<u8>>,
    old_key: Seq<char>,
    new_key: Seq<char>,
) -> Map<Seq<char>, Seq<u8>> {
    if old_key == new_key {
        blobs
    } else if blobs.contains_key(new_key) {
        blobs.remove(old_key)
    } else {
        blobs.remove(old_key).insert(new_key, blobs[old_key])
    }
}

/// The edges a disassociation removes: every edge to the blob from any
/// manifest stored in the repository.
pub open spec fn removed_edges(registry: Registry, repository: Seq<char>, blob: Seq<char>) -> Set<
    (Seq<char>, Seq<char>),
> {
    Set::new(
        |pair: (Seq<char>, Seq<char>)|
            registry.edges_view().contains(pair) && pair.1 == blob
                && registry.manifests_view().contains_key((repository, pair.0)),
    )
}

/// The index of the blob row keyed by a digest, if any.
fn find(blobs: &Vec<BlobRow>, digest: &String) -> (position: Option<usize>)
    ensures
        match position {
            Some(i) => i < blobs@.len() && blobs@[i as int].digest@ == digest@,
            None => forall|i: int| 0 <= i < blobs@.len() ==> blobs@[i].digest@ != digest@,
        },
{
    let mut i: usize = 0;
    while i < blobs.len()
        invariant
            0 <= i <= blobs@.len(),
            forall|j: int| 0 <= j < i ==> blobs@[j].digest@ != digest@,
        decreases blobs@.len() - i,
    {
        if blobs[i].digest == *digest {
            return Some(i);
        }
        i += 1;
    }
    None
}

/// The full payload of the blob keyed by a digest.
pub fn get(registry: &Registry, digest: &String) -> (result: Result<Vec<u8>, RegistryError>)
    requires
        registry.wf(),
    ensures
        match result {
            Ok(value) => registry.blobs_view().contains_key(digest@) && value@
                == registry.blobs_view()[digest@],
            Err(err) => err == RegistryError::BlobUnknown && !registry.blobs_view().contains_key(
                digest@,
            ),
        },
{
    match find(&registry.blobs, digest) {
        Some(i) => {
            proof {
                registry.lemma_blob_index(i as int);
            }
            Ok(slice_to_vec(registry.blobs[i].value.as_slice()))
        },
        None => {
            proof {
                registry.lemma_blob_contains(digest@);
            }
            Err(RegistryError::BlobUnknown)
        },
    }
}

/// The byte length of the blob keyed by a digest, without its payload.
pub fn length(registry: &Registry, digest: &String) -> (result: Result<usize, RegistryError>)
    requires
        registry.wf(),
    ensures
        match result {
            Ok(len) => registry.blobs_view().contains_key(digest@) && len
                == registry.blobs_view()[digest@].len(),
            Err(err) => err == RegistryError::BlobUnknown && !registry.blobs_view().contains_key(
                digest@,
            ),
        },
{
    match find(&registry.blobs, digest) {
        Some(i) => {
            proof {
                registry.lemma_blob_index(i as int);
            }
            Ok(registry.blobs[i].value.len())
        },
        None => {
            proof {
                registry.lemma_blob_contains(digest@);
            }
            Err(RegistryError::BlobUnknown)
        },
    }
}

/// Upsert a payload under a key: used both for session keys while an upload
/// runs and for content digests once it has finished.
pub fn save(registry: &mut Registry, digest: &String, value: &Vec<u8>)
    requires
        old(registry).wf(),
    ensures
        final(registry).wf(),
        final(registry).blobs_view() == old(registry).blobs_view().insert(digest@, value@),
        final(registry).manifests@ == old(registry).manifests@,
        final(registry).tags@ == old(registry).tags@,
        final(registry).manifest_blobs@ == old(registry).manifest_blobs@,
        final(registry).repositories@ == old(registry).repositories@,
{
    let row = BlobRow { digest: digest.clone(), value: slice_to_vec(value.as_slice()) };
    match find(&registry.blobs, digest) {
        Some(i) => {
            registry.blobs[i] = row;
            proof {
                assert(registry.edge_pairs() =~= old(registry).edge_pairs());
                assert(registry.blob_pairs() =~= old(registry).blob_pairs().update(
                    i as int,
                    (digest@, value@),
                ));
                lemma_kv_map_update_value(old(registry).blob_pairs(), i as int, value@);
            }
        },
        None => {
            registry.blobs.push(row);
            proof {
                assert(registry.edge_pairs() =~= old(registry).edge_pairs());
                assert(registry.blob_pairs() =~= old(registry).blob_pairs().push(
                    (digest@, value@),
                ));
                lemma_kv_map_push(old(registry).blob_pairs(), digest@, value@);
                assert forall|i: int, j: int|
                    0 <= i < j < registry.blob_pairs().len() implies registry.blob_pairs()[i].0
                    != registry.blob_pairs()[j].0 by {
                    if j == registry.blob_pairs().len() - 1 {
                        assert(old(registry).blobs@[i].digest@ != digest@);
                    }
                }
            }
        },
    }
}

/// Rekey a blob row from an upload-session key to its content digest,
/// atomically: if a row already sits under the new key the old row is
/// dropped (deduplication); rekeying an absent key fails.
pub fn update_digest(registry: &mut Registry, old_digest: &String, new_digest: &String) -> (result:
    Result<(), RegistryError>)
    requires
        old(registry).wf(),
    ensures
        final(registry).wf(),
        final(registry).manifests@ == old(registry).manifests@,
        final(registry).tags@ == old(registry).tags@,
        final(registry).manifest_blobs@ == old(registry).manifest_blobs@,
        final(registry).repositories@ == old(registry).repositories@,
        match result {
            Ok(_) => old(registry).blobs_view().contains_key(old_digest@)
                && final(registry).blobs_view() == rekeyed(
                old(registry).blobs_view(),
                old_digest@,
                new_digest@,
            ),
            Err(err) => err == RegistryError::BlobUploadInvalid
                && !old(registry).blobs_view().contains_key(old_digest@)
                && final(registry).blobs@ == old(registry).blobs@,
        },
{
    match find(&registry.blobs, old_digest) {
        None => {
            proof {
                registry.lemma_blob_contains(old_digest@);
            }
            Err(RegistryError::BlobUploadInvalid)
        },
        Some(i) => {
            proof {
                registry.lemma_blob_index(i as int);
            }
            if *old_digest == *new_digest {
                return Ok(());
            }
            match find(&registry.blobs, new_digest) {
                Some(_) => {
                    registry.blobs.remove(i);
                    proof {
                        old(registry).lemma_blob_contains(new_digest@);
                        assert(registry.edge_pairs() =~= old(registry).edge_pairs());
                        assert(registry.blob_pairs() =~= old(registry).blob_pairs().remove(
                            i as int,
                        ));
                        lemma_kv_map_remove(old(registry).blob_pairs(), i as int);
                    }
                },
                None => {
                    let moved = slice_to_vec(registry.blobs[i].value.as_slice());
                    registry.blobs[i] = BlobRow { digest: new_digest.clone(), value: moved };
                    proof {
                        old(registry).lemma_blob_contains(new_digest@);
                        assert(registry.edge_pairs() =~= old(registry).edge_pairs());
                        assert(registry.blob_pairs() =~= old(registry).blob_pairs().update(
                            i as int,
                            (new_digest@, old(registry).blobs@[i as int].value@),
                        ));
                        lemma_kv_map_update_key(old(registry).blob_pairs(), i as int, new_digest@);
                    }
                },
            }
            Ok(())
        },
    }
}

/// Record that a manifest reaches a blob; recording the same edge again
/// changes nothing.
pub fn associate(registry: &mut Registry, manifest_digest: &String, blob_digest: &String)
    requires
        old(registry).wf(),
    ensures
        final(registry).wf(),
        final(registry).edges_view() == old(registry).edges_view().insert(
            (manifest_digest@, blob_digest@),
        ),
        final(registry).blobs@ == old(registry).blobs@,
        final(registry).manifests@ == old(registry).manifests@,
        final(registry).tags@ == old(registry).tags@,
        final(registry).repositories@ == old(registry).repositories@,
{
    let edges = &registry.manifest_blobs;
    let mut i: usize = 0;
    let mut present = false;
    while i < edges.len()
        invariant
            0 <= i <= edges@.len(),
            !present ==> forall|j: int|
                0 <= j < i ==> !((#[trigger] edges@[j]).manifest@ == manifest_digest@
                    && edges@[j].blob@ == blob_digest@),
            present ==> exists|j: int|
                0 <= j < edges@.len() && (#[trigger] edges@[j]).manifest@ == manifest_digest@
                    && edges@[j].blob@ == blob_digest@,
        ensures
            present <==> exists|j: int|
                0 <= j < edges@.len() && (#[trigger] edges@[j]).manifest@ == manifest_digest@
                    && edges@[j].blob@ == blob_digest@,
        decreases edges@.len() - i,
    {
        if edges[i].manifest == *manifest_digest && edges[i].blob == *blob_digest {
            present = true;
            break ;
        }
        i += 1;
    }
    if present {
        proof {
            let j = choose|j: int|
                0 <= j < registry.manifest_blobs@.len() && (
                #[trigger] registry.manifest_blobs@[j]).manifest@ == manifest_digest@
                    && registry.manifest_blobs@[j].blob@ == blob_digest@;
            assert(registry.edge_pairs()[j] == (manifest_digest@, blob_digest@));
            assert(registry.edges_view().contains((manifest_digest@, blob_digest@)));
            assert(registry.edges_view() =~= registry.edges_view().insert(
                (manifest_digest@, blob_digest@),
            ));
        }
    } else {
        registry.manifest_blobs.push(
            EdgeRow { manifest: manifest_digest.clone(), blob: blob_digest.clone() },
        );
        proof {
            assert(registry.blob_pairs() =~= old(registry).blob_pairs());
            assert(registry.manifest_pairs() =~= old(registry).manifest_pairs());
            assert(registry.tag_pairs() =~= old(registry).tag_pairs());
            assert(registry.edge_pairs() =~= old(registry).edge_pairs().push(
                (manifest_digest@, blob_digest@),
            ));
            assert forall|x: (Seq<char>, Seq<char>)|
                registry.edges_view().contains(x) implies old(registry).edges_view().insert(
                (manifest_digest@, blob_digest@),
            ).contains(x) by {
                let j = choose|j: int|
                    0 <= j < registry.edge_pairs().len() && registry.edge_pairs()[j] == x;
                if j < old(registry).edge_pairs().len() {
                    assert(old(registry).edge_pairs()[j] == x);
                }
            }
            assert forall|x: (Seq<char>, Seq<char>)|
                old(registry).edges_view().insert(
                    (manifest_digest@, blob_digest@),
                ).contains(x) implies registry.edges_view().contains(x) by {
                if x == (manifest_digest@, blob_digest@) {
                    assert(registry.edge_pairs()[registry.edge_pairs().len() - 1] == x);
                } else {
                    let j = choose|j: int|
                        0 <= j < old(registry).edge_pairs().len() && old(registry).edge_pairs()[j]
                            == x;
                    assert(registry.edge_pairs()[j] == x);
                }
            }
            assert(registry.edges_view() =~= old(registry).edges_view().insert(
                (manifest_digest@, blob_digest@),
            ));
            assert forall|i2: int, j2: int|
                0 <= i2 < j2 < registry.edge_pairs().len() implies registry.edge_pairs()[i2]
                != registry.edge_pairs()[j2] by {
                if j2 == registry.edge_pairs().len() - 1 {
                    assert(!((#[trigger] old(registry).manifest_blobs@[i2]).manifest@
                        == manifest_digest@ && old(registry).manifest_blobs@[i2].blob@
                        == blob_digest@));
                }
            }
        }
    }
}

/// Remove every edge from a manifest of the repository to the blob,
/// returning the removed pairs.
pub fn disassociate(registry: &mut Registry, repository: &String, blob_digest: &String) -> (removed:
    Vec<(String, String)>)
    requires
        old(registry).wf(),
    ensures
        final(registry).wf(),
        final(registry).blobs@ == old(registry).blobs@,
        final(registry).manifests@ == old(registry).manifests@,
        final(registry).tags@ == old(registry).tags@,
        final(registry).repositories@ == old(registry).repositories@,
        final(registry).edges_view() == old(registry).edges_view().difference(
            removed_edges(*old(registry), repository@, blob_digest@),
        ),
        removed@.map_values(|pair: (String, String)| (pair.0@, pair.1@)).to_set() == removed_edges(
            *old(registry),
            repository@,
            blob_digest@,
        ),
{
    let ghost target = removed_edges(*old(registry), repository@, blob_digest@);
    let mut kept: Vec<EdgeRow> = Vec::new();
    let mut removed: Vec<(String, String)> = Vec::new();
    let ghost mut src: Seq<int> = Seq::empty();
    let mut i: usize = 0;
    let n = registry.manifest_blobs.len();
    while i < n
        invariant
            target == removed_edges(*old(registry), repository@, blob_digest@),
            0 <= i <= n,
            n == registry.manifest_blobs@.len(),
            *registry == *old(registry),
            registry.wf(),
            src.len() == kept@.len(),
            forall|k: int| 0 <= k < src.len() ==> 0 <= #[trigger] src[k] < i,
            forall|k1: int, k2: int| 0 <= k1 < k2 < src.len() ==> src[k1] < src[k2],
            forall|k: int|
                0 <= k < src.len() ==> (#[trigger] kept@[k]).manifest@
                    == registry.manifest_blobs@[src[k]].manifest@ && kept@[k].blob@
                    == registry.manifest_blobs@[src[k]].blob@,
            forall|k: int|
                0 <= k < src.len() ==> !target.contains(
                    (
                        (#[trigger] kept@[k]).manifest@,
                        kept@[k].blob@,
                    ),
                ),
            forall|j: int|
                0 <= j < i && !target.contains(
                    (
                        (#[trigger] registry.manifest_blobs@[j]).manifest@,
                        registry.manifest_blobs@[j].blob@,
                    ),
                ) ==> exists|k: int| 0 <= k < src.len() && src[k] == j,
            forall|k: int|
                0 <= k < removed@.len() ==> target.contains(
                    ((#[trigger] removed@[k]).0@, removed@[k].1@),
                ),
            forall|j: int|
                0 <= j < i && target.contains(
                    (
                        (#[trigger] registry.manifest_blobs@[j]).manifest@,
                        registry.manifest_blobs@[j].blob@,
                    ),
                ) ==> exists|k: int|
                    0 <= k < removed@.len() && (#[trigger] removed@[k]).0@
                        == registry.manifest_blobs@[j].manifest@ && removed@[k].1@
                        == registry.manifest_blobs@[j].blob@,
        decreases n - i,
    {
        let is_blob = registry.manifest_blobs[i].blob == *blob_digest;
        let in_repo = crate::db::manifests::find(
            &registry.manifests,
            repository,
            &registry.manifest_blobs[i].manifest,
        ).is_some();
        let is_target = is_blob && in_repo;
        proof {
            let row_m = registry.manifest_blobs@[i as int].manifest@;
            let row_b = registry.manifest_blobs@[i as int].blob@;
            registry.lemma_manifest_contains(repository@, row_m);
            assert(registry.edge_pairs()[i as int] == (row_m, row_b));
            assert(registry.edges_view().contains((row_m, row_b)));
            if is_target {
                assert(row_b == blob_digest@);
                assert(registry.manifests_view().contains_key((repository@, row_m)));
                assert(target.contains((row_m, row_b)));
            } else {
                assert(!(row_b == blob_digest@ && registry.manifests_view().contains_key(
                    (repository@, row_m),
                )));
                assert(!target.contains((row_m, row_b)));
            }
            assert(is_target == target.contains((row_m, row_b)));
        }
        if is_target {
            let ghost removed_snap = removed@;
            removed.push(
                (
                    registry.manifest_blobs[i].manifest.clone(),
                    registry.manifest_blobs[i].blob.clone(),
                ),
            );
            proof {
                assert forall|j: int|
                    0 <= j < i + 1 && target.contains(
                        (
                            (#[trigger] registry.manifest_blobs@[j]).manifest@,
                            registry.manifest_blobs@[j].blob@,
                        ),
                    ) implies exists|k: int|
                    0 <= k < removed@.len() && (#[trigger] removed@[k]).0@
                        == registry.manifest_blobs@[j].manifest@ && removed@[k].1@
                        == registry.manifest_blobs@[j].blob@ by {
                    if j == i {
                        assert(removed@[removed@.len() - 1].0@
                            == registry.manifest_blobs@[j].manifest@);
                        assert(removed@[removed@.len() - 1].1@
                            == registry.manifest_blobs@[j].blob@);
                    } else {
                        let k = choose|k: int|
                            0 <= k < removed_snap.len() && (#[trigger] removed_snap[k]).0@
                                == registry.manifest_blobs@[j].manifest@ && removed_snap[k].1@
                                == registry.manifest_blobs@[j].blob@;
                        assert(removed@[k] == removed_snap[k]);
                    }
                }
            }
        } else {
            let ghost src_snap = src;
            kept.push(
                EdgeRow {
                    manifest: registry.manifest_blobs[i].manifest.clone(),
                    blob: registry.manifest_blobs[i].blob.clone(),
                },
            );
            proof {
                src = src.push(i as int);
                assert(src[src.len() - 1] == i as int);
                assert forall|j: int|
                    0 <= j < i + 1 && !target.contains(
                        (
                            (#[trigger] registry.manifest_blobs@[j]).manifest@,
                            registry.manifest_blobs@[j].blob@,
                        ),
                    ) implies exists|k: int| 0 <= k < src.len() && src[k] == j by {
                    if j == i {
                        assert(src[src.len() - 1] == j);
                    } else {
                        let k = choose|k: int| 0 <= k < src_snap.len() && src_snap[k] == j;
                        assert(src[k] == j);
                    }
                }
            }
        }
        i += 1;
    }
    registry.manifest_blobs = kept;
    proof {
        assert(registry.blob_pairs() =~= old(registry).blob_pairs());
        assert(registry.manifest_pairs() =~= old(registry).manifest_pairs());
        assert(registry.tag_pairs() =~= old(registry).tag_pairs());
        assert forall|k1: int, k2: int|
            0 <= k1 < k2 < registry.edge_pairs().len() implies registry.edge_pairs()[k1]
            != registry.edge_pairs()[k2] by {
            assert(registry.edge_pairs()[k1] == old(registry).edge_pairs()[src[k1]]);
            assert(registry.edge_pairs()[k2] == old(registry).edge_pairs()[src[k2]]);
            assert(old(registry).edge_pairs()[src[k1]] != old(registry).edge_pairs()[src[k2]]);
        }
        assert forall|x: (Seq<char>, Seq<char>)| registry.edges_view().contains(x) implies old(registry).edges_view().difference(target).contains(x) by {
            let k = choose|k: int|
                0 <= k < registry.edge_pairs().len() && registry.edge_pairs()[k] == x;
            assert(registry.edge_pairs()[k] == old(registry).edge_pairs()[src[k]]);
            assert(old(registry).edge_pairs()[src[k]] == x);
            assert(old(registry).edges_view().contains(x));
            assert(!target.contains(x));
        }
        assert forall|x: (Seq<char>, Seq<char>)|
            old(registry).edges_view().difference(target).contains(x) implies registry.edges_view().contains(
            x,
        ) by {
            let j = choose|j: int|
                0 <= j < old(registry).edge_pairs().len() && old(registry).edge_pairs()[j] == x;
            assert(old(registry).manifest_blobs@[j].manifest@ == x.0);
            assert(old(registry).manifest_blobs@[j].blob@ == x.1);
            let k = choose|k: int| 0 <= k < src.len() && src[k] == j;
            assert(registry.edge_pairs()[k] == old(registry).edge_pairs()[j]);
            assert(registry.edge_pairs()[k] == x);
        }
        assert(registry.edges_view() =~= old(registry).edges_view().difference(target));
        assert forall|x: (Seq<char>, Seq<char>)|
            removed@.map_values(|pair: (String, String)| (pair.0@, pair.1@)).to_set().contains(
                x,
            ) implies target.contains(x) by {
            let k = choose|k: int|
                0 <= k < removed@.len() && (removed@[k].0@, removed@[k].1@) == x;
            assert(target.contains((removed@[k].0@, removed@[k].1@)));
        }
        assert forall|x: (Seq<char>, Seq<char>)| target.contains(x) implies removed@.map_values(
            |pair: (String, String)| (pair.0@, pair.1@),
        ).to_set().contains(x) by {
            assert(old(registry).edges_view().contains(x));
            let j = choose|j: int|
                0 <= j < old(registry).edge_pairs().len() && old(registry).edge_pairs()[j] == x;
            assert(target.contains(
                (
                    old(registry).manifest_blobs@[j].manifest@,
                    old(registry).manifest_blobs@[j].blob@,
                ),
            ));
            let k = choose|k: int|
                0 <= k < removed@.len() && (#[trigger] removed@[k]).0@
                    == old(registry).manifest_blobs@[j].manifest@ && removed@[k].1@
                    == old(registry).manifest_blobs@[j].blob@;
            assert(removed@.map_values(|pair: (String, String)| (pair.0@, pair.1@))[k] == x);
        }
        assert(removed@.map_values(|pair: (String, String)| (pair.0@, pair.1@)).to_set()
            =~= target);
    }
    removed
}

/// Digest check: a finalise that fails the digest comparison leaves the
/// session row in place and creates no blob row at the rejected digest —
/// the only key written is the session's own.
pub proof fn lemma_failed_finalise_leaves_no_row(
    blobs: Map<Seq<char>, Seq<u8>>,
    session: Seq<char>,
    accumulated: Seq<u8>,
    rejected: Seq<char>,
)
    requires
        !blobs.contains_key(rejected),
        rejected != session,
    ensures
        !blobs.insert(session, accumulated).contains_key(rejected),
        blobs.insert(session, accumulated).contains_key(session),
{
}

/// Deduplication: pushing the same payload through two distinct sessions
/// and finalising both against its content address leaves one blob row at
/// that address, holding the payload, and neither session row.
pub proof fn lemma_upload_deduplication(
    blobs: Map<Seq<char>, Seq<u8>>,
    first_session: Seq<char>,
    second_session: Seq<char>,
    payload: Seq<u8>,
    address: Seq<char>,
)
    requires
        first_session != address,
        second_session != address,
        first_session != second_session,
        !blobs.contains_key(address),
    ensures
        ({
            let once = rekeyed(blobs.insert(first_session, payload), first_session, address);
            let twice = rekeyed(once.insert(second_session, payload), second_session, address);
            &&& twice.contains_key(address)
            &&& twice[address] == payload
            &&& !twice.contains_key(first_session)
            &&& !twice.contains_key(second_session)
        }),
{
    let once = rekeyed(blobs.insert(first_session, payload), first_session, address);
    assert(once == blobs.insert(first_session, payload).remove(first_session).insert(
        address,
        payload,
    ));
    let twice = rekeyed(once.insert(second_session, payload), second_session, address);
    assert(once.insert(second_session, payload).contains_key(address));
    assert(twice == once.insert(second_session, payload).remove(second_session));
}

} // verus!
