//! Tag table operations: list a repository's tags newest first, upsert a
//! tag, resolve a tag to its manifest digest, and measure the bytes a
//! manifest reaches.

use vstd::prelude::*;
use crate::db::{Registry, Tag, TagRow};
use crate::errors::RegistryError;
use crate::kvmap::{lemma_kv_map_push, lemma_kv_map_update_value};

verus! {

/// The index of the tag row keyed by repository and name, if any.
fn find(tags: &Vec<TagRow>, repository: &String, tag: &String) -> (position: Option<usize>)
    ensures
        match position {
            Some(i) => i < tags@.len() && tags@[i as int].repository@ == repository@
                && tags@[i as int].name@ == tag@,
            None => forall|i: int|
                0 <= i < tags@.len() ==> !((#[trigger] tags@[i]).repository@ == repository@
                    && tags@[i].name@ == tag@),
        },
{
    let mut i: usize = 0;
    while i < tags.len()
        invariant
            0 <= i <= tags@.len(),
            forall|j: int|
                0 <= j < i ==> !((#[trigger] tags@[j]).repository@ == repository@
                    && tags@[j].name@ == tag@),
        decreases tags@.len() - i,
    {
        if tags[i].repository == *repository && tags[i].name == *tag {
            return Some(i);
        }
        i += 1;
    }
    None
}

/// Upsert a tag: point it at a manifest digest and stamp it with the time
/// of the write.
pub fn save(registry: &mut Registry, repository: &String, tag: &String, digest: &String, now: i64)
    requires
        old(registry).wf(),
    ensures
        final(registry).wf(),
        final(registry).tags_view() == old(registry).tags_view().insert(
            (repository@, tag@),
            (now, digest@),
        ),
        final(registry).blobs@ == old(registry).blobs@,
        final(registry).manifests@ == old(registry).manifests@,
        final(registry).manifest_blobs@ == old(registry).manifest_blobs@,
        final(registry).repositories@ == old(registry).repositories@,
{
    let row = TagRow {
        repository: repository.clone(),
        name: tag.clone(),
        updated: now,
        manifest: digest.clone(),
    };
    match find(&registry.tags, repository, tag) {
        Some(i) => {
            registry.tags[i] = row;
            proof {
                assert(registry.edge_pairs() =~= old(registry).edge_pairs());
                assert(registry.tag_pairs() =~= old(registry).tag_pairs().update(
                    i as int,
                    ((repository@, tag@), (now, digest@)),
                ));
                lemma_kv_map_update_value(old(registry).tag_pairs(), i as int, (now, digest@));
            }
        },
        None => {
            registry.tags.push(row);
            proof {
                assert(registry.edge_pairs() =~= old(registry).edge_pairs());
                assert(registry.tag_pairs() =~= old(registry).tag_pairs().push(
                    ((repository@, tag@), (now, digest@)),
                ));
                lemma_kv_map_push(old(registry).tag_pairs(), (repository@, tag@), (now, digest@));
                assert forall|i: int, j: int|
                    0 <= i < j < registry.tag_pairs().len() implies registry.tag_pairs()[i].0
                    != registry.tag_pairs()[j].0 by {
                    if j == registry.tag_pairs().len() - 1 {
                        assert(!((#[trigger] old(registry).tags@[i]).repository@ == repository@
                            && old(registry).tags@[i].name@ == tag@));
                    }
                }
            }
        },
    }
}

/// The manifest digest a tag resolves to.
pub fn get_manifest(registry: &Registry, repository: &String, tag: &String) -> (result: Result<
    String,
    RegistryError,
>)
    requires
        registry.wf(),
    ensures
        match result {
            Ok(digest) => registry.tags_view().contains_key((repository@, tag@)) && digest@
                == registry.tags_view()[(repository@, tag@)].1,
            Err(err) => err == RegistryError::ManifestUnknown
                && !registry.tags_view().contains_key((repository@, tag@)),
        },
{
    match find(&registry.tags, repository, tag) {
        Some(i) => {
            proof {
                registry.lemma_tag_index(i as int);
            }
            Ok(registry.tags[i].manifest.clone())
        },
        None => {
            proof {
                registry.lemma_tag_contains(repository@, tag@);
            }
            Err(RegistryError::ManifestUnknown)
        },
    }
}

/// The tags of a repository, newest first. Each listed tag is a stored tag
/// of the repository and every stored tag of the repository is listed, each
/// name once; entries are ordered by update time descending.
/// Some row among the first `bound` tag rows carries this repository and
/// name. Kept opaque so that the solver instantiates it only where a proof
/// reveals it.
#[verifier::opaque]
pub open spec fn row_with_name(
    rows: Seq<TagRow>,
    repository: Seq<char>,
    name: Seq<char>,
    bound: int,
) -> bool {
    exists|j: int|
        0 <= j < bound && (#[trigger] rows[j]).repository@ == repository && rows[j].name@ == name
}

/// Some listed entry carries this name. Kept opaque for the same reason.
#[verifier::opaque]
pub open spec fn entry_with_name(entries: Seq<Tag>, name: Seq<char>) -> bool {
    exists|k: int| 0 <= k < entries.len() && (#[trigger] entries[k]).name@ == name
}

/// A row found below one bound is found below any larger bound.
proof fn lemma_row_with_name_widen(
    rows: Seq<TagRow>,
    repository: Seq<char>,
    name: Seq<char>,
    bound: int,
    wider: int,
)
    requires
        row_with_name(rows, repository, name, bound),
        bound <= wider,
    ensures
        row_with_name(rows, repository, name, wider),
{
    reveal(row_with_name);
    let j = choose|j: int|
        0 <= j < bound && (#[trigger] rows[j]).repository@ == repository && rows[j].name@ == name;
    assert(0 <= j < wider && rows[j].repository@ == repository && rows[j].name@ == name);
}

/// Inserting an entry keeps every name that was already listed.
proof fn lemma_entry_with_name_insert(snap: Seq<Tag>, pos: int, row: Tag, name: Seq<char>)
    requires
        0 <= pos <= snap.len(),
        entry_with_name(snap, name),
    ensures
        entry_with_name(snap.insert(pos, row), name),
{
    reveal(entry_with_name);
    snap.insert_ensures(pos, row);
    let k = choose|k: int| 0 <= k < snap.len() && (#[trigger] snap[k]).name@ == name;
    if k < pos {
        assert(snap.insert(pos, row)[k].name@ == name);
    } else {
        assert(snap.insert(pos, row)[k + 1].name@ == name);
    }
}

/// The tags of a repository, newest first. Each listed tag is a stored tag
/// of the repository and every stored tag of the repository is listed, each
/// name once; entries are ordered by update time descending.
#[verifier::rlimit(100)]
pub fn list(registry: &Registry, repository: &String) -> (tags: Vec<Tag>)
    requires
        registry.wf(),
    ensures
        forall|k1: int, k2: int|
            0 <= k1 < k2 < tags@.len() ==> (#[trigger] tags@[k1]).updated >= (
            #[trigger] tags@[k2]).updated,
        forall|k1: int, k2: int|
            0 <= k1 < k2 < tags@.len() ==> (#[trigger] tags@[k1]).name@ != (
            #[trigger] tags@[k2]).name@,
        forall|k: int|
            0 <= k < tags@.len() ==> registry.tags_view().contains_key(
                (repository@, (#[trigger] tags@[k]).name@),
            ) && registry.tags_view()[(repository@, tags@[k].name@)] == (
                tags@[k].updated,
                tags@[k].manifest@,
            ),
        forall|key: (Seq<char>, Seq<char>)|
            #[trigger] registry.tags_view().contains_key(key) && key.0 == repository@
                ==> exists|k: int| 0 <= k < tags@.len() && (#[trigger] tags@[k]).name@ == key.1,
{
    let mut result: Vec<Tag> = Vec::new();
    let mut i: usize = 0;
    let n = registry.tags.len();
    while i < n
        invariant
            0 <= i <= n,
            n == registry.tags@.len(),
            crate::kvmap::unique_keys(registry.tag_pairs()),
            forall|k1: int, k2: int|
                0 <= k1 < k2 < result@.len() ==> (#[trigger] result@[k1]).updated >= (
                #[trigger] result@[k2]).updated,
            forall|k1: int, k2: int|
                0 <= k1 < k2 < result@.len() ==> (#[trigger] result@[k1]).name@ != (
                #[trigger] result@[k2]).name@,
            forall|k: int|
                0 <= k < result@.len() ==> registry.tags_view().contains_key(
                    (repository@, (#[trigger] result@[k]).name@),
                ) && registry.tags_view()[(repository@, result@[k].name@)] == (
                    result@[k].updated,
                    result@[k].manifest@,
                ),
            forall|k: int|
                0 <= k < result@.len() ==> row_with_name(
                    registry.tags@,
                    repository@,
                    (#[trigger] result@[k]).name@,
                    i as int,
                ),
            forall|j: int|
                0 <= j < i && (#[trigger] registry.tags@[j]).repository@ == repository@
                    ==> entry_with_name(result@, registry.tags@[j].name@),
        decreases n - i,
    {
        let ghost snap_i = result@;
        if registry.tags[i].repository == *repository {
            let row = Tag {
                name: registry.tags[i].name.clone(),
                updated: registry.tags[i].updated,
                manifest: registry.tags[i].manifest.clone(),
            };
            let mut pos: usize = 0;
            while pos < result.len() && result[pos].updated >= row.updated
                invariant
                    0 <= pos <= result@.len(),
                    forall|k: int|
                        0 <= k < pos ==> (#[trigger] result@[k]).updated >= row.updated,
                ensures
                    0 <= pos <= result@.len(),
                    forall|k: int|
                        0 <= k < pos ==> (#[trigger] result@[k]).updated >= row.updated,
                    pos < result@.len() ==> result@[pos as int].updated < row.updated,
                decreases result@.len() - pos,
            {
                pos += 1;
            }
            let ghost snap = result@;
            let ghost ti: int = i as int;
            result.insert(pos, row);
            proof {
                snap.insert_ensures(pos as int, row);
                assert(result@ == snap.insert(pos as int, row));
                assert(result@[pos as int] == row);
                assert(row.name@ == registry.tags@[ti].name@);
                assert(row.manifest@ == registry.tags@[ti].manifest@);
                registry.lemma_tag_index(ti);
                // the new entry carries a name no earlier entry carries: an
                // entry with the same name would trace to an earlier row
                // with the same (repository, name) key
                assert forall|k: int| 0 <= k < snap.len() implies (#[trigger] snap[k]).name@
                    != row.name@ by {
                    if snap[k].name@ == row.name@ {
                        reveal(row_with_name);
                        let j = choose|j: int|
                            0 <= j < ti && (#[trigger] registry.tags@[j]).repository@
                                == repository@ && registry.tags@[j].name@ == snap[k].name@;
                        assert(registry.tag_pairs()[j].0 == registry.tag_pairs()[ti].0);
                        assert(false);
                    }
                }
                assert forall|k1: int, k2: int|
                    0 <= k1 < k2 < result@.len() implies (#[trigger] result@[k1]).updated >= (
                #[trigger] result@[k2]).updated && (#[trigger] result@[k1]).name@ != (
                #[trigger] result@[k2]).name@ by {
                    if k1 < pos {
                        assert(result@[k1] == snap[k1]);
                    } else if k1 > pos {
                        assert(result@[k1] == snap[k1 - 1]);
                    }
                    if k2 < pos {
                        assert(result@[k2] == snap[k2]);
                    } else if k2 > pos {
                        assert(result@[k2] == snap[k2 - 1]);
                    }
                }
                assert forall|k: int| 0 <= k < result@.len() implies registry.tags_view().contains_key(
                    (repository@, (#[trigger] result@[k]).name@),
                ) && registry.tags_view()[(repository@, result@[k].name@)] == (
                    result@[k].updated,
                    result@[k].manifest@,
                ) && row_with_name(
                    registry.tags@,
                    repository@,
                    result@[k].name@,
                    ti + 1,
                ) by {
                    if k == pos {
                        reveal(row_with_name);
                        assert(0 <= ti < ti + 1 && registry.tags@[ti].repository@ == repository@
                            && registry.tags@[ti].name@ == result@[k].name@);
                    } else {
                        let k0: int = if k < pos {
                            k
                        } else {
                            k - 1
                        };
                        assert(result@[k] == snap[k0]);
                        lemma_row_with_name_widen(
                            registry.tags@,
                            repository@,
                            snap[k0].name@,
                            ti,
                            ti + 1,
                        );
                    }
                }
                assert forall|j: int|
                    0 <= j < ti + 1 && (#[trigger] registry.tags@[j]).repository@
                        == repository@ implies entry_with_name(
                    result@,
                    registry.tags@[j].name@,
                ) by {
                    if j == ti {
                        reveal(entry_with_name);
                        assert(result@[pos as int].name@ == registry.tags@[j].name@);
                    } else {
                        lemma_entry_with_name_insert(
                            snap,
                            pos as int,
                            row,
                            registry.tags@[j].name@,
                        );
                    }
                }
            }
        } else {
            proof {
                assert forall|k: int| 0 <= k < result@.len() implies row_with_name(
                    registry.tags@,
                    repository@,
                    (#[trigger] result@[k]).name@,
                    i + 1,
                ) by {
                    lemma_row_with_name_widen(
                        registry.tags@,
                        repository@,
                        result@[k].name@,
                        i as int,
                        i + 1,
                    );
                }
            }
        }
        i += 1;
    }
    proof {
        assert forall|key: (Seq<char>, Seq<char>)|
            #[trigger] registry.tags_view().contains_key(key) && key.0
                == repository@ implies exists|k: int|
            0 <= k < result@.len() && (#[trigger] result@[k]).name@ == key.1 by {
            registry.lemma_tag_contains(key.0, key.1);
            let j = choose|j: int|
                0 <= j < registry.tags@.len() && #[trigger] registry.tags@[j].repository@ == key.0
                    && registry.tags@[j].name@ == key.1;
            assert(registry.tags@[j].repository@ == repository@);
            assert(entry_with_name(result@, registry.tags@[j].name@));
            reveal(entry_with_name);
            let k = choose|k: int|
                0 <= k < result@.len() && (#[trigger] result@[k]).name@
                    == registry.tags@[j].name@;
            assert(0 <= k < result@.len() && result@[k].name@ == key.1);
        }
    }
    result
}

/// The total size in bytes a manifest reaches: the sum of the lengths of
/// the stored blobs its edges point at, as far as it fits in 64 bits.
pub open spec fn reachable_size(
    blobs: Seq<crate::db::BlobRow>,
    edges: Set<(Seq<char>, Seq<char>)>,
    manifest: Seq<char>,
) -> int
    decreases blobs.len(),
{
    if blobs.len() == 0 {
        0
    } else {
        reachable_size(blobs.drop_last(), edges, manifest) + if edges.contains(
            (manifest, blobs.last().digest@),
        ) {
            blobs.last().value@.len() as int
        } else {
            0
        }
    }
}

/// Whether the edge table holds an edge from a manifest to a blob.
fn edge_exists(edges: &Vec<crate::db::EdgeRow>, manifest: &String, blob: &String) -> (found: bool)
    ensures
        found == exists|j: int|
            0 <= j < edges@.len() && (#[trigger] edges@[j]).manifest@ == manifest@
                && edges@[j].blob@ == blob@,
{
    let mut j: usize = 0;
    while j < edges.len()
        invariant
            0 <= j <= edges@.len(),
            forall|t: int|
                0 <= t < j ==> !((#[trigger] edges@[t]).manifest@ == manifest@ && edges@[t].blob@
                    == blob@),
        decreases edges@.len() - j,
    {
        if edges[j].manifest == *manifest && edges[j].blob == *blob {
            return true;
        }
        j += 1;
    }
    false
}

/// The bytes a manifest reaches through the edge table: the summed lengths
/// of the blobs it is associated with, saturating at the 64-bit limit.
pub fn get_size(registry: &Registry, digest: &String) -> (size: u64)
    requires
        registry.wf(),
    ensures
        size as int == vstd::math::min(
            reachable_size(registry.blobs@, registry.edges_view(), digest@),
            u64::MAX as int,
        ),
{
    let mut acc: u64 = 0;
    let mut i: usize = 0;
    let n = registry.blobs.len();
    proof {
        assert(registry.blobs@.subrange(0, 0) =~= Seq::empty());
    }
    while i < n
        invariant
            0 <= i <= n,
            n == registry.blobs@.len(),
            registry.wf(),
            acc as int == vstd::math::min(
                reachable_size(
                    registry.blobs@.subrange(0, i as int),
                    registry.edges_view(),
                    digest@,
                ),
                u64::MAX as int,
            ),
        decreases n - i,
    {
        let here = edge_exists(&registry.manifest_blobs, digest, &registry.blobs[i].digest);
        proof {
            let prefix = registry.blobs@.subrange(0, i + 1);
            assert(prefix.drop_last() =~= registry.blobs@.subrange(0, i as int));
            assert(prefix.last() == registry.blobs@[i as int]);
            if here {
                let j = choose|j: int|
                    0 <= j < registry.manifest_blobs@.len() && (
                    #[trigger] registry.manifest_blobs@[j]).manifest@ == digest@
                        && registry.manifest_blobs@[j].blob@ == registry.blobs@[i as int].digest@;
                assert(registry.edge_pairs()[j] == (digest@, registry.blobs@[i as int].digest@));
                assert(registry.edges_view().contains(
                    (digest@, registry.blobs@[i as int].digest@),
                ));
            } else {
                if registry.edges_view().contains((digest@, registry.blobs@[i as int].digest@)) {
                    let j = choose|j: int|
                        0 <= j < registry.edge_pairs().len() && registry.edge_pairs()[j] == (
                        digest@,
                        registry.blobs@[i as int].digest@,
                        );
                    assert((#[trigger] registry.manifest_blobs@[j]).manifest@ == digest@
                        && registry.manifest_blobs@[j].blob@ == registry.blobs@[i as int].digest@);
                    assert(false);
                }
            }
        }
        if here {
            let len = registry.blobs[i].value.len();
            match acc.checked_add(len as u64) {
                Some(next) => {
                    acc = next;
                },
                None => {
                    acc = u64::MAX;
                },
            }
        }
        i += 1;
    }
    proof {
        assert(registry.blobs@.subrange(0, n as int) =~= registry.blobs@);
    }
    acc
}

/// Tag idempotence: saving the same tag twice with the same target leaves
/// the same observable tag table as saving it once — the second write only
/// refreshes the update time, which ends at the later stamp either way.
pub proof fn lemma_tag_save_idempotent(
    tags: Map<(Seq<char>, Seq<char>), (i64, Seq<char>)>,
    key: (Seq<char>, Seq<char>),
    digest: Seq<char>,
    first: i64,
    second: i64,
)
    ensures
        tags.insert(key, (first, digest)).insert(key, (second, digest)) == tags.insert(
            key,
            (second, digest),
        ),
        tags.insert(key, (first, digest)).insert(key, (second, digest))[key] == (second, digest),
{
    assert(tags.insert(key, (first, digest)).insert(key, (second, digest)) =~= tags.insert(
        key,
        (second, digest),
    ));
}

} // verus!
