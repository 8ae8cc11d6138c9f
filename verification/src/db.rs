//! The relational state of the registry: five tables — repositories,
//! manifests, tags, blobs, and the manifest-to-blob edge table — with their
//! integrity invariants. Each table is held as a vector of rows and
//! abstracted, for contracts, as a map from its key, a set of its members,
//! or a sorted sequence.

use vstd::prelude::*;
use crate::digest::digest_chars;
use crate::kvmap::{kv_map, unique_keys, lemma_kv_map_contains, lemma_kv_map_index};
use crate::textorder::chars_lt;

pub mod blobs;
pub mod manifests;
pub mod repositories;
pub mod tags;

verus! {

/// A stored blob: an opaque payload under its key. Until an upload session
/// finalises, the key is the session identifier; afterwards it is the
/// content digest.
pub struct BlobRow {
    pub digest: String,
    pub value: Vec<u8>,
}

/// A stored manifest: the raw JSON body, byte-faithful, keyed by repository
/// and content digest.
pub struct ManifestRow {
    pub repository: String,
    pub digest: String,
    pub value: String,
}

/// A stored tag: a mutable name in a repository resolving to a manifest
/// digest, with the time it was last written.
pub struct TagRow {
    pub repository: String,
    pub name: String,
    pub updated: i64,
    pub manifest: String,
}

/// An edge asserting that a manifest reaches a blob; the sole source of
/// truth for blob reachability.
pub struct EdgeRow {
    pub manifest: String,
    pub blob: String,
}

/// A tag as listed to a client: its name, last update time, and the
/// manifest digest it resolves to.
pub struct Tag {
    pub name: String,
    pub updated: i64,
    pub manifest: String,
}

/// A repository as listed to a client.
pub struct Repository {
    pub name: String,
}

/// The whole relational state.
pub struct Registry {
    pub repositories: Vec<String>,
    pub blobs: Vec<BlobRow>,
    pub manifests: Vec<ManifestRow>,
    pub tags: Vec<TagRow>,
    pub manifest_blobs: Vec<EdgeRow>,
}

/// The digest string a manifest body is required to be stored under: the
/// SHA-256 content address of its UTF-8 bytes.
pub open spec fn manifest_digest_chars(value: Seq<char>) -> Seq<char> {
    digest_chars(vstd::utf8::encode_utf8(value))
}

impl Registry {
    /// The blob table as key-value pairs.
    pub open spec fn blob_pairs(self) -> Seq<(Seq<char>, Seq<u8>)> {
        self.blobs@.map_values(|row: BlobRow| (row.digest@, row.value@))
    }

    /// The blob table as a map from digest to payload.
    pub open spec fn blobs_view(self) -> Map<Seq<char>, Seq<u8>> {
        kv_map(self.blob_pairs())
    }

    /// The manifest table as key-value pairs.
    pub open spec fn manifest_pairs(self) -> Seq<((Seq<char>, Seq<char>), Seq<char>)> {
        self.manifests@.map_values(|row: ManifestRow| ((row.repository@, row.digest@), row.value@))
    }

    /// The manifest table as a map from (repository, digest) to raw body.
    pub open spec fn manifests_view(self) -> Map<(Seq<char>, Seq<char>), Seq<char>> {
        kv_map(self.manifest_pairs())
    }

    /// The digests of the stored manifests, over all repositories.
    pub open spec fn manifest_digests(self) -> Set<Seq<char>> {
        self.manifests@.map_values(|row: ManifestRow| row.digest@).to_set()
    }

    /// The repositories that hold at least one manifest.
    pub open spec fn manifest_repos(self) -> Set<Seq<char>> {
        self.manifests@.map_values(|row: ManifestRow| row.repository@).to_set()
    }

    /// The tag table as key-value pairs.
    pub open spec fn tag_pairs(self) -> Seq<((Seq<char>, Seq<char>), (i64, Seq<char>))> {
        self.tags@.map_values(
            |row: TagRow| ((row.repository@, row.name@), (row.updated, row.manifest@)),
        )
    }

    /// The tag table as a map from (repository, name) to (updated, manifest
    /// digest).
    pub open spec fn tags_view(self) -> Map<(Seq<char>, Seq<char>), (i64, Seq<char>)> {
        kv_map(self.tag_pairs())
    }

    /// The edge table as pairs (manifest digest, blob digest).
    pub open spec fn edge_pairs(self) -> Seq<(Seq<char>, Seq<char>)> {
        self.manifest_blobs@.map_values(|row: EdgeRow| (row.manifest@, row.blob@))
    }

    /// The edge table as a set of (manifest digest, blob digest) pairs.
    pub open spec fn edges_view(self) -> Set<(Seq<char>, Seq<char>)> {
        self.edge_pairs().to_set()
    }

    /// The repository table as a set of names.
    pub open spec fn repos_view(self) -> Set<Seq<char>> {
        self.repositories@.map_values(|name: String| name@).to_set()
    }

    /// The uniqueness invariants of the schema: one row per blob digest,
    /// per (repository, manifest digest), per (repository, tag name), per
    /// edge pair, and per repository name — with the repository table kept
    /// sorted ascending.
    pub open spec fn keys_unique(self) -> bool {
        &&& unique_keys(self.blob_pairs())
        &&& unique_keys(self.manifest_pairs())
        &&& unique_keys(self.tag_pairs())
        &&& (forall|i: int, j: int|
            0 <= i < j < self.edge_pairs().len() ==> self.edge_pairs()[i] != self.edge_pairs()[j])
        &&& (forall|i: int, j: int|
            0 <= i < j < self.repositories@.len() ==> chars_lt(
                self.repositories@[i]@,
                self.repositories@[j]@,
            ))
    }

    /// Every stored manifest is content-addressed: its row digest is the
    /// SHA-256 address of its raw body.
    pub open spec fn content_addressed(self) -> bool {
        forall|i: int|
            0 <= i < self.manifests@.len() ==> #[trigger] self.manifests@[i].digest@
                == manifest_digest_chars(self.manifests@[i].value@)
    }

    /// Well-formedness of the store: the schema's uniqueness invariants and
    /// content addressing of manifests.
    pub open spec fn wf(self) -> bool {
        &&& self.keys_unique()
        &&& self.content_addressed()
    }

    /// An empty store.
    pub fn new() -> (registry: Registry)
        ensures
            registry.wf(),
            registry.blobs_view() == Map::<Seq<char>, Seq<u8>>::empty(),
            registry.manifests_view() == Map::<(Seq<char>, Seq<char>), Seq<char>>::empty(),
            registry.tags_view() == Map::<(Seq<char>, Seq<char>), (i64, Seq<char>)>::empty(),
            registry.edges_view() == Set::<(Seq<char>, Seq<char>)>::empty(),
            registry.repos_view() == Set::<Seq<char>>::empty(),
            registry.blobs@.len() == 0,
            registry.manifests@.len() == 0,
            registry.tags@.len() == 0,
            registry.manifest_blobs@.len() == 0,
            registry.repositories@.len() == 0,
    {
        let registry = Registry {
            repositories: Vec::new(),
            blobs: Vec::new(),
            manifests: Vec::new(),
            tags: Vec::new(),
            manifest_blobs: Vec::new(),
        };
        proof {
            assert(registry.blob_pairs() =~= Seq::empty());
            assert(registry.manifest_pairs() =~= Seq::empty());
            assert(registry.tag_pairs() =~= Seq::empty());
            assert(registry.edge_pairs() =~= Seq::empty());
            assert(registry.edges_view() =~= Set::empty());
            assert(registry.repos_view() =~= Set::empty());
        }
        registry
    }

    /// A digest is in the blob map exactly when a blob row carries it.
    pub proof fn lemma_blob_contains(self, digest: Seq<char>)
        ensures
            self.blobs_view().contains_key(digest) <==> exists|i: int|
                0 <= i < self.blobs@.len() && #[trigger] self.blobs@[i].digest@ == digest,
    {
        lemma_kv_map_contains(self.blob_pairs(), digest);
        if exists|i: int| 0 <= i < self.blobs@.len() && #[trigger] self.blobs@[i].digest@
            == digest {
            let i = choose|i: int|
                0 <= i < self.blobs@.len() && #[trigger] self.blobs@[i].digest@ == digest;
            assert(self.blob_pairs()[i].0 == digest);
        }
        if self.blobs_view().contains_key(digest) {
            let i = choose|i: int|
                0 <= i < self.blob_pairs().len() && #[trigger] self.blob_pairs()[i].0 == digest;
            assert(self.blobs@[i].digest@ == digest);
        }
    }

    /// The blob map sends each row's digest to that row's payload.
    pub proof fn lemma_blob_index(self, i: int)
        requires
            unique_keys(self.blob_pairs()),
            0 <= i < self.blobs@.len(),
        ensures
            self.blobs_view().contains_key(self.blobs@[i].digest@),
            self.blobs_view()[self.blobs@[i].digest@] == self.blobs@[i].value@,
    {
        lemma_kv_map_index(self.blob_pairs(), i);
    }

    /// A key is in the manifest map exactly when a manifest row carries it.
    pub proof fn lemma_manifest_contains(self, repository: Seq<char>, digest: Seq<char>)
        ensures
            self.manifests_view().contains_key((repository, digest)) <==> exists|i: int|
                0 <= i < self.manifests@.len() && #[trigger] self.manifests@[i].repository@
                    == repository && self.manifests@[i].digest@ == digest,
    {
        lemma_kv_map_contains(self.manifest_pairs(), (repository, digest));
        if exists|i: int|
            0 <= i < self.manifests@.len() && #[trigger] self.manifests@[i].repository@
                == repository && self.manifests@[i].digest@ == digest {
            let i = choose|i: int|
                0 <= i < self.manifests@.len() && #[trigger] self.manifests@[i].repository@
                    == repository && self.manifests@[i].digest@ == digest;
            assert(self.manifest_pairs()[i].0 == (repository, digest));
        }
        if self.manifests_view().contains_key((repository, digest)) {
            let i = choose|i: int|
                0 <= i < self.manifest_pairs().len() && #[trigger] self.manifest_pairs()[i].0 == (
                repository,
                digest,
                );
            assert(self.manifests@[i].repository@ == repository);
            assert(self.manifests@[i].digest@ == digest);
        }
    }

    /// The manifest map sends each row's key to that row's body.
    pub proof fn lemma_manifest_index(self, i: int)
        requires
            unique_keys(self.manifest_pairs()),
            0 <= i < self.manifests@.len(),
        ensures
            self.manifests_view().contains_key(
                (self.manifests@[i].repository@, self.manifests@[i].digest@),
            ),
            self.manifests_view()[(self.manifests@[i].repository@, self.manifests@[i].digest@)]
                == self.manifests@[i].value@,
    {
        lemma_kv_map_index(self.manifest_pairs(), i);
    }

    /// A key is in the tag map exactly when a tag row carries it.
    pub proof fn lemma_tag_contains(self, repository: Seq<char>, name: Seq<char>)
        ensures
            self.tags_view().contains_key((repository, name)) <==> exists|i: int|
                0 <= i < self.tags@.len() && #[trigger] self.tags@[i].repository@ == repository
                    && self.tags@[i].name@ == name,
    {
        lemma_kv_map_contains(self.tag_pairs(), (repository, name));
        if exists|i: int|
            0 <= i < self.tags@.len() && #[trigger] self.tags@[i].repository@ == repository
                && self.tags@[i].name@ == name {
            let i = choose|i: int|
                0 <= i < self.tags@.len() && #[trigger] self.tags@[i].repository@ == repository
                    && self.tags@[i].name@ == name;
            assert(self.tag_pairs()[i].0 == (repository, name));
        }
        if self.tags_view().contains_key((repository, name)) {
            let i = choose|i: int|
                0 <= i < self.tag_pairs().len() && #[trigger] self.tag_pairs()[i].0 == (
                repository,
                name,
                );
            assert(self.tags@[i].repository@ == repository);
            assert(self.tags@[i].name@ == name);
        }
    }

    /// A digest is among the manifest digests exactly when a manifest row
    /// carries it.
    pub proof fn lemma_manifest_digests_contains(self, digest: Seq<char>)
        ensures
            self.manifest_digests().contains(digest) <==> exists|j: int|
                0 <= j < self.manifests@.len() && (#[trigger] self.manifests@[j]).digest@
                    == digest,
    {
        if exists|j: int|
            0 <= j < self.manifests@.len() && (#[trigger] self.manifests@[j]).digest@ == digest {
            let j = choose|j: int|
                0 <= j < self.manifests@.len() && (#[trigger] self.manifests@[j]).digest@
                    == digest;
            assert(self.manifests@.map_values(|row: ManifestRow| row.digest@)[j] == digest);
        }
        if self.manifest_digests().contains(digest) {
            let mv = self.manifests@.map_values(|row: ManifestRow| row.digest@);
            assert(mv.contains(digest));
            let j = choose|j: int| 0 <= j < mv.len() && mv[j] == digest;
            assert(self.manifests@[j].digest@ == digest);
        }
    }

    /// A repository holds a manifest exactly when a manifest row names it.
    pub proof fn lemma_manifest_repos_contains(self, name: Seq<char>)
        ensures
            self.manifest_repos().contains(name) <==> exists|j: int|
                0 <= j < self.manifests@.len() && (#[trigger] self.manifests@[j]).repository@
                    == name,
    {
        if exists|j: int|
            0 <= j < self.manifests@.len() && (#[trigger] self.manifests@[j]).repository@
                == name {
            let j = choose|j: int|
                0 <= j < self.manifests@.len() && (#[trigger] self.manifests@[j]).repository@
                    == name;
            assert(self.manifests@.map_values(|row: ManifestRow| row.repository@)[j] == name);
        }
        if self.manifest_repos().contains(name) {
            let mv = self.manifests@.map_values(|row: ManifestRow| row.repository@);
            assert(mv.contains(name));
            let j = choose|j: int| 0 <= j < mv.len() && mv[j] == name;
            assert(self.manifests@[j].repository@ == name);
        }
    }

    /// The tag map sends each row's key to that row's time and target.
    pub proof fn lemma_tag_index(self, i: int)
        requires
            unique_keys(self.tag_pairs()),
            0 <= i < self.tags@.len(),
        ensures
            self.tags_view().contains_key((self.tags@[i].repository@, self.tags@[i].name@)),
            self.tags_view()[(self.tags@[i].repository@, self.tags@[i].name@)] == (
                self.tags@[i].updated,
                self.tags@[i].manifest@,
            ),
    {
        lemma_kv_map_index(self.tag_pairs(), i);
    }
}

/// Whether some manifest row, in any repository, carries a digest.
fn digest_stored(manifests: &Vec<ManifestRow>, digest: &String) -> (found: bool)
    ensures
        found == exists|j: int|
            0 <= j < manifests@.len() && (#[trigger] manifests@[j]).digest@ == digest@,
{
    let mut j: usize = 0;
    while j < manifests.len()
        invariant
            0 <= j <= manifests@.len(),
            forall|t: int| 0 <= t < j ==> (#[trigger] manifests@[t]).digest@ != digest@,
        decreases manifests@.len() - j,
    {
        if manifests[j].digest == *digest {
            return true;
        }
        j += 1;
    }
    false
}

/// Whether some edge, from any manifest, points at a blob.
fn blob_referenced(edges: &Vec<EdgeRow>, digest: &String) -> (found: bool)
    ensures
        found == exists|j: int|
            0 <= j < edges@.len() && (#[trigger] edges@[j]).blob@ == digest@,
{
    let mut j: usize = 0;
    while j < edges.len()
        invariant
            0 <= j <= edges@.len(),
            forall|t: int| 0 <= t < j ==> (#[trigger] edges@[t]).blob@ != digest@,
        decreases edges@.len() - j,
    {
        if edges[j].blob == *digest {
            return true;
        }
        j += 1;
    }
    false
}

/// Whether some manifest row names a repository.
fn repo_stored(manifests: &Vec<ManifestRow>, name: &String) -> (found: bool)
    ensures
        found == exists|j: int|
            0 <= j < manifests@.len() && (#[trigger] manifests@[j]).repository@ == name@,
{
    let mut j: usize = 0;
    while j < manifests.len()
        invariant
            0 <= j <= manifests@.len(),
            forall|t: int| 0 <= t < j ==> (#[trigger] manifests@[t]).repository@ != name@,
        decreases manifests@.len() - j,
    {
        if manifests[j].repository == *name {
            return true;
        }
        j += 1;
    }
    false
}

/// Sweep step one: delete every edge whose manifest is not stored.
fn sweep_edges(registry: &mut Registry)
    requires
        old(registry).wf(),
    ensures
        final(registry).wf(),
        final(registry).blobs@ == old(registry).blobs@,
        final(registry).manifests@ == old(registry).manifests@,
        final(registry).tags@ == old(registry).tags@,
        final(registry).repositories@ == old(registry).repositories@,
        final(registry).edges_view() == Set::new(
            |pair: (Seq<char>, Seq<char>)|
                old(registry).edges_view().contains(pair) && old(
                    registry,
                ).manifest_digests().contains(pair.0),
        ),
{
    let ghost target = Set::new(
        |pair: (Seq<char>, Seq<char>)|
            old(registry).edges_view().contains(pair) && old(registry).manifest_digests().contains(
                pair.0,
            ),
    );
    let mut kept: Vec<EdgeRow> = Vec::new();
    let ghost mut src: Seq<int> = Seq::empty();
    let mut i: usize = 0;
    let n = registry.manifest_blobs.len();
    while i < n
        invariant
            target == Set::new(
                |pair: (Seq<char>, Seq<char>)|
                    old(registry).edges_view().contains(pair) && old(
                        registry,
                    ).manifest_digests().contains(pair.0),
            ),
            0 <= i <= n,
            n == registry.manifest_blobs@.len(),
            *registry == *old(registry),
            registry.wf(),
            src.len() == kept@.len(),
            forall|k: int| 0 <= k < src.len() ==> 0 <= #[trigger] src[k] < i,
            forall|k1: int, k2: int| 0 <= k1 < k2 < src.len() ==> src[k1] < src[k2],
            forall|k: int|
                0 <= k < src.len() ==> (#[trigger] kept@[k]).manifest@
                    == registry.manifest_blobs@[src[k]].manifest@ && kept@[k].blob@
                    == registry.manifest_blobs@[src[k]].blob@,
            forall|k: int|
                0 <= k < src.len() ==> target.contains(
                    ((#[trigger] kept@[k]).manifest@, kept@[k].blob@),
                ),
            forall|j: int|
                0 <= j < i && target.contains(
                    (
                        (#[trigger] registry.manifest_blobs@[j]).manifest@,
                        registry.manifest_blobs@[j].blob@,
                    ),
                ) ==> exists|k: int| 0 <= k < src.len() && src[k] == j,
        decreases n - i,
    {
        let live = digest_stored(&registry.manifests, &registry.manifest_blobs[i].manifest);
        proof {
            let row_m = registry.manifest_blobs@[i as int].manifest@;
            let row_b = registry.manifest_blobs@[i as int].blob@;
            registry.lemma_manifest_digests_contains(row_m);
            assert(registry.edge_pairs()[i as int] == (row_m, row_b));
            assert(registry.edges_view().contains((row_m, row_b)));
            assert(live == target.contains((row_m, row_b)));
        }
        if live {
            kept.push(
                EdgeRow {
                    manifest: registry.manifest_blobs[i].manifest.clone(),
                    blob: registry.manifest_blobs[i].blob.clone(),
                },
            );
            proof {
                let src_snap = src;
                src = src.push(i as int);
                assert(src[src.len() - 1] == i as int);
                assert forall|j: int|
                    0 <= j < i + 1 && target.contains(
                        (
                            (#[trigger] registry.manifest_blobs@[j]).manifest@,
                            registry.manifest_blobs@[j].blob@,
                        ),
                    ) implies exists|k: int| 0 <= k < src.len() && src[k] == j by {
                    if j != i {
                        let k = choose|k: int| 0 <= k < src_snap.len() && src_snap[k] == j;
                        assert(src[k] == j);
                    }
                }
            }
        }
        i += 1;
    }
    registry.manifest_blobs = kept;
    proof {
        assert(registry.blob_pairs() =~= old(registry).blob_pairs());
        assert(registry.manifest_pairs() =~= old(registry).manifest_pairs());
        assert(registry.tag_pairs() =~= old(registry).tag_pairs());
        assert forall|k1: int, k2: int|
            0 <= k1 < k2 < registry.edge_pairs().len() implies registry.edge_pairs()[k1]
            != registry.edge_pairs()[k2] by {
            assert(registry.edge_pairs()[k1] == old(registry).edge_pairs()[src[k1]]);
            assert(registry.edge_pairs()[k2] == old(registry).edge_pairs()[src[k2]]);
        }
        assert forall|x: (Seq<char>, Seq<char>)|
            registry.edges_view().contains(x) implies target.contains(x) by {
            let k = choose|k: int|
                0 <= k < registry.edge_pairs().len() && registry.edge_pairs()[k] == x;
            assert(target.contains(((kept@[k]).manifest@, kept@[k].blob@)));
        }
        assert forall|x: (Seq<char>, Seq<char>)|
            target.contains(x) implies registry.edges_view().contains(x) by {
            let j = choose|j: int|
                0 <= j < old(registry).edge_pairs().len() && old(registry).edge_pairs()[j] == x;
            assert(target.contains(
                (
                    (old(registry).manifest_blobs@[j]).manifest@,
                    old(registry).manifest_blobs@[j].blob@,
                ),
            ));
            let k = choose|k: int| 0 <= k < src.len() && src[k] == j;
            assert(registry.edge_pairs()[k] == x);
        }
        assert(registry.edges_view() =~= target);
    }
}

/// Sweep step two: delete every blob no remaining edge points at.
fn sweep_blobs(registry: &mut Registry)
    requires
        old(registry).wf(),
    ensures
        final(registry).wf(),
        final(registry).manifests@ == old(registry).manifests@,
        final(registry).tags@ == old(registry).tags@,
        final(registry).manifest_blobs@ == old(registry).manifest_blobs@,
        final(registry).repositories@ == old(registry).repositories@,
        final(registry).blobs_view() == old(registry).blobs_view().restrict(
            Set::new(
                |d: Seq<char>|
                    exists|m: Seq<char>| old(registry).edges_view().contains((m, d)),
            ),
        ),
{
    let ghost refset = Set::new(
        |d: Seq<char>| exists|m: Seq<char>| old(registry).edges_view().contains((m, d)),
    );
    let mut kept: Vec<BlobRow> = Vec::new();
    let ghost mut src: Seq<int> = Seq::empty();
    let mut i: usize = 0;
    let n = registry.blobs.len();
    while i < n
        invariant
            refset == Set::new(
                |d: Seq<char>|
                    exists|m: Seq<char>| old(registry).edges_view().contains((m, d)),
            ),
            0 <= i <= n,
            n == registry.blobs@.len(),
            *registry == *old(registry),
            registry.wf(),
            src.len() == kept@.len(),
            forall|k: int| 0 <= k < src.len() ==> 0 <= #[trigger] src[k] < i,
            forall|k1: int, k2: int| 0 <= k1 < k2 < src.len() ==> src[k1] < src[k2],
            forall|k: int|
                0 <= k < src.len() ==> (#[trigger] kept@[k]).digest@
                    == registry.blobs@[src[k]].digest@ && kept@[k].value@
                    == registry.blobs@[src[k]].value@,
            forall|k: int|
                0 <= k < src.len() ==> refset.contains((#[trigger] kept@[k]).digest@),
            forall|j: int|
                0 <= j < i && refset.contains((#[trigger] registry.blobs@[j]).digest@)
                    ==> exists|k: int| 0 <= k < src.len() && src[k] == j,
        decreases n - i,
    {
        let referenced = blob_referenced(&registry.manifest_blobs, &registry.blobs[i].digest);
        proof {
            let d = registry.blobs@[i as int].digest@;
            if referenced {
                let j = choose|j: int|
                    0 <= j < registry.manifest_blobs@.len() && (
                    #[trigger] registry.manifest_blobs@[j]).blob@ == d;
                assert(registry.edge_pairs()[j] == (registry.manifest_blobs@[j].manifest@, d));
                assert(registry.edges_view().contains(
                    (registry.manifest_blobs@[j].manifest@, d),
                ));
                assert(refset.contains(d));
            } else {
                if refset.contains(d) {
                    let m = choose|m: Seq<char>| old(registry).edges_view().contains((m, d));
                    let j = choose|j: int|
                        0 <= j < registry.edge_pairs().len() && registry.edge_pairs()[j] == (m, d);
                    assert((#[trigger] registry.manifest_blobs@[j]).blob@ == d);
                    assert(false);
                }
            }
        }
        if referenced {
            kept.push(
                BlobRow {
                    digest: registry.blobs[i].digest.clone(),
                    value: vstd::slice::slice_to_vec(registry.blobs[i].value.as_slice()),
                },
            );
            proof {
                let src_snap = src;
                src = src.push(i as int);
                assert(src[src.len() - 1] == i as int);
                assert forall|j: int|
                    0 <= j < i + 1 && refset.contains(
                        (#[trigger] registry.blobs@[j]).digest@,
                    ) implies exists|k: int| 0 <= k < src.len() && src[k] == j by {
                    if j != i {
                        let k = choose|k: int| 0 <= k < src_snap.len() && src_snap[k] == j;
                        assert(src[k] == j);
                    }
                }
            }
        }
        i += 1;
    }
    registry.blobs = kept;
    proof {
        assert(registry.manifest_pairs() =~= old(registry).manifest_pairs());
        assert(registry.tag_pairs() =~= old(registry).tag_pairs());
        assert(registry.edge_pairs() =~= old(registry).edge_pairs());
        assert forall|k1: int, k2: int|
            0 <= k1 < k2 < registry.blob_pairs().len() implies registry.blob_pairs()[k1].0
            != registry.blob_pairs()[k2].0 by {
            assert(registry.blob_pairs()[k1].0 == old(registry).blob_pairs()[src[k1]].0);
            assert(registry.blob_pairs()[k2].0 == old(registry).blob_pairs()[src[k2]].0);
        }
        let goal = old(registry).blobs_view().restrict(refset);
        assert forall|d: Seq<char>|
            #[trigger] registry.blobs_view().dom().contains(d) implies goal.dom().contains(d)
            && goal[d] == registry.blobs_view()[d] by {
            registry.lemma_blob_contains(d);
            let k = choose|k: int|
                0 <= k < registry.blobs@.len() && (#[trigger] registry.blobs@[k]).digest@ == d;
            registry.lemma_blob_index(k);
            old(registry).lemma_blob_index(src[k]);
            assert(refset.contains(d));
        }
        assert forall|d: Seq<char>|
            #[trigger] goal.dom().contains(d) implies registry.blobs_view().dom().contains(d) by {
            old(registry).lemma_blob_contains(d);
            let j = choose|j: int|
                0 <= j < old(registry).blobs@.len() && (#[trigger] old(
                    registry,
                ).blobs@[j]).digest@ == d;
            assert(refset.contains((old(registry).blobs@[j]).digest@));
            let k = choose|k: int| 0 <= k < src.len() && src[k] == j;
            assert((kept@[k]).digest@ == d);
            registry.lemma_blob_index(k);
        }
        assert(registry.blobs_view().dom() =~= goal.dom());
        assert(registry.blobs_view() =~= goal);
    }
}

/// Sweep step three: delete every tag whose manifest is not stored.
fn sweep_tags(registry: &mut Registry)
    requires
        old(registry).wf(),
    ensures
        final(registry).wf(),
        final(registry).blobs@ == old(registry).blobs@,
        final(registry).manifests@ == old(registry).manifests@,
        final(registry).manifest_blobs@ == old(registry).manifest_blobs@,
        final(registry).repositories@ == old(registry).repositories@,
        final(registry).tags_view() == Map::new(
            |key: (Seq<char>, Seq<char>)|
                old(registry).tags_view().contains_key(key) && old(
                    registry,
                ).manifest_digests().contains(old(registry).tags_view()[key].1),
            |key: (Seq<char>, Seq<char>)| old(registry).tags_view()[key],
        ),
{
    let ghost goal = Map::new(
        |key: (Seq<char>, Seq<char>)|
            old(registry).tags_view().contains_key(key) && old(
                registry,
            ).manifest_digests().contains(old(registry).tags_view()[key].1),
        |key: (Seq<char>, Seq<char>)| old(registry).tags_view()[key],
    );
    let mut kept: Vec<TagRow> = Vec::new();
    let ghost mut src: Seq<int> = Seq::empty();
    let mut i: usize = 0;
    let n = registry.tags.len();
    while i < n
        invariant
            goal == Map::new(
                |key: (Seq<char>, Seq<char>)|
                    old(registry).tags_view().contains_key(key) && old(
                        registry,
                    ).manifest_digests().contains(old(registry).tags_view()[key].1),
                |key: (Seq<char>, Seq<char>)| old(registry).tags_view()[key],
            ),
            0 <= i <= n,
            n == registry.tags@.len(),
            *registry == *old(registry),
            registry.wf(),
            src.len() == kept@.len(),
            forall|k: int| 0 <= k < src.len() ==> 0 <= #[trigger] src[k] < i,
            forall|k1: int, k2: int| 0 <= k1 < k2 < src.len() ==> src[k1] < src[k2],
            forall|k: int|
                0 <= k < src.len() ==> (#[trigger] kept@[k]).repository@
                    == registry.tags@[src[k]].repository@ && kept@[k].name@
                    == registry.tags@[src[k]].name@ && kept@[k].updated
                    == registry.tags@[src[k]].updated && kept@[k].manifest@
                    == registry.tags@[src[k]].manifest@,
            forall|k: int|
                0 <= k < src.len() ==> registry.manifest_digests().contains(
                    (#[trigger] kept@[k]).manifest@,
                ),
            forall|j: int|
                0 <= j < i && registry.manifest_digests().contains(
                    (#[trigger] registry.tags@[j]).manifest@,
                ) ==> exists|k: int| 0 <= k < src.len() && src[k] == j,
        decreases n - i,
    {
        let live = digest_stored(&registry.manifests, &registry.tags[i].manifest);
        proof {
            registry.lemma_manifest_digests_contains(registry.tags@[i as int].manifest@);
        }
        if live {
            kept.push(
                TagRow {
                    repository: registry.tags[i].repository.clone(),
                    name: registry.tags[i].name.clone(),
                    updated: registry.tags[i].updated,
                    manifest: registry.tags[i].manifest.clone(),
                },
            );
            proof {
                let src_snap = src;
                src = src.push(i as int);
                assert(src[src.len() - 1] == i as int);
                assert forall|j: int|
                    0 <= j < i + 1 && registry.manifest_digests().contains(
                        (#[trigger] registry.tags@[j]).manifest@,
                    ) implies exists|k: int| 0 <= k < src.len() && src[k] == j by {
                    if j != i {
                        let k = choose|k: int| 0 <= k < src_snap.len() && src_snap[k] == j;
                        assert(src[k] == j);
                    }
                }
            }
        }
        i += 1;
    }
    registry.tags = kept;
    proof {
        assert(registry.blob_pairs() =~= old(registry).blob_pairs());
        assert(registry.manifest_pairs() =~= old(registry).manifest_pairs());
        assert(registry.edge_pairs() =~= old(registry).edge_pairs());
        assert forall|k1: int, k2: int|
            0 <= k1 < k2 < registry.tag_pairs().len() implies registry.tag_pairs()[k1].0
            != registry.tag_pairs()[k2].0 by {
            assert(registry.tag_pairs()[k1].0 == old(registry).tag_pairs()[src[k1]].0);
            assert(registry.tag_pairs()[k2].0 == old(registry).tag_pairs()[src[k2]].0);
        }
        assert forall|key: (Seq<char>, Seq<char>)|
            #[trigger] registry.tags_view().dom().contains(key) implies goal.dom().contains(key)
            && goal[key] == registry.tags_view()[key] by {
            registry.lemma_tag_contains(key.0, key.1);
            let k = choose|k: int|
                0 <= k < registry.tags@.len() && (#[trigger] registry.tags@[k]).repository@
                    == key.0 && registry.tags@[k].name@ == key.1;
            registry.lemma_tag_index(k);
            old(registry).lemma_tag_index(src[k]);
        }
        assert forall|key: (Seq<char>, Seq<char>)|
            #[trigger] goal.dom().contains(key) implies registry.tags_view().dom().contains(
                key,
            ) by {
            old(registry).lemma_tag_contains(key.0, key.1);
            let j = choose|j: int|
                0 <= j < old(registry).tags@.len() && (#[trigger] old(
                    registry,
                ).tags@[j]).repository@ == key.0 && old(registry).tags@[j].name@ == key.1;
            old(registry).lemma_tag_index(j);
            assert(registry.manifest_digests().contains(
                (old(registry).tags@[j]).manifest@,
            ));
            let k = choose|k: int| 0 <= k < src.len() && src[k] == j;
            registry.lemma_tag_index(k);
        }
        assert(registry.tags_view().dom() =~= goal.dom());
        assert(registry.tags_view() =~= goal);
    }
}

/// Sweep step four: delete every repository that holds no manifest.
fn sweep_repositories(registry: &mut Registry)
    requires
        old(registry).wf(),
    ensures
        final(registry).wf(),
        final(registry).blobs@ == old(registry).blobs@,
        final(registry).manifests@ == old(registry).manifests@,
        final(registry).tags@ == old(registry).tags@,
        final(registry).manifest_blobs@ == old(registry).manifest_blobs@,
        final(registry).repos_view() == Set::new(
            |name: Seq<char>|
                old(registry).repos_view().contains(name) && old(
                    registry,
                ).manifest_repos().contains(name),
        ),
{
    let ghost goal = Set::new(
        |name: Seq<char>|
            old(registry).repos_view().contains(name) && old(registry).manifest_repos().contains(
                name,
            ),
    );
    let mut kept: Vec<String> = Vec::new();
    let ghost mut src: Seq<int> = Seq::empty();
    let mut i: usize = 0;
    let n = registry.repositories.len();
    while i < n
        invariant
            goal == Set::new(
                |name: Seq<char>|
                    old(registry).repos_view().contains(name) && old(
                        registry,
                    ).manifest_repos().contains(name),
            ),
            0 <= i <= n,
            n == registry.repositories@.len(),
            *registry == *old(registry),
            registry.wf(),
            src.len() == kept@.len(),
            forall|k: int| 0 <= k < src.len() ==> 0 <= #[trigger] src[k] < i,
            forall|k1: int, k2: int| 0 <= k1 < k2 < src.len() ==> src[k1] < src[k2],
            forall|k: int|
                0 <= k < src.len() ==> (#[trigger] kept@[k])@ == registry.repositories@[src[k]]@,
            forall|k: int|
                0 <= k < src.len() ==> registry.manifest_repos().contains((#[trigger] kept@[k])@),
            forall|j: int|
                0 <= j < i && registry.manifest_repos().contains(
                    (#[trigger] registry.repositories@[j])@,
                ) ==> exists|k: int| 0 <= k < src.len() && src[k] == j,
        decreases n - i,
    {
        let live = repo_stored(&registry.manifests, &registry.repositories[i]);
        proof {
            registry.lemma_manifest_repos_contains(registry.repositories@[i as int]@);
        }
        if live {
            kept.push(registry.repositories[i].clone());
            proof {
                let src_snap = src;
                src = src.push(i as int);
                assert(src[src.len() - 1] == i as int);
                assert forall|j: int|
                    0 <= j < i + 1 && registry.manifest_repos().contains(
                        (#[trigger] registry.repositories@[j])@,
                    ) implies exists|k: int| 0 <= k < src.len() && src[k] == j by {
                    if j != i {
                        let k = choose|k: int| 0 <= k < src_snap.len() && src_snap[k] == j;
                        assert(src[k] == j);
                    }
                }
            }
        }
        i += 1;
    }
    registry.repositories = kept;
    proof {
        assert(registry.blob_pairs() =~= old(registry).blob_pairs());
        assert(registry.manifest_pairs() =~= old(registry).manifest_pairs());
        assert(registry.tag_pairs() =~= old(registry).tag_pairs());
        assert(registry.edge_pairs() =~= old(registry).edge_pairs());
        assert forall|k1: int, k2: int|
            0 <= k1 < k2 < registry.repositories@.len() implies chars_lt(
            (#[trigger] registry.repositories@[k1])@,
            (#[trigger] registry.repositories@[k2])@,
        ) by {
            assert(registry.repositories@[k1]@ == old(registry).repositories@[src[k1]]@);
            assert(registry.repositories@[k2]@ == old(registry).repositories@[src[k2]]@);
        }
        assert forall|x: Seq<char>| registry.repos_view().contains(x) implies goal.contains(x) by {
            let k = choose|k: int|
                0 <= k < registry.repositories@.len() && (
                #[trigger] registry.repositories@[k])@ == x;
            assert(old(registry).repositories@.map_values(|s: String| s@)[src[k]] == x);
        }
        assert forall|x: Seq<char>| goal.contains(x) implies registry.repos_view().contains(x) by {
            let j = choose|j: int|
                0 <= j < old(registry).repositories@.len() && (#[trigger] old(
                    registry,
                ).repositories@[j])@ == x;
            assert(registry.manifest_repos().contains((old(registry).repositories@[j])@));
            let k = choose|k: int| 0 <= k < src.len() && src[k] == j;
            assert(registry.repositories@.map_values(|s: String| s@)[k] == x);
        }
        assert(registry.repos_view() =~= goal);
    }
}

/// The garbage-collection sweep: in order, delete the edges whose manifest
/// is gone, the blobs no remaining edge reaches, the tags whose manifest is
/// gone, and the repositories left without a manifest. Manifests themselves
/// are never deleted here. Afterwards no edge, blob, tag or repository row
/// dangles, and every blob an existing manifest reaches survives unchanged.
pub fn cleanup(registry: &mut Registry)
    requires
        old(registry).wf(),
    ensures
        final(registry).wf(),
        final(registry).manifests@ == old(registry).manifests@,
        final(registry).manifests_view() == old(registry).manifests_view(),
        final(registry).edges_view() == Set::new(
            |pair: (Seq<char>, Seq<char>)|
                old(registry).edges_view().contains(pair) && old(
                    registry,
                ).manifest_digests().contains(pair.0),
        ),
        final(registry).blobs_view() == old(registry).blobs_view().restrict(
            Set::new(
                |d: Seq<char>|
                    exists|m: Seq<char>| final(registry).edges_view().contains((m, d)),
            ),
        ),
        final(registry).tags_view() == Map::new(
            |key: (Seq<char>, Seq<char>)|
                old(registry).tags_view().contains_key(key) && old(
                    registry,
                ).manifest_digests().contains(old(registry).tags_view()[key].1),
            |key: (Seq<char>, Seq<char>)| old(registry).tags_view()[key],
        ),
        final(registry).repos_view() == Set::new(
            |name: Seq<char>|
                old(registry).repos_view().contains(name) && old(
                    registry,
                ).manifest_repos().contains(name),
        ),
        forall|pair: (Seq<char>, Seq<char>)|
            final(registry).edges_view().contains(pair) ==> final(registry).manifest_digests().contains(pair.0),
        forall|d: Seq<char>|
            final(registry).blobs_view().contains_key(d) ==> exists|m: Seq<char>|
                final(registry).edges_view().contains((m, d)),
        forall|key: (Seq<char>, Seq<char>)|
            final(registry).tags_view().contains_key(key) ==> final(registry).manifest_digests().contains(final(registry).tags_view()[key].1),
        forall|name: Seq<char>|
            final(registry).repos_view().contains(name) ==> final(registry).manifest_repos().contains(name),
        forall|pair: (Seq<char>, Seq<char>)|
            old(registry).edges_view().contains(pair) && old(registry).manifest_digests().contains(
                pair.0,
            ) && old(registry).blobs_view().contains_key(pair.1) ==> final(registry).blobs_view().contains_key(pair.1) && final(registry).blobs_view()[pair.1] == old(
                registry,
            ).blobs_view()[pair.1],
{
    let ghost state0 = *registry;
    sweep_edges(registry);
    let ghost state1 = *registry;
    sweep_blobs(registry);
    let ghost state2 = *registry;
    sweep_tags(registry);
    let ghost state3 = *registry;
    sweep_repositories(registry);
    proof {
        // manifests never change, so the manifest-derived views agree at
        // every stage
        assert(registry.manifest_pairs() =~= state0.manifest_pairs());
        assert(state1.manifest_digests() =~= state0.manifest_digests());
        assert(state2.manifest_digests() =~= state0.manifest_digests());
        assert(state3.manifest_repos() =~= state0.manifest_repos());
        assert(registry.manifest_digests() =~= state0.manifest_digests());
        assert(registry.manifest_repos() =~= state0.manifest_repos());
        // the edge table settles after step one
        assert(state2.edge_pairs() =~= state1.edge_pairs());
        assert(state3.edge_pairs() =~= state1.edge_pairs());
        assert(registry.edge_pairs() =~= state1.edge_pairs());
        assert(registry.edges_view() =~= state1.edges_view());
        // the blob table settles after step two
        assert(state1.blob_pairs() =~= state0.blob_pairs());
        assert(state3.blob_pairs() =~= state2.blob_pairs());
        assert(registry.blob_pairs() =~= state2.blob_pairs());
        // the tag table settles after step three
        assert(state1.tag_pairs() =~= state0.tag_pairs());
        assert(state2.tag_pairs() =~= state1.tag_pairs());
        assert(registry.tag_pairs() =~= state3.tag_pairs());
        // the repository table changes only in step four
        assert(state1.repositories@ == state0.repositories@);
        assert(state2.repositories@ == state1.repositories@);
        assert(state3.repositories@ == state2.repositories@);
        assert(state3.repos_view() =~= state0.repos_view());
        assert(registry.edges_view() =~= Set::new(
            |pair: (Seq<char>, Seq<char>)|
                state0.edges_view().contains(pair) && state0.manifest_digests().contains(pair.0),
        ));
        assert(state1.blobs_view() =~= state0.blobs_view());
        assert(registry.blobs_view() =~= state0.blobs_view().restrict(
            Set::new(
                |d: Seq<char>| exists|m: Seq<char>| registry.edges_view().contains((m, d)),
            ),
        ));
        assert(state2.tags_view() =~= state0.tags_view());
        assert(registry.tags_view() =~= Map::new(
            |key: (Seq<char>, Seq<char>)|
                state0.tags_view().contains_key(key) && state0.manifest_digests().contains(
                    state0.tags_view()[key].1,
                ),
            |key: (Seq<char>, Seq<char>)| state0.tags_view()[key],
        ));
        assert(registry.repos_view() =~= Set::new(
            |name: Seq<char>|
                state0.repos_view().contains(name) && state0.manifest_repos().contains(name),
        ));
        // soundness: nothing dangles afterwards
        assert forall|d: Seq<char>|
            registry.blobs_view().contains_key(d) implies exists|m: Seq<char>|
            registry.edges_view().contains((m, d)) by {
            assert(Set::new(
                |d2: Seq<char>|
                    exists|m: Seq<char>| registry.edges_view().contains((m, d2)),
            ).contains(d));
        }
        // liveness: a blob an existing manifest reaches survives unchanged
        assert forall|pair: (Seq<char>, Seq<char>)|
            state0.edges_view().contains(pair) && state0.manifest_digests().contains(pair.0)
                && state0.blobs_view().contains_key(pair.1) implies registry.blobs_view().contains_key(
            pair.1,
        ) && registry.blobs_view()[pair.1] == state0.blobs_view()[pair.1] by {
            assert(registry.edges_view().contains(pair));
            assert(Set::new(
                |d: Seq<char>| exists|m: Seq<char>| registry.edges_view().contains((m, d)),
            ).contains(pair.1));
        }
    }
}

/// Content addressing, as a law over the store's map view: in a
/// well-formed store, every stored manifest sits under the SHA-256
/// content address of its raw body.
pub proof fn lemma_content_addressing(registry: Registry)
    requires
        registry.wf(),
    ensures
        forall|key: (Seq<char>, Seq<char>)|
            #[trigger] registry.manifests_view().contains_key(key) ==> key.1
                == manifest_digest_chars(registry.manifests_view()[key]),
{
    assert forall|key: (Seq<char>, Seq<char>)|
        #[trigger] registry.manifests_view().contains_key(key) implies key.1
        == manifest_digest_chars(registry.manifests_view()[key]) by {
        registry.lemma_manifest_contains(key.0, key.1);
        let i = choose|i: int|
            0 <= i < registry.manifests@.len() && #[trigger] registry.manifests@[i].repository@
                == key.0 && registry.manifests@[i].digest@ == key.1;
        registry.lemma_manifest_index(i);
    }
}

} // verus!
