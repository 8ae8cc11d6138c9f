//! Manifest endpoints: fetch a manifest by tag or digest, push one — which
//! stores it content-addressed, updates the tag when the reference is one,
//! and links the blobs an image manifest reaches — and delete one.

use vstd::prelude::*;
use crate::db::{blobs, manifest_digest_chars, manifests, repositories, tags, Registry};
use crate::digest::{digest_string, is_digest, is_digest_chars};
use crate::errors::RegistryError;

verus! {

/// A manifest body in its two recognised shapes: a single image, or a
/// manifest list (an image index). Bodies of neither shape are stored
/// byte-faithfully but carry no edges.
pub enum Manifest {
    List(ManifestList),
    Image(ImageManifest),
}

/// A manifest list: per-platform child manifests, recorded verbatim; the
/// registry creates no edges for its children.
pub struct ManifestList {
    pub schema_version: u32,
    pub media_type: String,
    pub manifests: Vec<ManifestListManifest>,
}

/// One child of a manifest list.
pub struct ManifestListManifest {
    pub media_type: String,
    pub size: u32,
    pub digest: String,
    pub platform: ManifestListManifestPlatform,
}

/// The platform a child manifest serves.
pub struct ManifestListManifestPlatform {
    pub architecture: String,
    pub os: String,
    pub os_version: Option<String>,
    pub os_features: Option<Vec<String>>,
    pub variant: Option<String>,
    pub features: Option<Vec<String>>,
}

/// An image manifest: a config object and its layers.
pub struct ImageManifest {
    pub schema_version: u32,
    pub media_type: String,
    pub config: ImageManifestConfig,
    pub layers: Vec<ImageManifestLayer>,
}

/// The config descriptor of an image manifest.
pub struct ImageManifestConfig {
    pub media_type: String,
    pub size: u32,
    pub digest: String,
}

/// One layer descriptor of an image manifest.
pub struct ImageManifestLayer {
    pub media_type: String,
    pub size: u32,
    pub digest: String,
    pub urls: Option<Vec<String>>,
}

/// The blob digests a parsed manifest reaches: the config digest and every
/// layer digest of an image manifest; nothing for a manifest list or for a
/// body that parsed as neither.
pub open spec fn edge_digests(parsed: Option<Manifest>) -> Seq<Seq<char>> {
    match parsed {
        Some(Manifest::Image(image)) => seq![image.config.digest@] + image.layers@.map_values(
            |layer: ImageManifestLayer| layer.digest@,
        ),
        _ => Seq::empty(),
    }
}

/// The digest a reference resolves to: the reference itself when it is
/// digest-shaped, else the digest of the tag it names, if stored.
pub open spec fn resolved_digest(
    registry: Registry,
    name: Seq<char>,
    reference: Seq<char>,
) -> Option<Seq<char>> {
    if is_digest_chars(reference) {
        Some(reference)
    } else if registry.tags_view().contains_key((name, reference)) {
        Some(registry.tags_view()[(name, reference)].1)
    } else {
        None
    }
}

/// Fetch a manifest by tag or digest: the digest it is served under and its
/// raw body. Fails when the reference is an unknown tag or the resolved
/// manifest is not stored in the repository.
pub fn get(registry: &Registry, name: &String, reference: &String) -> (result: Result<
    (String, String),
    RegistryError,
>)
    requires
        registry.wf(),
    ensures
        match result {
            Ok(served) => resolved_digest(*registry, name@, reference@) == Some(served.0@)
                && registry.manifests_view().contains_key((name@, served.0@)) && served.1@
                == registry.manifests_view()[(name@, served.0@)],
            Err(err) => err == RegistryError::ManifestUnknown && match resolved_digest(
                *registry,
                name@,
                reference@,
            ) {
                Some(digest) => !registry.manifests_view().contains_key((name@, digest)),
                None => true,
            },
        },
{
    let digest = if is_digest(reference) {
        reference.clone()
    } else {
        match tags::get_manifest(registry, name, reference) {
            Ok(digest) => digest,
            Err(err) => {
                return Err(err);
            },
        }
    };
    match manifests::get(registry, name, &digest) {
        Ok(raw) => Ok((digest, raw)),
        Err(err) => Err(err),
    }
}

/// Push a manifest: compute the content address of the raw body as
/// received, record the repository, store the body under the address,
/// point the tag at it when the reference is not digest-shaped, and record
/// one edge per blob the parsed body reaches. Returns the content address.
pub fn put(
    registry: &mut Registry,
    name: &String,
    reference: &String,
    body: &String,
    parsed: &Option<Manifest>,
    now: i64,
) -> (digest: String)
    requires
        old(registry).wf(),
    ensures
        final(registry).wf(),
        digest@ == manifest_digest_chars(body@),
        is_digest_chars(digest@),
        final(registry).repos_view() == old(registry).repos_view().insert(name@),
        final(registry).manifests_view() == old(registry).manifests_view().insert(
            (name@, digest@),
            body@,
        ),
        final(registry).tags_view() == if is_digest_chars(reference@) {
            old(registry).tags_view()
        } else {
            old(registry).tags_view().insert((name@, reference@), (now, digest@))
        },
        final(registry).edges_view() == old(registry).edges_view().union(
            Set::new(
                |pair: (Seq<char>, Seq<char>)|
                    pair.0 == manifest_digest_chars(body@) && edge_digests(
                        *parsed,
                    ).to_set().contains(pair.1),
            ),
        ),
        final(registry).blobs@ == old(registry).blobs@,
{
    let ghost linked = Set::new(
        |pair: (Seq<char>, Seq<char>)|
            pair.0 == manifest_digest_chars(body@) && edge_digests(*parsed).to_set().contains(
                pair.1,
            ),
    );
    let digest = digest_string(body.as_str().as_bytes());
    repositories::save(registry, name);
    proof {
        assert(registry.manifest_pairs() =~= old(registry).manifest_pairs());
        assert(registry.tag_pairs() =~= old(registry).tag_pairs());
        assert(registry.edge_pairs() =~= old(registry).edge_pairs());
        assert(registry.blob_pairs() =~= old(registry).blob_pairs());
    }
    let ghost state1 = *registry;
    manifests::save(registry, name, &digest, body);
    proof {
        assert(registry.repositories@ == state1.repositories@);
        assert(registry.repos_view() =~= state1.repos_view());
        assert(registry.tag_pairs() =~= state1.tag_pairs());
        assert(registry.edge_pairs() =~= state1.edge_pairs());
        assert(registry.blob_pairs() =~= state1.blob_pairs());
    }
    let ghost state2 = *registry;
    if !is_digest(reference) {
        tags::save(registry, name, reference, &digest, now);
        proof {
            assert(registry.repos_view() =~= state2.repos_view());
            assert(registry.manifest_pairs() =~= state2.manifest_pairs());
            assert(registry.edge_pairs() =~= state2.edge_pairs());
            assert(registry.blob_pairs() =~= state2.blob_pairs());
        }
    }
    let ghost state3 = *registry;
    match parsed {
        Some(Manifest::Image(image)) => {
            proof {
                assert(*parsed == Some(Manifest::Image(*image)));
            }
            blobs::associate(registry, &digest, &image.config.digest);
            proof {
                assert(registry.repos_view() =~= state3.repos_view());
                assert(registry.manifest_pairs() =~= state3.manifest_pairs());
                assert(registry.tag_pairs() =~= state3.tag_pairs());
                assert(registry.blob_pairs() =~= state3.blob_pairs());
                assert(registry.edges_view() =~= state3.edges_view().union(
                    linked_prefix(digest@, *parsed, 0),
                ));
            }
            let mut i: usize = 0;
            while i < image.layers.len()
                invariant
                    0 <= i <= image.layers@.len(),
                    registry.wf(),
                    parsed == Some(Manifest::Image(*image)),
                    digest@ == manifest_digest_chars(body@),
                    registry.repos_view() == state3.repos_view(),
                    registry.manifest_pairs() == state3.manifest_pairs(),
                    registry.tag_pairs() == state3.tag_pairs(),
                    registry.blob_pairs() == state3.blob_pairs(),
                    registry.repositories@ == state3.repositories@,
                    registry.manifests@ == state3.manifests@,
                    registry.tags@ == state3.tags@,
                    registry.blobs@ == state3.blobs@,
                    registry.edges_view() == state3.edges_view().union(
                        linked_prefix(digest@, *parsed, i as int),
                    ),
                decreases image.layers@.len() - i,
            {
                blobs::associate(registry, &digest, &image.layers[i].digest);
                proof {
                    assert(registry.repos_view() =~= state3.repos_view());
                    assert(registry.manifest_pairs() =~= state3.manifest_pairs());
                    assert(registry.tag_pairs() =~= state3.tag_pairs());
                    assert(registry.blob_pairs() =~= state3.blob_pairs());
                    assert(registry.edges_view() =~= state3.edges_view().union(
                        linked_prefix(digest@, *parsed, i + 1),
                    ));
                }
                i += 1;
            }
            proof {
                let digs = edge_digests(*parsed);
                let done = linked_prefix(digest@, *parsed, image.layers@.len() as int);
                assert(digs.len() == 1 + image.layers@.len());
                assert(digs[0] == image.config.digest@);
                assert(forall|t: int|
                    0 <= t < image.layers@.len() ==> #[trigger] digs[t + 1]
                        == image.layers@[t].digest@);
                assert forall|x: (Seq<char>, Seq<char>)|
                    done.contains(x) implies linked.contains(x) by {
                    if x.1 == image.config.digest@ {
                        assert(digs[0] == x.1);
                    } else {
                        let t = choose|t: int|
                            0 <= t < image.layers@.len() && (
                            #[trigger] image.layers@[t]).digest@ == x.1;
                        assert(digs[t + 1] == x.1);
                    }
                    assert(digs.to_set().contains(x.1));
                }
                assert forall|x: (Seq<char>, Seq<char>)|
                    linked.contains(x) implies done.contains(x) by {
                    let i = choose|i: int| 0 <= i < digs.len() && digs[i] == x.1;
                    if i > 0 {
                        assert(image.layers@[i - 1].digest@ == x.1);
                    }
                }
                assert(done =~= linked);
            }
        },
        _ => {
            proof {
                assert(edge_digests(*parsed) =~= Seq::empty());
                assert(registry.edges_view() =~= state3.edges_view().union(linked));
            }
        },
    }
    digest
}

/// The edges linked after the config and the first `layers` layers of an
/// image manifest have been recorded; the empty set for any other shape.
pub open spec fn linked_prefix(digest: Seq<char>, parsed: Option<Manifest>, layers: int) -> Set<
    (Seq<char>, Seq<char>),
> {
    match parsed {
        Some(Manifest::Image(image)) => Set::new(
            |pair: (Seq<char>, Seq<char>)|
                pair.0 == digest && (pair.1 == image.config.digest@ || exists|t: int|
                    0 <= t < layers && (#[trigger] image.layers@[t]).digest@ == pair.1),
        ),
        _ => Set::empty(),
    }
}

/// Delete a manifest by tag or digest: the row at the resolved digest is
/// removed; an unknown tag removes nothing. Tags and edges left dangling
/// are reclaimed by the garbage-collection sweep.
pub fn delete(registry: &mut Registry, name: &String, reference: &String)
    requires
        old(registry).wf(),
    ensures
        final(registry).wf(),
        final(registry).manifests_view() == match resolved_digest(
            *old(registry),
            name@,
            reference@,
        ) {
            Some(digest) => old(registry).manifests_view().remove((name@, digest)),
            None => old(registry).manifests_view(),
        },
        final(registry).blobs@ == old(registry).blobs@,
        final(registry).tags@ == old(registry).tags@,
        final(registry).manifest_blobs@ == old(registry).manifest_blobs@,
        final(registry).repositories@ == old(registry).repositories@,
{
    let digest = if is_digest(reference) {
        reference.clone()
    } else {
        match tags::get_manifest(registry, name, reference) {
            Ok(digest) => digest,
            Err(_) => {
                return ;
            },
        }
    };
    manifests::delete(registry, name, &digest);
}

} // verus!
