//! Blob endpoints: downloads, existence checks, the chunked upload state
//! machine (open a session, append chunks, finalise against a digest), and
//! per-repository disassociation.

use vstd::prelude::*;
use crate::db::{blobs, Registry};
use crate::digest::{digest_chars, digest_string};
use crate::errors::RegistryError;

verus! {

/// What an upload session holds after a chunk arrives: the chunk itself for
/// a fresh session, the stored bytes followed by the chunk otherwise.
pub open spec fn upload_append(current: Option<Seq<u8>>, chunk: Seq<u8>) -> Seq<u8> {
    match current {
        None => chunk,
        Some(stored) => stored + chunk,
    }
}

/// Relies on uuid::Uuid::new_v4 and its hyphenated form: a fresh random
/// identifier printed as 36 characters, hexadecimal digits and hyphens.
#[verifier::external_body]
fn new_session_uuid() -> (uuid: String)
    ensures
        uuid@.len() == 36,
        forall|i: int|
            0 <= i < uuid@.len() ==> crate::digest::is_hex_char(#[trigger] uuid@[i]) || uuid@[i]
                == '-',
{
    uuid::Uuid::new_v4().as_hyphenated().to_string()
}

/// The upload-session URL of a repository and session.
pub fn upload_location(name: &String, uuid: &String) -> (location: String)
    ensures
        location@ == "/v2/"@ + name@ + "/blobs/uploads/"@ + uuid@,
{
    let mut location = String::from_str("/v2/");
    location.append(name.as_str());
    location.append("/blobs/uploads/");
    location.append(uuid.as_str());
    location
}

/// The blob URL of a repository and digest.
pub fn blob_location(name: &String, digest: &String) -> (location: String)
    ensures
        location@ == "/v2/"@ + name@ + "/blobs/"@ + digest@,
{
    let mut location = String::from_str("/v2/");
    location.append(name.as_str());
    location.append("/blobs/");
    location.append(digest.as_str());
    location
}

/// Serve a blob's payload, or report it unknown.
pub fn get_blob(registry: &Registry, digest: &String) -> (result: Result<Vec<u8>, RegistryError>)
    requires
        registry.wf(),
    ensures
        match result {
            Ok(value) => registry.blobs_view().contains_key(digest@) && value@
                == registry.blobs_view()[digest@],
            Err(err) => err == RegistryError::BlobUnknown && !registry.blobs_view().contains_key(
                digest@,
            ),
        },
{
    blobs::get(registry, digest)
}

/// Report a blob's size without serving its payload, or report it unknown.
pub fn head_blob(registry: &Registry, digest: &String) -> (result: Result<usize, RegistryError>)
    requires
        registry.wf(),
    ensures
        match result {
            Ok(len) => registry.blobs_view().contains_key(digest@) && len
                == registry.blobs_view()[digest@].len(),
            Err(err) => err == RegistryError::BlobUnknown && !registry.blobs_view().contains_key(
                digest@,
            ),
        },
{
    blobs::length(registry, digest)
}

/// Open an upload session: mint a session identifier and the session URL
/// the client continues at. The store is untouched until a chunk arrives.
pub fn post_uploads(name: &String) -> (session: (String, String))
    ensures
        session.1@ == "/v2/"@ + name@ + "/blobs/uploads/"@ + session.0@,
        session.0@.len() == 36,
{
    let uuid = new_session_uuid();
    let location = upload_location(name, &uuid);
    (uuid, location)
}

/// Append a chunk to an upload session; a chunk for an unknown session
/// opens that session. Returns the stored range of the chunk: inclusive
/// start, exclusive end.
pub fn patch_uploads(registry: &mut Registry, uuid: &String, body: &Vec<u8>) -> (range: (
    usize,
    usize,
))
    requires
        old(registry).wf(),
        old(registry).blobs_view().contains_key(uuid@) ==> old(registry).blobs_view()[uuid@].len()
            + body@.len() <= usize::MAX,
    ensures
        final(registry).wf(),
        final(registry).blobs_view() == old(registry).blobs_view().insert(
            uuid@,
            upload_append(
                if old(registry).blobs_view().contains_key(uuid@) {
                    Some(old(registry).blobs_view()[uuid@])
                } else {
                    None
                },
                body@,
            ),
        ),
        final(registry).manifests@ == old(registry).manifests@,
        final(registry).tags@ == old(registry).tags@,
        final(registry).manifest_blobs@ == old(registry).manifest_blobs@,
        final(registry).repositories@ == old(registry).repositories@,
        range.1 == range.0 + body@.len(),
        range.0 == if old(registry).blobs_view().contains_key(uuid@) {
            old(registry).blobs_view()[uuid@].len() as int
        } else {
            0int
        },
{
    match blobs::get(registry, uuid) {
        Err(_) => {
            blobs::save(registry, uuid, body);
            (0, body.len())
        },
        Ok(current) => {
            let start = current.len();
            let mut data = current;
            append_bytes(&mut data, body);
            blobs::save(registry, uuid, &data);
            (start, start + body.len())
        },
    }
}

/// Append the bytes of one vector to another.
fn append_bytes(data: &mut Vec<u8>, chunk: &Vec<u8>)
    requires
        old(data)@.len() + chunk@.len() <= usize::MAX,
    ensures
        final(data)@ == old(data)@ + chunk@,
{
    let mut j: usize = 0;
    while j < chunk.len()
        invariant
            0 <= j <= chunk@.len(),
            data@ == old(data)@ + chunk@.subrange(0, j as int),
            old(data)@.len() + chunk@.len() <= usize::MAX,
        decreases chunk@.len() - j,
    {
        data.push(chunk[j]);
        proof {
            assert(data@ =~= old(data)@ + chunk@.subrange(0, j + 1));
        }
        j += 1;
    }
    proof {
        assert(data@ =~= old(data)@ + chunk@);
    }
}

/// Finalise an upload session against a client-supplied digest: append a
/// final chunk if one came, compute the content address of the accumulated
/// bytes, and — only if it equals the supplied digest — rekey the session
/// row to the digest. A mismatch leaves the session in place for a retried
/// finalise; finalising an unknown session fails.
pub fn finish_uploads(
    registry: &mut Registry,
    name: &String,
    uuid: &String,
    body: &Vec<u8>,
    digest: &String,
) -> (result: Result<String, RegistryError>)
    requires
        old(registry).wf(),
        old(registry).blobs_view().contains_key(uuid@) ==> old(registry).blobs_view()[uuid@].len()
            + body@.len() <= usize::MAX,
    ensures
        final(registry).wf(),
        final(registry).manifests@ == old(registry).manifests@,
        final(registry).tags@ == old(registry).tags@,
        final(registry).manifest_blobs@ == old(registry).manifest_blobs@,
        final(registry).repositories@ == old(registry).repositories@,
        match result {
            Ok(location) => {
                &&& old(registry).blobs_view().contains_key(uuid@)
                &&& digest@ == digest_chars(old(registry).blobs_view()[uuid@] + body@)
                &&& final(registry).blobs_view() == blobs::rekeyed(
                    old(registry).blobs_view().insert(
                        uuid@,
                        old(registry).blobs_view()[uuid@] + body@,
                    ),
                    uuid@,
                    digest@,
                )
                &&& location@ == "/v2/"@ + name@ + "/blobs/"@ + digest@
            },
            Err(err) => {
                &&& (err == RegistryError::BlobUploadUnknown || err
                    == RegistryError::DigestInvalid)
                &&& (err == RegistryError::BlobUploadUnknown <==> !old(
                    registry,
                ).blobs_view().contains_key(uuid@))
                &&& (err == RegistryError::BlobUploadUnknown ==> final(registry).blobs@ == old(
                    registry,
                ).blobs@)
                &&& (err == RegistryError::DigestInvalid ==> old(
                    registry,
                ).blobs_view().contains_key(uuid@) && digest@ != digest_chars(
                    old(registry).blobs_view()[uuid@] + body@,
                ) && final(registry).blobs_view() == old(registry).blobs_view().insert(
                    uuid@,
                    old(registry).blobs_view()[uuid@] + body@,
                ))
            },
        },
{
    let current = match blobs::get(registry, uuid) {
        Err(_) => {
            return Err(RegistryError::BlobUploadUnknown);
        },
        Ok(current) => current,
    };
    let mut data = current;
    if body.len() > 0 {
        append_bytes(&mut data, body);
        blobs::save(registry, uuid, &data);
    } else {
        proof {
            assert(data@ =~= old(registry).blobs_view()[uuid@] + body@);
            assert(old(registry).blobs_view().insert(uuid@, data@) =~= old(
                registry,
            ).blobs_view());
        }
    }
    let computed = digest_string(data.as_slice());
    if !(computed == *digest) {
        return Err(RegistryError::DigestInvalid);
    }
    let rekey = blobs::update_digest(registry, uuid, digest);
    proof {
        assert(rekey is Ok);
    }
    Ok(blob_location(name, digest))
}

/// Remove a blob from a repository: delete every edge from the repository's
/// manifests to the blob, returning the removed pairs. The blob row itself
/// is reclaimed later, by the garbage-collection sweep.
pub fn delete(registry: &mut Registry, name: &String, digest: &String) -> (removed: Vec<
    (String, String),
>)
    requires
        old(registry).wf(),
    ensures
        final(registry).wf(),
        final(registry).blobs@ == old(registry).blobs@,
        final(registry).manifests@ == old(registry).manifests@,
        final(registry).tags@ == old(registry).tags@,
        final(registry).repositories@ == old(registry).repositories@,
        final(registry).edges_view() == old(registry).edges_view().difference(
            blobs::removed_edges(*old(registry), name@, digest@),
        ),
        removed@.map_values(|pair: (String, String)| (pair.0@, pair.1@)).to_set()
            == blobs::removed_edges(*old(registry), name@, digest@),
{
    blobs::disassociate(registry, name, digest)
}

/// What an upload session holds after a sequence of chunks: nothing before
/// the first chunk, then each chunk appended in turn.
pub open spec fn session_after(chunks: Seq<Seq<u8>>) -> Option<Seq<u8>>
    decreases chunks.len(),
{
    if chunks.len() == 0 {
        None
    } else {
        Some(upload_append(session_after(chunks.drop_last()), chunks.last()))
    }
}

/// The concatenation of a sequence of chunks.
pub open spec fn concat_chunks(chunks: Seq<Seq<u8>>) -> Seq<u8>
    decreases chunks.len(),
{
    if chunks.len() == 0 {
        Seq::empty()
    } else {
        concat_chunks(chunks.drop_last()) + chunks.last()
    }
}

/// Upload correctness: a session fed any non-empty sequence of chunks, one
/// append at a time, holds exactly their concatenation — so finalising
/// against the concatenation's content address stores the pushed bytes.
pub proof fn lemma_upload_correctness(chunks: Seq<Seq<u8>>)
    requires
        chunks.len() >= 1,
    ensures
        session_after(chunks) == Some(concat_chunks(chunks)),
    decreases chunks.len(),
{
    if chunks.len() == 1 {
        assert(session_after(chunks.drop_last()) is None);
        assert(concat_chunks(chunks.drop_last()) + chunks.last() =~= chunks.last());
    } else {
        lemma_upload_correctness(chunks.drop_last());
    }
}

} // verus!
