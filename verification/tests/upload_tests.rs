use registry_core::api::blob::{finish_uploads, get_blob, head_blob, patch_uploads, post_uploads};
use registry_core::db::Registry;
use registry_core::digest::{digest_string, is_digest};
use registry_core::errors::RegistryError;

fn sha256_address(payload: &[u8]) -> String {
    format!("sha256:{}", sha256::digest(payload))
}

#[test]
fn sha256_wrapper_matches_known_vector() {
    // the SHA-256 of the empty input, hex-encoded
    assert_eq!(
        digest_string(b"").as_str(),
        "sha256:e3b0c44298fc1c149afbf4c8996fb92427ae41e4649b934ca495991b7852b855"
    );
    assert_eq!(digest_string(b"hello"), sha256_address(b"hello"));
}

#[test]
fn digest_shapes() {
    assert!(is_digest(&"sha256:e3b0c442".to_string()));
    assert!(is_digest(&"sha512+b64u:ABCDEF09".to_string()));
    assert!(!is_digest(&"latest".to_string()));
    assert!(!is_digest(&":deadbeef".to_string()));
    assert!(!is_digest(&"sha256:".to_string()));
    assert!(!is_digest(&"sha256:not-hex".to_string()));
    assert!(!is_digest(&"".to_string()));
}

#[test]
fn open_session_mints_location() {
    let (uuid, location) = post_uploads(&"demo".to_string());
    assert_eq!(uuid.len(), 36);
    assert_eq!(location, format!("/v2/demo/blobs/uploads/{}", uuid));
}

#[test]
fn single_chunk_upload_roundtrip() {
    let mut registry = Registry::new();
    let payload = b"hello\nworld".to_vec();
    let (uuid, _) = post_uploads(&"demo".to_string());
    let range = patch_uploads(&mut registry, &uuid, &payload);
    assert_eq!(range, (0, 11));
    let address = sha256_address(&payload);
    let location = finish_uploads(&mut registry, &"demo".to_string(), &uuid, &Vec::new(), &address)
        .unwrap();
    assert_eq!(location, format!("/v2/demo/blobs/{}", address));
    assert_eq!(get_blob(&registry, &address).unwrap(), payload);
    assert_eq!(head_blob(&registry, &address).unwrap(), payload.len());
}

#[test]
fn chunked_upload_concatenates() {
    let mut registry = Registry::new();
    let (uuid, _) = post_uploads(&"demo".to_string());
    patch_uploads(&mut registry, &uuid, &b"hello\n".to_vec());
    let range = patch_uploads(&mut registry, &uuid, &b"wor".to_vec());
    assert_eq!(range, (6, 9));
    let whole = b"hello\nworld".to_vec();
    let address = sha256_address(&whole);
    // the final chunk rides along with the finalise request
    finish_uploads(&mut registry, &"demo".to_string(), &uuid, &b"ld".to_vec(), &address).unwrap();
    assert_eq!(get_blob(&registry, &address).unwrap(), whole);
}

#[test]
fn digest_mismatch_fails_and_leaves_no_row() {
    let mut registry = Registry::new();
    let (uuid, _) = post_uploads(&"demo".to_string());
    patch_uploads(&mut registry, &uuid, &b"payload".to_vec());
    let wrong = "sha256:deadbeefdeadbeefdeadbeefdeadbeefdeadbeefdeadbeefdeadbeefdeadbeef"
        .to_string();
    let outcome = finish_uploads(&mut registry, &"demo".to_string(), &uuid, &Vec::new(), &wrong);
    assert!(matches!(outcome, Err(RegistryError::DigestInvalid)));
    assert!(matches!(get_blob(&registry, &wrong), Err(RegistryError::BlobUnknown)));
    // the session stays for a retried finalise
    let address = sha256_address(b"payload");
    finish_uploads(&mut registry, &"demo".to_string(), &uuid, &Vec::new(), &address).unwrap();
    assert_eq!(get_blob(&registry, &address).unwrap(), b"payload".to_vec());
}

#[test]
fn finalise_unknown_session_fails() {
    let mut registry = Registry::new();
    let address = sha256_address(b"x");
    let outcome = finish_uploads(
        &mut registry,
        &"demo".to_string(),
        &"no-such-session".to_string(),
        &Vec::new(),
        &address,
    );
    assert!(matches!(outcome, Err(RegistryError::BlobUploadUnknown)));
}

#[test]
fn identical_payload_through_two_sessions_deduplicates() {
    let mut registry = Registry::new();
    let payload = b"shared bytes".to_vec();
    let address = sha256_address(&payload);
    let (first, _) = post_uploads(&"demo".to_string());
    patch_uploads(&mut registry, &first, &payload);
    finish_uploads(&mut registry, &"demo".to_string(), &first, &Vec::new(), &address).unwrap();
    let (second, _) = post_uploads(&"demo".to_string());
    patch_uploads(&mut registry, &second, &payload);
    finish_uploads(&mut registry, &"demo".to_string(), &second, &Vec::new(), &address).unwrap();
    assert_eq!(registry.blobs.len(), 1);
    assert_eq!(get_blob(&registry, &address).unwrap(), payload);
    assert!(get_blob(&registry, &first).is_err());
    assert!(get_blob(&registry, &second).is_err());
}

#[test]
fn patch_on_unknown_session_opens_it() {
    let mut registry = Registry::new();
    let range = patch_uploads(&mut registry, &"fresh-session".to_string(), &b"abc".to_vec());
    assert_eq!(range, (0, 3));
    assert_eq!(get_blob(&registry, &"fresh-session".to_string()).unwrap(), b"abc".to_vec());
}
