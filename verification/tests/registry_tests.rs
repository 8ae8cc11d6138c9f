use registry_core::api::blob::{get_blob, patch_uploads, finish_uploads, post_uploads};
use registry_core::api::catalog::catalog;
use registry_core::api::manifests::{
    self, ImageManifest, ImageManifestConfig, ImageManifestLayer, Manifest,
};
use registry_core::api::tags::tags;
use registry_core::api::{base, GetBaseResponse};
use registry_core::api::base::error_body;
use registry_core::errors::RegistryErrorDetails;
use registry_core::db::{self, Registry};
use registry_core::errors::RegistryError;

fn sha256_address(payload: &[u8]) -> String {
    format!("sha256:{}", sha256::digest(payload))
}

fn image_manifest(config: &str, layers: &[&str]) -> Manifest {
    Manifest::Image(ImageManifest {
        schema_version: 2,
        media_type: "application/vnd.docker.distribution.manifest.v2+json".to_string(),
        config: ImageManifestConfig {
            media_type: "application/vnd.docker.container.image.v1+json".to_string(),
            size: 7,
            digest: config.to_string(),
        },
        layers: layers
            .iter()
            .map(|digest| ImageManifestLayer {
                media_type: "application/vnd.docker.image.rootfs.diff.tar.gzip".to_string(),
                size: 7,
                digest: digest.to_string(),
            urls: None,
            })
            .collect(),
    })
}

fn upload(registry: &mut Registry, name: &str, payload: &[u8]) -> String {
    let (uuid, _) = post_uploads(&name.to_string());
    patch_uploads(registry, &uuid, &payload.to_vec());
    let address = sha256_address(payload);
    finish_uploads(registry, &name.to_string(), &uuid, &Vec::new(), &address).unwrap();
    address
}

#[test]
fn push_and_pull_single_layer_image() {
    let mut registry = Registry::new();
    let layer = upload(&mut registry, "demo", b"hello\nworld");
    let config = upload(&mut registry, "demo", b"{\"arch\":\"amd64\"}");
    let body = format!(
        "{{\"schemaVersion\":2,\"config\":{{\"digest\":\"{}\"}},\"layers\":[{{\"digest\":\"{}\"}}]}}",
        config, layer
    );
    let parsed = Some(image_manifest(&config, &[&layer]));
    let digest = manifests::put(
        &mut registry,
        &"demo".to_string(),
        &"v1".to_string(),
        &body,
        &parsed,
        11,
    );
    assert_eq!(digest, sha256_address(body.as_bytes()));
    let (served_digest, served_body) =
        manifests::get(&registry, &"demo".to_string(), &"v1".to_string()).unwrap();
    assert_eq!(served_digest, digest);
    assert_eq!(served_body, body);
    let by_digest = manifests::get(&registry, &"demo".to_string(), &digest).unwrap();
    assert_eq!(by_digest.1, body);
    assert_eq!(catalog(&registry), vec!["demo".to_string()]);
}

#[test]
fn nested_name_is_listed_decoded() {
    let mut registry = Registry::new();
    let layer = upload(&mut registry, "library/nginx", b"layer-bytes");
    let body = "arbitrary manifest bytes".to_string();
    let parsed = Some(image_manifest(&layer, &[]));
    manifests::put(
        &mut registry,
        &"library/nginx".to_string(),
        &"latest".to_string(),
        &body,
        &parsed,
        1,
    );
    assert_eq!(catalog(&registry), vec!["library/nginx".to_string()]);
}

#[test]
fn tag_overwrite_keeps_one_entry() {
    let mut registry = Registry::new();
    let first_body = "manifest one".to_string();
    let second_body = "manifest two".to_string();
    manifests::put(&mut registry, &"x".to_string(), &"latest".to_string(), &first_body, &None, 1);
    manifests::put(&mut registry, &"x".to_string(), &"latest".to_string(), &second_body, &None, 2);
    let (_, served) = manifests::get(&registry, &"x".to_string(), &"latest".to_string()).unwrap();
    assert_eq!(served, second_body);
    let listed = tags(&registry, &"x".to_string());
    assert_eq!(listed, vec!["latest".to_string()]);
    let rows = db::tags::list(&registry, &"x".to_string());
    assert_eq!(rows.len(), 1);
    assert_eq!(rows[0].updated, 2);
}

#[test]
fn tags_list_newest_first() {
    let mut registry = Registry::new();
    manifests::put(&mut registry, &"x".to_string(), &"old".to_string(), &"m1".to_string(), &None, 5);
    manifests::put(&mut registry, &"x".to_string(), &"new".to_string(), &"m2".to_string(), &None, 9);
    manifests::put(&mut registry, &"x".to_string(), &"mid".to_string(), &"m3".to_string(), &None, 7);
    let listed = tags(&registry, &"x".to_string());
    assert_eq!(listed, vec!["new".to_string(), "mid".to_string(), "old".to_string()]);
}

#[test]
fn catalog_is_sorted_and_deduplicated() {
    let mut registry = Registry::new();
    manifests::put(&mut registry, &"zeta".to_string(), &"t".to_string(), &"m1".to_string(), &None, 1);
    manifests::put(&mut registry, &"alpha".to_string(), &"t".to_string(), &"m2".to_string(), &None, 1);
    manifests::put(&mut registry, &"alpha".to_string(), &"u".to_string(), &"m3".to_string(), &None, 2);
    assert_eq!(catalog(&registry), vec!["alpha".to_string(), "zeta".to_string()]);
}

#[test]
fn manifest_get_unknown_tag_fails() {
    let registry = Registry::new();
    let outcome = manifests::get(&registry, &"demo".to_string(), &"missing".to_string());
    assert!(matches!(outcome, Err(RegistryError::ManifestUnknown)));
}

#[test]
fn manifest_delete_by_tag_resolves() {
    let mut registry = Registry::new();
    let body = "bytes".to_string();
    let digest = manifests::put(
        &mut registry,
        &"demo".to_string(),
        &"v1".to_string(),
        &body,
        &None,
        1,
    );
    manifests::delete(&mut registry, &"demo".to_string(), &"v1".to_string());
    let outcome = manifests::get(&registry, &"demo".to_string(), &digest);
    assert!(matches!(outcome, Err(RegistryError::ManifestUnknown)));
}

#[test]
fn blob_delete_disassociates_only_this_repository() {
    let mut registry = Registry::new();
    let layer = upload(&mut registry, "a", b"shared-layer");
    let parsed_a = Some(image_manifest(&layer, &[]));
    let da = manifests::put(&mut registry, &"a".to_string(), &"t".to_string(), &"body a".to_string(), &parsed_a, 1);
    let parsed_b = Some(image_manifest(&layer, &[]));
    let db_ = manifests::put(&mut registry, &"b".to_string(), &"t".to_string(), &"body b".to_string(), &parsed_b, 1);
    let removed = registry_core::api::blob::delete(&mut registry, &"a".to_string(), &layer);
    assert_eq!(removed, vec![(da.clone(), layer.clone())]);
    assert_eq!(registry.manifest_blobs.len(), 1);
    assert_eq!(registry.manifest_blobs[0].manifest, db_);
}

#[test]
fn size_of_manifest_sums_reachable_blobs() {
    let mut registry = Registry::new();
    let l1 = upload(&mut registry, "demo", b"aaaa");
    let l2 = upload(&mut registry, "demo", b"bbbbbb");
    let parsed = Some(image_manifest(&l1, &[&l2]));
    let digest = manifests::put(
        &mut registry,
        &"demo".to_string(),
        &"v1".to_string(),
        &"body".to_string(),
        &parsed,
        1,
    );
    assert_eq!(db::tags::get_manifest(&registry, &"demo".to_string(), &"v1".to_string()).unwrap(), digest);
    assert_eq!(db::tags::get_size(&registry, &digest), 10);
}

#[test]
fn rekey_of_unknown_session_is_invalid() {
    let mut registry = Registry::new();
    let outcome = db::blobs::update_digest(
        &mut registry,
        &"missing".to_string(),
        &"sha256:00".to_string(),
    );
    assert!(matches!(outcome, Err(RegistryError::BlobUploadInvalid)));
}

#[test]
fn blob_save_is_an_upsert() {
    let mut registry = Registry::new();
    db::blobs::save(&mut registry, &"key".to_string(), &b"one".to_vec());
    db::blobs::save(&mut registry, &"key".to_string(), &b"two".to_vec());
    assert_eq!(registry.blobs.len(), 1);
    assert_eq!(db::blobs::get(&registry, &"key".to_string()).unwrap(), b"two".to_vec());
    assert_eq!(db::blobs::length(&registry, &"key".to_string()).unwrap(), 3);
}

#[test]
fn error_details_and_statuses() {
    let details = RegistryErrorDetails::from(RegistryError::DigestInvalid);
    assert_eq!(details.code, "DIGEST_INVALID");
    assert_eq!(details.message, "provided digest did not match uploaded content");
    let details = RegistryErrorDetails::from(RegistryError::BlobUploadUnknown);
    assert_eq!(details.code, "BLOB_UPLOAD_UNKNOWN");
    assert_eq!(RegistryError::BlobUnknown.http_status(), 404);
    assert_eq!(RegistryError::DigestInvalid.http_status(), 400);
    assert_eq!(RegistryError::Unauthorized.http_status(), 401);
    assert_eq!(RegistryError::Denied.http_status(), 403);
    assert_eq!(RegistryError::Unsupported.http_status(), 405);
}

#[test]
fn base_probe_succeeds() {
    let response = base();
    assert!(matches!(response, GetBaseResponse::Success));
    assert_eq!(response.status(), 200);
    assert!(response.error().is_none());
    assert_eq!(GetBaseResponse::Unauthorized.status(), 401);
}

#[test]
fn error_body_is_distribution_json() {
    assert_eq!(
        error_body(&RegistryError::DigestInvalid),
        "{\"errors\":[{\"code\":\"DIGEST_INVALID\",\"message\":\"provided digest did not match uploaded content\"}]}"
    );
}
