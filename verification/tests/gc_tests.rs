use registry_core::api::blob::{finish_uploads, get_blob, patch_uploads, post_uploads};
use registry_core::api::catalog::catalog;
use registry_core::api::manifests::{
    self, ImageManifest, ImageManifestConfig, ImageManifestLayer, Manifest,
};
use registry_core::db::{self, Registry};

fn sha256_address(payload: &[u8]) -> String {
    format!("sha256:{}", sha256::digest(payload))
}

fn upload(registry: &mut Registry, name: &str, payload: &[u8]) -> String {
    let (uuid, _) = post_uploads(&name.to_string());
    patch_uploads(registry, &uuid, &payload.to_vec());
    let address = sha256_address(payload);
    finish_uploads(registry, &name.to_string(), &uuid, &Vec::new(), &address).unwrap();
    address
}

fn image_manifest(config: &str, layers: &[&str]) -> Manifest {
    Manifest::Image(ImageManifest {
        schema_version: 2,
        media_type: "application/vnd.docker.distribution.manifest.v2+json".to_string(),
        config: ImageManifestConfig {
            media_type: "application/vnd.docker.container.image.v1+json".to_string(),
            size: 7,
            digest: config.to_string(),
        },
        layers: layers
            .iter()
            .map(|digest| ImageManifestLayer {
                media_type: "application/vnd.docker.image.rootfs.diff.tar.gzip".to_string(),
                size: 7,
                digest: digest.to_string(),
                urls: None,
            })
            .collect(),
    })
}

#[test]
fn gc_reclaims_orphan_upload() {
    let mut registry = Registry::new();
    let (uuid, _) = post_uploads(&"demo".to_string());
    patch_uploads(&mut registry, &uuid, &vec![0u8; 1024]);
    assert_eq!(registry.blobs.len(), 1);
    db::cleanup(&mut registry);
    assert_eq!(registry.blobs.len(), 0);
    assert!(get_blob(&registry, &uuid).is_err());
}

#[test]
fn gc_removes_unreachable_blobs_and_empty_repository() {
    let mut registry = Registry::new();
    let l1 = upload(&mut registry, "demo", b"layer one");
    let l2 = upload(&mut registry, "demo", b"layer two");
    let parsed = Some(image_manifest(&l1, &[&l2]));
    let digest = manifests::put(
        &mut registry,
        &"demo".to_string(),
        &"v1".to_string(),
        &"the manifest".to_string(),
        &parsed,
        1,
    );
    manifests::delete(&mut registry, &"demo".to_string(), &digest);
    db::cleanup(&mut registry);
    assert!(get_blob(&registry, &l1).is_err());
    assert!(get_blob(&registry, &l2).is_err());
    assert_eq!(registry.blobs.len(), 0);
    assert_eq!(registry.manifest_blobs.len(), 0);
    assert_eq!(registry.tags.len(), 0);
    assert!(catalog(&registry).is_empty());
}

#[test]
fn gc_preserves_reachable_blobs() {
    let mut registry = Registry::new();
    let live = upload(&mut registry, "demo", b"live layer");
    let orphan = upload(&mut registry, "demo", b"orphan layer");
    let parsed = Some(image_manifest(&live, &[]));
    manifests::put(
        &mut registry,
        &"demo".to_string(),
        &"v1".to_string(),
        &"body".to_string(),
        &parsed,
        1,
    );
    db::cleanup(&mut registry);
    assert_eq!(get_blob(&registry, &live).unwrap(), b"live layer".to_vec());
    assert!(get_blob(&registry, &orphan).is_err());
    assert_eq!(catalog(&registry), vec!["demo".to_string()]);
}

#[test]
fn gc_drops_tags_of_deleted_manifests_only() {
    let mut registry = Registry::new();
    let kept = manifests::put(
        &mut registry,
        &"demo".to_string(),
        &"keep".to_string(),
        &"kept body".to_string(),
        &None,
        1,
    );
    let dropped = manifests::put(
        &mut registry,
        &"demo".to_string(),
        &"drop".to_string(),
        &"dropped body".to_string(),
        &None,
        2,
    );
    assert_ne!(kept, dropped);
    manifests::delete(&mut registry, &"demo".to_string(), &dropped);
    db::cleanup(&mut registry);
    let listed = registry_core::api::tags::tags(&registry, &"demo".to_string());
    assert_eq!(listed, vec!["keep".to_string()]);
}
