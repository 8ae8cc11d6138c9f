use registry_core::rewrite::{capture, decode_name, encode_name, rewrite_request_uri};

#[test]
fn test_tags_matches_no_slash() {
    let uri = "/v2/nginx/tags/list";
    let captures = capture(&uri.to_string());
    assert_eq!(captures.is_some(), true);
    let captures = captures.unwrap();
    assert_eq!(captures.0.as_str(), "nginx");
    assert_eq!(captures.1.as_str(), "tags");
}

#[test]
fn test_tags_matches_with_slash() {
    let uri = "/v2/library/nginx/tags/list";
    let captures = capture(&uri.to_string());
    assert_eq!(captures.is_some(), true);
    let captures = captures.unwrap();
    assert_eq!(captures.0.as_str(), "library/nginx");
    assert_eq!(captures.1.as_str(), "tags");
}

#[test]
fn capture_matches_manifests_and_blobs() {
    let got = capture(&"/v2/demo/manifests/latest".to_string()).unwrap();
    assert_eq!(got.0.as_str(), "demo");
    assert_eq!(got.1.as_str(), "manifests");
    let got = capture(&"/v2/demo/blobs/uploads/".to_string()).unwrap();
    assert_eq!(got.0.as_str(), "demo");
    assert_eq!(got.1.as_str(), "blobs");
}

#[test]
fn capture_skips_non_api_paths() {
    assert!(capture(&"/v2/".to_string()).is_none());
    assert!(capture(&"/v2/_catalog".to_string()).is_none());
    assert!(capture(&"/admin".to_string()).is_none());
    assert!(capture(&"/v2/demo/manifests/latest".to_string()).is_some());
    assert!(capture(&"/v2/demo/manifests".to_string()).is_none());
}

#[test]
fn rewrite_encodes_nested_name() {
    let rewritten = rewrite_request_uri(&"/v2/library/nginx/blobs/uploads/".to_string());
    assert_eq!(rewritten.as_str(), "/v2/library%2Fnginx/blobs/uploads/");
}

#[test]
fn rewrite_keeps_flat_name_and_non_api_paths() {
    let rewritten = rewrite_request_uri(&"/v2/nginx/tags/list".to_string());
    assert_eq!(rewritten.as_str(), "/v2/nginx/tags/list");
    let rewritten = rewrite_request_uri(&"/v2/_catalog".to_string());
    assert_eq!(rewritten.as_str(), "/v2/_catalog");
}

#[test]
fn encode_then_decode_returns_the_name() {
    let name = "library/nginx/stable".to_string();
    let encoded = encode_name(&name);
    assert_eq!(encoded.as_str(), "library%2Fnginx%2Fstable");
    assert!(!encoded.contains('/'));
    let decoded = decode_name(&encoded);
    assert_eq!(decoded, name);
}
