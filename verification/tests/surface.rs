use image_registry::application::{Application, AppTree, BlobFile};
use image_registry::digest::{Digest, HashType};
use image_registry::hashing::from_bytes;
use image_registry::httpd::{
    content_response, paginate, parse_range, skip_bytes, sort_tags, tags_body, u64_to_string,
    support_body, not_found_body,
};
use image_registry::registry::Registry;

fn sha(data: &[u8]) -> String {
    from_bytes(HashType::Sha256, data).get_hash().to_string()
}

/// Builds one valid application snapshot with a manifest tagged `latest`,
/// a config and one layer.
fn example_tree() -> AppTree {
    let config = br#"{"rootfs":{"diff_ids":["sha256:0000000000000000000000000000000000000000000000000000000000000000"]}}"#.to_vec();
    let layer = b"layer-bytes".to_vec();
    let config_digest = sha(&config);
    let layer_digest = sha(&layer);
    let manifest = format!(
        r#"{{"schemaVersion":2,"mediaType":"application/vnd.oci.image.manifest.v1+json","config":{{"mediaType":"application/vnd.oci.image.config.v1+json","digest":"sha256:{cd}","size":{cs}}},"layers":[{{"mediaType":"application/vnd.oci.image.layer.v1.tar","digest":"sha256:{ld}","size":{ls}}}]}}"#,
        cd = config_digest,
        cs = config.len(),
        ld = layer_digest,
        ls = layer.len()
    )
    .into_bytes();
    let manifest_digest = sha(&manifest);
    let index = format!(
        r#"{{"schemaVersion":2,"mediaType":"application/vnd.oci.image.index.v1+json","manifests":[{{"mediaType":"application/vnd.oci.image.manifest.v1+json","digest":"sha256:{md}","size":{ms},"annotations":{{"org.opencontainers.image.ref.name":"latest"}}}}]}}"#,
        md = manifest_digest,
        ms = manifest.len()
    )
    .into_bytes();
    let layout = br#"{"imageLayoutVersion":"1.0.0"}"#.to_vec();
    AppTree {
        layout: Some(layout),
        index,
        blobs: vec![
            BlobFile { algo: HashType::Sha256, hex: config_digest, data: config },
            BlobFile { algo: HashType::Sha256, hex: layer_digest, data: layer },
            BlobFile { algo: HashType::Sha256, hex: manifest_digest, data: manifest },
        ],
    }
}

#[test]
fn application_import_builds_maps() {
    let tree = example_tree();
    let app = Application::import("com.example.app".to_string(), &tree).unwrap();
    assert_eq!(app.get_tags().len(), 1);
    assert_eq!(app.get_tags()[0].0, "latest");
    assert_eq!(app.get_manifests().len(), 1);
    assert_eq!(app.get_blobs().len(), 2);
    let orphans = app.find_orphans(&tree);
    assert!(orphans.is_empty());
}

#[test]
fn application_import_rejects_bad_layout() {
    let mut tree = example_tree();
    tree.layout = Some(br#"{"imageLayoutVersion":"2.0.0"}"#.to_vec());
    assert!(Application::import("a".to_string(), &tree).is_err());
    tree.layout = None;
    assert!(Application::import("a".to_string(), &tree).is_err());
}

#[test]
fn application_import_rejects_corrupt_manifest() {
    // flip one byte of the top-level manifest: its hash no longer matches
    let mut tree = example_tree();
    let n = tree.blobs.len();
    let last = tree.blobs[n - 1].data.len() - 1;
    tree.blobs[n - 1].data[last] ^= 1;
    assert!(Application::import("a".to_string(), &tree).is_err());
}

#[test]
fn application_import_rejects_size_mismatch() {
    let mut tree = example_tree();
    let n = tree.blobs.len();
    tree.blobs[n - 1].data.push(b' ');
    assert!(Application::import("a".to_string(), &tree).is_err());
}

#[test]
fn application_import_rejects_bad_tag() {
    let tree = example_tree();
    let index = String::from_utf8(tree.index.clone()).unwrap();
    let bad = index.replace("latest", "!bad tag");
    let tree = AppTree { layout: tree.layout, index: bad.into_bytes(), blobs: tree.blobs };
    assert!(Application::import("a".to_string(), &tree).is_err());
}

#[test]
fn application_import_recurses_into_nested_index() {
    // a layout index pointing at a nested index, which lists the manifest
    let base = example_tree();
    let manifest = base.blobs[2].data.clone();
    let manifest_digest = base.blobs[2].hex.clone();
    let nested = format!(
        r#"{{"schemaVersion":2,"mediaType":"application/vnd.oci.image.index.v1+json","manifests":[{{"mediaType":"application/vnd.oci.image.manifest.v1+json","digest":"sha256:{md}","size":{ms}}}]}}"#,
        md = manifest_digest,
        ms = manifest.len()
    )
    .into_bytes();
    let nested_digest = sha(&nested);
    let index = format!(
        r#"{{"schemaVersion":2,"mediaType":"application/vnd.oci.image.index.v1+json","manifests":[{{"mediaType":"application/vnd.oci.image.index.v1+json","digest":"sha256:{nd}","size":{ns},"annotations":{{"org.opencontainers.image.ref.name":"multi"}}}}]}}"#,
        nd = nested_digest,
        ns = nested.len()
    )
    .into_bytes();
    let mut blobs = base.blobs;
    blobs.push(BlobFile { algo: HashType::Sha256, hex: nested_digest.clone(), data: nested });
    let tree = AppTree { layout: base.layout, index, blobs };
    let app = Application::import("app".to_string(), &tree).unwrap();
    // both the nested index and the manifest are registered as manifests
    assert_eq!(app.get_manifests().len(), 2);
    assert_eq!(app.get_tags().len(), 1);
    assert_eq!(app.get_tags()[0].0, "multi");
    assert_eq!(app.get_tags()[0].1.digest, format!("sha256:{}", nested_digest));
}

#[test]
fn orphans_are_reported_exactly() {
    let mut tree = example_tree();
    tree.blobs.push(BlobFile {
        algo: HashType::Sha256,
        hex: sha(b"never referenced"),
        data: b"never referenced".to_vec(),
    });
    let app = Application::import("app".to_string(), &tree).unwrap();
    let orphans = app.find_orphans(&tree);
    assert_eq!(orphans.len(), 1);
    assert_eq!(orphans[0].get_hash(), sha(b"never referenced"));
}

#[test]
fn registry_skips_failing_application() {
    let good = example_tree();
    let mut bad = example_tree();
    let n = bad.blobs.len();
    let last = bad.blobs[n - 1].data.len() - 1;
    bad.blobs[n - 1].data[last] ^= 1;
    let trees = vec![
        ("good.app".to_string(), good),
        ("bad.app".to_string(), bad),
    ];
    let reg = Registry::import(&trees);
    assert!(reg.get_tags("good.app").is_some());
    assert!(reg.get_tags("bad.app").is_none());
}

#[test]
fn registry_lookups() {
    let tree = example_tree();
    let manifest_digest = {
        let n = tree.blobs.len();
        format!("sha256:{}", tree.blobs[n - 1].hex)
    };
    let config_digest = format!("sha256:{}", tree.blobs[0].hex);
    let trees = vec![("com.example.app".to_string(), tree)];
    let reg = Registry::import(&trees);

    let by_tag = reg.get_manifest("com.example.app", "latest").unwrap();
    assert_eq!(by_tag.digest, manifest_digest);
    let by_digest = reg.get_manifest("com.example.app", &manifest_digest).unwrap();
    assert_eq!(by_digest.digest, manifest_digest);
    assert_eq!(by_digest.path, format!("blobs/{}", manifest_digest.replace(':', "/")));

    // a tag on the blob endpoint is a client bug and finds nothing
    assert!(reg.get_blob("com.example.app", "latest").is_none());
    let blob = reg.get_blob("com.example.app", &config_digest).unwrap();
    assert_eq!(blob.digest, config_digest);

    assert!(reg.get_manifest("missing.app", "latest").is_none());
    assert!(reg.get_manifest("com.example.app", "missing-tag").is_none());
}

#[test]
fn tag_listing_body_is_exact() {
    let tree = example_tree();
    let trees = vec![("com.example.app".to_string(), tree)];
    let reg = Registry::import(&trees);
    let tags = reg.get_tags("com.example.app").unwrap();
    let sorted = sort_tags(tags);
    let page = paginate(sorted, None, None);
    let body = tags_body("com.example.app", &page);
    assert_eq!(
        String::from_utf8(body).unwrap(),
        r#"{"name":"com.example.app","tags":["latest"]}"#
    );
}

#[test]
fn sort_is_case_insensitive_ascending() {
    let tags = vec![
        "zeta".to_string(),
        "Alpha".to_string(),
        "beta".to_string(),
        "ALPHA2".to_string(),
    ];
    let sorted = sort_tags(tags);
    let want: Vec<String> = ["Alpha", "ALPHA2", "beta", "zeta"].iter().map(|s| s.to_string()).collect();
    assert_eq!(sorted, want);
}

#[test]
fn pagination_cut_and_limit() {
    let t: Vec<String> = ["a", "b", "c", "d"].iter().map(|s| s.to_string()).collect();
    assert_eq!(paginate(t.clone(), Some("b"), Some(1)), vec!["c".to_string()]);
    assert_eq!(paginate(t.clone(), Some("b"), None), vec!["c".to_string(), "d".to_string()]);
    assert_eq!(paginate(t.clone(), Some("d"), None), Vec::<String>::new());
    assert_eq!(paginate(t.clone(), Some("zz"), None), Vec::<String>::new());
    assert_eq!(paginate(t.clone(), None, Some(2)), vec!["a".to_string(), "b".to_string()]);
    assert_eq!(paginate(t.clone(), None, Some(9)), t);
}

#[test]
fn range_header_forms() {
    assert_eq!(parse_range("bytes=10-"), Some(10));
    assert_eq!(parse_range("bytes=0-"), Some(0));
    assert_eq!(parse_range("bytes=10-20"), None);
    assert_eq!(parse_range("bytes=-5"), None);
    assert_eq!(parse_range("bytes= 10-"), None);
    assert_eq!(parse_range("items=10-"), None);
    assert_eq!(parse_range(""), None);
    assert_eq!(parse_range("bytes=99999999999999999999-"), None);
}

fn content_for(data: &[u8]) -> image_registry::application::Content {
    let d = from_bytes(HashType::Sha256, data);
    image_registry::application::Content {
        path: format!("blobs/{}", d.to_path()),
        size: data.len() as u64,
        digest: d.to_string(),
        media_type: "application/vnd.oci.image.layer.v1.tar".to_string(),
    }
}

#[test]
fn range_response_is_a_suffix_of_the_full_body() {
    let data: Vec<u8> = (0u8..100).collect();
    let content = content_for(&data);

    let full = content_response(&content, &data, None, false);
    assert_eq!(full.status, 200);
    assert_eq!(full.body, data);

    let part = content_response(&content, &data, Some("bytes=10-"), false);
    assert_eq!(part.status, 206);
    assert_eq!(part.body.len(), 90);
    assert_eq!(part.body[..], full.body[10..]);
    assert_eq!(part.headers[1], ("Content-Length".to_string(), "90".to_string()));
    assert_eq!(
        part.headers[3],
        ("Content-Range".to_string(), "bytes 10-99/100".to_string())
    );
    // the digest announced on the range response is the whole blob's
    assert_eq!(part.headers[2].1, content.digest);
    assert_eq!(full.headers[2].1, content.digest);
}

#[test]
fn bad_ranges_are_not_acceptable() {
    let data: Vec<u8> = (0u8..100).collect();
    let content = content_for(&data);
    let r = content_response(&content, &data, Some("bytes=10-20"), false);
    assert_eq!(r.status, 416);
    assert_eq!(r.headers[0], ("Content-Range".to_string(), "bytes */100".to_string()));
    assert!(r.body.is_empty());
    let r = content_response(&content, &data, Some("bytes=100-"), false);
    assert_eq!(r.status, 416);
}

#[test]
fn head_has_headers_and_no_body() {
    let data: Vec<u8> = (0u8..10).collect();
    let content = content_for(&data);
    let head = content_response(&content, &data, None, true);
    let get = content_response(&content, &data, None, false);
    assert_eq!(head.status, 200);
    assert!(head.body.is_empty());
    assert_eq!(head.headers, get.headers);
}

#[test]
fn number_formatting() {
    assert_eq!(u64_to_string(0), "0");
    assert_eq!(u64_to_string(7), "7");
    assert_eq!(u64_to_string(1234567890), "1234567890");
    assert_eq!(u64_to_string(u64::MAX), "18446744073709551615");
}

#[test]
fn fixed_bodies() {
    assert_eq!(support_body(), "OCI Distribution Spec V2 supported");
    assert!(not_found_body().contains("404"));
}

#[test]
fn skipping_bytes() {
    let data: Vec<u8> = (0u8..10).collect();
    assert_eq!(skip_bytes(&data, 0), data);
    assert_eq!(skip_bytes(&data, 4), (4u8..10).collect::<Vec<u8>>());
    assert_eq!(skip_bytes(&data, 10), Vec::<u8>::new());
}

#[test]
fn digest_announced_on_manifest_get_and_head() {
    // the digest header of a manifest response equals the manifest's digest
    let tree = example_tree();
    let n = tree.blobs.len();
    let manifest_bytes = tree.blobs[n - 1].data.clone();
    let manifest_digest = format!("sha256:{}", tree.blobs[n - 1].hex);
    let trees = vec![("app".to_string(), tree)];
    let reg = Registry::import(&trees);
    let content = reg.get_manifest("app", "latest").unwrap().dup();
    let head = content_response(&content, &manifest_bytes, None, true);
    let get = content_response(&content, &manifest_bytes, None, false);
    assert_eq!(head.headers[2].1, manifest_digest);
    assert_eq!(get.headers, head.headers);
    assert_eq!(get.body, manifest_bytes);
    assert!(head.body.is_empty());
}
