use image_registry::client::{
    check_json_response, check_status, content_length, content_type, docker_content_digest,
    verify_content_type, BlobInfo, Config, ConnectionMode, build_image_info,
};
use image_registry::digest::HashType;
use image_registry::docs::{parse_image_manifest, Validate};
use image_registry::errors::Error;
use image_registry::hashing::from_bytes;
use image_registry::json::json_parse;
use image_registry::layer::{
    matches_whiteout, plan_copies, plan_whiteouts, validate_diff_id, Image, LayerEntry, Whiteout,
    WhiteoutAction,
};
use image_registry::mediatype::MediaType;
use image_registry::reference::Reference;
use image_registry::service_url::{ServiceFile, ServiceUrl, TagList, http_scheme, https_scheme, Scheme};
use image_registry::tag::Tag;

fn sha_string(data: &[u8]) -> String {
    from_bytes(HashType::Sha256, data).to_string()
}

#[test]
fn status_mapping() {
    assert!(check_status(200).is_ok());
    assert!(check_status(206).is_ok());
    assert_eq!(check_status(404).unwrap_err(), Error::StatusError(404));
    assert_eq!(check_status(500).unwrap_err(), Error::StatusError(500));
}

#[test]
fn header_lookup_is_case_insensitive() {
    let headers = vec![
        ("content-type".to_string(), "application/json".to_string()),
        ("Content-Length".to_string(), "42".to_string()),
        ("DOCKER-CONTENT-DIGEST".to_string(), "sha256:abc".to_string()),
    ];
    assert_eq!(content_type(&headers), Some("application/json".to_string()));
    assert_eq!(content_length(&headers), Some(42));
    assert_eq!(
        docker_content_digest(&headers),
        Some("sha256:abc".to_string())
    );
    assert_eq!(content_length(&vec![]), None);
    let bad = vec![("Content-Length".to_string(), "4x2".to_string())];
    assert_eq!(content_length(&bad), None);
}

#[test]
fn json_response_checks() {
    let body = br#"{"name":"x"}"#;
    let digest = sha_string(body);
    assert!(check_json_response(body, Some(body.len()), Some(&digest)).is_ok());
    assert!(check_json_response(body, None, None).is_ok());
    assert_eq!(
        check_json_response(body, Some(body.len() + 1), None).unwrap_err(),
        Error::ResponseLengthInvalid
    );
    let wrong = sha_string(b"other");
    assert_eq!(
        check_json_response(body, None, Some(&wrong)).unwrap_err(),
        Error::ResponseDigestInvalid
    );
    let unparsable = "sha256:xyz".to_string();
    assert_eq!(
        check_json_response(body, None, Some(&unparsable)).unwrap_err(),
        Error::ResponseDigestInvalid
    );
}

#[test]
fn blob_info_from_headers() {
    let body = b"blob-bytes";
    let headers = vec![
        ("Content-Type".to_string(), "application/vnd.oci.image.layer.v1.tar".to_string()),
        ("Content-Length".to_string(), body.len().to_string()),
        ("Docker-Content-Digest".to_string(), sha_string(body)),
    ];
    let info = BlobInfo::from_headers(&headers).unwrap();
    assert_eq!(*info.len(), Some(body.len()));
    assert_eq!(*info.media_type(), Some(MediaType::ImageLayer));
    assert_eq!(info.digest().as_ref().unwrap().to_string(), sha_string(body));

    let bad = vec![("Docker-Content-Digest".to_string(), "junk".to_string())];
    assert_eq!(
        BlobInfo::from_headers(&bad).unwrap_err(),
        Error::ResponseDigestInvalid
    );
}

#[test]
fn content_type_tolerance() {
    let ct = Some("application/vnd.oci.image.manifest.v1+json".to_string());
    assert!(verify_content_type(&ct, &Some(MediaType::ImageManifest)));
    assert!(!verify_content_type(&ct, &Some(MediaType::ImageIndex)));
    assert!(verify_content_type(&None, &Some(MediaType::ImageIndex)));
    assert!(verify_content_type(&ct, &None));
}

#[test]
fn config_builder_modes() {
    let c = Config::builder().host("localhost:1337".to_string()).no_tls();
    assert_eq!(c.host, "localhost:1337");
    assert_eq!(c.mode, ConnectionMode::NoTls);
    assert_eq!(c.mode.scheme().as_str(), "http://");
    let c = Config::builder()
        .host("h".to_string())
        .with_mode(ConnectionMode::RusTLS);
    assert_eq!(c.mode.scheme().as_str(), "https://");
}

#[test]
fn image_info_assembly() {
    let config = br#"{"rootfs":{"diff_ids":["sha256:1111111111111111111111111111111111111111111111111111111111111111"]}}"#.to_vec();
    let manifest_json = format!(
        r#"{{"schemaVersion":2,"mediaType":"application/vnd.oci.image.manifest.v1+json","config":{{"mediaType":"application/vnd.oci.image.config.v1+json","digest":"{cd}","size":{cs}}},"layers":[{{"mediaType":"application/vnd.oci.image.layer.v1.tar+gzip","digest":"sha256:{ld}","size":3}}]}}"#,
        cd = sha_string(&config),
        cs = config.len(),
        ld = "2".repeat(64)
    );
    let mv = json_parse(manifest_json.as_bytes()).unwrap();
    let manifest = parse_image_manifest(&mv).unwrap();
    manifest.validate().unwrap();

    let info = build_image_info("app", &manifest, vec![], &config).unwrap();
    assert_eq!(info.config().diff_ids.len(), 1);
    assert_eq!(info.config_digest().to_string(), sha_string(&config));
    assert_eq!(info.layers.len(), 1);
    assert!(info.annotations().is_empty());

    // a config that does not hash to its descriptor digest is rejected
    let bad = build_image_info("app", &manifest, vec![], b"tampered");
    assert_eq!(bad.unwrap_err(), Error::DigestInvalidError);
}

#[test]
fn image_info_rejects_malformed_config() {
    // a config blob that is valid JSON but lacks rootfs.diff_ids
    let config = br#"{"architecture":"arm64"}"#.to_vec();
    let manifest_json = format!(
        r#"{{"schemaVersion":2,"mediaType":"application/vnd.oci.image.manifest.v1+json","config":{{"mediaType":"application/vnd.oci.image.config.v1+json","digest":"{cd}","size":{cs}}},"layers":[]}}"#,
        cd = sha_string(&config),
        cs = config.len()
    );
    let mv = json_parse(manifest_json.as_bytes()).unwrap();
    let manifest = parse_image_manifest(&mv).unwrap();
    let bad = build_image_info("app", &manifest, vec![], &config);
    assert_eq!(bad.unwrap_err(), Error::ManifestFormatError);
    assert_eq!(
        MediaType::ImageLayerGzip.layer_extension(),
        Some("tar.gz")
    );
    assert_eq!(MediaType::ImageConfig.layer_extension(), None);
}

#[test]
fn manifest_annotations_pairs() {
    let mv = json_parse(
        br#"{"schemaVersion":2,"annotations":{"a":"1","b":"2"}}"#,
    )
    .unwrap();
    let mut pairs = image_registry::docs::manifest_annotations(&mv).unwrap();
    pairs.sort();
    assert_eq!(
        pairs,
        vec![("a".to_string(), "1".to_string()), ("b".to_string(), "2".to_string())]
    );

    let mv = json_parse(br#"{"schemaVersion":2}"#).unwrap();
    assert!(image_registry::docs::manifest_annotations(&mv).unwrap().is_empty());

    let mv = json_parse(br#"{"annotations":{"a":3}}"#).unwrap();
    assert!(image_registry::docs::manifest_annotations(&mv).is_err());
}

#[test]
fn whiteout_classification() {
    assert!(matches!(
        matches_whiteout(".wh..wh..opq"),
        Some(Whiteout::WhiteoutOpaque)
    ));
    match matches_whiteout(".wh.removed.txt") {
        Some(Whiteout::WhiteoutFile(f)) => assert_eq!(f, ".wh.removed.txt"),
        _ => panic!("expected a file whiteout"),
    }
    assert!(matches_whiteout("regular.txt").is_none());
    assert!(matches_whiteout(".whx").is_none());
    assert_eq!(Whiteout::opaque(), ".wh..wh..opq");
    assert_eq!(Whiteout::file(), ".wh.");
}

fn entry(parent: &str, name: &str, is_file: bool) -> LayerEntry {
    LayerEntry { parent: parent.to_string(), name: name.to_string(), is_file }
}

#[test]
fn whiteout_planning() {
    let entries = vec![
        entry("etc", "config.toml", true),
        entry("var/cache", ".wh..wh..opq", true),
        entry("etc", ".wh.old.conf", true),
        entry("etc", ".wh.fake-dir-entry", false),
    ];
    let plan = plan_whiteouts(&entries);
    assert_eq!(plan.len(), 2);
    assert_eq!(plan[0].0, 1);
    match &plan[0].1 {
        WhiteoutAction::RemoveDirContents(d) => assert_eq!(d, "var/cache"),
        _ => panic!("expected a directory whiteout"),
    }
    assert_eq!(plan[1].0, 2);
    match &plan[1].1 {
        WhiteoutAction::RemoveFile(f) => assert_eq!(f, "etc/old.conf"),
        _ => panic!("expected a file whiteout"),
    }

    let copies = plan_copies(&entries);
    assert_eq!(copies, vec![0, 3]);
}

#[test]
fn plain_file_layer_applies_idempotently() {
    // applying the same whiteout-free layer twice leaves the same tree
    let entries = vec![entry("etc", "a", true), entry("etc", "b", true)];
    assert!(plan_whiteouts(&entries).is_empty());
    let layer: Vec<(String, Vec<u8>)> = vec![
        ("etc/a".to_string(), b"one".to_vec()),
        ("etc/b".to_string(), b"two".to_vec()),
    ];
    let apply = |mut fs: Vec<(String, Vec<u8>)>| -> Vec<(String, Vec<u8>)> {
        for (path, data) in &layer {
            if let Some(slot) = fs.iter_mut().find(|p| &p.0 == path) {
                slot.1 = data.clone();
            } else {
                fs.push((path.clone(), data.clone()));
            }
        }
        fs
    };
    let start: Vec<(String, Vec<u8>)> = vec![("etc/a".to_string(), b"old".to_vec())];
    let once = apply(start.clone());
    let twice = apply(once.clone());
    assert_eq!(once, twice);
}

#[test]
fn opaque_whiteout_needs_its_directory() {
    // the opaque marker's second application fails once the directory is
    // gone: after the first pass removed the directory contents and no file
    // recreates it, the planned removal cannot run again
    let entries = vec![entry("data", ".wh..wh..opq", true)];
    let plan = plan_whiteouts(&entries);
    assert_eq!(plan.len(), 1);
    let dirs_present_after_first_apply: Vec<String> = vec![];
    let target = match &plan[0].1 {
        WhiteoutAction::RemoveDirContents(d) => d.clone(),
        _ => panic!("expected a directory whiteout"),
    };
    assert!(!dirs_present_after_first_apply.contains(&target));
}

#[test]
fn diff_id_validation() {
    let decoded = b"uncompressed tar bytes";
    let good = from_bytes(HashType::Sha256, decoded);
    assert!(validate_diff_id(decoded, &good).is_ok());
    let bad = from_bytes(HashType::Sha256, b"other");
    assert_eq!(
        validate_diff_id(decoded, &bad).unwrap_err(),
        Error::LayerInvalidDiffIdError
    );
    let image = Image::init("/tmp/unpack".to_string());
    assert_eq!(image.root, "/tmp/unpack");
}

#[test]
fn service_urls() {
    let url = ServiceUrl::init(http_scheme(), "localhost:1337".to_string());
    let u = url
        .get_url_path("app", ServiceFile::Manifest(Reference::parse("latest").unwrap()))
        .unwrap();
    assert_eq!(u, "http://localhost:1337/v2/app/manifests/latest");

    let u = url
        .get_url_path("app", ServiceFile::TagList(TagList::new()))
        .unwrap();
    assert_eq!(u, "http://localhost:1337/v2/app/tags/list");

    let tl = TagList::with_options(Some(2), Some(Tag::parse("v1").unwrap()));
    let u = url.get_url_path("app", ServiceFile::TagList(tl)).unwrap();
    assert_eq!(u, "http://localhost:1337/v2/app/tags/list?n=2&last=v1");

    let d = from_bytes(HashType::Sha256, b"blob");
    let u = url.get_url_path("app", ServiceFile::Blob(d.clone())).unwrap();
    assert_eq!(
        u,
        format!("http://localhost:1337/v2/app/blobs/{}", d.to_string())
    );

    // a host that already carries the matching scheme is kept
    let url = ServiceUrl::init(http_scheme(), "http://h:1".to_string());
    let u = url
        .get_url_path("a", ServiceFile::TagList(TagList::new()))
        .unwrap();
    assert_eq!(u, "http://h:1/v2/a/tags/list");

    // a host that names another scheme is rejected, whatever the scheme
    let url = ServiceUrl::init(https_scheme(), "http://h:1".to_string());
    assert!(url
        .get_url_path("a", ServiceFile::TagList(TagList::new()))
        .is_err());
    let url = ServiceUrl::init(http_scheme(), "ftp://h:1".to_string());
    assert!(url
        .get_url_path("a", ServiceFile::TagList(TagList::new()))
        .is_err());
    let url = ServiceUrl::init(http_scheme(), "ssh+git://h".to_string());
    assert!(url
        .get_url_path("a", ServiceFile::TagList(TagList::new()))
        .is_err());

    // no scheme shape: the mode's scheme is prepended
    let url = ServiceUrl::init(http_scheme(), "127.0.0.1:1337".to_string());
    let u = url
        .get_url_path("a", ServiceFile::TagList(TagList::new()))
        .unwrap();
    assert_eq!(u, "http://127.0.0.1:1337/v2/a/tags/list");

    assert_eq!(Scheme::init("http://").as_str(), "http://");
}

#[test]
fn accept_lists() {
    let m = ServiceFile::Manifest(Reference::parse("latest").unwrap());
    assert_eq!(
        m.supported_media_types(),
        vec!["application/vnd.oci.image.manifest.v1+json"]
    );
    let t = ServiceFile::TagList(TagList::new());
    assert_eq!(t.supported_media_types(), vec!["application/json"]);
    let d = from_bytes(HashType::Sha256, b"b");
    let b = ServiceFile::Blob(d);
    assert_eq!(b.supported_media_types().len(), 4);
    assert!(b.get_options().is_none());
}
