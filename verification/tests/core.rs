use image_registry::digest::{Digest, HashType};
use image_registry::hashing::{from_bytes, hash_reader, verify, verify_digest, Hasher};
use image_registry::hex::{hex_decode, hex_encode};
use image_registry::mediatype::{ClientMediaType, MediaType};
use image_registry::reference::Reference;
use image_registry::tag;
use image_registry::tag::Tag;

fn hex_of(data: &[u8]) -> String {
    let d = from_bytes(HashType::Sha256, data);
    d.get_hash().to_string()
}

#[test]
fn digest_parse_round_trip() {
    let s = format!("sha256:{}", hex_of(b"hello"));
    let d = Digest::parse(&s).unwrap();
    assert_eq!(d.to_string(), s);
    assert_eq!(d.get_algo(), "sha256");
    assert_eq!(d.to_path(), format!("sha256/{}", hex_of(b"hello")));
    assert_eq!(d.value(), hex_of(b"hello"));
    assert!(matches!(d.hash_type(), HashType::Sha256));
}

#[test]
fn digest_parse_sha512() {
    let h: String = "ab".repeat(64);
    let s = format!("sha512:{}", h);
    let d = Digest::parse(&s).unwrap();
    assert_eq!(d.to_string(), s);
    assert!(matches!(d.hash_type(), HashType::Sha512));
}

#[test]
fn digest_parse_rejects() {
    assert!(Digest::parse("md5:abcd").is_err());
    assert!(Digest::parse("sha256:abcd").is_err());
    let h = "g".repeat(64);
    assert!(Digest::parse(&format!("sha256:{}", h)).is_err());
    let h = "A".repeat(64);
    assert!(Digest::parse(&format!("sha256:{}", h)).is_err());
    assert!(Digest::parse("sha256").is_err());
    let two = format!("sha256:{}:{}", "a".repeat(64), "b".repeat(64));
    assert!(Digest::parse(&two).is_err());
    assert!(Digest::parse("").is_err());
}

#[test]
fn digest_new_checks() {
    assert!(Digest::new("sha256".to_string(), "a".repeat(64)).is_ok());
    assert!(Digest::new("sha256".to_string(), "a".repeat(63)).is_err());
    assert!(Digest::new("sha512".to_string(), "a".repeat(128)).is_ok());
    assert!(Digest::new("sha384".to_string(), "a".repeat(96)).is_err());
}

#[test]
fn tag_grammar() {
    assert!(tag::verify("latest"));
    assert!(tag::verify("_v1.0-rc"));
    assert!(tag::verify("0"));
    assert!(tag::verify(&"a".repeat(128)));
    assert!(!tag::verify(&"a".repeat(129)));
    assert!(!tag::verify(""));
    assert!(!tag::verify("-leading-dash"));
    assert!(!tag::verify(".leading-dot"));
    assert!(!tag::verify("sp ace"));
    let t = Tag::parse("v1").unwrap();
    assert_eq!(t.as_str(), "v1");
    assert!(Tag::parse("!bad").is_err());
}

#[test]
fn reference_forms() {
    let s = format!("sha256:{}", hex_of(b"x"));
    let r = Reference::parse(&s).unwrap();
    assert!(matches!(r, Reference::Digest(_)));
    assert_eq!(r.to_string(), s);

    let r = Reference::parse("latest").unwrap();
    assert!(matches!(r, Reference::Tag(_)));
    assert_eq!(r.to_string(), "latest");

    assert!(Reference::parse("not a tag!").is_err());
}

#[test]
fn hex_round_trip() {
    let data: Vec<u8> = vec![0, 1, 127, 128, 255, 16, 42];
    let e = hex_encode(&data);
    assert_eq!(e, b"00017f80ff102a".to_vec());
    let back = hex_decode(&e).unwrap();
    assert_eq!(back, data);
    assert!(hex_decode(b"abc").is_none());
    assert!(hex_decode(b"zz").is_none());
    assert!(hex_decode(b"AB").is_none());
    assert_eq!(hex_decode(b"").unwrap(), Vec::<u8>::new());
}

#[test]
fn sha256_known_value() {
    let d = from_bytes(HashType::Sha256, b"");
    assert_eq!(
        d.get_hash(),
        "e3b0c44298fc1c149afbf4c8996fb92427ae41e4649b934ca495991b7852b855"
    );
    let d = from_bytes(HashType::Sha256, b"abc");
    assert_eq!(
        d.get_hash(),
        "ba7816bf8f01cfea414140de5dae2223b00361a396177a9cb410ff61f20015ad"
    );
}

#[test]
fn verify_round_trip_any_bytes() {
    for data in [b"".to_vec(), b"hello world".to_vec(), vec![0u8; 1000]] {
        let d = from_bytes(HashType::Sha256, &data);
        assert!(verify(&data, &d));
        let d = from_bytes(HashType::Sha512, &data);
        assert!(verify(&data, &d));
    }
}

#[test]
fn verify_rejects_changed_bytes() {
    let d = from_bytes(HashType::Sha256, b"hello");
    assert!(!verify_digest(&d, b"hellp"));
}

#[test]
fn verify_digest_bad_hex_is_false() {
    let d = Digest::new_unchecked(HashType::Sha256, "nothex".to_string());
    assert!(!verify_digest(&d, b"data"));
}

#[test]
fn incremental_hasher_matches_one_shot() {
    let mut h = Hasher::new(HashType::Sha256);
    h.update(b"hello ");
    h.update(b"world");
    let split = h.finalize();
    let whole = hash_reader(HashType::Sha256, b"hello world");
    assert_eq!(split, whole);
    // finalize resets: a second finalize hashes the empty string
    let empty = h.finalize();
    assert_eq!(empty, hash_reader(HashType::Sha256, b""));
}

#[test]
fn media_type_round_trip() {
    let all = [
        MediaType::ImageIndex,
        MediaType::ImageManifest,
        MediaType::ImageConfig,
        MediaType::ImageLayer,
        MediaType::ImageLayerGzip,
        MediaType::ImageLayerZstd,
    ];
    for m in all {
        assert_eq!(MediaType::from_str(m.as_str()), Some(m));
    }
    assert_eq!(MediaType::from_str("text/plain"), None);
    assert!(MediaType::ImageLayerGzip.is_layer());
    assert!(!MediaType::ImageConfig.is_layer());
}

#[test]
fn client_media_type_mapping() {
    assert_eq!(
        ClientMediaType::Tar.into_media_type(),
        MediaType::ImageLayer
    );
    assert_eq!(
        ClientMediaType::TarGz.into_media_type(),
        MediaType::ImageLayerGzip
    );
    assert_eq!(
        ClientMediaType::TarZstd.into_media_type(),
        MediaType::ImageLayerZstd
    );
}
