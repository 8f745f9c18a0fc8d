use image_registry::application::{AppTree, BlobFile};
use image_registry::digest::HashType;
use image_registry::hashing::from_bytes;
use image_registry::signer::{
    cmd_extract_public, cmd_generate_key, cmd_rehash_file, cmd_sign, cmd_sign_config,
    cmd_sign_image, cmd_verify, cmd_verify_image, find_manifest_by_reference, sign_vendor_pub,
    verify_config, verify_vendor_pub_signature,
};

fn sha(data: &[u8]) -> String {
    from_bytes(HashType::Sha256, data).get_hash().to_string()
}

fn example_tree() -> AppTree {
    let config = br#"{"rootfs":{"diff_ids":[]}}"#.to_vec();
    let config_digest = sha(&config);
    let manifest = format!(
        r#"{{"schemaVersion":2,"mediaType":"application/vnd.oci.image.manifest.v1+json","config":{{"mediaType":"application/vnd.oci.image.config.v1+json","digest":"sha256:{cd}","size":{cs}}},"layers":[]}}"#,
        cd = config_digest,
        cs = config.len()
    )
    .into_bytes();
    let manifest_digest = sha(&manifest);
    let index = format!(
        r#"{{"schemaVersion":2,"mediaType":"application/vnd.oci.image.index.v1+json","manifests":[{{"mediaType":"application/vnd.oci.image.manifest.v1+json","digest":"sha256:{md}","size":{ms},"annotations":{{"org.opencontainers.image.ref.name":"latest"}}}}]}}"#,
        md = manifest_digest,
        ms = manifest.len()
    )
    .into_bytes();
    AppTree {
        layout: Some(br#"{"imageLayoutVersion":"1.0.0"}"#.to_vec()),
        index,
        blobs: vec![
            BlobFile { algo: HashType::Sha256, hex: config_digest, data: config },
            BlobFile { algo: HashType::Sha256, hex: manifest_digest, data: manifest },
        ],
    }
}

fn manifest_digest_of(tree: &AppTree) -> String {
    format!("sha256:{}", tree.blobs[1].hex)
}

#[test]
fn sign_and_verify_bytes() {
    let key = cmd_generate_key().unwrap();
    let public = cmd_extract_public(&key).unwrap();
    let msg = b"a file to sign";
    let sig = cmd_sign(&key, msg).unwrap();
    assert!(cmd_verify(&public, msg, &sig).is_ok());
    assert!(cmd_verify(&public, b"another file", &sig).is_err());
    let other = cmd_extract_public(&cmd_generate_key().unwrap()).unwrap();
    assert!(cmd_verify(&other, msg, &sig).is_err());
}

#[test]
fn key_import_rejects_garbage() {
    assert!(cmd_extract_public(b"not a key").is_err());
    assert!(cmd_sign(b"not a key", b"msg").is_err());
}

#[test]
fn vendor_endorsement() {
    let vendor = cmd_generate_key().unwrap();
    let ca = cmd_generate_key().unwrap();
    let ca_pub = cmd_extract_public(&ca).unwrap();
    let endorsement = sign_vendor_pub(&vendor, &ca).unwrap();
    assert!(verify_vendor_pub_signature(&vendor, &endorsement, &ca_pub).is_ok());
    // the vendor key is not endorsed by itself
    let vendor_pub = cmd_extract_public(&vendor).unwrap();
    assert!(verify_vendor_pub_signature(&vendor, &endorsement, &vendor_pub).is_err());
}

#[test]
fn reference_resolution() {
    let tree = example_tree();
    let resolved = find_manifest_by_reference(&tree, "latest").unwrap();
    assert_eq!(resolved, manifest_digest_of(&tree));
    // an unknown reference resolves to itself
    let resolved = find_manifest_by_reference(&tree, "sha256:abcd").unwrap();
    assert_eq!(resolved, "sha256:abcd");
}

#[test]
fn sign_config_then_verify_image() {
    let mut tree = example_tree();
    let digest = manifest_digest_of(&tree);
    let vendor = cmd_generate_key().unwrap();
    let ca = cmd_generate_key().unwrap();
    let ca_pub = cmd_extract_public(&ca).unwrap();
    let endorsement = sign_vendor_pub(&vendor, &ca).unwrap();

    cmd_sign_config(&mut tree, &digest, &vendor, &endorsement, &ca_pub).unwrap();
    // the manifest under its old digest now carries a verifying chain
    assert!(verify_config(&tree, &digest, &ca_pub).is_ok());

    // a different CA does not verify it
    let other_ca_pub = cmd_extract_public(&cmd_generate_key().unwrap()).unwrap();
    assert!(verify_config(&tree, &digest, &other_ca_pub).is_err());
}

#[test]
fn sign_image_updates_index_and_verifies() {
    let mut tree = example_tree();
    let old_digest = manifest_digest_of(&tree);
    let vendor = cmd_generate_key().unwrap();
    let ca = cmd_generate_key().unwrap();
    let ca_pub = cmd_extract_public(&ca).unwrap();

    let new_digest = cmd_sign_image(&mut tree, "latest", &vendor, None, None, Some(&ca))
        .unwrap()
        .expect("the manifest must change identity");
    assert_ne!(new_digest, old_digest);

    // the tag resolves to the new digest through the rewritten index
    let resolved = find_manifest_by_reference(&tree, "latest").unwrap();
    assert_eq!(resolved, new_digest);

    // the whole image verifies under the CA key, by tag and by digest
    assert!(cmd_verify_image(&tree, "latest", &ca_pub).is_ok());
    assert!(cmd_verify_image(&tree, &new_digest, &ca_pub).is_ok());

    // signing is idempotent: deterministic signatures recreate the same
    // annotations, so a second signing leaves the manifest's identity
    // unchanged and the tree still verifies
    let endorsement = sign_vendor_pub(&vendor, &ca).unwrap();
    let again = cmd_sign_image(
        &mut tree,
        "latest",
        &vendor,
        Some(&endorsement),
        Some(&ca_pub),
        None,
    )
    .unwrap();
    assert!(again.is_none());
    assert!(cmd_verify_image(&tree, "latest", &ca_pub).is_ok());
}

#[test]
fn verify_image_rejects_corrupt_config() {
    let mut tree = example_tree();
    let digest = manifest_digest_of(&tree);
    let vendor = cmd_generate_key().unwrap();
    let ca = cmd_generate_key().unwrap();
    let ca_pub = cmd_extract_public(&ca).unwrap();
    let endorsement = sign_vendor_pub(&vendor, &ca).unwrap();
    cmd_sign_config(&mut tree, &digest, &vendor, &endorsement, &ca_pub).unwrap();

    // corrupt the config blob: the recomputed hash no longer matches
    tree.blobs[0].data[0] ^= 1;
    assert!(verify_config(&tree, &digest, &ca_pub).is_err());
}

#[test]
fn rehash_renames_changed_blob() {
    let mut tree = example_tree();
    let digest = manifest_digest_of(&tree);
    // unchanged content: nothing to rename
    assert!(cmd_rehash_file(&mut tree, &digest).unwrap().is_none());

    // change the manifest bytes: the rehash renames the file
    tree.blobs[1].data.push(b' ');
    let renamed = cmd_rehash_file(&mut tree, &digest).unwrap().unwrap();
    assert_eq!(renamed, format!("sha256:{}", sha(&tree.blobs[1].data)));
    assert_eq!(format!("sha256:{}", tree.blobs[1].hex), renamed);
}

#[test]
fn unendorsed_vendor_is_rejected() {
    let mut tree = example_tree();
    let digest = manifest_digest_of(&tree);
    let vendor = cmd_generate_key().unwrap();
    let ca_pub = cmd_extract_public(&cmd_generate_key().unwrap()).unwrap();
    let bogus = vec![1u8, 2, 3];
    assert!(cmd_sign_config(&mut tree, &digest, &vendor, &bogus, &ca_pub).is_err());
}
