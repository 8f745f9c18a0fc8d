//! The image signer: signs config blobs under a vendor key endorsed by a
//! root CA, rewrites manifest annotations, rehashes renamed blobs and
//! propagates digest changes up the index tree.

use vstd::prelude::*;
use vstd::string::{StrSliceExecFns, StringExecFns};
use crate::application::{AppTree, BlobFile, blob_data};
use crate::assoc::{assoc_find, keys_distinct, upsert, lemma_assoc_find_push_any};
use crate::crypto::{sec1_parses, public_of_private, ecdsa_p384_sign, ecdsa_p384_verifies};
use crate::digest::{Digest, HashType, parse_digest_chars, digest_chars};
use crate::docs::{parse_descriptor, parse_image_index, spec_descriptor, DescriptorView};
use crate::errors::SignerError;
use crate::hashing::{spec_hash, hash_reader, matches_hash, all_chars_ascii, char_bytes, chars_to_bytes};
use crate::hex::{hex_encoding, hex_decoding, hex_encode, hex_decode};
use crate::json::{
    entries_map, json_arr, json_array, json_clone, json_depth, json_entries, json_get, json_as_str,
    json_i64, json_obj, json_object, json_of, json_parse, json_pretty, json_str_of, json_string,
};
use crate::text::{ascii_string, ascii_view};

verus! {

/// The annotation that carries the config signature.
pub open spec fn sig_key() -> Seq<char> {
    "com.samsung.islet.image.signature"@
}

/// The annotation that carries the vendor public key.
pub open spec fn vendorpub_key() -> Seq<char> {
    "com.samsung.islet.image.vendorpub"@
}

/// The annotation that carries the CA's signature over the vendor key.
pub open spec fn vendorpub_sig_key() -> Seq<char> {
    "com.samsung.islet.image.vendorpub.signature"@
}

/// The lowercase hex characters of a byte string.
pub open spec fn hex_chars(bytes: Seq<u8>) -> Seq<char> {
    ascii_view(hex_encoding(bytes))
}

/// Finds the first blob with the given name.
fn find_blob_index(tree: &AppTree, algo: HashType, hex: &str) -> (r: Option<usize>)
    ensures
        match r {
            Some(i) => i < tree.blobs@.len() && tree.blobs@[i as int].algo == algo
                && tree.blobs@[i as int].hex@ == hex@ && blob_data(tree.blobs@, algo, hex@)
                == Some(tree.blobs@[i as int].data@) && (forall|j: int|
                0 <= j < i ==> !((#[trigger] tree.blobs@[j]).algo == algo && tree.blobs@[j].hex@
                    == hex@)),
            None => blob_data(tree.blobs@, algo, hex@) is None,
        },
{
    let mut k: usize = 0;
    proof {
        assert(tree.blobs@.skip(0) =~= tree.blobs@);
    }
    while k < tree.blobs.len()
        invariant
            k <= tree.blobs@.len(),
            blob_data(tree.blobs@.skip(k as int), algo, hex@) == blob_data(
                tree.blobs@,
                algo,
                hex@,
            ),
            forall|j: int|
                0 <= j < k ==> !((#[trigger] tree.blobs@[j]).algo == algo && tree.blobs@[j].hex@
                    == hex@),
        decreases tree.blobs@.len() - k,
    {
        proof {
            assert(tree.blobs@.skip(k as int)[0] == tree.blobs@[k as int]);
            assert(tree.blobs@.skip(k as int).drop_first() =~= tree.blobs@.skip(k as int + 1));
        }
        let b = &tree.blobs[k];
        let same_algo = match (b.algo, algo) {
            (HashType::Sha256, HashType::Sha256) => true,
            (HashType::Sha512, HashType::Sha512) => true,
            _ => false,
        };
        if same_algo && crate::text::str_eq(b.hex.as_str(), hex) {
            return Some(k);
        }
        k += 1;
    }
    proof {
        assert(tree.blobs@.skip(tree.blobs@.len() as int) =~= Seq::<BlobFile>::empty());
    }
    None
}

/// With distinct keys, the built object maps exactly what lookup finds.
pub proof fn lemma_entries_map_from_assoc(es: Seq<(String, serde_json::Value)>)
    requires
        keys_distinct(es),
    ensures
        forall|k2: Seq<char>|
            #![trigger assoc_find(es, k2)]
            (entries_map(es).dom().contains(k2) <==> assoc_find(es, k2) is Some) && (entries_map(
                es,
            ).dom().contains(k2) ==> entries_map(es)[k2] == assoc_find(es, k2).unwrap()),
    decreases es.len(),
{
    if es.len() == 0 {
        assert(entries_map(es) =~= Map::<Seq<char>, serde_json::Value>::empty());
        assert forall|k2: Seq<char>| #![trigger assoc_find(es, k2)] !(entries_map(
            es,
        ).dom().contains(k2)) && assoc_find(es, k2) is None by {}
    }
    if es.len() > 0 {
        assert(keys_distinct(es.drop_last())) by {
            assert forall|i: int, j: int|
                0 <= i < j < es.drop_last().len() implies es.drop_last()[i].0@
                != es.drop_last()[j].0@ by {
                assert(es.drop_last()[i] == es[i] && es.drop_last()[j] == es[j]);
            }
        }
        lemma_entries_map_from_assoc(es.drop_last());
        assert(es =~= es.drop_last().push(es.last()));
        assert forall|k2: Seq<char>| #![trigger assoc_find(es, k2)] true implies (entries_map(
            es,
        ).dom().contains(k2) <==> assoc_find(es, k2) is Some) && (entries_map(es).dom().contains(
            k2,
        ) ==> entries_map(es)[k2] == assoc_find(es, k2).unwrap()) by {
            lemma_assoc_find_push_any(es.drop_last(), es.last(), k2);
            assert(entries_map(es) == entries_map(es.drop_last()).insert(
                es.last().0@,
                es.last().1,
            ));
            if k2 == es.last().0@ {
                if assoc_find(es.drop_last(), k2) is Some {
                    assert(entries_map(es.drop_last()).dom().contains(k2));
                    crate::docs::lemma_entries_map_complete(es.drop_last());
                    let i = choose|i: int|
                        0 <= i < es.drop_last().len() && #[trigger] es.drop_last()[i].0@ == k2;
                    assert(es.drop_last()[i] == es[i]);
                    assert(es[i].0@ == es[es.len() - 1].0@);
                    assert(false);
                }
                assert(assoc_find(es, k2) == Some(es.last().1));
                assert(entries_map(es)[k2] == es.last().1);
            } else {
                assert(entries_map(es).dom().contains(k2) <==> entries_map(
                    es.drop_last(),
                ).dom().contains(k2));
                assert(entries_map(es.drop_last()).dom().contains(k2) <==> assoc_find(
                    es.drop_last(),
                    k2,
                ) is Some);
                if entries_map(es.drop_last()).dom().contains(k2) {
                    assert(entries_map(es)[k2] == entries_map(es.drop_last())[k2]);
                    assert(entries_map(es.drop_last())[k2] == assoc_find(
                        es.drop_last(),
                        k2,
                    ).unwrap());
                    assert(assoc_find(es, k2) == assoc_find(es.drop_last(), k2));
                }
            }
        }
    }
}

/// An upsert whose new value obeys a depth bound keeps the bound, because
/// every final entry is an old entry or the new pair.
pub proof fn lemma_upsert_depth(
    olds: Seq<(String, serde_json::Value)>,
    news: Seq<(String, serde_json::Value)>,
    d: nat,
)
    requires
        crate::json::entries_depth_le(olds, d),
        forall|j: int|
            0 <= j < news.len() ==> crate::json::json_depth((#[trigger] news[j]).1) <= d || (
            exists|i: int| #![auto] 0 <= i < olds.len() && olds[i] == news[j]),
    ensures
        crate::json::entries_depth_le(news, d),
{
    assert forall|j: int| 0 <= j < news.len() implies crate::json::json_depth(
        (#[trigger] news[j]).1,
    ) <= d by {
        if !(crate::json::json_depth(news[j].1) <= d) {
            let i = choose|i: int| #![auto] 0 <= i < olds.len() && olds[i] == news[j];
        }
    }
}

/// After an upsert on distinct-keyed entries, the built object is the old
/// one with the key bound to the new value.
pub proof fn lemma_upsert_entries_map(
    olds: Seq<(String, serde_json::Value)>,
    news: Seq<(String, serde_json::Value)>,
    key: Seq<char>,
    val: serde_json::Value,
)
    requires
        keys_distinct(olds),
        keys_distinct(news),
        assoc_find(news, key) == Some(val),
        forall|k2: Seq<char>|
            k2 != key ==> #[trigger] assoc_find(news, k2) == assoc_find(olds, k2),
    ensures
        entries_map(news) =~= entries_map(olds).insert(key, val),
{
    lemma_entries_map_from_assoc(olds);
    lemma_entries_map_from_assoc(news);
    let mn = entries_map(news);
    let mi = entries_map(olds).insert(key, val);
    assert forall|k2: Seq<char>| #![auto] mn.dom().contains(k2) <==> mi.dom().contains(k2) by {
        let a = assoc_find(news, k2);
        let b = assoc_find(olds, k2);
        if k2 != key {
            assert(a == b);
        }
    }
    assert forall|k2: Seq<char>| mn.dom().contains(k2) implies #[trigger] mn[k2] == mi[k2] by {
        let a = assoc_find(news, k2);
        let b = assoc_find(olds, k2);
        if k2 != key {
            assert(a == b);
        }
    }
    assert(mn =~= mi);
}

/// Decodes a lowercase hex string to bytes; `None` when the string is not
/// ASCII or not valid hex.
pub open spec fn spec_hex_str_bytes(s: Seq<char>) -> Option<Seq<u8>> {
    if all_chars_ascii(s) {
        hex_decoding(char_bytes(s))
    } else {
        None
    }
}

/// Decodes a hex string.
pub fn hex_str_bytes(s: &str) -> (r: Option<Vec<u8>>)
    ensures
        match r {
            Some(v) => spec_hex_str_bytes(s@) == Some(v@),
            None => spec_hex_str_bytes(s@) is None,
        },
{
    let bytes = match chars_to_bytes(s) {
        Some(b) => b,
        None => {
            return None;
        }
    };
    hex_decode(bytes.as_slice())
}

/// Encodes bytes as a lowercase hex string.
pub fn bytes_hex_string(bytes: &[u8]) -> (r: String)
    ensures
        r@ == hex_chars(bytes@),
{
    let e = hex_encode(bytes);
    proof {
        crate::hex::lemma_hex_encoding_digits(bytes@);
    }
    ascii_string(&e)
}

/// The last manifest digest a tag names in an index, scanning in order.
pub open spec fn spec_find_ref(manifests: Seq<DescriptorView>, reference: Seq<char>) -> Option<
    Seq<char>,
>
    decreases manifests.len(),
{
    if manifests.len() == 0 {
        None
    } else {
        match spec_find_ref(manifests.drop_last(), reference) {
            Some(d) => if manifests.last().ref_name == Some(reference) {
                Some(manifests.last().digest)
            } else {
                Some(d)
            },
            None => if manifests.last().ref_name == Some(reference) {
                Some(manifests.last().digest)
            } else {
                None
            },
        }
    }
}

/// Resolves a reference against the layout index: the digest of the last
/// descriptor tagged with it, or the reference itself when no tag matches.
pub fn find_manifest_by_reference(tree: &AppTree, reference: &str) -> (r: Result<
    String,
    SignerError,
>)
    ensures
        match r {
            Ok(d) => {
                &&& json_of(tree.index@) is Some
                &&& crate::docs::spec_image_index(json_of(tree.index@).unwrap()) is Some
                &&& d@ == (match spec_find_ref(
                    crate::docs::spec_image_index(json_of(tree.index@).unwrap()).unwrap().manifests,
                    reference@,
                ) {
                    Some(dg) => dg,
                    None => reference@,
                })
            },
            Err(_) => json_of(tree.index@) is None || crate::docs::spec_image_index(
                json_of(tree.index@).unwrap(),
            ) is None,
        },
{
    let v = match json_parse(tree.index.as_slice()) {
        Some(v) => v,
        None => {
            return Err(SignerError::OciRegistry(String::from_str("cannot parse index")));
        }
    };
    let index = match parse_image_index(&v) {
        Ok(doc) => doc,
        Err(_) => {
            return Err(SignerError::OciRegistry(String::from_str("cannot read index")));
        }
    };
    let mut found: Option<String> = None;
    let mut k: usize = 0;
    let ghost ms = index@.manifests;
    proof {
        assert(ms.take(0) =~= Seq::<DescriptorView>::empty());
    }
    while k < index.manifests.len()
        invariant
            k <= index.manifests@.len(),
            ms == index@.manifests,
            ms.len() == index.manifests@.len(),
            forall|i: int| 0 <= i < ms.len() ==> ms[i] == index.manifests@[i]@,
            match found {
                Some(d) => spec_find_ref(ms.take(k as int), reference@) == Some(d@),
                None => spec_find_ref(ms.take(k as int), reference@) is None,
            },
        decreases index.manifests@.len() - k,
    {
        proof {
            assert(ms.take(k as int + 1).drop_last() =~= ms.take(k as int));
            assert(ms.take(k as int + 1).last() == ms[k as int]);
        }
        match &index.manifests[k].ref_name {
            Some(name) => {
                if crate::text::str_eq(name.as_str(), reference) {
                    found = Some(index.manifests[k].digest.clone());
                }
            }
            None => {}
        }
        k += 1;
    }
    proof {
        assert(ms.take(ms.len() as int) =~= ms);
    }
    match found {
        Some(d) => Ok(d),
        None => Ok(String::from_str(reference)),
    }
}

/// Checks that the CA endorsed the vendor key: the CA public key verifies
/// the given signature over the vendor private key's public half.
pub fn verify_vendor_pub_signature(
    vendor_prv: &[u8],
    vendor_pub_signature: &[u8],
    ca_pub: &[u8],
) -> (r: Result<(), SignerError>)
    ensures
        r is Ok <==> (sec1_parses(vendor_prv@) && ecdsa_p384_verifies(
            ca_pub@,
            public_of_private(vendor_prv@),
            vendor_pub_signature@,
        )),
{
    let v_pub = match crate::crypto::extract_public(vendor_prv) {
        Ok(p) => p,
        Err(e) => {
            return Err(e);
        }
    };
    if crate::crypto::verify(ca_pub, v_pub.as_slice(), vendor_pub_signature) {
        Ok(())
    } else {
        Err(SignerError::Crypto(String::from_str("vendor pub signature verification failed")))
    }
}

/// Endorses the vendor key with the CA private key: signs the vendor public
/// key, so that the signature verifies under the CA public key.
pub fn sign_vendor_pub(vendor_prv: &[u8], ca_prv: &[u8]) -> (r: Result<Vec<u8>, SignerError>)
    ensures
        r is Ok <==> (sec1_parses(vendor_prv@) && sec1_parses(ca_prv@)
            && crate::crypto::ecdsa_p384_sign_ok(ca_prv@, public_of_private(vendor_prv@))),
        r is Ok ==> {
            &&& r.unwrap()@ == ecdsa_p384_sign(ca_prv@, public_of_private(vendor_prv@))
            &&& ecdsa_p384_verifies(
                public_of_private(ca_prv@),
                public_of_private(vendor_prv@),
                r.unwrap()@,
            )
        },
{
    let v_pub = match crate::crypto::extract_public(vendor_prv) {
        Ok(p) => p,
        Err(e) => {
            return Err(e);
        }
    };
    crate::crypto::sign(ca_prv, v_pub.as_slice())
}


/// The three signing annotations of an `annotations` object carry the hex
/// of the given signature, public key, and endorsement bytes.
pub open spec fn annotations_carry(
    av: serde_json::Value,
    sigb: Seq<u8>,
    vpubb: Seq<u8>,
    vsigb: Seq<u8>,
) -> bool {
    &&& json_obj(av) is Some
    &&& json_obj(av).unwrap().dom().contains(sig_key())
    &&& json_str_of(json_obj(av).unwrap()[sig_key()]) == Some(hex_chars(sigb))
    &&& json_obj(av).unwrap().dom().contains(vendorpub_key())
    &&& json_str_of(json_obj(av).unwrap()[vendorpub_key()]) == Some(hex_chars(vpubb))
    &&& json_obj(av).unwrap().dom().contains(vendorpub_sig_key())
    &&& json_str_of(json_obj(av).unwrap()[vendorpub_sig_key()]) == Some(hex_chars(vsigb))
}

/// The annotations carry the config signature under the vendor key, the
/// vendor public key, and the CA's signature over that key.
pub open spec fn annotations_signed(
    av: serde_json::Value,
    config: Seq<u8>,
    prv: Seq<u8>,
    vsig: Seq<u8>,
) -> bool {
    annotations_carry(av, ecdsa_p384_sign(prv, config), public_of_private(prv), vsig)
}

/// The new manifest is the old one with the signing annotations written:
/// its annotations carry the three given byte strings in hex, and every
/// other member is untouched.
pub open spec fn manifest_carries(
    old_v: serde_json::Value,
    new_v: serde_json::Value,
    sigb: Seq<u8>,
    vpubb: Seq<u8>,
    vsigb: Seq<u8>,
) -> bool {
    &&& json_obj(old_v) is Some
    &&& json_obj(new_v) is Some
    &&& json_obj(new_v).unwrap().dom().contains("annotations"@)
    &&& annotations_carry(json_obj(new_v).unwrap()["annotations"@], sigb, vpubb, vsigb)
    &&& forall|k: Seq<char>|
        k != "annotations"@ ==> (#[trigger] json_obj(new_v).unwrap().dom().contains(k)
            <==> json_obj(old_v).unwrap().dom().contains(k))
    &&& forall|k: Seq<char>|
        k != "annotations"@ && json_obj(old_v).unwrap().dom().contains(k)
            ==> #[trigger] json_obj(new_v).unwrap()[k] == json_obj(old_v).unwrap()[k]
}

/// `manifest_carries` for a config signed under the vendor key.
pub open spec fn manifest_signed(
    old_v: serde_json::Value,
    new_v: serde_json::Value,
    config: Seq<u8>,
    prv: Seq<u8>,
    vsig: Seq<u8>,
) -> bool {
    manifest_carries(old_v, new_v, ecdsa_p384_sign(prv, config), public_of_private(prv), vsig)
}

/// The deterministic inputs on which rewriting a manifest's annotations
/// succeeds: the digest parses, the manifest blob exists and is a JSON
/// object with a well-formed config descriptor whose digest parses and whose
/// blob exists, and the `annotations` member, when present, is an object.
pub open spec fn sign_config_pre(blobs: Seq<BlobFile>, digestc: Seq<char>) -> bool {
    &&& parse_digest_chars(digestc) is Some
    &&& {
        let t = parse_digest_chars(digestc).unwrap().0;
        let h = parse_digest_chars(digestc).unwrap().1;
        &&& blob_data(blobs, t, h) is Some
        &&& json_of(blob_data(blobs, t, h).unwrap()) is Some
        &&& {
            let mv = json_of(blob_data(blobs, t, h).unwrap()).unwrap();
            &&& manifest_config_view(mv) is Some
            &&& parse_digest_chars(manifest_config_view(mv).unwrap().digest) is Some
            &&& {
                let ct = parse_digest_chars(manifest_config_view(mv).unwrap().digest).unwrap().0;
                let ch = parse_digest_chars(manifest_config_view(mv).unwrap().digest).unwrap().1;
                &&& blob_data(blobs, ct, ch) is Some
                &&& (json_obj(mv).unwrap().dom().contains("annotations"@) ==> json_obj(
                    json_obj(mv).unwrap()["annotations"@],
                ) is Some)
            }
        }
    }
}

/// The config descriptor of a manifest value, if it has one.
pub open spec fn manifest_config_view(mv: serde_json::Value) -> Option<DescriptorView> {
    if json_obj(mv) is Some && json_obj(mv).unwrap().dom().contains("config"@) && spec_descriptor(
        json_obj(mv).unwrap()["config"@],
    ) is Some {
        Some(spec_descriptor(json_obj(mv).unwrap()["config"@]).unwrap())
    } else {
        None
    }
}

/// What signing a config did to the blob store: the manifest at the given
/// digest was a JSON document with a config descriptor whose blob exists;
/// the vendor key parsed and its signature over the config bytes verifies;
/// the manifest blob now holds the pretty print of the old manifest with the
/// signing annotations, and every other blob is untouched.
pub open spec fn sign_config_post(
    olds: Seq<BlobFile>,
    news: Seq<BlobFile>,
    digestc: Seq<char>,
    prv: Seq<u8>,
    vsig: Seq<u8>,
) -> bool {
    &&& parse_digest_chars(digestc) is Some
    &&& sec1_parses(prv)
    &&& {
        let t = parse_digest_chars(digestc).unwrap().0;
        let h = parse_digest_chars(digestc).unwrap().1;
        &&& blob_data(olds, t, h) is Some
        &&& json_of(blob_data(olds, t, h).unwrap()) is Some
        &&& {
            let mv = json_of(blob_data(olds, t, h).unwrap()).unwrap();
            &&& manifest_config_view(mv) is Some
            &&& parse_digest_chars(manifest_config_view(mv).unwrap().digest) is Some
            &&& {
                let ct = parse_digest_chars(manifest_config_view(mv).unwrap().digest).unwrap().0;
                let ch = parse_digest_chars(manifest_config_view(mv).unwrap().digest).unwrap().1;
                &&& blob_data(olds, ct, ch) is Some
                &&& {
                    let cb = blob_data(olds, ct, ch).unwrap();
                    &&& ecdsa_p384_verifies(public_of_private(prv), cb, ecdsa_p384_sign(prv, cb))
                    &&& blob_data(news, t, h) is Some
                    &&& json_of(blob_data(news, t, h).unwrap()) is Some
                    &&& manifest_signed(
                        mv,
                        json_of(blob_data(news, t, h).unwrap()).unwrap(),
                        cb,
                        prv,
                        vsig,
                    )
                    &&& (!(t == ct && h == ch) ==> blob_data(news, ct, ch) == Some(cb))
                    &&& forall|t2: HashType, h2: Seq<char>|
                        !(t2 == t && h2 == h) ==> #[trigger] blob_data(news, t2, h2) == blob_data(
                            olds,
                            t2,
                            h2,
                        )
                }
            }
        }
    }
}

/// Replacing the data of the first blob under a name changes that name's
/// data and no other name's.
proof fn lemma_blob_data_update(
    olds: Seq<BlobFile>,
    news: Seq<BlobFile>,
    i: int,
    t: HashType,
    h: Seq<char>,
)
    requires
        0 <= i < olds.len(),
        news.len() == olds.len(),
        forall|j: int| 0 <= j < olds.len() && j != i ==> news[j] == olds[j],
        olds[i].algo == t && olds[i].hex@ == h,
        news[i].algo == t && news[i].hex@ == h,
        forall|j: int| 0 <= j < i ==> !((#[trigger] olds[j]).algo == t && olds[j].hex@ == h),
    ensures
        blob_data(news, t, h) == Some(news[i].data@),
        forall|t2: HashType, h2: Seq<char>|
            !(t2 == t && h2 == h) ==> #[trigger] blob_data(news, t2, h2) == blob_data(
                olds,
                t2,
                h2,
            ),
    decreases olds.len(),
{
    if i == 0 {
        assert forall|t2: HashType, h2: Seq<char>| !(t2 == t && h2 == h) implies #[trigger] blob_data(
            news,
            t2,
            h2,
        ) == blob_data(olds, t2, h2) by {
            assert(news.drop_first() =~= olds.drop_first());
        }
    } else {
        assert(news[0] == olds[0]);
        assert(news.drop_first().len() == olds.drop_first().len());
        assert forall|j: int|
            0 <= j < olds.drop_first().len() && j != i - 1 implies news.drop_first()[j]
            == olds.drop_first()[j] by {
            assert(news.drop_first()[j] == news[j + 1] && olds.drop_first()[j] == olds[j + 1]);
        }
        assert forall|j: int|
            0 <= j < i - 1 implies !((#[trigger] olds.drop_first()[j]).algo == t
            && olds.drop_first()[j].hex@ == h) by {
            assert(olds.drop_first()[j] == olds[j + 1]);
        }
        assert(olds.drop_first()[i - 1] == olds[i] && news.drop_first()[i - 1] == news[i]);
        lemma_blob_data_update(olds.drop_first(), news.drop_first(), i - 1, t, h);
        assert(!(olds[0].algo == t && olds[0].hex@ == h));
        assert forall|t2: HashType, h2: Seq<char>|
            !(t2 == t && h2 == h) implies #[trigger] blob_data(news, t2, h2) == blob_data(
            olds,
            t2,
            h2,
        ) by {
            assert(blob_data(news.drop_first(), t2, h2) == blob_data(olds.drop_first(), t2, h2));
        }
    }
}

/// The hex round trip at string level: the hex characters of a byte string
/// decode back to it.
pub proof fn lemma_hex_chars_round_trip(b: Seq<u8>)
    ensures
        spec_hex_str_bytes(hex_chars(b)) == Some(b),
{
    crate::hex::lemma_hex_encoding_digits(b);
    let e = hex_encoding(b);
    let chars = ascii_view(e);
    assert(all_chars_ascii(chars)) by {
        assert forall|i: int| 0 <= i < chars.len() implies #[trigger] chars[i] <= '\u{7f}' by {
            assert(chars[i] == e[i] as char);
            assert(e[i] < 128);
        }
    }
    assert(char_bytes(chars) =~= e) by {
        assert forall|i: int| 0 <= i < e.len() implies char_bytes(chars)[i] == e[i] by {
            assert(chars[i] == e[i] as char);
            assert(e[i] < 128);
        }
    }
    crate::hex::lemma_hex_round_trip(b);
}

/// The config blob bytes the manifest stored under `digestc` points at;
/// meaningful on trees fitting [`sign_config_pre`].
pub open spec fn config_bytes_of(blobs: Seq<BlobFile>, digestc: Seq<char>) -> Seq<u8>
    recommends
        sign_config_pre(blobs, digestc),
{
    let t = parse_digest_chars(digestc).unwrap().0;
    let h = parse_digest_chars(digestc).unwrap().1;
    let mv = json_of(blob_data(blobs, t, h).unwrap()).unwrap();
    let ct = parse_digest_chars(manifest_config_view(mv).unwrap().digest).unwrap().0;
    let ch = parse_digest_chars(manifest_config_view(mv).unwrap().digest).unwrap().1;
    blob_data(blobs, ct, ch).unwrap()
}

/// What rewriting the annotations did to the blob store, for the given raw
/// signature, vendor key and endorsement bytes: the manifest blob now holds
/// the pretty print of the old manifest carrying them, and every other blob
/// is untouched.
pub open spec fn sign_config_with_post(
    olds: Seq<BlobFile>,
    news: Seq<BlobFile>,
    digestc: Seq<char>,
    sigb: Seq<u8>,
    vpubb: Seq<u8>,
    vsigb: Seq<u8>,
) -> bool {
    &&& sign_config_pre(olds, digestc)
    &&& {
        let t = parse_digest_chars(digestc).unwrap().0;
        let h = parse_digest_chars(digestc).unwrap().1;
        let mv = json_of(blob_data(olds, t, h).unwrap()).unwrap();
        &&& blob_data(news, t, h) is Some
        &&& json_of(blob_data(news, t, h).unwrap()) is Some
        &&& manifest_carries(
            mv,
            json_of(blob_data(news, t, h).unwrap()).unwrap(),
            sigb,
            vpubb,
            vsigb,
        )
        &&& forall|t2: HashType, h2: Seq<char>|
            !(t2 == t && h2 == h) ==> #[trigger] blob_data(news, t2, h2) == blob_data(
                olds,
                t2,
                h2,
            )
    }
}

/// Writes the three signing annotations, given as raw bytes, into the
/// manifest stored under `digest`, pretty-printed in place. Everything here
/// is a function of the tree and the given bytes, so it succeeds exactly on
/// the inputs [`sign_config_pre`] describes.
pub fn sign_config_with(
    tree: &mut AppTree,
    digest: &str,
    config_sig: &[u8],
    vendor_pub: &[u8],
    vendor_pub_signature: &[u8],
) -> (r: Result<(), SignerError>)
    ensures
        r is Ok <==> sign_config_pre(old(tree).blobs@, digest@),
        r is Err ==> final(tree).blobs@ == old(tree).blobs@,
        r is Ok ==> sign_config_with_post(
            old(tree).blobs@,
            final(tree).blobs@,
            digest@,
            config_sig@,
            vendor_pub@,
            vendor_pub_signature@,
        ),
        final(tree).index@ == old(tree).index@,
{
    let d = match Digest::parse(digest) {
        Ok(d) => d,
        Err(_) => {
            return Err(SignerError::OciRegistry(String::from_str("bad digest")));
        }
    };
    let mi = match find_blob_index(tree, d.algo, d.value()) {
        Some(i) => i,
        None => {
            return Err(SignerError::OciRegistry(String::from_str("manifest not found")));
        }
    };
    let manifest_bytes = vstd::slice::slice_to_vec(tree.blobs[mi].data.as_slice());
    let mv = match json_parse(manifest_bytes.as_slice()) {
        Some(v) => v,
        None => {
            return Err(SignerError::OciRegistry(String::from_str("cannot parse manifest")));
        }
    };
    let config_desc = match json_get(&mv, "config") {
        Some(cv) => match parse_descriptor(cv) {
            Ok(dsc) => dsc,
            Err(_) => {
                return Err(SignerError::OciRegistry(String::from_str("bad config descriptor")));
            }
        },
        None => {
            return Err(SignerError::OciRegistry(String::from_str("manifest lacks config")));
        }
    };
    let cd = match Digest::parse(config_desc.digest.as_str()) {
        Ok(cd) => cd,
        Err(_) => {
            return Err(SignerError::OciRegistry(String::from_str("bad config digest")));
        }
    };
    let ci = match find_blob_index(tree, cd.algo, cd.value()) {
        Some(i) => i,
        None => {
            return Err(SignerError::OciRegistry(String::from_str("config not found")));
        }
    };
    let mut mentries = match json_entries(&mv) {
        Some(es) => es,
        None => {
            return Err(SignerError::OciRegistry(String::from_str("manifest not an object")));
        }
    };
    let mut aentries: Vec<(String, serde_json::Value)> = match json_get(&mv, "annotations") {
        Some(av) => match json_entries(av) {
            Some(es) => es,
            None => {
                return Err(
                    SignerError::OciRegistry(String::from_str("annotations not an object")),
                );
            }
        },
        None => Vec::new(),
    };
    proof {
        assert(crate::json::json_depth(mv) <= 127);
        assert(crate::json::entries_depth_le(aentries@, 125));
        assert(crate::json::entries_depth_le(mentries@, 126));
    }
    proof {
        reveal_strlit("com.samsung.islet.image.signature");
        reveal_strlit("com.samsung.islet.image.vendorpub");
        reveal_strlit("com.samsung.islet.image.vendorpub.signature");
        assert(sig_key() != vendorpub_key()) by {
            assert(sig_key()[24] == 's' && vendorpub_key()[24] == 'v');
        }
        assert(sig_key() != vendorpub_sig_key() && vendorpub_key() != vendorpub_sig_key()) by {
            assert(sig_key().len() == 33 && vendorpub_key().len() == 33 && vendorpub_sig_key().len()
                == 43);
        }
    }
    let ghost a0 = aentries@;
    let sig_hex = bytes_hex_string(config_sig);
    let sig_val = json_string(sig_hex.as_str());
    let ghost sig_val_g = sig_val;
    upsert(&mut aentries, String::from_str("com.samsung.islet.image.signature"), sig_val);
    proof {
        lemma_upsert_entries_map(a0, aentries@, sig_key(), sig_val_g);
        lemma_upsert_depth(a0, aentries@, 125);
    }
    let ghost a1 = aentries@;
    let vpub_hex = bytes_hex_string(vendor_pub);
    let vpub_val = json_string(vpub_hex.as_str());
    let ghost vpub_val_g = vpub_val;
    upsert(&mut aentries, String::from_str("com.samsung.islet.image.vendorpub"), vpub_val);
    proof {
        lemma_upsert_entries_map(a1, aentries@, vendorpub_key(), vpub_val_g);
        lemma_upsert_depth(a1, aentries@, 125);
    }
    let ghost a2 = aentries@;
    let vsig_hex = bytes_hex_string(vendor_pub_signature);
    let vsig_val = json_string(vsig_hex.as_str());
    let ghost vsig_val_g = vsig_val;
    upsert(
        &mut aentries,
        String::from_str("com.samsung.islet.image.vendorpub.signature"),
        vsig_val,
    );
    proof {
        lemma_upsert_entries_map(a2, aentries@, vendorpub_sig_key(), vsig_val_g);
        lemma_upsert_depth(a2, aentries@, 125);
    }
    let ghost a3 = aentries@;
    let new_ann = json_object(aentries);
    let ghost new_ann_g = new_ann;
    proof {
        assert(annotations_carry(new_ann_g, config_sig@, vendor_pub@, vendor_pub_signature@)) by {
            let am = json_obj(new_ann_g).unwrap();
            assert(am == entries_map(a2).insert(vendorpub_sig_key(), vsig_val_g));
            assert(am[vendorpub_sig_key()] == vsig_val_g);
            assert(am[vendorpub_key()] == vpub_val_g);
            assert(am[sig_key()] == sig_val_g);
        }
    }
    proof {
        assert(crate::json::json_depth(new_ann_g) <= 126);
    }
    let ghost m0 = mentries@;
    upsert(&mut mentries, String::from_str("annotations"), new_ann);
    proof {
        lemma_upsert_entries_map(m0, mentries@, "annotations"@, new_ann_g);
        lemma_upsert_depth(m0, mentries@, 126);
    }
    let ghost m1 = mentries@;
    let new_mv = json_object(mentries);
    proof {
        assert(crate::json::json_depth(new_mv) <= 127);
    }
    let new_bytes = json_pretty(&new_mv);
    let ghost old_blobs = tree.blobs@;
    let new_blob = BlobFile { algo: d.algo, hex: tree.blobs[mi].hex.clone(), data: new_bytes };
    tree.blobs.set(mi, new_blob);
    proof {
        let t = parse_digest_chars(digest@).unwrap().0;
        let h = parse_digest_chars(digest@).unwrap().1;
        assert(t == d.algo && h == d.hash@);
        lemma_blob_data_update(old_blobs, tree.blobs@, mi as int, t, h);
        let mv_g = json_of(blob_data(old_blobs, t, h).unwrap()).unwrap();
        assert(mv_g == mv);
        assert(manifest_config_view(mv) is Some);
        assert(manifest_config_view(mv).unwrap().digest == config_desc.digest@);
        assert(manifest_carries(
            mv,
            new_mv,
            config_sig@,
            vendor_pub@,
            vendor_pub_signature@,
        )) by {
            let om = json_obj(mv).unwrap();
            let nm = json_obj(new_mv).unwrap();
            assert(nm == entries_map(m0).insert("annotations"@, new_ann_g));
            assert(om == entries_map(m0));
            assert(nm["annotations"@] == new_ann_g);
        }
        assert(blob_data(tree.blobs@, t, h) == Some(new_bytes@));
        assert(sign_config_with_post(
            old_blobs,
            tree.blobs@,
            digest@,
            config_sig@,
            vendor_pub@,
            vendor_pub_signature@,
        ));
    }
    Ok(())
}

/// Signs the config of the manifest stored under `digest` with the vendor
/// key and rewrites the manifest's annotations in place, pretty-printed.
/// Succeeds exactly when the tree fits [`sign_config_pre`], the vendor key
/// parses, and signing succeeds for it on the config bytes.
pub fn sign_config(
    tree: &mut AppTree,
    digest: &str,
    vendor_prv: &[u8],
    vendor_pub_signature: &[u8],
) -> (r: Result<(), SignerError>)
    ensures
        r is Ok <==> (sign_config_pre(old(tree).blobs@, digest@) && sec1_parses(vendor_prv@)
            && crate::crypto::ecdsa_p384_sign_ok(
            vendor_prv@,
            config_bytes_of(old(tree).blobs@, digest@),
        )),
        r is Ok ==> sign_config_post(
            old(tree).blobs@,
            final(tree).blobs@,
            digest@,
            vendor_prv@,
            vendor_pub_signature@,
        ),
        r is Err ==> final(tree).blobs@ == old(tree).blobs@,
        final(tree).index@ == old(tree).index@,
{
    let d = match Digest::parse(digest) {
        Ok(d) => d,
        Err(_) => {
            return Err(SignerError::OciRegistry(String::from_str("bad digest")));
        }
    };
    let mi = match find_blob_index(tree, d.algo, d.value()) {
        Some(i) => i,
        None => {
            return Err(SignerError::OciRegistry(String::from_str("manifest not found")));
        }
    };
    let manifest_bytes = vstd::slice::slice_to_vec(tree.blobs[mi].data.as_slice());
    let mv = match json_parse(manifest_bytes.as_slice()) {
        Some(v) => v,
        None => {
            return Err(SignerError::OciRegistry(String::from_str("cannot parse manifest")));
        }
    };
    let config_desc = match json_get(&mv, "config") {
        Some(cv) => match parse_descriptor(cv) {
            Ok(dsc) => dsc,
            Err(_) => {
                return Err(SignerError::OciRegistry(String::from_str("bad config descriptor")));
            }
        },
        None => {
            return Err(SignerError::OciRegistry(String::from_str("manifest lacks config")));
        }
    };
    let cd = match Digest::parse(config_desc.digest.as_str()) {
        Ok(cd) => cd,
        Err(_) => {
            return Err(SignerError::OciRegistry(String::from_str("bad config digest")));
        }
    };
    let ci = match find_blob_index(tree, cd.algo, cd.value()) {
        Some(i) => i,
        None => {
            return Err(SignerError::OciRegistry(String::from_str("config not found")));
        }
    };
    let config_bytes = vstd::slice::slice_to_vec(tree.blobs[ci].data.as_slice());
    proof {
        if sign_config_pre(tree.blobs@, digest@) {
            assert(config_bytes@ == config_bytes_of(tree.blobs@, digest@));
        }
    }
    let sig = match crate::crypto::sign(vendor_prv, config_bytes.as_slice()) {
        Ok(s) => s,
        Err(e) => {
            proof {
                if sign_config_pre(tree.blobs@, digest@) {
                    assert(!(sec1_parses(vendor_prv@) && crate::crypto::ecdsa_p384_sign_ok(
                        vendor_prv@,
                        config_bytes_of(tree.blobs@, digest@),
                    )));
                }
            }
            return Err(e);
        }
    };
    let vpub = match crate::crypto::extract_public(vendor_prv) {
        Ok(p) => p,
        Err(e) => {
            return Err(e);
        }
    };
    let r = sign_config_with(tree, digest, sig.as_slice(), vpub.as_slice(), vendor_pub_signature);
    proof {
        if r is Ok {
            let t = parse_digest_chars(digest@).unwrap().0;
            let h = parse_digest_chars(digest@).unwrap().1;
            let mv_g = json_of(blob_data(old(tree).blobs@, t, h).unwrap()).unwrap();
            let ct = parse_digest_chars(manifest_config_view(mv_g).unwrap().digest).unwrap().0;
            let ch = parse_digest_chars(manifest_config_view(mv_g).unwrap().digest).unwrap().1;
            assert(mv_g == mv);
            assert(ct == cd.algo && ch == cd.hash@);
            assert(config_bytes@ == blob_data(old(tree).blobs@, ct, ch).unwrap());
            assert(sig@ == ecdsa_p384_sign(vendor_prv@, config_bytes@));
            assert(vpub@ == public_of_private(vendor_prv@));
        }
    }
    r
}


/// What a successful image verification means: the manifest stored under the
/// digest is a JSON document whose config blob exists and matches its
/// declared digest; the three signing annotations decode from hex; the CA
/// public key verifies the vendor key's endorsement; and the vendor key
/// verifies the config signature.
pub open spec fn spec_verify_config(
    blobs: Seq<BlobFile>,
    digestc: Seq<char>,
    ca_pub: Seq<u8>,
) -> bool {
    &&& parse_digest_chars(digestc) is Some
    &&& {
        let t = parse_digest_chars(digestc).unwrap().0;
        let h = parse_digest_chars(digestc).unwrap().1;
        &&& blob_data(blobs, t, h) is Some
        &&& json_of(blob_data(blobs, t, h).unwrap()) is Some
        &&& {
            let mv = json_of(blob_data(blobs, t, h).unwrap()).unwrap();
            &&& manifest_config_view(mv) is Some
            &&& parse_digest_chars(manifest_config_view(mv).unwrap().digest) is Some
            &&& {
                let ct = parse_digest_chars(manifest_config_view(mv).unwrap().digest).unwrap().0;
                let ch = parse_digest_chars(manifest_config_view(mv).unwrap().digest).unwrap().1;
                &&& blob_data(blobs, ct, ch) is Some
                &&& {
                    let cb = blob_data(blobs, ct, ch).unwrap();
                    &&& matches_hash(ct, ch, cb)
                    &&& json_obj(mv).unwrap().dom().contains("annotations"@)
                    &&& {
                        let av = json_obj(mv).unwrap()["annotations"@];
                        &&& json_obj(av) is Some
                        &&& json_obj(av).unwrap().dom().contains(sig_key())
                        &&& json_str_of(json_obj(av).unwrap()[sig_key()]) is Some
                        &&& json_obj(av).unwrap().dom().contains(vendorpub_key())
                        &&& json_str_of(json_obj(av).unwrap()[vendorpub_key()]) is Some
                        &&& json_obj(av).unwrap().dom().contains(vendorpub_sig_key())
                        &&& json_str_of(json_obj(av).unwrap()[vendorpub_sig_key()]) is Some
                        &&& {
                            let sig_s = json_str_of(json_obj(av).unwrap()[sig_key()]).unwrap();
                            let vpub_s = json_str_of(
                                json_obj(av).unwrap()[vendorpub_key()],
                            ).unwrap();
                            let vsig_s = json_str_of(
                                json_obj(av).unwrap()[vendorpub_sig_key()],
                            ).unwrap();
                            &&& spec_hex_str_bytes(sig_s) is Some
                            &&& spec_hex_str_bytes(vpub_s) is Some
                            &&& spec_hex_str_bytes(vsig_s) is Some
                            &&& ecdsa_p384_verifies(
                                ca_pub,
                                spec_hex_str_bytes(vpub_s).unwrap(),
                                spec_hex_str_bytes(vsig_s).unwrap(),
                            )
                            &&& ecdsa_p384_verifies(
                                spec_hex_str_bytes(vpub_s).unwrap(),
                                cb,
                                spec_hex_str_bytes(sig_s).unwrap(),
                            )
                        }
                    }
                }
            }
        }
    }
}

/// Verifies the signing chain of the manifest stored under `digest`:
/// recomputes the config hash, decodes the three annotations, checks the
/// CA's endorsement of the vendor key and the vendor key's signature over
/// the config. Succeeds exactly when the whole chain holds.
pub fn verify_config(tree: &AppTree, digest: &str, ca_pub: &[u8]) -> (r: Result<(), SignerError>)
    ensures
        r is Ok <==> spec_verify_config(tree.blobs@, digest@, ca_pub@),
{
    proof {
        reveal_strlit("com.samsung.islet.image.signature");
        reveal_strlit("com.samsung.islet.image.vendorpub");
        reveal_strlit("com.samsung.islet.image.vendorpub.signature");
    }
    let d = match Digest::parse(digest) {
        Ok(d) => d,
        Err(_) => {
            return Err(SignerError::OciRegistry(String::from_str("bad digest")));
        }
    };
    let mi = match find_blob_index(tree, d.algo, d.value()) {
        Some(i) => i,
        None => {
            return Err(SignerError::OciRegistry(String::from_str("manifest not found")));
        }
    };
    let manifest_bytes = vstd::slice::slice_to_vec(tree.blobs[mi].data.as_slice());
    let mv = match json_parse(manifest_bytes.as_slice()) {
        Some(v) => v,
        None => {
            return Err(SignerError::OciRegistry(String::from_str("cannot parse manifest")));
        }
    };
    let config_desc = match json_get(&mv, "config") {
        Some(cv) => match parse_descriptor(cv) {
            Ok(dsc) => dsc,
            Err(_) => {
                return Err(SignerError::OciRegistry(String::from_str("bad config descriptor")));
            }
        },
        None => {
            return Err(SignerError::OciRegistry(String::from_str("manifest lacks config")));
        }
    };
    let cd = match Digest::parse(config_desc.digest.as_str()) {
        Ok(cd) => cd,
        Err(_) => {
            return Err(SignerError::OciRegistry(String::from_str("bad config digest")));
        }
    };
    let ci = match find_blob_index(tree, cd.algo, cd.value()) {
        Some(i) => i,
        None => {
            return Err(SignerError::OciRegistry(String::from_str("config not found")));
        }
    };
    let config_bytes = vstd::slice::slice_to_vec(tree.blobs[ci].data.as_slice());
    if !crate::hashing::verify(config_bytes.as_slice(), &cd) {
        return Err(SignerError::OciRegistry(String::from_str("config hash mismatch")));
    }
    let av = match json_get(&mv, "annotations") {
        Some(av) => av,
        None => {
            return Err(
                SignerError::OciRegistry(String::from_str("manifest does not contain annotations")),
            );
        }
    };
    let sig_s = match json_get(av, "com.samsung.islet.image.signature") {
        Some(sv) => match json_as_str(sv) {
            Some(s) => s,
            None => {
                return Err(SignerError::OciRegistry(String::from_str("bad signature annotation")));
            }
        },
        None => {
            return Err(SignerError::OciRegistry(String::from_str("missing signature annotation")));
        }
    };
    let vpub_s = match json_get(av, "com.samsung.islet.image.vendorpub") {
        Some(sv) => match json_as_str(sv) {
            Some(s) => s,
            None => {
                return Err(SignerError::OciRegistry(String::from_str("bad vendorpub annotation")));
            }
        },
        None => {
            return Err(SignerError::OciRegistry(String::from_str("missing vendorpub annotation")));
        }
    };
    let vsig_s = match json_get(av, "com.samsung.islet.image.vendorpub.signature") {
        Some(sv) => match json_as_str(sv) {
            Some(s) => s,
            None => {
                return Err(
                    SignerError::OciRegistry(String::from_str("bad vendorpub signature annotation")),
                );
            }
        },
        None => {
            return Err(
                SignerError::OciRegistry(
                    String::from_str("missing vendorpub signature annotation"),
                ),
            );
        }
    };
    let sig_b = match hex_str_bytes(sig_s.as_str()) {
        Some(b) => b,
        None => {
            return Err(SignerError::OciRegistry(String::from_str("bad signature hex")));
        }
    };
    let vpub_b = match hex_str_bytes(vpub_s.as_str()) {
        Some(b) => b,
        None => {
            return Err(SignerError::OciRegistry(String::from_str("bad vendorpub hex")));
        }
    };
    let vsig_b = match hex_str_bytes(vsig_s.as_str()) {
        Some(b) => b,
        None => {
            return Err(SignerError::OciRegistry(String::from_str("bad vendorpub signature hex")));
        }
    };
    if !crate::crypto::verify(ca_pub, vpub_b.as_slice(), vsig_b.as_slice()) {
        return Err(
            SignerError::OciRegistry(String::from_str("vendor pub signature verification failed")),
        );
    }
    if !crate::crypto::verify(vpub_b.as_slice(), config_bytes.as_slice(), sig_b.as_slice()) {
        return Err(
            SignerError::OciRegistry(String::from_str("config signature verification failed")),
        );
    }
    Ok(())
}

/// An entry was renamed in place: everything else is untouched, the entry
/// keeps its algorithm and bytes and carries the new hex name.
pub open spec fn renamed_entry(
    olds: Seq<BlobFile>,
    news: Seq<BlobFile>,
    i: int,
    newhex: Seq<char>,
) -> bool {
    &&& 0 <= i < olds.len()
    &&& news.len() == olds.len()
    &&& forall|j: int| 0 <= j < olds.len() && j != i ==> news[j] == olds[j]
    &&& news[i].algo == olds[i].algo
    &&& news[i].hex@ == newhex
    &&& news[i].data@ == olds[i].data@
}

/// What rehashing did: when the blob's hash still matches its name, nothing
/// changed; when it differs, exactly that blob was renamed to the new hex
/// name and the new canonical digest and the file's size came back.
pub open spec fn rehash_post(
    olds: Seq<BlobFile>,
    news: Seq<BlobFile>,
    digestc: Seq<char>,
    out: Option<(String, u64)>,
) -> bool {
    &&& parse_digest_chars(digestc) is Some
    &&& {
        let t = parse_digest_chars(digestc).unwrap().0;
        let h = parse_digest_chars(digestc).unwrap().1;
        &&& blob_data(olds, t, h) is Some
        &&& {
            let data = blob_data(olds, t, h).unwrap();
            let newhex = hex_chars(spec_hash(t, data));
            match out {
                None => newhex == h && news == olds,
                Some(pair) => {
                    &&& newhex != h
                    &&& pair.0@ == digest_chars(t, newhex)
                    &&& parse_digest_chars(pair.0@) == Some((t, newhex))
                    &&& pair.1 == data.len()
                    &&& pair.1 <= 0x7FFFFFFFFFFFFFFF
                    &&& exists|i: int| #![auto] renamed_entry(olds, news, i, newhex)
                },
            }
        }
    }
}

/// Recomputes the hash of the blob stored under `digest`; when it changed,
/// renames the blob file to the new hex name and returns the new canonical
/// digest string and the file's size.
pub fn rehash_rename_file(tree: &mut AppTree, digest: &str) -> (r: Result<
    Option<(String, u64)>,
    SignerError,
>)
    ensures
        final(tree).index@ == old(tree).index@,
        r is Ok <==> (parse_digest_chars(digest@) is Some && blob_data(
            old(tree).blobs@,
            parse_digest_chars(digest@).unwrap().0,
            parse_digest_chars(digest@).unwrap().1,
        ) is Some),
        r is Err ==> final(tree).blobs@ == old(tree).blobs@,
        match r {
            Ok(out) => rehash_post(old(tree).blobs@, final(tree).blobs@, digest@, out),
            Err(_) => true,
        },
{
    let d = match Digest::parse(digest) {
        Ok(d) => d,
        Err(_) => {
            return Err(SignerError::OciRegistry(String::from_str("bad digest")));
        }
    };
    let i = match find_blob_index(tree, d.algo, d.value()) {
        Some(i) => i,
        None => {
            return Err(SignerError::OciRegistry(String::from_str("file not found")));
        }
    };
    let hash = hash_reader(d.algo, tree.blobs[i].data.as_slice());
    let newhex = bytes_hex_string(hash.as_slice());
    if crate::text::str_eq(newhex.as_str(), d.value()) {
        proof {
            assert(rehash_post(tree.blobs@, tree.blobs@, digest@, None::<(String, u64)>));
        }
        return Ok(None);
    }
    let len = crate::text::byte_vec_len(&tree.blobs[i].data);
    let new_digest = Digest::new_unchecked(d.algo, newhex.clone());
    let ds = new_digest.to_string();
    let data = vstd::slice::slice_to_vec(tree.blobs[i].data.as_slice());
    let new_blob = BlobFile { algo: d.algo, hex: newhex, data };
    let ghost old_blobs = tree.blobs@;
    let ghost out_pair = (ds, len);
    tree.blobs.set(i, new_blob);
    proof {
        let t = parse_digest_chars(digest@).unwrap().0;
        let h = parse_digest_chars(digest@).unwrap().1;
        let gdata = blob_data(old_blobs, t, h).unwrap();
        assert(t == d.algo && h == d.hash@);
        assert(gdata == old_blobs[i as int].data@);
        assert(hash@ == spec_hash(t, gdata));
        assert(tree.blobs@[i as int].hex@ == hex_chars(spec_hash(t, gdata)));
        assert(out_pair.0@ == digest_chars(t, tree.blobs@[i as int].hex@));
        assert(out_pair.1 == gdata.len());
        assert(crate::digest::valid_hash_chars(t, tree.blobs@[i as int].hex@)) by {
            crate::hex::lemma_hex_encoding_digits(hash@);
            assert forall|j: int|
                0 <= j < tree.blobs@[i as int].hex@.len() implies crate::digest::is_hex_digit_char(
                #[trigger] tree.blobs@[i as int].hex@[j],
            ) by {
                assert(tree.blobs@[i as int].hex@[j] == hex_encoding(hash@)[j] as char);
                assert(crate::hex::is_hex_digit_byte(hex_encoding(hash@)[j]));
            }
        }
        crate::digest::lemma_digest_chars_parse(t, tree.blobs@[i as int].hex@);
        assert(renamed_entry(old_blobs, tree.blobs@, i as int, tree.blobs@[i as int].hex@));
        assert(rehash_post(old_blobs, tree.blobs@, digest@, Some(out_pair)));
    }
    Ok(Some((ds, len)))
}

/// One descriptor survived the rewrite: it is unchanged, or it is the old
/// object with only its `digest` and `size` members replaced.
pub open spec fn item_rewritten(oi: serde_json::Value, ni: serde_json::Value) -> bool {
    ||| ni == oi
    ||| ({
        &&& json_obj(oi) is Some
        &&& json_obj(ni) is Some
        &&& json_obj(ni).unwrap().dom().contains("digest"@)
        &&& json_str_of(json_obj(ni).unwrap()["digest"@]) is Some
        &&& json_obj(ni).unwrap().dom().contains("size"@)
        &&& forall|k: Seq<char>|
            k != "digest"@ && k != "size"@ ==> ((#[trigger] json_obj(ni).unwrap().dom().contains(k)
                <==> json_obj(oi).unwrap().dom().contains(k)) && (json_obj(
                oi,
            ).unwrap().dom().contains(k) ==> json_obj(ni).unwrap()[k] == json_obj(oi).unwrap()[k]))
    })
}

/// A manifest descriptor that named the old digest now names the new one
/// with the new size.
pub open spec fn item_redirects_manifest(
    oi: serde_json::Value,
    ni: serde_json::Value,
    from: Seq<char>,
    to: Seq<char>,
    len: u64,
) -> bool {
    (json_obj(oi) is Some && json_obj(oi).unwrap().dom().contains("mediaType"@) && json_str_of(
        json_obj(oi).unwrap()["mediaType"@],
    ) == Some(crate::mediatype::media_type_chars(crate::mediatype::MediaType::ImageManifest))
        && json_obj(oi).unwrap().dom().contains("digest"@) && json_str_of(
        json_obj(oi).unwrap()["digest"@],
    ) == Some(from)) ==> (json_obj(ni) is Some && json_obj(ni).unwrap().dom().contains("digest"@)
        && json_str_of(json_obj(ni).unwrap()["digest"@]) == Some(to) && json_obj(
        ni,
    ).unwrap().dom().contains("size"@) && crate::json::json_i64_of(json_obj(ni).unwrap()["size"@])
        == Some(len as i64))
}

/// The new index bytes against the old: either unchanged, or the same
/// object with its `manifests` array rewritten item by item — every
/// descriptor keeps its other members, and every manifest descriptor that
/// named the old digest now names the new one with the new size.
pub open spec fn index_rewritten(
    ob: Seq<u8>,
    nb: Seq<u8>,
    from: Seq<char>,
    to: Seq<char>,
    len: u64,
) -> bool {
    ||| nb == ob
    ||| ({
        &&& json_of(ob) is Some
        &&& json_of(nb) is Some
        &&& {
            let ov = json_of(ob).unwrap();
            let nv = json_of(nb).unwrap();
            &&& json_obj(ov) is Some
            &&& json_obj(nv) is Some
            &&& json_obj(ov).unwrap().dom().contains("manifests"@)
            &&& json_obj(nv).unwrap().dom().contains("manifests"@)
            &&& json_arr(json_obj(ov).unwrap()["manifests"@]) is Some
            &&& json_arr(json_obj(nv).unwrap()["manifests"@]) is Some
            &&& {
                let oa = json_arr(json_obj(ov).unwrap()["manifests"@]).unwrap();
                let na = json_arr(json_obj(nv).unwrap()["manifests"@]).unwrap();
                &&& na.len() == oa.len()
                &&& forall|i: int|
                    0 <= i < oa.len() ==> item_rewritten(#[trigger] oa[i], na[i])
                        && item_redirects_manifest(oa[i], na[i], from, to, len)
            }
            &&& forall|k: Seq<char>|
                k != "manifests"@ ==> ((#[trigger] json_obj(nv).unwrap().dom().contains(k)
                    <==> json_obj(ov).unwrap().dom().contains(k)) && (json_obj(
                    ov,
                ).unwrap().dom().contains(k) ==> json_obj(nv).unwrap()[k] == json_obj(
                    ov,
                ).unwrap()[k]))
        }
    })
}

/// A flat index: it parses as an object with a `manifests` array and no
/// item is a descriptor of another index. Rewriting such an index touches
/// no blob and cannot fail once the new size fits a signed 64-bit integer.
pub open spec fn flat_index_shape(bytes: Seq<u8>) -> bool {
    &&& json_of(bytes) is Some
    &&& json_obj(json_of(bytes).unwrap()) is Some
    &&& json_obj(json_of(bytes).unwrap()).unwrap().dom().contains("manifests"@)
    &&& json_arr(json_obj(json_of(bytes).unwrap()).unwrap()["manifests"@]) is Some
    &&& forall|i: int|
        0 <= i < json_arr(
            json_obj(json_of(bytes).unwrap()).unwrap()["manifests"@],
        ).unwrap().len() ==> !item_names_index(
            #[trigger] json_arr(json_obj(json_of(bytes).unwrap()).unwrap()["manifests"@]).unwrap()[i],
        )
}

/// A flat index whose new size also fits a signed 64-bit integer.
pub open spec fn flat_index_ok(bytes: Seq<u8>, signed_len: u64) -> bool {
    &&& signed_len <= 0x7FFFFFFFFFFFFFFF
    &&& flat_index_shape(bytes)
}

/// Whether a descriptor names a nested index.
pub open spec fn item_names_index(item: serde_json::Value) -> bool {
    &&& json_obj(item) is Some
    &&& json_obj(item).unwrap().dom().contains("mediaType"@)
    &&& json_str_of(json_obj(item).unwrap()["mediaType"@]) == Some(
        crate::mediatype::media_type_chars(crate::mediatype::MediaType::ImageIndex),
    )
}

/// Rewrites one descriptor list: a manifest descriptor naming `signed_from`
/// gets the new digest and size; nested index descriptors are rewritten
/// recursively through the blob store.
fn replace_hash_index_inner(
    tree: &mut AppTree,
    source: Option<&str>,
    signed_from: &str,
    signed_to: &str,
    signed_len: u64,
    fuel: usize,
) -> (r: Result<Option<(String, u64)>, SignerError>)
    ensures
        source is Some ==> final(tree).index@ == old(tree).index@,
        source is None && r is Ok ==> json_of(final(tree).index@) is Some,
        source is None && r is Ok ==> index_rewritten(
            old(tree).index@,
            final(tree).index@,
            signed_from@,
            signed_to@,
            signed_len,
        ),
        source is None && flat_index_ok(old(tree).index@, signed_len) ==> r is Ok,
        source is None && flat_index_shape(old(tree).index@) ==> final(tree).blobs@ == old(
            tree,
        ).blobs@,
        r is Ok && r.unwrap() is Some ==> parse_digest_chars(r.unwrap().unwrap().0@) is Some,
    decreases fuel,
{
    let bytes: Vec<u8> = match source {
        None => vstd::slice::slice_to_vec(tree.index.as_slice()),
        Some(dg) => {
            let d = match Digest::parse(dg) {
                Ok(d) => d,
                Err(_) => {
                    return Err(SignerError::OciRegistry(String::from_str("bad digest")));
                }
            };
            match find_blob_index(tree, d.algo, d.value()) {
                Some(i) => vstd::slice::slice_to_vec(tree.blobs[i].data.as_slice()),
                None => {
                    return Err(SignerError::OciRegistry(String::from_str("index not found")));
                }
            }
        }
    };
    let v = match json_parse(bytes.as_slice()) {
        Some(v) => v,
        None => {
            return Err(SignerError::OciRegistry(String::from_str("cannot parse index")));
        }
    };
    let items = match json_get(&v, "manifests") {
        Some(mv) => match crate::json::json_items(mv) {
            Some(items) => items,
            None => {
                return Err(SignerError::OciRegistry(String::from_str("manifests not an array")));
            }
        },
        None => {
            return Err(SignerError::OciRegistry(String::from_str("index lacks manifests")));
        }
    };
    proof {
        assert(json_depth(v) <= 127);
        assert(crate::json::items_depth_le(items@, 125));
        reveal_strlit("application/vnd.oci.image.index.v1+json");
        reveal_strlit("application/vnd.oci.image.manifest.v1+json");
        assert("application/vnd.oci.image.index.v1+json"@.len() == 39);
        assert("application/vnd.oci.image.manifest.v1+json"@.len() == 42);
        if source is None && flat_index_shape(old(tree).index@) {
            assert(bytes@ == old(tree).index@);
            assert(items@ == json_arr(
                json_obj(json_of(old(tree).index@).unwrap()).unwrap()["manifests"@],
            ).unwrap());
        }
    }
    if signed_len > 0x7FFFFFFFFFFFFFFF {
        return Err(SignerError::OciRegistry(String::from_str("size too large")));
    }
    let mut new_items: Vec<serde_json::Value> = Vec::new();
    let mut modified = false;
    let mut k: usize = 0;
    while k < items.len()
        invariant
            signed_len <= 0x7FFFFFFFFFFFFFFF,
            tree.index@ == old(tree).index@,
            crate::json::items_depth_le(items@, 125),
            crate::json::items_depth_le(new_items@, 125),
            k <= items@.len(),
            new_items@.len() == k,
            "application/vnd.oci.image.index.v1+json"@.len() == 39,
            "application/vnd.oci.image.manifest.v1+json"@.len() == 42,
            source is None && flat_index_shape(old(tree).index@) ==> (forall|i: int|
                0 <= i < items@.len() ==> !item_names_index(#[trigger] items@[i])),
            source is None && flat_index_shape(old(tree).index@) ==> tree.blobs@ == old(
                tree,
            ).blobs@,
            forall|i: int|
                0 <= i < k ==> item_rewritten(#[trigger] items@[i], new_items@[i])
                    && item_redirects_manifest(
                    items@[i],
                    new_items@[i],
                    signed_from@,
                    signed_to@,
                    signed_len,
                ),
        decreases items@.len() - k,
    {
        let item = &items[k];
        let mt = match json_get(item, "mediaType") {
            Some(mval) => json_as_str(mval),
            None => None,
        };
        let mut replaced: Option<serde_json::Value> = None;
        match mt {
            Some(mts) => {
                if crate::text::str_eq(
                    mts.as_str(),
                    "application/vnd.oci.image.index.v1+json",
                ) {
                    if fuel == 0 {
                        return Err(
                            SignerError::OciRegistry(String::from_str("index tree too deep")),
                        );
                    }
                    let dg = match json_get(item, "digest") {
                        Some(dv) => match json_as_str(dv) {
                            Some(sd) => sd,
                            None => {
                                return Err(
                                    SignerError::OciRegistry(String::from_str("bad digest field")),
                                );
                            }
                        },
                        None => {
                            return Err(
                                SignerError::OciRegistry(
                                    String::from_str("descriptor lacks digest"),
                                ),
                            );
                        }
                    };
                    let sub = replace_hash_index_inner(
                        tree,
                        Some(dg.as_str()),
                        signed_from,
                        signed_to,
                        signed_len,
                        fuel - 1,
                    );
                    match sub {
                        Ok(Some(pair)) => {
                            if pair.1 > 0x7FFFFFFFFFFFFFFF {
                                return Err(
                                    SignerError::OciRegistry(String::from_str("size too large")),
                                );
                            }
                            let upd = update_descriptor(item, pair.0.as_str(), pair.1);
                            match upd {
                                Ok(nv) => {
                                    replaced = Some(nv);
                                }
                                Err(e) => {
                                    return Err(e);
                                }
                            }
                        }
                        Ok(None) => {}
                        Err(e) => {
                            return Err(e);
                        }
                    }
                } else if crate::text::str_eq(
                    mts.as_str(),
                    "application/vnd.oci.image.manifest.v1+json",
                ) {
                    let dg = match json_get(item, "digest") {
                        Some(dv) => json_as_str(dv),
                        None => None,
                    };
                    match dg {
                        Some(sd) => {
                            if crate::text::str_eq(sd.as_str(), signed_from) {
                                let upd = update_descriptor(item, signed_to, signed_len);
                                match upd {
                                    Ok(nv) => {
                                        replaced = Some(nv);
                                    }
                                    Err(e) => {
                                        return Err(e);
                                    }
                                }
                            }
                        }
                        None => {}
                    }
                }
            }
            None => {}
        }
        let ghost old_new_items = new_items@;
        match replaced {
            Some(nv) => {
                new_items.push(nv);
                modified = true;
            }
            None => {
                new_items.push(json_clone(&items[k]));
            }
        }
        proof {
            assert forall|i: int| 0 <= i < new_items@.len() implies json_depth(
                #[trigger] new_items@[i],
            ) <= 125 by {
                if i < new_items@.len() - 1 {
                    assert(new_items@[i] == old_new_items[i]);
                }
            }
            assert(item_rewritten(items@[k as int], new_items@[new_items@.len() - 1]));
            assert(item_redirects_manifest(
                items@[k as int],
                new_items@[new_items@.len() - 1],
                signed_from@,
                signed_to@,
                signed_len,
            ));
            assert forall|i: int| 0 <= i < k + 1 implies item_rewritten(
                #[trigger] items@[i],
                new_items@[i],
            ) && item_redirects_manifest(
                items@[i],
                new_items@[i],
                signed_from@,
                signed_to@,
                signed_len,
            ) by {
                if i < k as int {
                    assert(new_items@[i] == old_new_items[i]);
                }
            }
        }
        k += 1;
    }
    if !modified {
        proof {
            if source is None {
                assert(index_rewritten(
                    old(tree).index@,
                    tree.index@,
                    signed_from@,
                    signed_to@,
                    signed_len,
                ));
            }
        }
        return Ok(None);
    }
    let entries = match json_entries(&v) {
        Some(es) => es,
        None => {
            return Err(SignerError::OciRegistry(String::from_str("index not an object")));
        }
    };
    let mut entries = entries;
    let ghost e0 = entries@;
    proof {
        assert(crate::json::entries_depth_le(e0, 126));
    }
    let arr_v = json_array(new_items);
    let ghost arr_g = arr_v;
    proof {
        assert(json_depth(arr_g) <= 126);
    }
    upsert(&mut entries, String::from_str("manifests"), arr_v);
    proof {
        lemma_upsert_depth(e0, entries@, 126);
    }
    let new_v = json_object(entries);
    proof {
        assert(json_depth(new_v) <= 127);
    }
    let new_bytes = json_pretty(&new_v);
    match source {
        None => {
            proof {
                lemma_upsert_entries_map(e0, entries@, "manifests"@, arr_g);
            }
            tree.index = new_bytes;
            proof {
                let ov = json_of(old(tree).index@).unwrap();
                let nv2 = json_of(tree.index@).unwrap();
                assert(ov == v && nv2 == new_v);
                assert(json_obj(new_v).unwrap() == entries_map(e0).insert("manifests"@, arr_g));
                assert(json_obj(new_v).unwrap()["manifests"@] == arr_g);
                assert(index_rewritten(
                    old(tree).index@,
                    tree.index@,
                    signed_from@,
                    signed_to@,
                    signed_len,
                ));
            }
            Ok(None)
        }
        Some(dg) => {
            let d = match Digest::parse(dg) {
                Ok(d) => d,
                Err(_) => {
                    return Err(SignerError::OciRegistry(String::from_str("bad digest")));
                }
            };
            match find_blob_index(tree, d.algo, d.value()) {
                Some(i) => {
                    let new_blob = BlobFile {
                        algo: d.algo,
                        hex: tree.blobs[i].hex.clone(),
                        data: new_bytes,
                    };
                    tree.blobs.set(i, new_blob);
                    rehash_rename_file(tree, dg)
                }
                None => Err(SignerError::OciRegistry(String::from_str("index not found"))),
            }
        }
    }
}

/// A descriptor with its digest and size replaced, every other member kept.
fn update_descriptor(item: &serde_json::Value, new_digest: &str, new_len: u64) -> (r: Result<
    serde_json::Value,
    SignerError,
>)
    requires
        new_len <= 0x7FFFFFFFFFFFFFFF,
    ensures
        match r {
            Ok(nv) => {
                &&& json_obj(*item) is Some
                &&& json_depth(nv) <= json_depth(*item)
                &&& json_obj(nv) is Some
                &&& json_obj(nv).unwrap().dom().contains("digest"@)
                &&& json_str_of(json_obj(nv).unwrap()["digest"@]) == Some(new_digest@)
                &&& json_obj(nv).unwrap().dom().contains("size"@)
                &&& crate::json::json_i64_of(json_obj(nv).unwrap()["size"@]) == Some(
                    new_len as i64,
                )
                &&& forall|k: Seq<char>|
                    k != "digest"@ && k != "size"@ ==> ((#[trigger] json_obj(
                        nv,
                    ).unwrap().dom().contains(k) <==> json_obj(*item).unwrap().dom().contains(k))
                        && (json_obj(*item).unwrap().dom().contains(k) ==> json_obj(nv).unwrap()[k]
                        == json_obj(*item).unwrap()[k]))
            },
            Err(_) => json_obj(*item) is None,
        },
{
    proof {
        reveal_strlit("digest");
        reveal_strlit("size");
    }
    let mut es = match json_entries(item) {
        Some(es) => es,
        None => {
            return Err(SignerError::OciRegistry(String::from_str("descriptor not an object")));
        }
    };
    let ghost bound = (json_depth(*item) - 1) as nat;
    proof {
        assert(crate::json::entries_depth_le(es@, bound));
    }
    let ghost e0 = es@;
    let dval = json_string(new_digest);
    let ghost dval_g = dval;
    upsert(&mut es, String::from_str("digest"), dval);
    proof {
        lemma_upsert_entries_map(e0, es@, "digest"@, dval_g);
        lemma_upsert_depth(e0, es@, bound);
    }
    let ghost e1 = es@;
    let sval = json_i64(new_len as i64);
    let ghost sval_g = sval;
    upsert(&mut es, String::from_str("size"), sval);
    proof {
        lemma_upsert_entries_map(e1, es@, "size"@, sval_g);
        lemma_upsert_depth(e1, es@, bound);
        assert("digest"@.len() == 6 && "size"@.len() == 4);
        assert("digest"@ != "size"@);
    }
    let ghost efinal = es@;
    let nv = json_object(es);
    proof {
        assert(json_depth(nv) <= bound + 1);
    }
    Ok(nv)
}

/// Walks the layout index, rewriting every occurrence of the old manifest
/// digest to the new one and bubbling renamed sub-indices upward. The
/// layout index is rewritten in place: on success it is the old document
/// with its `manifests` array rewritten item by item — every descriptor
/// keeps its other members, and every manifest descriptor that named the
/// old digest now names the new one with the new size. Sub-indices are
/// rewritten the same way through the blob store.
pub fn replace_hash_index(tree: &mut AppTree, signed_from: &str, signed_to: &str, signed_len: u64)
    -> (r: Result<(), SignerError>)
    ensures
        r is Ok ==> json_of(final(tree).index@) is Some,
        r is Ok ==> index_rewritten(
            old(tree).index@,
            final(tree).index@,
            signed_from@,
            signed_to@,
            signed_len,
        ),
        flat_index_ok(old(tree).index@, signed_len) ==> r is Ok,
        flat_index_shape(old(tree).index@) ==> final(tree).blobs@ == old(tree).blobs@,
{
    let fuel = tree.blobs.len();
    match replace_hash_index_inner(tree, None, signed_from, signed_to, signed_len, fuel) {
        Ok(_) => Ok(()),
        Err(e) => Err(e),
    }
}


/// Generates a fresh ECDSA P-384 private key in SEC1 DER form.
pub fn cmd_generate_key() -> (r: Result<Vec<u8>, SignerError>)
    ensures
        r is Ok ==> sec1_parses(r.unwrap()@),
{
    crate::crypto::generate_key()
}

/// Extracts the SPKI DER public key from a SEC1 DER private key.
pub fn cmd_extract_public(prv: &[u8]) -> (r: Result<Vec<u8>, SignerError>)
    ensures
        r is Ok <==> sec1_parses(prv@),
        r is Ok ==> r.unwrap()@ == public_of_private(prv@),
{
    crate::crypto::extract_public(prv)
}

/// Signs a file's bytes with a private key; succeeds exactly when the key
/// parses and signing succeeds for it, and the signature verifies under the
/// key's public half.
pub fn cmd_sign(key: &[u8], file: &[u8]) -> (r: Result<Vec<u8>, SignerError>)
    ensures
        r is Ok <==> (sec1_parses(key@) && crate::crypto::ecdsa_p384_sign_ok(key@, file@)),
        r is Ok ==> r.unwrap()@ == ecdsa_p384_sign(key@, file@),
        r is Ok ==> ecdsa_p384_verifies(public_of_private(key@), file@, r.unwrap()@),
{
    crate::crypto::sign(key, file)
}

/// Verifies a signature over a file's bytes under a public key; succeeds
/// exactly when the signature verifies.
pub fn cmd_verify(key: &[u8], file: &[u8], signature: &[u8]) -> (r: Result<(), SignerError>)
    ensures
        r is Ok <==> ecdsa_p384_verifies(key@, file@, signature@),
{
    if crate::crypto::verify(key, file, signature) {
        Ok(())
    } else {
        Err(SignerError::Crypto(String::from_str("signature verification failed")))
    }
}

/// Checks the CA's endorsement of the vendor key, then signs the config of
/// the named manifest and rewrites its annotations.
///
/// The sign/verify law: on success, when the manifest and config live in
/// distinct blobs and the stored config matches its declared digest, the
/// rewritten manifest passes image verification under the same CA key.
pub fn cmd_sign_config(
    tree: &mut AppTree,
    digest: &str,
    vendor_prv: &[u8],
    vendor_pub_signature: &[u8],
    ca_pub: &[u8],
) -> (r: Result<(), SignerError>)
    ensures
        r is Ok <==> (sec1_parses(vendor_prv@) && ecdsa_p384_verifies(
            ca_pub@,
            public_of_private(vendor_prv@),
            vendor_pub_signature@,
        ) && sign_config_pre(old(tree).blobs@, digest@) && crate::crypto::ecdsa_p384_sign_ok(
            vendor_prv@,
            config_bytes_of(old(tree).blobs@, digest@),
        )),
        r is Ok ==> sec1_parses(vendor_prv@) && ecdsa_p384_verifies(
            ca_pub@,
            public_of_private(vendor_prv@),
            vendor_pub_signature@,
        ),
        r is Err ==> final(tree).blobs@ == old(tree).blobs@,
        r is Ok ==> sign_config_post(
            old(tree).blobs@,
            final(tree).blobs@,
            digest@,
            vendor_prv@,
            vendor_pub_signature@,
        ),
        final(tree).index@ == old(tree).index@,
        r is Ok ==> ({
            let t = parse_digest_chars(digest@).unwrap().0;
            let h = parse_digest_chars(digest@).unwrap().1;
            let mv = json_of(blob_data(old(tree).blobs@, t, h).unwrap()).unwrap();
            let ct = parse_digest_chars(manifest_config_view(mv).unwrap().digest).unwrap().0;
            let ch = parse_digest_chars(manifest_config_view(mv).unwrap().digest).unwrap().1;
            let cb = blob_data(old(tree).blobs@, ct, ch).unwrap();
            (!(t == ct && h == ch) && matches_hash(ct, ch, cb)) ==> spec_verify_config(
                final(tree).blobs@,
                digest@,
                ca_pub@,
            )
        }),
{
    match verify_vendor_pub_signature(vendor_prv, vendor_pub_signature, ca_pub) {
        Ok(()) => {}
        Err(e) => {
            return Err(e);
        }
    }
    let ghost old_blobs = tree.blobs@;
    match sign_config(tree, digest, vendor_prv, vendor_pub_signature) {
        Ok(()) => {}
        Err(e) => {
            return Err(e);
        }
    }
    proof {
        reveal_strlit("annotations");
        reveal_strlit("config");
        assert("config"@.len() == 6 && "annotations"@.len() == 11);
        assert("config"@ != "annotations"@);
        let t = parse_digest_chars(digest@).unwrap().0;
        let h = parse_digest_chars(digest@).unwrap().1;
        let mv = json_of(blob_data(old_blobs, t, h).unwrap()).unwrap();
        let ct = parse_digest_chars(manifest_config_view(mv).unwrap().digest).unwrap().0;
        let ch = parse_digest_chars(manifest_config_view(mv).unwrap().digest).unwrap().1;
        let cb = blob_data(old_blobs, ct, ch).unwrap();
        if !(t == ct && h == ch) && matches_hash(ct, ch, cb) {
            let nb = blob_data(tree.blobs@, t, h).unwrap();
            let nv = json_of(nb).unwrap();
            let om = json_obj(mv).unwrap();
            let nm = json_obj(nv).unwrap();
            assert(nm.dom().contains("config"@) && nm["config"@] == om["config"@]);
            assert(manifest_config_view(nv) == manifest_config_view(mv));
            let av = nm["annotations"@];
            let sig = ecdsa_p384_sign(vendor_prv@, cb);
            let vpub = public_of_private(vendor_prv@);
            lemma_hex_chars_round_trip(sig);
            lemma_hex_chars_round_trip(vpub);
            lemma_hex_chars_round_trip(vendor_pub_signature@);
            assert(spec_hex_str_bytes(json_str_of(json_obj(av).unwrap()[sig_key()]).unwrap())
                == Some(sig));
            assert(spec_hex_str_bytes(json_str_of(json_obj(av).unwrap()[vendorpub_key()]).unwrap())
                == Some(vpub));
            assert(spec_hex_str_bytes(
                json_str_of(json_obj(av).unwrap()[vendorpub_sig_key()]).unwrap(),
            ) == Some(vendor_pub_signature@));
            assert(spec_verify_config(tree.blobs@, digest@, ca_pub@));
        }
    }
    Ok(())
}


/// The sign/verify law for a whole image signing that renamed the manifest:
/// when the CA endorsed the vendor key, the manifest and config are distinct
/// blobs, the stored config matches its declared digest, and in the
/// post-rehash store the renamed manifest is found under its new name and
/// the config still under its own (no other blob shadows either name), the
/// image verifies under the CA key at the returned digest. The shadowing
/// cases are the inputs the law excludes: two stored blobs sharing a name.
pub proof fn lemma_signed_image_verifies(
    olds: Seq<BlobFile>,
    b1: Seq<BlobFile>,
    b2: Seq<BlobFile>,
    resolved: Seq<char>,
    nd: Seq<char>,
    prv: Seq<u8>,
    vsig: Seq<u8>,
    ca_pub: Seq<u8>,
)
    requires
        sign_config_post(olds, b1, resolved, prv, vsig),
        rehash_named(b1, b2, resolved, nd),
        ecdsa_p384_verifies(ca_pub, public_of_private(prv), vsig),
        ({
            let t = parse_digest_chars(resolved).unwrap().0;
            let h = parse_digest_chars(resolved).unwrap().1;
            let mv = json_of(blob_data(olds, t, h).unwrap()).unwrap();
            let ct = parse_digest_chars(manifest_config_view(mv).unwrap().digest).unwrap().0;
            let ch = parse_digest_chars(manifest_config_view(mv).unwrap().digest).unwrap().1;
            let cb = blob_data(olds, ct, ch).unwrap();
            &&& !(t == ct && h == ch)
            &&& matches_hash(ct, ch, cb)
            &&& blob_data(b2, t, hex_chars(spec_hash(t, blob_data(b1, t, h).unwrap())))
                == blob_data(b1, t, h)
            &&& blob_data(b2, ct, ch) == Some(cb)
        }),
    ensures
        spec_verify_config(b2, nd, ca_pub),
{
    reveal_strlit("annotations");
    reveal_strlit("config");
    assert("config"@.len() == 6 && "annotations"@.len() == 11);
    assert("config"@ != "annotations"@);
    let t = parse_digest_chars(resolved).unwrap().0;
    let h = parse_digest_chars(resolved).unwrap().1;
    let mv = json_of(blob_data(olds, t, h).unwrap()).unwrap();
    let ct = parse_digest_chars(manifest_config_view(mv).unwrap().digest).unwrap().0;
    let ch = parse_digest_chars(manifest_config_view(mv).unwrap().digest).unwrap().1;
    let cb = blob_data(olds, ct, ch).unwrap();
    let nb = blob_data(b1, t, h).unwrap();
    let newhex = hex_chars(spec_hash(t, nb));
    assert(parse_digest_chars(nd) == Some((t, newhex)));
    assert(blob_data(b2, t, newhex) == Some(nb));
    let nv = json_of(nb).unwrap();
    let om = json_obj(mv).unwrap();
    let nm = json_obj(nv).unwrap();
    assert(nm.dom().contains("config"@) && nm["config"@] == om["config"@]);
    assert(manifest_config_view(nv) == manifest_config_view(mv));
    let av = nm["annotations"@];
    let sig = ecdsa_p384_sign(prv, cb);
    let vpub = public_of_private(prv);
    lemma_hex_chars_round_trip(sig);
    lemma_hex_chars_round_trip(vpub);
    lemma_hex_chars_round_trip(vsig);
    assert(spec_hex_str_bytes(json_str_of(json_obj(av).unwrap()[sig_key()]).unwrap()) == Some(
        sig,
    ));
    assert(spec_hex_str_bytes(json_str_of(json_obj(av).unwrap()[vendorpub_key()]).unwrap())
        == Some(vpub));
    assert(spec_hex_str_bytes(json_str_of(json_obj(av).unwrap()[vendorpub_sig_key()]).unwrap())
        == Some(vsig));
    assert(spec_verify_config(b2, nd, ca_pub));
}

/// A rehash that renamed: the blob under the digest hashed to a different
/// hex name, the returned string is its new canonical digest, and exactly
/// that blob was renamed.
pub open spec fn rehash_named(
    olds: Seq<BlobFile>,
    news: Seq<BlobFile>,
    digestc: Seq<char>,
    ndc: Seq<char>,
) -> bool {
    &&& parse_digest_chars(digestc) is Some
    &&& {
        let t = parse_digest_chars(digestc).unwrap().0;
        let h = parse_digest_chars(digestc).unwrap().1;
        &&& blob_data(olds, t, h) is Some
        &&& {
            let data = blob_data(olds, t, h).unwrap();
            let newhex = hex_chars(spec_hash(t, data));
            &&& newhex != h
            &&& ndc == digest_chars(t, newhex)
            &&& parse_digest_chars(ndc) == Some((t, newhex))
            &&& exists|i: int| #![auto] renamed_entry(olds, news, i, newhex)
        }
    }
}

/// Rehashes the blob stored under `digest`, renaming it when the content
/// changed; the new canonical digest comes back.
pub fn cmd_rehash_file(tree: &mut AppTree, digest: &str) -> (r: Result<Option<String>, SignerError>)
    ensures
        r is Ok <==> (parse_digest_chars(digest@) is Some && blob_data(
            old(tree).blobs@,
            parse_digest_chars(digest@).unwrap().0,
            parse_digest_chars(digest@).unwrap().1,
        ) is Some),
        match r {
            Ok(out) => match out {
                Some(nd) => rehash_named(old(tree).blobs@, final(tree).blobs@, digest@, nd@),
                None => rehash_post(
                    old(tree).blobs@,
                    final(tree).blobs@,
                    digest@,
                    None::<(String, u64)>,
                ),
            },
            Err(_) => true,
        },
{
    match rehash_rename_file(tree, digest) {
        Ok(Some(pair)) => {
            let ghost gp = pair;
            let (nd, _len) = pair;
            proof {
                assert(gp == (gp.0, gp.1));
                assert(rehash_post(old(tree).blobs@, tree.blobs@, digest@, Some(gp)));
                assert(rehash_named(old(tree).blobs@, tree.blobs@, digest@, nd@));
            }
            Ok(Some(nd))
        }
        Ok(None) => Ok(None),
        Err(e) => Err(e),
    }
}

/// A whole image signing that left the manifest's identity unchanged: some
/// intermediate blob store carries the signed manifest under the resolved
/// digest, rehashing found the name unchanged, and the index is untouched.
pub open spec fn sign_image_unchanged(
    oldt: AppTree,
    newt: AppTree,
    resolved: Seq<char>,
    prv: Seq<u8>,
    vsig: Seq<u8>,
) -> bool {
    exists|b1: Seq<BlobFile>|
        {
            &&& #[trigger] sign_config_post(oldt.blobs@, b1, resolved, prv, vsig)
            &&& rehash_post(b1, newt.blobs@, resolved, None::<(String, u64)>)
            &&& newt.index@ == oldt.index@
        }
}

/// A whole image signing that renamed the manifest: some intermediate blob
/// store carries the signed manifest under the resolved digest, it was then
/// renamed to the returned digest, and the layout index was rewritten to
/// name it with the manifest's new size.
pub open spec fn sign_image_renamed(
    oldt: AppTree,
    newt: AppTree,
    resolved: Seq<char>,
    prv: Seq<u8>,
    vsig: Seq<u8>,
    ndc: Seq<char>,
) -> bool {
    exists|b1: Seq<BlobFile>, b2: Seq<BlobFile>|
        {
            &&& #[trigger] sign_config_post(oldt.blobs@, b1, resolved, prv, vsig)
            &&& #[trigger] rehash_named(b1, b2, resolved, ndc)
            &&& index_rewritten(
                oldt.index@,
                newt.index@,
                resolved,
                ndc,
                blob_data(
                    b1,
                    parse_digest_chars(resolved).unwrap().0,
                    parse_digest_chars(resolved).unwrap().1,
                ).unwrap().len() as u64,
            )
            &&& (flat_index_shape(oldt.index@) ==> newt.blobs@ == b2)
        }
}

/// Resolves the reference, checks or creates the CA endorsement, signs the
/// config, rewrites the manifest, rehashes it, and propagates a changed
/// digest through the index tree. Returns the manifest's new digest when it
/// was renamed.
pub fn cmd_sign_image(
    tree: &mut AppTree,
    reference: &str,
    vendor_prv: &[u8],
    vendor_pub_signature: Option<&[u8]>,
    ca_pub: Option<&[u8]>,
    ca_prv: Option<&[u8]>,
) -> (r: Result<Option<String>, SignerError>)
    ensures
        r is Ok ==> sec1_parses(vendor_prv@),
        r is Ok && r.unwrap() is Some ==> parse_digest_chars(r.unwrap().unwrap()@) is Some,
        !((vendor_pub_signature is Some && ca_pub is Some && ca_prv is None) || (
        vendor_pub_signature is None && ca_pub is None && ca_prv is Some)) ==> r is Err,
        vendor_pub_signature is Some && ca_pub is Some && ca_prv is None && !(sec1_parses(
            vendor_prv@,
        ) && ecdsa_p384_verifies(
            ca_pub.unwrap()@,
            public_of_private(vendor_prv@),
            vendor_pub_signature.unwrap()@,
        )) ==> r is Err,
        ({
            let vsig = if vendor_pub_signature is Some {
                vendor_pub_signature.unwrap()@
            } else {
                ecdsa_p384_sign(ca_prv.unwrap()@, public_of_private(vendor_prv@))
            };
            &&& ((vendor_pub_signature is Some && ca_pub is Some && ca_prv is None) || (
            vendor_pub_signature is None && ca_pub is None && ca_prv is Some))
            &&& (vendor_pub_signature is Some ==> sec1_parses(vendor_prv@) && ecdsa_p384_verifies(
                ca_pub.unwrap()@,
                public_of_private(vendor_prv@),
                vendor_pub_signature.unwrap()@,
            ))
            &&& (ca_prv is Some ==> sec1_parses(vendor_prv@) && sec1_parses(ca_prv.unwrap()@)
                && crate::crypto::ecdsa_p384_sign_ok(
                ca_prv.unwrap()@,
                public_of_private(vendor_prv@),
            ))
            &&& json_of(old(tree).index@) is Some
            &&& crate::docs::spec_image_index(json_of(old(tree).index@).unwrap()) is Some
            &&& ({
                let resolved = match spec_find_ref(
                    crate::docs::spec_image_index(
                        json_of(old(tree).index@).unwrap(),
                    ).unwrap().manifests,
                    reference@,
                ) {
                    Some(dg) => dg,
                    None => reference@,
                };
                &&& sign_config_pre(old(tree).blobs@, resolved)
                &&& crate::crypto::ecdsa_p384_sign_ok(
                    vendor_prv@,
                    config_bytes_of(old(tree).blobs@, resolved),
                )
                &&& flat_index_shape(old(tree).index@)
            })
        }) ==> r is Ok,
        r is Ok ==> ({
            let vsig = if vendor_pub_signature is Some {
                vendor_pub_signature.unwrap()@
            } else {
                ecdsa_p384_sign(ca_prv.unwrap()@, public_of_private(vendor_prv@))
            };
            &&& json_of(old(tree).index@) is Some
            &&& crate::docs::spec_image_index(json_of(old(tree).index@).unwrap()) is Some
            &&& ({
                let resolved = match spec_find_ref(
                    crate::docs::spec_image_index(
                        json_of(old(tree).index@).unwrap(),
                    ).unwrap().manifests,
                    reference@,
                ) {
                    Some(dg) => dg,
                    None => reference@,
                };
                match r.unwrap() {
                    Some(nd) => sign_image_renamed(
                        *old(tree),
                        *final(tree),
                        resolved,
                        vendor_prv@,
                        vsig,
                        nd@,
                    ),
                    None => sign_image_unchanged(
                        *old(tree),
                        *final(tree),
                        resolved,
                        vendor_prv@,
                        vsig,
                    ),
                }
            })
        }),
{
    let vendor_sign: Vec<u8> = match (vendor_pub_signature, ca_pub, ca_prv) {
        (Some(vps), Some(cp), None) => {
            match verify_vendor_pub_signature(vendor_prv, vps, cp) {
                Ok(()) => {}
                Err(e) => {
                    return Err(e);
                }
            }
            vstd::slice::slice_to_vec(vps)
        }
        (None, None, Some(cprv)) => {
            match sign_vendor_pub(vendor_prv, cprv) {
                Ok(vs) => vs,
                Err(e) => {
                    return Err(e);
                }
            }
        }
        _ => {
            return Err(
                SignerError::OciRegistry(
                    String::from_str(
                        "pass either the vendor pub signature and the CA public key, or the CA private key",
                    ),
                ),
            );
        }
    };
    let ghost gvsig = vendor_sign@;
    let digest = match find_manifest_by_reference(tree, reference) {
        Ok(d) => d,
        Err(e) => {
            return Err(e);
        }
    };
    match sign_config(tree, digest.as_str(), vendor_prv, vendor_sign.as_slice()) {
        Ok(()) => {}
        Err(e) => {
            return Err(e);
        }
    }
    let ghost b1 = tree.blobs@;
    let new_info = match rehash_rename_file(tree, digest.as_str()) {
        Ok(n) => n,
        Err(e) => {
            return Err(e);
        }
    };
    let ghost b2 = tree.blobs@;
    match new_info {
        Some((nd, nl)) => {
            let ghost gp = (nd, nl);
            proof {
                assert(gp == (gp.0, gp.1));
                assert(rehash_post(b1, b2, digest@, Some(gp)));
                assert(rehash_named(b1, b2, digest@, nd@));
                assert(nl == blob_data(
                    b1,
                    parse_digest_chars(digest@).unwrap().0,
                    parse_digest_chars(digest@).unwrap().1,
                ).unwrap().len() as u64);
            }
            match replace_hash_index(tree, digest.as_str(), nd.as_str(), nl) {
                Ok(()) => {}
                Err(e) => {
                    proof {
                        assert(sign_config_post(old(tree).blobs@, b1, digest@, vendor_prv@, gvsig));
                        if json_of(old(tree).index@) is Some && crate::docs::spec_image_index(
                            json_of(old(tree).index@).unwrap(),
                        ) is Some {
                            let resolvedg = match spec_find_ref(
                                crate::docs::spec_image_index(
                                    json_of(old(tree).index@).unwrap(),
                                ).unwrap().manifests,
                                reference@,
                            ) {
                                Some(dg) => dg,
                                None => reference@,
                            };
                            assert(resolvedg == digest@);
                            assert(sign_config_post(
                                old(tree).blobs@,
                                b1,
                                resolvedg,
                                vendor_prv@,
                                gvsig,
                            ));
                        }
                    }
                    return Err(e);
                }
            }
            proof {
                assert(sign_config_post(old(tree).blobs@, b1, digest@, vendor_prv@, gvsig));
                assert(index_rewritten(old(tree).index@, tree.index@, digest@, nd@, nl));
                assert(index_rewritten(
                    old(tree).index@,
                    tree.index@,
                    digest@,
                    nd@,
                    blob_data(
                        b1,
                        parse_digest_chars(digest@).unwrap().0,
                        parse_digest_chars(digest@).unwrap().1,
                    ).unwrap().len() as u64,
                ));
                assert(rehash_named(b1, b2, digest@, nd@));
                assert(sign_config_post((*old(tree)).blobs@, b1, digest@, vendor_prv@, gvsig));
                assert(sign_image_renamed(*old(tree), *tree, digest@, vendor_prv@, gvsig, nd@));
            }
            Ok(Some(nd))
        }
        None => {
            proof {
                assert(sign_config_post((*old(tree)).blobs@, b1, digest@, vendor_prv@, gvsig));
                assert(rehash_post(b1, tree.blobs@, digest@, None::<(String, u64)>));
                assert(sign_image_unchanged(*old(tree), *tree, digest@, vendor_prv@, gvsig));
            }
            Ok(None)
        }
    }
}

/// Resolves the reference against the layout index and verifies the signing
/// chain of the manifest it names; succeeds exactly when the chain holds.
pub fn cmd_verify_image(tree: &AppTree, reference: &str, ca_pub: &[u8]) -> (r: Result<
    (),
    SignerError,
>)
    ensures
        r is Ok <==> ({
            &&& json_of(tree.index@) is Some
            &&& crate::docs::spec_image_index(json_of(tree.index@).unwrap()) is Some
            &&& spec_verify_config(
                tree.blobs@,
                match spec_find_ref(
                    crate::docs::spec_image_index(json_of(tree.index@).unwrap()).unwrap().manifests,
                    reference@,
                ) {
                    Some(dg) => dg,
                    None => reference@,
                },
                ca_pub@,
            )
        }),
{
    let digest = match find_manifest_by_reference(tree, reference) {
        Ok(d) => d,
        Err(e) => {
            return Err(e);
        }
    };
    verify_config(tree, digest.as_str(), ca_pub)
}

} // verus!
