//! The OCI documents the registry reads: descriptors, the layout marker,
//! image indices, image manifests and image configurations, each parsed from
//! a JSON value and validated against the layout rules.

use vstd::prelude::*;
use vstd::string::StringExecFns;
use crate::errors::RegistryError;
use crate::json::{
    json_get, json_as_str, json_as_i64, json_as_u64, json_items, json_entries, json_obj, json_arr,
    json_str_of, json_i64_of, json_u64_of,
};
use crate::mediatype::{MediaType, media_type_chars};
use crate::text::str_eq;

verus! {

/// The ghost shape of a descriptor.
pub struct DescriptorView {
    pub media_type: Seq<char>,
    pub digest: Seq<char>,
    pub size: u64,
    pub ref_name: Option<Seq<char>>,
}

/// A typed pointer to a blob: media type, digest, size, and the optional
/// `org.opencontainers.image.ref.name` annotation.
#[derive(Debug, Clone)]
pub struct Descriptor {
    pub media_type: String,
    pub digest: String,
    pub size: u64,
    pub ref_name: Option<String>,
}

impl View for Descriptor {
    type V = DescriptorView;

    open spec fn view(&self) -> DescriptorView {
        DescriptorView {
            media_type: self.media_type@,
            digest: self.digest@,
            size: self.size,
            ref_name: match self.ref_name {
                Some(s) => Some(s@),
                None => None,
            },
        }
    }
}

impl Descriptor {
    /// A field-for-field copy.
    pub fn dup(&self) -> (r: Descriptor)
        ensures
            r == *self,
    {
        Descriptor {
            media_type: self.media_type.clone(),
            digest: self.digest.clone(),
            size: self.size,
            ref_name: match &self.ref_name {
                Some(s) => Some(s.clone()),
                None => None,
            },
        }
    }
}

/// The annotation key that names a tag.
pub open spec fn ref_name_key() -> Seq<char> {
    "org.opencontainers.image.ref.name"@
}

/// Whether an `annotations` member is a JSON object whose values are all
/// strings.
pub open spec fn annotations_ok(v: serde_json::Value) -> bool {
    &&& json_obj(v) is Some
    &&& forall|k: Seq<char>|
        json_obj(v).unwrap().dom().contains(k) ==> json_str_of(
            #[trigger] json_obj(v).unwrap()[k],
        ) is Some
}

/// The `ref.name` annotation of an `annotations` object, if any.
pub open spec fn spec_ref_name(v: serde_json::Value) -> Option<Seq<char>> {
    if json_obj(v).unwrap().dom().contains(ref_name_key()) {
        Some(json_str_of(json_obj(v).unwrap()[ref_name_key()]).unwrap())
    } else {
        None
    }
}

/// The descriptor a JSON value denotes, if well-formed: an object with a
/// string `mediaType`, a string `digest`, a non-negative integer `size`, and
/// optionally an `annotations` object with string values.
pub open spec fn spec_descriptor(v: serde_json::Value) -> Option<DescriptorView> {
    if json_obj(v) is Some && {
        let m = json_obj(v).unwrap();
        &&& m.dom().contains("mediaType"@) && json_str_of(m["mediaType"@]) is Some
        &&& m.dom().contains("digest"@) && json_str_of(m["digest"@]) is Some
        &&& m.dom().contains("size"@) && json_i64_of(m["size"@]) is Some && json_i64_of(
            m["size"@],
        ).unwrap() >= 0
        &&& (m.dom().contains("annotations"@) ==> annotations_ok(m["annotations"@]))
    } {
        let m = json_obj(v).unwrap();
        Some(
            DescriptorView {
                media_type: json_str_of(m["mediaType"@]).unwrap(),
                digest: json_str_of(m["digest"@]).unwrap(),
                size: json_i64_of(m["size"@]).unwrap() as u64,
                ref_name: if m.dom().contains("annotations"@) {
                    spec_ref_name(m["annotations"@])
                } else {
                    None
                },
            },
        )
    } else {
        None
    }
}

/// Reads the `ref.name` annotation out of a valid `annotations` object,
/// checking that every value is a string.
fn parse_annotations(v: &serde_json::Value) -> (r: Result<Option<String>, RegistryError>)
    ensures
        match r {
            Ok(name) => annotations_ok(*v) && (match name {
                Some(s) => spec_ref_name(*v) == Some(s@),
                None => spec_ref_name(*v) is None,
            }),
            Err(_) => !annotations_ok(*v),
        },
{
    let entries = match json_entries(v) {
        Some(es) => es,
        None => {
            return Err(RegistryError::OciRegistry(String::from_str("annotations not an object")));
        }
    };
    let mut ref_name: Option<String> = None;
    let mut k: usize = 0;
    let ghost m = json_obj(*v).unwrap();
    proof {
        crate::docs::lemma_entries_map_complete(entries@);
    }
    while k < entries.len()
        invariant
            k <= entries@.len(),
            json_obj(*v) == Some(crate::json::entries_map(entries@)),
            crate::json::distinct_keys(entries@),
            m == crate::json::entries_map(entries@),
            forall|i: int|
                0 <= i < entries@.len() ==> m.dom().contains(#[trigger] entries@[i].0@)
                    && m[entries@[i].0@] == entries@[i].1,
            forall|k2: Seq<char>|
                m.dom().contains(k2) ==> exists|i: int|
                    0 <= i < entries@.len() && #[trigger] entries@[i].0@ == k2,
            forall|i: int|
                0 <= i < k ==> json_str_of(#[trigger] entries@[i].1) is Some,
            match ref_name {
                Some(s) => exists|i: int|
                    0 <= i < k && #[trigger] entries@[i].0@ == ref_name_key() && json_str_of(
                        entries@[i].1,
                    ) == Some(s@),
                None => forall|i: int| 0 <= i < k ==> #[trigger] entries@[i].0@ != ref_name_key(),
            },
        decreases entries@.len() - k,
    {
        let val_str = match json_as_str(&entries[k].1) {
            Some(s) => s,
            None => {
                return Err(
                    RegistryError::OciRegistry(String::from_str("annotation value not a string")),
                );
            }
        };
        if str_eq(entries[k].0.as_str(), "org.opencontainers.image.ref.name") {
            proof {
                reveal_strlit("org.opencontainers.image.ref.name");
            }
            ref_name = Some(val_str);
        }
        k += 1;
    }
    proof {
        reveal_strlit("org.opencontainers.image.ref.name");
        assert(annotations_ok(*v)) by {
            assert forall|k2: Seq<char>| m.dom().contains(k2) implies json_str_of(
                #[trigger] m[k2],
            ) is Some by {
                let i = choose|i: int| 0 <= i < entries@.len() && #[trigger] entries@[i].0@ == k2;
                assert(m[k2] == entries@[i].1);
            }
        }
        match ref_name {
            Some(_) => {}
            None => {
                if m.dom().contains(ref_name_key()) {
                    let i = choose|i: int|
                        0 <= i < entries@.len() && #[trigger] entries@[i].0@ == ref_name_key();
                    assert(false);
                }
            }
        }
    }
    Ok(ref_name)
}

/// The annotations of a manifest value, as key/value pairs: empty when the
/// value has no `annotations` member (or is not an object), every pair
/// drawn from the member with its string value, and every key of the member
/// listed. Fails when the member is present but is not an object of
/// strings.
pub fn manifest_annotations(v: &serde_json::Value) -> (r: Result<
    Vec<(String, String)>,
    RegistryError,
>)
    ensures
        match r {
            Ok(l) => {
                &&& (json_obj(*v) is Some && json_obj(*v).unwrap().dom().contains("annotations"@))
                    ==> ({
                    let am = json_obj(json_obj(*v).unwrap()["annotations"@]);
                    &&& annotations_ok(json_obj(*v).unwrap()["annotations"@])
                    &&& forall|j: int|
                        0 <= j < l@.len() ==> am.unwrap().dom().contains((#[trigger] l@[j]).0@)
                            && json_str_of(am.unwrap()[l@[j].0@]) == Some(l@[j].1@)
                    &&& forall|k: Seq<char>|
                        #[trigger] am.unwrap().dom().contains(k) ==> exists|j: int|
                            0 <= j < l@.len() && (#[trigger] l@[j]).0@ == k
                })
                &&& !(json_obj(*v) is Some && json_obj(*v).unwrap().dom().contains(
                    "annotations"@,
                )) ==> l@.len() == 0
            },
            Err(_) => json_obj(*v) is Some && json_obj(*v).unwrap().dom().contains("annotations"@)
                && !annotations_ok(json_obj(*v).unwrap()["annotations"@]),
        },
{
    let av = match json_get(v, "annotations") {
        Some(av) => av,
        None => {
            return Ok(Vec::new());
        }
    };
    let entries = match json_entries(av) {
        Some(es) => es,
        None => {
            return Err(RegistryError::OciRegistry(String::from_str("annotations not an object")));
        }
    };
    let ghost m = crate::json::json_obj(*av).unwrap();
    proof {
        lemma_entries_map_complete(entries@);
    }
    let mut out: Vec<(String, String)> = Vec::new();
    let mut k: usize = 0;
    while k < entries.len()
        invariant
            k <= entries@.len(),
            out@.len() == k,
            json_obj(*v) is Some,
            json_obj(*v).unwrap().dom().contains("annotations"@),
            *av == json_obj(*v).unwrap()["annotations"@],
            crate::json::json_obj(*av) == Some(crate::json::entries_map(entries@)),
            m == crate::json::entries_map(entries@),
            crate::json::distinct_keys(entries@),
            forall|i: int|
                0 <= i < entries@.len() ==> m.dom().contains(#[trigger] entries@[i].0@)
                    && m[entries@[i].0@] == entries@[i].1,
            forall|k2: Seq<char>|
                m.dom().contains(k2) ==> exists|i: int|
                    0 <= i < entries@.len() && #[trigger] entries@[i].0@ == k2,
            forall|i: int| 0 <= i < k ==> json_str_of(#[trigger] entries@[i].1) is Some,
            forall|j: int|
                0 <= j < k ==> (#[trigger] out@[j]).0@ == entries@[j].0@ && m.dom().contains(
                    out@[j].0@,
                ) && json_str_of(m[out@[j].0@]) == Some(out@[j].1@),
        decreases entries@.len() - k,
    {
        let val_str = match json_as_str(&entries[k].1) {
            Some(s) => s,
            None => {
                return Err(
                    RegistryError::OciRegistry(String::from_str("annotation value not a string")),
                );
            }
        };
        out.push((entries[k].0.clone(), val_str));
        k += 1;
    }
    proof {
        assert(annotations_ok(*av)) by {
            assert forall|k2: Seq<char>| m.dom().contains(k2) implies json_str_of(
                #[trigger] m[k2],
            ) is Some by {
                let i = choose|i: int| 0 <= i < entries@.len() && #[trigger] entries@[i].0@ == k2;
                assert(m[k2] == entries@[i].1);
            }
        }
        assert forall|k2: Seq<char>| #[trigger] m.dom().contains(k2) implies exists|j: int|
            0 <= j < out@.len() && (#[trigger] out@[j]).0@ == k2 by {
            let i = choose|i: int| 0 <= i < entries@.len() && #[trigger] entries@[i].0@ == k2;
            assert(out@[i].0@ == k2);
        }
    }
    Ok(out)
}

/// Every entry handed out by the entries view is in the map, and every key
/// of the map comes from some entry.
pub proof fn lemma_entries_map_complete(es: Seq<(String, serde_json::Value)>)
    requires
        crate::json::distinct_keys(es),
    ensures
        forall|i: int|
            0 <= i < es.len() ==> crate::json::entries_map(es).dom().contains(
                #[trigger] es[i].0@,
            ) && crate::json::entries_map(es)[es[i].0@] == es[i].1,
        forall|k2: Seq<char>|
            crate::json::entries_map(es).dom().contains(k2) ==> exists|i: int|
                0 <= i < es.len() && #[trigger] es[i].0@ == k2,
    decreases es.len(),
{
    if es.len() > 0 {
        lemma_entries_map_complete(es.drop_last());
        assert forall|i: int| 0 <= i < es.len() implies crate::json::entries_map(
            es,
        ).dom().contains(#[trigger] es[i].0@) && crate::json::entries_map(es)[es[i].0@]
            == es[i].1 by {
            if i < es.len() - 1 {
                assert(es.drop_last()[i] == es[i]);
                assert(es[i].0@ != es.last().0@);
            }
        }
        assert forall|k2: Seq<char>|
            crate::json::entries_map(es).dom().contains(k2) implies exists|i: int|
            0 <= i < es.len() && #[trigger] es[i].0@ == k2 by {
            if k2 == es.last().0@ {
                assert(es[es.len() - 1].0@ == k2);
            } else {
                assert(crate::json::entries_map(es.drop_last()).dom().contains(k2));
                let i = choose|i: int|
                    0 <= i < es.drop_last().len() && #[trigger] es.drop_last()[i].0@ == k2;
                assert(es.drop_last()[i] == es[i]);
                assert(es[i].0@ == k2);
            }
        }
    }
}

/// Parses a descriptor out of a JSON value.
pub fn parse_descriptor(v: &serde_json::Value) -> (r: Result<Descriptor, RegistryError>)
    ensures
        match r {
            Ok(d) => spec_descriptor(*v) == Some(d@),
            Err(_) => spec_descriptor(*v) is None,
        },
{
    let media_type = match json_get(v, "mediaType") {
        Some(mv) => match json_as_str(mv) {
            Some(s) => s,
            None => {
                return Err(RegistryError::OciRegistry(String::from_str("mediaType not a string")));
            }
        },
        None => {
            return Err(RegistryError::OciRegistry(String::from_str("descriptor lacks mediaType")));
        }
    };
    proof {
        reveal_strlit("mediaType");
    }
    let digest = match json_get(v, "digest") {
        Some(dv) => match json_as_str(dv) {
            Some(s) => s,
            None => {
                return Err(RegistryError::OciRegistry(String::from_str("digest not a string")));
            }
        },
        None => {
            return Err(RegistryError::OciRegistry(String::from_str("descriptor lacks digest")));
        }
    };
    proof {
        reveal_strlit("digest");
    }
    let size_i = match json_get(v, "size") {
        Some(sv) => match json_as_i64(sv) {
            Some(n) => n,
            None => {
                return Err(RegistryError::OciRegistry(String::from_str("size not an integer")));
            }
        },
        None => {
            return Err(RegistryError::OciRegistry(String::from_str("descriptor lacks size")));
        }
    };
    proof {
        reveal_strlit("size");
    }
    if size_i < 0 {
        return Err(RegistryError::OciRegistry(String::from_str("file size negative")));
    }
    let size: u64 = size_i as u64;
    let ref_name = match json_get(v, "annotations") {
        Some(av) => {
            match parse_annotations(av) {
                Ok(n) => n,
                Err(e) => {
                    return Err(e);
                }
            }
        }
        None => None,
    };
    proof {
        reveal_strlit("annotations");
    }
    Ok(Descriptor { media_type, digest, size, ref_name })
}

/// The ghost shape of an image index.
pub struct ImageIndexView {
    pub schema_version: u64,
    pub media_type: Option<Seq<char>>,
    pub manifests: Seq<DescriptorView>,
}

/// An image index: a schema version, an optional media type, and the list of
/// manifest descriptors.
#[derive(Debug, Clone)]
pub struct ImageIndex {
    pub schema_version: u64,
    pub media_type: Option<String>,
    pub manifests: Vec<Descriptor>,
}

impl View for ImageIndex {
    type V = ImageIndexView;

    open spec fn view(&self) -> ImageIndexView {
        ImageIndexView {
            schema_version: self.schema_version,
            media_type: match self.media_type {
                Some(s) => Some(s@),
                None => None,
            },
            manifests: self.manifests@.map_values(|d: Descriptor| d@),
        }
    }
}

/// The descriptor views of a JSON array's items, when every item parses.
pub open spec fn spec_descriptors(items: Seq<serde_json::Value>) -> Option<Seq<DescriptorView>>
    decreases items.len(),
{
    if items.len() == 0 {
        Some(Seq::empty())
    } else {
        match (spec_descriptors(items.drop_last()), spec_descriptor(items.last())) {
            (Some(init), Some(last)) => Some(init.push(last)),
            _ => None,
        }
    }
}

/// Parses each item of a descriptor list.
fn parse_descriptors(items: &Vec<serde_json::Value>) -> (r: Result<Vec<Descriptor>, RegistryError>)
    ensures
        match r {
            Ok(ds) => spec_descriptors(items@) == Some(ds@.map_values(|d: Descriptor| d@)),
            Err(_) => spec_descriptors(items@) is None,
        },
{
    let mut out: Vec<Descriptor> = Vec::new();
    let mut k: usize = 0;
    proof {
        assert(items@.take(0) =~= Seq::<serde_json::Value>::empty());
        assert(out@.map_values(|d: Descriptor| d@) =~= Seq::<DescriptorView>::empty());
    }
    while k < items.len()
        invariant
            k <= items@.len(),
            spec_descriptors(items@.take(k as int)) == Some(
                out@.map_values(|d: Descriptor| d@),
            ),
        decreases items@.len() - k,
    {
        match parse_descriptor(&items[k]) {
            Ok(d) => {
                let ghost old_out = out@;
                out.push(d);
                proof {
                    assert(items@.take(k as int + 1).drop_last() =~= items@.take(k as int));
                    assert(items@.take(k as int + 1).last() == items@[k as int]);
                    assert(out@.map_values(|d: Descriptor| d@) =~= old_out.map_values(
                        |d: Descriptor| d@,
                    ).push(d@));
                }
            }
            Err(e) => {
                proof {
                    lemma_spec_descriptors_fail(items@, k as int);
                }
                return Err(e);
            }
        }
        k += 1;
    }
    proof {
        assert(items@.take(items@.len() as int) =~= items@);
    }
    Ok(out)
}

/// If one item fails to parse, the whole list has no parse.
proof fn lemma_spec_descriptors_fail(items: Seq<serde_json::Value>, k: int)
    requires
        0 <= k < items.len(),
        spec_descriptor(items[k]) is None,
    ensures
        spec_descriptors(items) is None,
    decreases items.len(),
{
    if items.len() > 0 {
        if k == items.len() - 1 {
        } else {
            lemma_spec_descriptors_fail(items.drop_last(), k);
        }
    }
}

/// The image index a JSON value denotes, if well-formed.
pub open spec fn spec_image_index(v: serde_json::Value) -> Option<ImageIndexView> {
    if json_obj(v) is Some && {
        let m = json_obj(v).unwrap();
        &&& m.dom().contains("schemaVersion"@) && json_u64_of(m["schemaVersion"@]) is Some
        &&& (m.dom().contains("mediaType"@) ==> json_str_of(m["mediaType"@]) is Some)
        &&& m.dom().contains("manifests"@) && json_arr(m["manifests"@]) is Some
            && spec_descriptors(json_arr(m["manifests"@]).unwrap()) is Some
    } {
        let m = json_obj(v).unwrap();
        Some(
            ImageIndexView {
                schema_version: json_u64_of(m["schemaVersion"@]).unwrap(),
                media_type: if m.dom().contains("mediaType"@) {
                    Some(json_str_of(m["mediaType"@]).unwrap())
                } else {
                    None
                },
                manifests: spec_descriptors(json_arr(m["manifests"@]).unwrap()).unwrap(),
            },
        )
    } else {
        None
    }
}

/// Parses an image index out of a JSON value.
pub fn parse_image_index(v: &serde_json::Value) -> (r: Result<ImageIndex, RegistryError>)
    ensures
        match r {
            Ok(doc) => spec_image_index(*v) == Some(doc@),
            Err(_) => spec_image_index(*v) is None,
        },
{
    let schema_version = match json_get(v, "schemaVersion") {
        Some(sv) => match json_as_u64(sv) {
            Some(n) => n,
            None => {
                return Err(
                    RegistryError::OciRegistry(String::from_str("schemaVersion not an integer")),
                );
            }
        },
        None => {
            return Err(RegistryError::OciRegistry(String::from_str("index lacks schemaVersion")));
        }
    };
    proof {
        reveal_strlit("schemaVersion");
    }
    let media_type = match json_get(v, "mediaType") {
        Some(mv) => match json_as_str(mv) {
            Some(s) => Some(s),
            None => {
                return Err(RegistryError::OciRegistry(String::from_str("mediaType not a string")));
            }
        },
        None => None,
    };
    proof {
        reveal_strlit("mediaType");
    }
    let manifests_v = match json_get(v, "manifests") {
        Some(mv) => match json_items(mv) {
            Some(items) => items,
            None => {
                return Err(
                    RegistryError::OciRegistry(String::from_str("manifests not an array")),
                );
            }
        },
        None => {
            return Err(RegistryError::OciRegistry(String::from_str("index lacks manifests")));
        }
    };
    proof {
        reveal_strlit("manifests");
    }
    let manifests = match parse_descriptors(&manifests_v) {
        Ok(ds) => ds,
        Err(e) => {
            return Err(e);
        }
    };
    Ok(ImageIndex { schema_version, media_type, manifests })
}

/// The ghost shape of an image manifest.
pub struct ImageManifestView {
    pub schema_version: u64,
    pub media_type: Option<Seq<char>>,
    pub config: DescriptorView,
    pub layers: Seq<DescriptorView>,
}

/// An image manifest: a schema version, an optional media type, the config
/// descriptor and the ordered layer descriptors.
#[derive(Debug, Clone)]
pub struct ImageManifest {
    pub schema_version: u64,
    pub media_type: Option<String>,
    pub config: Descriptor,
    pub layers: Vec<Descriptor>,
}

impl View for ImageManifest {
    type V = ImageManifestView;

    open spec fn view(&self) -> ImageManifestView {
        ImageManifestView {
            schema_version: self.schema_version,
            media_type: match self.media_type {
                Some(s) => Some(s@),
                None => None,
            },
            config: self.config@,
            layers: self.layers@.map_values(|d: Descriptor| d@),
        }
    }
}

/// The image manifest a JSON value denotes, if well-formed.
pub open spec fn spec_image_manifest(v: serde_json::Value) -> Option<ImageManifestView> {
    if json_obj(v) is Some && {
        let m = json_obj(v).unwrap();
        &&& m.dom().contains("schemaVersion"@) && json_u64_of(m["schemaVersion"@]) is Some
        &&& (m.dom().contains("mediaType"@) ==> json_str_of(m["mediaType"@]) is Some)
        &&& m.dom().contains("config"@) && spec_descriptor(m["config"@]) is Some
        &&& m.dom().contains("layers"@) && json_arr(m["layers"@]) is Some && spec_descriptors(
            json_arr(m["layers"@]).unwrap(),
        ) is Some
    } {
        let m = json_obj(v).unwrap();
        Some(
            ImageManifestView {
                schema_version: json_u64_of(m["schemaVersion"@]).unwrap(),
                media_type: if m.dom().contains("mediaType"@) {
                    Some(json_str_of(m["mediaType"@]).unwrap())
                } else {
                    None
                },
                config: spec_descriptor(m["config"@]).unwrap(),
                layers: spec_descriptors(json_arr(m["layers"@]).unwrap()).unwrap(),
            },
        )
    } else {
        None
    }
}

/// Parses an image manifest out of a JSON value.
pub fn parse_image_manifest(v: &serde_json::Value) -> (r: Result<ImageManifest, RegistryError>)
    ensures
        match r {
            Ok(doc) => spec_image_manifest(*v) == Some(doc@),
            Err(_) => spec_image_manifest(*v) is None,
        },
{
    let schema_version = match json_get(v, "schemaVersion") {
        Some(sv) => match json_as_u64(sv) {
            Some(n) => n,
            None => {
                return Err(
                    RegistryError::OciRegistry(String::from_str("schemaVersion not an integer")),
                );
            }
        },
        None => {
            return Err(
                RegistryError::OciRegistry(String::from_str("manifest lacks schemaVersion")),
            );
        }
    };
    proof {
        reveal_strlit("schemaVersion");
    }
    let media_type = match json_get(v, "mediaType") {
        Some(mv) => match json_as_str(mv) {
            Some(s) => Some(s),
            None => {
                return Err(RegistryError::OciRegistry(String::from_str("mediaType not a string")));
            }
        },
        None => None,
    };
    proof {
        reveal_strlit("mediaType");
    }
    let config = match json_get(v, "config") {
        Some(cv) => match parse_descriptor(cv) {
            Ok(d) => d,
            Err(e) => {
                return Err(e);
            }
        },
        None => {
            return Err(RegistryError::OciRegistry(String::from_str("manifest lacks config")));
        }
    };
    proof {
        reveal_strlit("config");
    }
    let layers_v = match json_get(v, "layers") {
        Some(lv) => match json_items(lv) {
            Some(items) => items,
            None => {
                return Err(RegistryError::OciRegistry(String::from_str("layers not an array")));
            }
        },
        None => {
            return Err(RegistryError::OciRegistry(String::from_str("manifest lacks layers")));
        }
    };
    proof {
        reveal_strlit("layers");
    }
    let layers = match parse_descriptors(&layers_v) {
        Ok(ds) => ds,
        Err(e) => {
            return Err(e);
        }
    };
    Ok(ImageManifest { schema_version, media_type, config, layers })
}

/// The layout marker document: its `imageLayoutVersion` string.
#[derive(Debug, Clone)]
pub struct OciLayout {
    pub image_layout_version: String,
}

/// The layout version a JSON value declares, if well-formed.
pub open spec fn spec_oci_layout(v: serde_json::Value) -> Option<Seq<char>> {
    if json_obj(v) is Some && json_obj(v).unwrap().dom().contains("imageLayoutVersion"@)
        && json_str_of(json_obj(v).unwrap()["imageLayoutVersion"@]) is Some {
        Some(json_str_of(json_obj(v).unwrap()["imageLayoutVersion"@]).unwrap())
    } else {
        None
    }
}

/// Parses the layout marker out of a JSON value.
pub fn parse_oci_layout(v: &serde_json::Value) -> (r: Result<OciLayout, RegistryError>)
    ensures
        match r {
            Ok(doc) => spec_oci_layout(*v) == Some(doc.image_layout_version@),
            Err(_) => spec_oci_layout(*v) is None,
        },
{
    let version = match json_get(v, "imageLayoutVersion") {
        Some(sv) => match json_as_str(sv) {
            Some(s) => s,
            None => {
                return Err(
                    RegistryError::OciRegistry(
                        String::from_str("imageLayoutVersion not a string"),
                    ),
                );
            }
        },
        None => {
            return Err(
                RegistryError::OciRegistry(String::from_str("layout lacks imageLayoutVersion")),
            );
        }
    };
    proof {
        reveal_strlit("imageLayoutVersion");
    }
    Ok(OciLayout { image_layout_version: version })
}

/// The ghost shape of an image configuration.
pub struct ImageConfigView {
    pub diff_ids: Seq<Seq<char>>,
}

/// The slice of an image configuration the puller needs: the layer diff ids
/// under `rootfs.diff_ids`, in order.
#[derive(Debug, Clone)]
pub struct ImageConfig {
    pub diff_ids: Vec<String>,
}

impl View for ImageConfig {
    type V = ImageConfigView;

    open spec fn view(&self) -> ImageConfigView {
        ImageConfigView { diff_ids: self.diff_ids@.map_values(|s: String| s@) }
    }
}

/// The string views of a JSON array's items, when every item is a string.
pub open spec fn spec_strings(items: Seq<serde_json::Value>) -> Option<Seq<Seq<char>>>
    decreases items.len(),
{
    if items.len() == 0 {
        Some(Seq::empty())
    } else {
        match (spec_strings(items.drop_last()), json_str_of(items.last())) {
            (Some(init), Some(last)) => Some(init.push(last)),
            _ => None,
        }
    }
}

/// The image configuration a JSON value denotes, if well-formed.
pub open spec fn spec_image_config(v: serde_json::Value) -> Option<ImageConfigView> {
    if json_obj(v) is Some && {
        let m = json_obj(v).unwrap();
        &&& m.dom().contains("rootfs"@) && json_obj(m["rootfs"@]) is Some
        &&& json_obj(m["rootfs"@]).unwrap().dom().contains("diff_ids"@)
        &&& json_arr(json_obj(m["rootfs"@]).unwrap()["diff_ids"@]) is Some
        &&& spec_strings(json_arr(json_obj(m["rootfs"@]).unwrap()["diff_ids"@]).unwrap()) is Some
    } {
        Some(
            ImageConfigView {
                diff_ids: spec_strings(
                    json_arr(json_obj(json_obj(v).unwrap()["rootfs"@]).unwrap()["diff_ids"@]).unwrap(),
                ).unwrap(),
            },
        )
    } else {
        None
    }
}

/// Parses the diff ids out of an image configuration value.
pub fn parse_image_config(v: &serde_json::Value) -> (r: Result<ImageConfig, RegistryError>)
    ensures
        match r {
            Ok(doc) => spec_image_config(*v) == Some(doc@),
            Err(_) => spec_image_config(*v) is None,
        },
{
    let rootfs = match json_get(v, "rootfs") {
        Some(rv) => rv,
        None => {
            return Err(RegistryError::OciRegistry(String::from_str("config lacks rootfs")));
        }
    };
    proof {
        reveal_strlit("rootfs");
    }
    let diff_v = match json_get(rootfs, "diff_ids") {
        Some(dv) => match json_items(dv) {
            Some(items) => items,
            None => {
                return Err(RegistryError::OciRegistry(String::from_str("diff_ids not an array")));
            }
        },
        None => {
            return Err(RegistryError::OciRegistry(String::from_str("rootfs lacks diff_ids")));
        }
    };
    proof {
        reveal_strlit("diff_ids");
    }
    let mut diff_ids: Vec<String> = Vec::new();
    let mut k: usize = 0;
    proof {
        assert(diff_v@.take(0) =~= Seq::<serde_json::Value>::empty());
        assert(diff_ids@.map_values(|s: String| s@) =~= Seq::<Seq<char>>::empty());
    }
    while k < diff_v.len()
        invariant
            k <= diff_v@.len(),
            spec_strings(diff_v@.take(k as int)) == Some(diff_ids@.map_values(|s: String| s@)),
            json_obj(*v) is Some,
            json_obj(*v).unwrap().dom().contains("rootfs"@),
            json_obj(json_obj(*v).unwrap()["rootfs"@]) is Some,
            json_obj(json_obj(*v).unwrap()["rootfs"@]).unwrap().dom().contains("diff_ids"@),
            json_arr(json_obj(json_obj(*v).unwrap()["rootfs"@]).unwrap()["diff_ids"@]) == Some(
                diff_v@,
            ),
        decreases diff_v@.len() - k,
    {
        match json_as_str(&diff_v[k]) {
            Some(s) => {
                let ghost old_ids = diff_ids@;
                diff_ids.push(s);
                proof {
                    assert(diff_v@.take(k as int + 1).drop_last() =~= diff_v@.take(k as int));
                    assert(diff_v@.take(k as int + 1).last() == diff_v@[k as int]);
                    assert(diff_ids@.map_values(|s: String| s@) =~= old_ids.map_values(
                        |s: String| s@,
                    ).push(diff_ids@.last()@));
                }
            }
            None => {
                proof {
                    lemma_spec_strings_fail(diff_v@, k as int);
                    assert(json_arr(
                        json_obj(json_obj(*v).unwrap()["rootfs"@]).unwrap()["diff_ids"@],
                    ) == Some(diff_v@));
                    assert(spec_image_config(*v) is None);
                }
                return Err(
                    RegistryError::OciRegistry(String::from_str("diff_id not a string")),
                );
            }
        }
        k += 1;
    }
    proof {
        assert(diff_v@.take(diff_v@.len() as int) =~= diff_v@);
    }
    Ok(ImageConfig { diff_ids })
}

/// If one item is not a string, the whole list has no string parse.
proof fn lemma_spec_strings_fail(items: Seq<serde_json::Value>, k: int)
    requires
        0 <= k < items.len(),
        json_str_of(items[k]) is None,
    ensures
        spec_strings(items) is None,
    decreases items.len(),
{
    if items.len() > 0 {
        if k == items.len() - 1 {
        } else {
            lemma_spec_strings_fail(items.drop_last(), k);
        }
    }
}

/// Documents that carry their own layout validity check.
pub trait Validate {
    /// What validity means for this document.
    spec fn valid(&self) -> bool;

    /// Checks validity, failing with the layout error.
    fn validate(&self) -> (r: Result<(), RegistryError>)
        ensures
            r is Ok <==> self.valid(),
    ;
}

impl Validate for OciLayout {
    /// The layout marker must declare version `1.0.0`.
    open spec fn valid(&self) -> bool {
        self.image_layout_version@ == "1.0.0"@
    }

    fn validate(&self) -> (r: Result<(), RegistryError>)
        ensures
            r is Ok <==> self.valid(),
    {
        if str_eq(self.image_layout_version.as_str(), "1.0.0") {
            Ok(())
        } else {
            Err(RegistryError::OciRegistry(String::from_str("wrong OCI layout version")))
        }
    }
}

impl Validate for ImageIndex {
    /// An index must have schema version 2 and the index media type.
    open spec fn valid(&self) -> bool {
        &&& self.schema_version == 2
        &&& self@.media_type == Some(media_type_chars(MediaType::ImageIndex))
    }

    fn validate(&self) -> (r: Result<(), RegistryError>)
        ensures
            r is Ok <==> self.valid(),
    {
        if self.schema_version != 2 {
            return Err(RegistryError::OciRegistry(String::from_str("wrong index schemaVersion")));
        }
        match &self.media_type {
            Some(mt) => {
                if str_eq(mt.as_str(), "application/vnd.oci.image.index.v1+json") {
                    Ok(())
                } else {
                    Err(RegistryError::OciRegistry(String::from_str("wrong index mediaType")))
                }
            }
            None => Err(RegistryError::OciRegistry(String::from_str("wrong index mediaType"))),
        }
    }
}

impl Validate for ImageManifest {
    /// A manifest must have schema version 2 and the manifest media type.
    open spec fn valid(&self) -> bool {
        &&& self.schema_version == 2
        &&& self@.media_type == Some(media_type_chars(MediaType::ImageManifest))
    }

    fn validate(&self) -> (r: Result<(), RegistryError>)
        ensures
            r is Ok <==> self.valid(),
    {
        if self.schema_version != 2 {
            return Err(
                RegistryError::OciRegistry(String::from_str("wrong manifest schemaVersion")),
            );
        }
        match &self.media_type {
            Some(mt) => {
                if str_eq(mt.as_str(), "application/vnd.oci.image.manifest.v1+json") {
                    Ok(())
                } else {
                    Err(RegistryError::OciRegistry(String::from_str("wrong manifest mediaType")))
                }
            }
            None => Err(RegistryError::OciRegistry(String::from_str("wrong manifest mediaType"))),
        }
    }
}

} // verus!
