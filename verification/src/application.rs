//! The application loader: builds the per-application tag, manifest and blob
//! maps from an in-memory snapshot of the application directory, enforcing
//! digest, size, layout and tag validity as it walks the descriptor tree.

use vstd::prelude::*;
use vstd::string::{StrSliceExecFns, StringExecFns};
use crate::digest::{Digest, HashType, parse_digest_chars, digest_chars, algo_chars};
use crate::docs::{Descriptor, Validate, parse_image_index, parse_image_manifest, parse_oci_layout,
    spec_image_index, spec_image_manifest};
use crate::errors::RegistryError;
use crate::hashing::{matches_hash, verify_digest};
use crate::json::json_parse;
use crate::mediatype::{MediaType, media_type_of_chars};
use crate::tag::valid_tag;
use crate::text::str_eq;
use crate::assoc::{keys_distinct, assoc_find, upsert, assoc_contains};

verus! {

/// One blob file found on disk: its directory (the algorithm), its file name
/// (the hex hash) and its bytes.
pub struct BlobFile {
    pub algo: HashType,
    pub hex: String,
    pub data: Vec<u8>,
}

/// The in-memory snapshot of one application directory.
pub struct AppTree {
    pub layout: Option<Vec<u8>>,
    pub index: Vec<u8>,
    pub blobs: Vec<BlobFile>,
}

/// A materialized pointer to a file: its path relative to the application
/// directory, its size, its canonical digest string and its media type.
#[derive(Debug, Clone)]
pub struct Content {
    pub path: String,
    pub size: u64,
    pub digest: String,
    pub media_type: String,
}

impl Content {
    /// A field-for-field copy.
    pub fn dup(&self) -> (r: Content)
        ensures
            r == *self,
    {
        Content {
            path: self.path.clone(),
            size: self.size,
            digest: self.digest.clone(),
            media_type: self.media_type.clone(),
        }
    }
}

/// The relative path of a blob: `blobs/algo/hex`.
pub open spec fn blob_path_chars(t: HashType, h: Seq<char>) -> Seq<char> {
    "blobs/"@ + algo_chars(t) + seq!['/'] + h
}

/// A content record resolves in the tree: its digest string parses, a blob
/// file with that algorithm and hex name exists, the file's length equals
/// the declared size, and the path is the blob's path. When `verified`, the
/// file's hash also matches the digest.
pub open spec fn content_ok(blobs: Seq<BlobFile>, c: Content, verified: bool) -> bool {
    &&& parse_digest_chars(c.digest@) is Some
    &&& {
        let t = parse_digest_chars(c.digest@).unwrap().0;
        let h = parse_digest_chars(c.digest@).unwrap().1;
        &&& c.path@ == blob_path_chars(t, h)
        &&& exists|i: int|
            #![auto]
            0 <= i < blobs.len() && blobs[i].algo == t && blobs[i].hex@ == h
                && blobs[i].data@.len() == c.size && (verified ==> matches_hash(
                t,
                h,
                blobs[i].data@,
            ))
    }
}

/// A named logical image repository: tags, manifests and blobs, each a map
/// with distinct keys. Manifests and blobs are keyed by the canonical digest
/// string, tags by the tag text.
pub struct Application {
    pub path: String,
    pub tags: Vec<(String, Content)>,
    pub manifests: Vec<(String, Content)>,
    pub blobs: Vec<(String, Content)>,
}

/// The loader's invariant: every registered content resolves in the tree
/// with its declared size; tag names are valid tags and tagged contents are
/// hash-verified; all three maps have distinct keys.
pub open spec fn app_wf(blobs: Seq<BlobFile>, app: Application) -> bool {
    &&& keys_distinct(app.tags@) && keys_distinct(app.manifests@) && keys_distinct(app.blobs@)
    &&& forall|j: int|
        0 <= j < app.tags@.len() ==> valid_tag(#[trigger] app.tags@[j].0@) && content_ok(
            blobs,
            app.tags@[j].1,
            true,
        )
    &&& forall|j: int| 0 <= j < app.manifests@.len() ==> content_ok(
        blobs,
        (#[trigger] app.manifests@[j]).1,
        false,
    )
    &&& forall|j: int| 0 <= j < app.blobs@.len() ==> content_ok(
        blobs,
        (#[trigger] app.blobs@[j]).1,
        false,
    )
}

/// If every old entry's content resolves and the map changed by replacing or
/// adding entries whose content resolves, every new entry's content
/// resolves.
proof fn lemma_map_entries_ok(
    blobs: Seq<BlobFile>,
    olds: Seq<(String, Content)>,
    news: Seq<(String, Content)>,
)
    requires
        forall|j: int| 0 <= j < olds.len() ==> content_ok(blobs, (#[trigger] olds[j]).1, false),
        forall|j: int|
            0 <= j < news.len() ==> content_ok(blobs, (#[trigger] news[j]).1, false) || (exists|
                i: int,
            |
                #![auto]
                0 <= i < olds.len() && olds[i] == news[j]),
    ensures
        forall|j: int| 0 <= j < news.len() ==> content_ok(blobs, (#[trigger] news[j]).1, false),
{
    assert forall|j: int| 0 <= j < news.len() implies content_ok(
        blobs,
        (#[trigger] news[j]).1,
        false,
    ) by {
        if !content_ok(blobs, news[j].1, false) {
            let i = choose|i: int| #![auto] 0 <= i < olds.len() && olds[i] == news[j];
        }
    }
}

/// The data of the first blob with the given algorithm and hex name.
pub open spec fn blob_data(blobs: Seq<BlobFile>, t: HashType, h: Seq<char>) -> Option<Seq<u8>>
    decreases blobs.len(),
{
    if blobs.len() == 0 {
        None
    } else if blobs[0].algo == t && blobs[0].hex@ == h {
        Some(blobs[0].data@)
    } else {
        blob_data(blobs.drop_first(), t, h)
    }
}

/// Finds the first blob file with the given algorithm and hex name.
fn find_blob<'a>(tree: &'a AppTree, algo: HashType, hex: &str) -> (r: Option<&'a BlobFile>)
    ensures
        match r {
            Some(b) => b.algo == algo && b.hex@ == hex@ && blob_data(tree.blobs@, algo, hex@)
                == Some(b.data@) && (exists|i: int|
                #![auto]
                0 <= i < tree.blobs@.len() && tree.blobs@[i] == *b),
            None => blob_data(tree.blobs@, algo, hex@) is None && (forall|i: int|
                #![auto]
                0 <= i < tree.blobs@.len() ==> !(tree.blobs@[i].algo == algo
                    && tree.blobs@[i].hex@ == hex@)),
        },
{
    let mut k: usize = 0;
    proof {
        assert(tree.blobs@.skip(0) =~= tree.blobs@);
    }
    while k < tree.blobs.len()
        invariant
            k <= tree.blobs@.len(),
            blob_data(tree.blobs@.skip(k as int), algo, hex@) == blob_data(
                tree.blobs@,
                algo,
                hex@,
            ),
            forall|i: int|
                #![auto]
                0 <= i < k ==> !(tree.blobs@[i].algo == algo && tree.blobs@[i].hex@ == hex@),
        decreases tree.blobs@.len() - k,
    {
        proof {
            assert(tree.blobs@.skip(k as int)[0] == tree.blobs@[k as int]);
            assert(tree.blobs@.skip(k as int).drop_first() =~= tree.blobs@.skip(k as int + 1));
        }
        let b = &tree.blobs[k];
        let same_algo = match (b.algo, algo) {
            (HashType::Sha256, HashType::Sha256) => true,
            (HashType::Sha512, HashType::Sha512) => true,
            _ => false,
        };
        if same_algo && str_eq(b.hex.as_str(), hex) {
            return Some(b);
        }
        k += 1;
    }
    proof {
        assert(tree.blobs@.skip(tree.blobs@.len() as int) =~= Seq::<BlobFile>::empty());
    }
    None
}


/// Whether one descriptor imports successfully against the snapshot: its
/// digest parses, the named blob exists with the declared size, a
/// layout-index descriptor's file additionally hashes to the digest and its
/// tag annotation (if any) passes the grammar, the media type is one of the
/// closed set, and a nested index or manifest document imports in turn.
pub open spec fn spec_import_descriptor(
    blobs: Seq<BlobFile>,
    d: crate::docs::DescriptorView,
    layout: bool,
    fuel: nat,
) -> bool
    decreases fuel, 0int,
{
    &&& parse_digest_chars(d.digest) is Some
    &&& {
        let t = parse_digest_chars(d.digest).unwrap().0;
        let h = parse_digest_chars(d.digest).unwrap().1;
        &&& blob_data(blobs, t, h) is Some
        &&& blob_data(blobs, t, h).unwrap().len() == d.size
        &&& (layout ==> matches_hash(t, h, blob_data(blobs, t, h).unwrap()))
        &&& (layout && d.ref_name is Some ==> valid_tag(d.ref_name.unwrap()))
        &&& media_type_of_chars(d.media_type) is Some
        &&& match media_type_of_chars(d.media_type).unwrap() {
            MediaType::ImageIndex => fuel > 0 && spec_import_index(
                blobs,
                blob_data(blobs, t, h).unwrap(),
                false,
                (fuel - 1) as nat,
            ),
            MediaType::ImageManifest => fuel > 0 && spec_import_manifest(
                blobs,
                blob_data(blobs, t, h).unwrap(),
                (fuel - 1) as nat,
            ),
            _ => true,
        }
    }
}

/// Whether an index document imports: its bytes parse as a valid image
/// index and every listed descriptor imports.
pub open spec fn spec_import_index(
    blobs: Seq<BlobFile>,
    bytes: Seq<u8>,
    layout: bool,
    fuel: nat,
) -> bool
    decreases fuel, 1int,
{
    &&& crate::json::json_of(bytes) is Some
    &&& crate::docs::spec_image_index(crate::json::json_of(bytes).unwrap()) is Some
    &&& {
        let doc = crate::docs::spec_image_index(crate::json::json_of(bytes).unwrap()).unwrap();
        &&& doc.schema_version == 2
        &&& doc.media_type == Some(crate::mediatype::media_type_chars(MediaType::ImageIndex))
        &&& forall|i: int|
            0 <= i < doc.manifests.len() ==> spec_import_descriptor(
                blobs,
                #[trigger] doc.manifests[i],
                layout,
                fuel,
            )
    }
}

/// Whether a manifest document imports: its bytes parse as a valid image
/// manifest and its config and every layer descriptor import.
pub open spec fn spec_import_manifest(blobs: Seq<BlobFile>, bytes: Seq<u8>, fuel: nat) -> bool
    decreases fuel, 1int,
{
    &&& crate::json::json_of(bytes) is Some
    &&& crate::docs::spec_image_manifest(crate::json::json_of(bytes).unwrap()) is Some
    &&& {
        let doc = crate::docs::spec_image_manifest(crate::json::json_of(bytes).unwrap()).unwrap();
        &&& doc.schema_version == 2
        &&& doc.media_type == Some(crate::mediatype::media_type_chars(MediaType::ImageManifest))
        &&& spec_import_descriptor(blobs, doc.config, false, fuel)
        &&& forall|i: int|
            0 <= i < doc.layers.len() ==> spec_import_descriptor(
                blobs,
                #[trigger] doc.layers[i],
                false,
                fuel,
            )
    }
}

/// Whether a whole application snapshot imports: the layout marker is
/// present, parses, and declares version 1.0.0, and the layout index imports
/// with hash verification.
pub open spec fn spec_import_app(tree: AppTree) -> bool {
    &&& tree.layout is Some
    &&& crate::json::json_of(tree.layout.unwrap()@) is Some
    &&& crate::docs::spec_oci_layout(crate::json::json_of(tree.layout.unwrap()@).unwrap()) == Some(
        "1.0.0"@,
    )
    &&& spec_import_index(tree.blobs@, tree.index@, true, tree.blobs@.len())
}

/// A descriptor is registered: its canonical digest string keys the map its
/// media type selects, and a layout descriptor's tag keys the tag map.
pub open spec fn descriptor_registered(
    app: Application,
    d: crate::docs::DescriptorView,
    layout: bool,
) -> bool {
    &&& parse_digest_chars(d.digest) is Some
    &&& media_type_of_chars(d.media_type) is Some
    &&& {
        let dc = digest_chars(
            parse_digest_chars(d.digest).unwrap().0,
            parse_digest_chars(d.digest).unwrap().1,
        );
        match media_type_of_chars(d.media_type).unwrap() {
            MediaType::ImageIndex => assoc_find(app.manifests@, dc) is Some,
            MediaType::ImageManifest => assoc_find(app.manifests@, dc) is Some,
            _ => assoc_find(app.blobs@, dc) is Some,
        }
    }
    &&& (layout && d.ref_name is Some ==> assoc_find(app.tags@, d.ref_name.unwrap()) is Some)
}

/// Every key present in the old application's maps is still present.
pub open spec fn maps_preserved(olda: Application, newa: Application) -> bool {
    &&& forall|k: Seq<char>|
        #[trigger] assoc_find(olda.tags@, k) is Some ==> assoc_find(newa.tags@, k) is Some
    &&& forall|k: Seq<char>|
        #[trigger] assoc_find(olda.manifests@, k) is Some ==> assoc_find(newa.manifests@, k)
            is Some
    &&& forall|k: Seq<char>|
        #[trigger] assoc_find(olda.blobs@, k) is Some ==> assoc_find(newa.blobs@, k) is Some
}

/// Preservation composes.
proof fn lemma_maps_preserved_trans(a: Application, b: Application, c: Application)
    requires
        maps_preserved(a, b),
        maps_preserved(b, c),
    ensures
        maps_preserved(a, c),
{
    assert forall|k: Seq<char>| #[trigger] assoc_find(a.tags@, k) is Some implies assoc_find(
        c.tags@,
        k,
    ) is Some by {
        assert(assoc_find(b.tags@, k) is Some);
    }
    assert forall|k: Seq<char>| #[trigger] assoc_find(a.manifests@, k) is Some implies assoc_find(
        c.manifests@,
        k,
    ) is Some by {
        assert(assoc_find(b.manifests@, k) is Some);
    }
    assert forall|k: Seq<char>| #[trigger] assoc_find(a.blobs@, k) is Some implies assoc_find(
        c.blobs@,
        k,
    ) is Some by {
        assert(assoc_find(b.blobs@, k) is Some);
    }
}

/// A registered descriptor stays registered when the maps only grow.
proof fn lemma_registered_mono(
    a: Application,
    b: Application,
    d: crate::docs::DescriptorView,
    layout: bool,
)
    requires
        descriptor_registered(a, d, layout),
        maps_preserved(a, b),
    ensures
        descriptor_registered(b, d, layout),
{
}

impl Application {
    /// An empty application rooted at `path`.
    pub fn new(path: String) -> (r: Application)
        ensures
            r.path@ == path@,
            r.tags@ =~= Seq::<(String, Content)>::empty(),
            r.manifests@ =~= Seq::<(String, Content)>::empty(),
            r.blobs@ =~= Seq::<(String, Content)>::empty(),
    {
        Application { path, tags: Vec::new(), manifests: Vec::new(), blobs: Vec::new() }
    }

    /// The tag map.
    pub fn get_tags(&self) -> (r: &Vec<(String, Content)>)
        ensures
            r@ == self.tags@,
    {
        &self.tags
    }

    /// The manifest map, keyed by canonical digest string.
    pub fn get_manifests(&self) -> (r: &Vec<(String, Content)>)
        ensures
            r@ == self.manifests@,
    {
        &self.manifests
    }

    /// The blob map, keyed by canonical digest string.
    pub fn get_blobs(&self) -> (r: &Vec<(String, Content)>)
        ensures
            r@ == self.blobs@,
    {
        &self.blobs
    }

    /// Registers one descriptor: resolves its blob file, checks the declared
    /// size against the file, and dispatches on the media type, recursing
    /// into nested indices and manifests. For descriptors of the layout
    /// index it additionally verifies the file hash and registers the
    /// `ref.name` tag. `fuel` bounds the nesting depth.
    pub fn import_descriptor(
        &mut self,
        tree: &AppTree,
        desc: &Descriptor,
        layout_index: bool,
        fuel: usize,
    ) -> (r: Result<(), RegistryError>)
        requires
            app_wf(tree.blobs@, *old(self)),
        ensures
            r is Ok ==> app_wf(tree.blobs@, *final(self)),
            final(self).path@ == old(self).path@,
            r is Ok <==> spec_import_descriptor(tree.blobs@, desc@, layout_index, fuel as nat),
            r is Ok ==> maps_preserved(*old(self), *final(self)),
            r is Ok ==> descriptor_registered(*final(self), desc@, layout_index),
        decreases fuel, 0int,
    {
        let digest = match Digest::parse(desc.digest.as_str()) {
            Ok(d) => d,
            Err(e) => {
                return Err(e);
            }
        };
        let blob = match find_blob(tree, digest.algo, digest.value()) {
            Some(b) => b,
            None => {
                return Err(
                    RegistryError::OciRegistry(String::from_str("requested digest doesn't exist")),
                );
            }
        };
        let file_size = blob.data.len();
        if file_size as u64 != desc.size {
            return Err(RegistryError::OciRegistry(String::from_str("wrong file length")));
        }
        let mut path = String::from_str("blobs/");
        path.append(digest.to_path().as_str());
        proof {
            reveal_strlit("blobs/");
            assert(path@ =~= blob_path_chars(digest.algo, digest.hash@));
        }
        let content = Content {
            path,
            size: desc.size,
            digest: digest.to_string(),
            media_type: desc.media_type.clone(),
        };
        proof {
            crate::digest::lemma_digest_round_trip(content.digest@);
            assert(content_ok(tree.blobs@, content, false));
        }
        if layout_index {
            if !verify_digest(&digest, blob.data.as_slice()) {
                return Err(RegistryError::OciRegistry(String::from_str("hash check failed")));
            }
            proof {
                assert(content_ok(tree.blobs@, content, true));
            }
            if let Some(tag) = &desc.ref_name {
                if !crate::tag::verify(tag.as_str()) {
                    return Err(RegistryError::OciRegistry(String::from_str("invalid tag")));
                }
                let ghost old_tags = self.tags@;
                upsert(&mut self.tags, tag.clone(), content.dup());
                proof {
                    assert forall|j: int| 0 <= j < self.tags@.len() implies valid_tag(
                        #[trigger] self.tags@[j].0@,
                    ) && content_ok(tree.blobs@, self.tags@[j].1, true) by {
                        if !(self.tags@[j].0@ == tag@ && self.tags@[j].1 == content) {
                            let i = choose|i: int|
                                #![auto]
                                0 <= i < old_tags.len() && old_tags[i] == self.tags@[j];
                        }
                    }
                    assert(app_wf(tree.blobs@, *self));
                }
            }
        }
        proof {
            assert(maps_preserved(*old(self), *self)) by {
                assert(forall|k: Seq<char>|
                    #[trigger] assoc_find(old(self).manifests@, k) is Some ==> assoc_find(
                        self.manifests@,
                        k,
                    ) is Some);
                assert(forall|k: Seq<char>|
                    #[trigger] assoc_find(old(self).blobs@, k) is Some ==> assoc_find(
                        self.blobs@,
                        k,
                    ) is Some);
            }
        }
        let ghost s_tagged = *self;
        let media_type = match MediaType::from_str(desc.media_type.as_str()) {
            Some(m) => m,
            None => {
                return Err(RegistryError::OciRegistry(String::from_str("unsupported media type")));
            }
        };
        match media_type {
            MediaType::ImageIndex => {
                if fuel == 0 {
                    return Err(
                        RegistryError::OciRegistry(String::from_str("descriptor tree too deep")),
                    );
                }
                match self.import_index(tree, &blob.data, false, fuel - 1) {
                    Ok(()) => {}
                    Err(e) => {
                        return Err(e);
                    }
                }
                let ghost s_rec = *self;
                let ghost old_ms = self.manifests@;
                let key = content.digest.clone();
                upsert(&mut self.manifests, key, content);
                proof {
                    lemma_map_entries_ok(tree.blobs@, old_ms, self.manifests@);
                    assert(app_wf(tree.blobs@, *self));
                    assert(maps_preserved(s_rec, *self));
                    lemma_maps_preserved_trans(s_tagged, s_rec, *self);
                    lemma_maps_preserved_trans(*old(self), s_tagged, *self);
                    assert(assoc_find(self.manifests@, digest_chars(digest.algo, digest.hash@))
                        is Some);
                }
            }
            MediaType::ImageManifest => {
                if fuel == 0 {
                    return Err(
                        RegistryError::OciRegistry(String::from_str("descriptor tree too deep")),
                    );
                }
                match self.import_manifest(tree, &blob.data, fuel - 1) {
                    Ok(()) => {}
                    Err(e) => {
                        return Err(e);
                    }
                }
                let ghost s_rec = *self;
                let ghost old_ms = self.manifests@;
                let key = content.digest.clone();
                upsert(&mut self.manifests, key, content);
                proof {
                    lemma_map_entries_ok(tree.blobs@, old_ms, self.manifests@);
                    assert(app_wf(tree.blobs@, *self));
                    assert(maps_preserved(s_rec, *self));
                    lemma_maps_preserved_trans(s_tagged, s_rec, *self);
                    lemma_maps_preserved_trans(*old(self), s_tagged, *self);
                    assert(assoc_find(self.manifests@, digest_chars(digest.algo, digest.hash@))
                        is Some);
                }
            }
            _ => {
                let ghost old_bs = self.blobs@;
                let key = content.digest.clone();
                upsert(&mut self.blobs, key, content);
                proof {
                    lemma_map_entries_ok(tree.blobs@, old_bs, self.blobs@);
                    assert(app_wf(tree.blobs@, *self));
                    assert(maps_preserved(s_tagged, *self));
                    lemma_maps_preserved_trans(*old(self), s_tagged, *self);
                    assert(assoc_find(self.blobs@, digest_chars(digest.algo, digest.hash@))
                        is Some);
                }
            }
        }
        proof {
            assert(spec_import_descriptor(tree.blobs@, desc@, layout_index, fuel as nat));
            assert(descriptor_registered(*self, desc@, layout_index)) by {
                if layout_index && desc.ref_name is Some {
                    assert(assoc_find(s_tagged.tags@, desc@.ref_name.unwrap()) is Some);
                }
            }
        }
        Ok(())
    }

    /// Imports an image index document: parses, validates, and registers
    /// each descriptor it lists. Succeeds exactly when the document and
    /// every listed descriptor import against the snapshot, and then every
    /// listed descriptor is registered.
    pub fn import_index(
        &mut self,
        tree: &AppTree,
        bytes: &Vec<u8>,
        layout_index: bool,
        fuel: usize,
    ) -> (r: Result<(), RegistryError>)
        requires
            app_wf(tree.blobs@, *old(self)),
        ensures
            r is Ok ==> app_wf(tree.blobs@, *final(self)),
            final(self).path@ == old(self).path@,
            r is Ok <==> spec_import_index(tree.blobs@, bytes@, layout_index, fuel as nat),
            r is Ok ==> maps_preserved(*old(self), *final(self)),
            r is Ok ==> forall|i: int|
                0 <= i < spec_image_index(
                    crate::json::json_of(bytes@).unwrap(),
                ).unwrap().manifests.len() ==> descriptor_registered(
                    *final(self),
                    #[trigger] spec_image_index(
                        crate::json::json_of(bytes@).unwrap(),
                    ).unwrap().manifests[i],
                    layout_index,
                ),
        decreases fuel, 1int,
    {
        let v = match json_parse(bytes.as_slice()) {
            Some(v) => v,
            None => {
                return Err(RegistryError::OciRegistry(String::from_str("error importing index")));
            }
        };
        let index = match parse_image_index(&v) {
            Ok(doc) => doc,
            Err(e) => {
                return Err(e);
            }
        };
        match index.validate() {
            Ok(()) => {}
            Err(e) => {
                return Err(e);
            }
        }
        let ghost doc = index@;
        let mut k: usize = 0;
        while k < index.manifests.len()
            invariant
                app_wf(tree.blobs@, *self),
                self.path@ == old(self).path@,
                k <= index.manifests@.len(),
                crate::json::json_of(bytes@) is Some,
                spec_image_index(crate::json::json_of(bytes@).unwrap()) == Some(doc),
                doc == index@,
                doc.manifests.len() == index.manifests@.len(),
                forall|i: int|
                    0 <= i < index.manifests@.len() ==> doc.manifests[i] == (
                    #[trigger] index.manifests@[i])@,
                maps_preserved(*old(self), *self),
                forall|i: int|
                    0 <= i < k ==> spec_import_descriptor(
                        tree.blobs@,
                        #[trigger] doc.manifests[i],
                        layout_index,
                        fuel as nat,
                    ),
                forall|i: int|
                    0 <= i < k ==> descriptor_registered(
                        *self,
                        #[trigger] doc.manifests[i],
                        layout_index,
                    ),
            decreases index.manifests@.len() - k,
        {
            let ghost s_before = *self;
            match self.import_descriptor(tree, &index.manifests[k], layout_index, fuel) {
                Ok(()) => {}
                Err(e) => {
                    proof {
                        assert(!spec_import_descriptor(
                            tree.blobs@,
                            doc.manifests[k as int],
                            layout_index,
                            fuel as nat,
                        ));
                    }
                    return Err(e);
                }
            }
            proof {
                lemma_maps_preserved_trans(*old(self), s_before, *self);
                assert forall|i: int| 0 <= i < k + 1 implies descriptor_registered(
                    *self,
                    #[trigger] doc.manifests[i],
                    layout_index,
                ) by {
                    if i < k as int {
                        lemma_registered_mono(s_before, *self, doc.manifests[i], layout_index);
                    }
                }
            }
            k += 1;
        }
        Ok(())
    }

    /// Imports an image manifest document: parses, validates, and registers
    /// its config descriptor and each layer descriptor. Succeeds exactly
    /// when the document, its config and every layer import against the
    /// snapshot, and then all of them are registered.
    pub fn import_manifest(&mut self, tree: &AppTree, bytes: &Vec<u8>, fuel: usize) -> (r: Result<
        (),
        RegistryError,
    >)
        requires
            app_wf(tree.blobs@, *old(self)),
        ensures
            r is Ok ==> app_wf(tree.blobs@, *final(self)),
            final(self).path@ == old(self).path@,
            r is Ok <==> spec_import_manifest(tree.blobs@, bytes@, fuel as nat),
            r is Ok ==> maps_preserved(*old(self), *final(self)),
            r is Ok ==> descriptor_registered(
                *final(self),
                spec_image_manifest(crate::json::json_of(bytes@).unwrap()).unwrap().config,
                false,
            ),
            r is Ok ==> forall|i: int|
                0 <= i < spec_image_manifest(
                    crate::json::json_of(bytes@).unwrap(),
                ).unwrap().layers.len() ==> descriptor_registered(
                    *final(self),
                    #[trigger] spec_image_manifest(
                        crate::json::json_of(bytes@).unwrap(),
                    ).unwrap().layers[i],
                    false,
                ),
        decreases fuel, 1int,
    {
        let v = match json_parse(bytes.as_slice()) {
            Some(v) => v,
            None => {
                return Err(
                    RegistryError::OciRegistry(String::from_str("error importing manifest")),
                );
            }
        };
        let manifest = match parse_image_manifest(&v) {
            Ok(doc) => doc,
            Err(e) => {
                return Err(e);
            }
        };
        match manifest.validate() {
            Ok(()) => {}
            Err(e) => {
                return Err(e);
            }
        }
        let ghost doc = manifest@;
        let ghost s0 = *self;
        match self.import_descriptor(tree, &manifest.config, false, fuel) {
            Ok(()) => {}
            Err(e) => {
                return Err(e);
            }
        }
        let ghost s_cfg = *self;
        let mut k: usize = 0;
        while k < manifest.layers.len()
            invariant
                app_wf(tree.blobs@, *self),
                self.path@ == old(self).path@,
                k <= manifest.layers@.len(),
                crate::json::json_of(bytes@) is Some,
                spec_image_manifest(crate::json::json_of(bytes@).unwrap()) == Some(doc),
                doc == manifest@,
                doc.layers.len() == manifest.layers@.len(),
                forall|i: int|
                    0 <= i < manifest.layers@.len() ==> doc.layers[i] == (
                    #[trigger] manifest.layers@[i])@,
                maps_preserved(*old(self), *self),
                descriptor_registered(*self, doc.config, false),
                forall|i: int|
                    0 <= i < k ==> spec_import_descriptor(
                        tree.blobs@,
                        #[trigger] doc.layers[i],
                        false,
                        fuel as nat,
                    ),
                forall|i: int|
                    0 <= i < k ==> descriptor_registered(*self, #[trigger] doc.layers[i], false),
            decreases manifest.layers@.len() - k,
        {
            let ghost s_before = *self;
            match self.import_descriptor(tree, &manifest.layers[k], false, fuel) {
                Ok(()) => {}
                Err(e) => {
                    proof {
                        assert(!spec_import_descriptor(
                            tree.blobs@,
                            doc.layers[k as int],
                            false,
                            fuel as nat,
                        ));
                    }
                    return Err(e);
                }
            }
            proof {
                lemma_maps_preserved_trans(*old(self), s_before, *self);
                lemma_registered_mono(s_before, *self, doc.config, false);
                assert forall|i: int| 0 <= i < k + 1 implies descriptor_registered(
                    *self,
                    #[trigger] doc.layers[i],
                    false,
                ) by {
                    if i < k as int {
                        lemma_registered_mono(s_before, *self, doc.layers[i], false);
                    }
                }
            }
            k += 1;
        }
        Ok(())
    }

    /// Loads an application from a directory snapshot: validates the layout
    /// marker, imports the layout index with hash verification and tag
    /// registration, and returns the populated maps. Succeeds exactly when
    /// the snapshot imports: the layout marker declares version 1.0.0 and
    /// the layout index and everything it references import. Every
    /// registered content then resolves in the snapshot with its declared
    /// size, every tagged content is hash-verified, and every descriptor of
    /// the layout index is registered per its media type. Orphaned blob
    /// files never cause failure.
    pub fn import(path: String, tree: &AppTree) -> (r: Result<Application, RegistryError>)
        ensures
            r is Ok <==> spec_import_app(*tree),
            match r {
                Ok(app) => {
                    &&& app_wf(tree.blobs@, app)
                    &&& app.path@ == path@
                    &&& forall|i: int|
                        0 <= i < spec_image_index(
                            crate::json::json_of(tree.index@).unwrap(),
                        ).unwrap().manifests.len() ==> descriptor_registered(
                            app,
                            #[trigger] spec_image_index(
                                crate::json::json_of(tree.index@).unwrap(),
                            ).unwrap().manifests[i],
                            true,
                        )
                },
                Err(_) => true,
            },
    {
        proof {
            reveal_strlit("1.0.0");
        }
        let layout_bytes = match &tree.layout {
            Some(b) => b,
            None => {
                return Err(RegistryError::OciRegistry(String::from_str("missing oci-layout")));
            }
        };
        let lv = match json_parse(layout_bytes.as_slice()) {
            Some(v) => v,
            None => {
                return Err(
                    RegistryError::OciRegistry(String::from_str("error importing oci-layout")),
                );
            }
        };
        let layout = match parse_oci_layout(&lv) {
            Ok(doc) => doc,
            Err(e) => {
                return Err(e);
            }
        };
        match layout.validate() {
            Ok(()) => {}
            Err(e) => {
                return Err(e);
            }
        }
        let mut app = Application::new(path);
        let fuel = tree.blobs.len();
        match app.import_index(tree, &tree.index, true, fuel) {
            Ok(()) => {}
            Err(e) => {
                return Err(e);
            }
        }
        Ok(app)
    }

    /// Blob files that no registered manifest or blob refers to; reported to
    /// the caller for logging, never fatal. Each reported digest names an
    /// unreferenced blob file of the tree, every unreferenced blob file is
    /// reported, and no name is reported twice.
    pub fn find_orphans(&self, tree: &AppTree) -> (r: Vec<Digest>)
        ensures
            forall|j: int|
                0 <= j < r@.len() ==> names_orphan_blob(*self, tree.blobs@, #[trigger] r@[j]),
            forall|i: int|
                0 <= i < tree.blobs@.len() && !blob_referenced(*self, #[trigger] tree.blobs@[i])
                    ==> exists|j: int|
                    0 <= j < r@.len() && (#[trigger] r@[j]).algo == tree.blobs@[i].algo
                        && r@[j].hash@ == tree.blobs@[i].hex@,
            forall|j1: int, j2: int|
                0 <= j1 < j2 < r@.len() ==> !((#[trigger] r@[j1]).algo == (#[trigger] r@[j2]).algo
                    && r@[j1].hash@ == r@[j2].hash@),
    {
        let mut orphans: Vec<Digest> = Vec::new();
        let mut k: usize = 0;
        while k < tree.blobs.len()
            invariant
                k <= tree.blobs@.len(),
                forall|j: int|
                    0 <= j < orphans@.len() ==> names_orphan_blob(
                        *self,
                        tree.blobs@,
                        #[trigger] orphans@[j],
                    ),
                forall|i: int|
                    0 <= i < k && !blob_referenced(*self, #[trigger] tree.blobs@[i]) ==> exists|
                        j: int,
                    |
                        0 <= j < orphans@.len() && (#[trigger] orphans@[j]).algo
                            == tree.blobs@[i].algo && orphans@[j].hash@ == tree.blobs@[i].hex@,
                forall|j1: int, j2: int|
                    0 <= j1 < j2 < orphans@.len() ==> !((#[trigger] orphans@[j1]).algo == (
                    #[trigger] orphans@[j2]).algo && orphans@[j1].hash@ == orphans@[j2].hash@),
            decreases tree.blobs@.len() - k,
        {
            let b = &tree.blobs[k];
            let digest = Digest::new_unchecked(b.algo, b.hex.clone());
            let key = digest.to_string();
            proof {
                assert(key@ == digest_chars(tree.blobs@[k as int].algo, tree.blobs@[k as int].hex@));
            }
            let in_blobs = assoc_contains(&self.blobs, key.as_str());
            let in_manifests = assoc_contains(&self.manifests, key.as_str());
            let already = digest_listed(&orphans, b.algo, b.hex.as_str());
            let ghost old_orphans = orphans@;
            if !in_blobs && !in_manifests && !already {
                orphans.push(digest);
            }
            proof {
                if !in_blobs && !in_manifests && !already {
                    let j = orphans@.len() - 1;
                    assert(orphans@[j].algo == tree.blobs@[k as int].algo && orphans@[j].hash@
                        == tree.blobs@[k as int].hex@);
                    assert(!blob_referenced(*self, tree.blobs@[k as int]));
                    assert(names_orphan_blob(*self, tree.blobs@, orphans@[j]));
                }
                assert forall|i: int|
                    0 <= i < k + 1 && !blob_referenced(
                        *self,
                        #[trigger] tree.blobs@[i],
                    ) implies exists|j: int|
                    0 <= j < orphans@.len() && (#[trigger] orphans@[j]).algo == tree.blobs@[i].algo
                        && orphans@[j].hash@ == tree.blobs@[i].hex@ by {
                    if i < k as int {
                        let j = choose|j: int|
                            0 <= j < old_orphans.len() && (#[trigger] old_orphans[j]).algo
                                == tree.blobs@[i].algo && old_orphans[j].hash@
                                == tree.blobs@[i].hex@;
                        assert(orphans@[j] == old_orphans[j]);
                    } else if !in_blobs && !in_manifests && !already {
                        assert(orphans@[orphans@.len() - 1].algo == tree.blobs@[i].algo
                            && orphans@[orphans@.len() - 1].hash@ == tree.blobs@[i].hex@);
                    } else if already {
                        let j = choose|j: int|
                            0 <= j < old_orphans.len() && (#[trigger] old_orphans[j]).algo
                                == b.algo && old_orphans[j].hash@ == b.hex@;
                        assert(orphans@[j] == old_orphans[j]);
                    } else {
                        assert(blob_referenced(*self, tree.blobs@[k as int]));
                    }
                }
            }
            k += 1;
        }
        orphans
    }
}

/// Whether the list already holds a digest with the given name.
fn digest_listed(v: &Vec<Digest>, algo: HashType, hex: &str) -> (r: bool)
    ensures
        r == exists|j: int|
            0 <= j < v@.len() && (#[trigger] v@[j]).algo == algo && v@[j].hash@ == hex@,
{
    let mut k: usize = 0;
    while k < v.len()
        invariant
            k <= v@.len(),
            forall|j: int|
                0 <= j < k ==> !((#[trigger] v@[j]).algo == algo && v@[j].hash@ == hex@),
        decreases v@.len() - k,
    {
        let same_algo = match (v[k].algo, algo) {
            (HashType::Sha256, HashType::Sha256) => true,
            (HashType::Sha512, HashType::Sha512) => true,
            _ => false,
        };
        if same_algo && str_eq(v[k].hash.as_str(), hex) {
            return true;
        }
        k += 1;
    }
    false
}

/// Whether a blob file's name keys the application's manifest or blob map
/// under its canonical digest string.
pub open spec fn blob_referenced(app: Application, b: BlobFile) -> bool {
    assoc_find(app.blobs@, digest_chars(b.algo, b.hex@)) is Some || assoc_find(
        app.manifests@,
        digest_chars(b.algo, b.hex@),
    ) is Some
}

/// Whether a digest carries the algorithm and hex name of some unreferenced
/// blob file.
pub open spec fn names_orphan_blob(app: Application, blobs: Seq<BlobFile>, d: Digest) -> bool {
    exists|i: int|
        #![trigger blobs[i]]
        0 <= i < blobs.len() && blobs[i].algo == d.algo && blobs[i].hex@ == d.hash@
            && !blob_referenced(app, blobs[i])
}

} // verus!
