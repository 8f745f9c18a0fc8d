//! The closed set of media types the registry understands.

use vstd::prelude::*;
use vstd::string::StringExecFns;
use crate::text::str_eq;

verus! {

/// Media types used by manifests, indices, configs and layers.
#[derive(Debug, Clone, Copy, PartialEq, Eq, Structural)]
pub enum MediaType {
    ImageIndex,
    ImageManifest,
    ImageConfig,
    ImageLayer,
    ImageLayerGzip,
    ImageLayerZstd,
}

/// The canonical string of each media type.
pub open spec fn media_type_chars(m: MediaType) -> Seq<char> {
    match m {
        MediaType::ImageIndex => "application/vnd.oci.image.index.v1+json"@,
        MediaType::ImageManifest => "application/vnd.oci.image.manifest.v1+json"@,
        MediaType::ImageConfig => "application/vnd.oci.image.config.v1+json"@,
        MediaType::ImageLayer => "application/vnd.oci.image.layer.v1.tar"@,
        MediaType::ImageLayerGzip => "application/vnd.oci.image.layer.v1.tar+gzip"@,
        MediaType::ImageLayerZstd => "application/vnd.oci.image.layer.v1.tar+zstd"@,
    }
}

/// The media type a string names, if it is one of the closed set.
pub open spec fn media_type_of_chars(s: Seq<char>) -> Option<MediaType> {
    if s == media_type_chars(MediaType::ImageIndex) {
        Some(MediaType::ImageIndex)
    } else if s == media_type_chars(MediaType::ImageManifest) {
        Some(MediaType::ImageManifest)
    } else if s == media_type_chars(MediaType::ImageConfig) {
        Some(MediaType::ImageConfig)
    } else if s == media_type_chars(MediaType::ImageLayer) {
        Some(MediaType::ImageLayer)
    } else if s == media_type_chars(MediaType::ImageLayerGzip) {
        Some(MediaType::ImageLayerGzip)
    } else if s == media_type_chars(MediaType::ImageLayerZstd) {
        Some(MediaType::ImageLayerZstd)
    } else {
        None
    }
}

impl MediaType {
    /// The canonical string form.
    pub fn as_str(&self) -> (r: &'static str)
        ensures
            r@ == media_type_chars(*self),
    {
        match self {
            MediaType::ImageIndex => "application/vnd.oci.image.index.v1+json",
            MediaType::ImageManifest => "application/vnd.oci.image.manifest.v1+json",
            MediaType::ImageConfig => "application/vnd.oci.image.config.v1+json",
            MediaType::ImageLayer => "application/vnd.oci.image.layer.v1.tar",
            MediaType::ImageLayerGzip => "application/vnd.oci.image.layer.v1.tar+gzip",
            MediaType::ImageLayerZstd => "application/vnd.oci.image.layer.v1.tar+zstd",
        }
    }

    /// The canonical string form, owned.
    pub fn to_string(&self) -> (r: String)
        ensures
            r@ == media_type_chars(*self),
    {
        String::from_str(self.as_str())
    }

    /// Parses a media type string; `None` for anything outside the closed
    /// set.
    pub fn from_str(s: &str) -> (r: Option<MediaType>)
        ensures
            r == media_type_of_chars(s@),
    {
        if str_eq(s, "application/vnd.oci.image.index.v1+json") {
            Some(MediaType::ImageIndex)
        } else if str_eq(s, "application/vnd.oci.image.manifest.v1+json") {
            Some(MediaType::ImageManifest)
        } else if str_eq(s, "application/vnd.oci.image.config.v1+json") {
            Some(MediaType::ImageConfig)
        } else if str_eq(s, "application/vnd.oci.image.layer.v1.tar") {
            Some(MediaType::ImageLayer)
        } else if str_eq(s, "application/vnd.oci.image.layer.v1.tar+gzip") {
            Some(MediaType::ImageLayerGzip)
        } else if str_eq(s, "application/vnd.oci.image.layer.v1.tar+zstd") {
            Some(MediaType::ImageLayerZstd)
        } else {
            None
        }
    }

    /// True for the three layer media types.
    pub open spec fn spec_is_layer(&self) -> bool {
        self is ImageLayer || self is ImageLayerGzip || self is ImageLayerZstd
    }

    /// True for the three layer media types.
    pub fn is_layer(&self) -> (r: bool)
        ensures
            r == self.spec_is_layer(),
    {
        match self {
            MediaType::ImageLayer => true,
            MediaType::ImageLayerGzip => true,
            MediaType::ImageLayerZstd => true,
            _ => false,
        }
    }

    /// The file extension a fetched layer is stored under; `None` for
    /// non-layer media types.
    pub fn layer_extension(&self) -> (r: Option<&'static str>)
        ensures
            match r {
                Some(e) => self.spec_is_layer() && e@ == (match self {
                    MediaType::ImageLayer => "tar"@,
                    MediaType::ImageLayerGzip => "tar.gz"@,
                    _ => "tar.zstd"@,
                }),
                None => !self.spec_is_layer(),
            },
    {
        match self {
            MediaType::ImageLayer => Some("tar"),
            MediaType::ImageLayerGzip => Some("tar.gz"),
            MediaType::ImageLayerZstd => Some("tar.zstd"),
            _ => None,
        }
    }
}

/// Layer encodings a client can ask a local unpack for.
#[derive(Debug, Clone, Copy, PartialEq, Eq, Structural)]
pub enum ClientMediaType {
    Tar,
    TarGz,
    TarZstd,
}

impl ClientMediaType {
    /// The registry media type of this layer encoding.
    pub fn into_media_type(self) -> (r: MediaType)
        ensures
            r == match self {
                ClientMediaType::Tar => MediaType::ImageLayer,
                ClientMediaType::TarGz => MediaType::ImageLayerGzip,
                ClientMediaType::TarZstd => MediaType::ImageLayerZstd,
            },
    {
        match self {
            ClientMediaType::Tar => MediaType::ImageLayer,
            ClientMediaType::TarGz => MediaType::ImageLayerGzip,
            ClientMediaType::TarZstd => MediaType::ImageLayerZstd,
        }
    }
}

} // verus!
