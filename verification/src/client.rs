//! The pull client's verified core: connection modes, response header
//! reading, the integrity checks on JSON payloads, and the assembly of image
//! information from a manifest and its config blob.

use vstd::prelude::*;
use vstd::string::{StrSliceExecFns, StringExecFns};
use crate::digest::{Digest, parse_digest_chars};
use crate::docs::{Descriptor, ImageConfig, ImageManifest, parse_image_config};
use crate::errors::Error;
use crate::hashing::matches_hash;
use crate::httpd::{fold_val, is_digit_char, digits_value};
use crate::json::{json_of, json_parse};
use crate::mediatype::{MediaType, media_type_of_chars};

verus! {

/// The server's transport configurations.
#[derive(Debug, Clone, Copy, PartialEq, Eq, Structural)]
pub enum Protocol {
    NoTls,
    Tls,
    RaTls,
}

/// The client's transport choice as given on a command line.
#[derive(Debug, Clone, Copy, PartialEq, Eq, Structural)]
pub enum ConnectionType {
    NoTLS,
    TLS,
    RaTLS,
}

/// The client's connection mode; the TLS variants carry their certificate
/// configuration outside this crate.
#[derive(Debug, Clone, Copy, PartialEq, Eq, Structural)]
pub enum ConnectionMode {
    NoTls,
    RusTLS,
    RaTLS,
    CustomTLS,
}

impl ConnectionMode {
    /// The URL scheme of this mode: plain connections use `http://`,
    /// everything else `https://`.
    pub fn scheme(&self) -> (r: crate::service_url::Scheme)
        ensures
            r.text@ == (if self is NoTls {
                "http://"@
            } else {
                "https://"@
            }),
    {
        match self {
            ConnectionMode::NoTls => crate::service_url::http_scheme(),
            _ => crate::service_url::https_scheme(),
        }
    }
}

/// The client configuration: the host to pull from and the transport mode.
#[derive(Debug, Clone)]
pub struct Config {
    pub host: String,
    pub mode: ConnectionMode,
}

/// Builder state: nothing chosen yet.
pub struct WantsConfig {}

/// Builder state: the host is chosen, the transport is not.
pub struct WantsHost {
    pub host: String,
}

/// The staged configuration builder.
pub struct ConfigBuilder<S> {
    pub state: S,
}

impl Config {
    /// Starts building a configuration.
    pub fn builder() -> (r: ConfigBuilder<WantsConfig>)
        ensures
            true,
    {
        ConfigBuilder { state: WantsConfig {  } }
    }
}

impl ConfigBuilder<WantsConfig> {
    /// Chooses the host.
    pub fn host(self, host: String) -> (r: ConfigBuilder<WantsHost>)
        ensures
            r.state.host@ == host@,
    {
        ConfigBuilder { state: WantsHost { host } }
    }
}

impl ConfigBuilder<WantsHost> {
    /// A plain connection without TLS.
    pub fn no_tls(self) -> (r: Config)
        ensures
            r.host@ == self.state.host@,
            r.mode == ConnectionMode::NoTls,
    {
        Config { host: self.state.host, mode: ConnectionMode::NoTls }
    }

    /// A connection with the given transport mode; its TLS material lives
    /// with the caller.
    pub fn with_mode(self, mode: ConnectionMode) -> (r: Config)
        ensures
            r.host@ == self.state.host@,
            r.mode == mode,
    {
        Config { host: self.state.host, mode }
    }
}

/// Case-insensitive equality on header names.
pub open spec fn chars_eq_ci(a: Seq<char>, b: Seq<char>) -> bool {
    a.len() == b.len() && forall|i: int| 0 <= i < a.len() ==> fold_val(#[trigger] a[i]) == fold_val(
        b[i],
    )
}

fn str_eq_ci(a: &str, b: &str) -> (r: bool)
    ensures
        r == chars_eq_ci(a@, b@),
{
    let na = a.unicode_len();
    let nb = b.unicode_len();
    if na != nb {
        return false;
    }
    let mut k: usize = 0;
    while k < na
        invariant
            k <= na,
            na == a@.len() && na == b@.len(),
            forall|i: int| 0 <= i < k ==> fold_val(#[trigger] a@[i]) == fold_val(b@[i]),
        decreases na - k,
    {
        let ca = a.get_char(k);
        let cb = b.get_char(k);
        let fa: u32 = if 'A' <= ca && ca <= 'Z' {
            ca as u32 + 32
        } else {
            ca as u32
        };
        let fb: u32 = if 'A' <= cb && cb <= 'Z' {
            cb as u32 + 32
        } else {
            cb as u32
        };
        if fa != fb {
            return false;
        }
        k += 1;
    }
    true
}

/// The first header whose name equals `name` case-insensitively.
pub open spec fn spec_header(headers: Seq<(String, String)>, name: Seq<char>) -> Option<
    Seq<char>,
>
    decreases headers.len(),
{
    if headers.len() == 0 {
        None
    } else if chars_eq_ci(headers[0].0@, name) {
        Some(headers[0].1@)
    } else {
        spec_header(headers.drop_first(), name)
    }
}

/// Looks a header up by case-insensitive name.
pub fn find_header<'a>(headers: &'a Vec<(String, String)>, name: &str) -> (r: Option<&'a String>)
    ensures
        match r {
            Some(v) => spec_header(headers@, name@) == Some(v@),
            None => spec_header(headers@, name@) is None,
        },
{
    let mut k: usize = 0;
    proof {
        assert(headers@.skip(0) =~= headers@);
    }
    while k < headers.len()
        invariant
            k <= headers@.len(),
            spec_header(headers@.skip(k as int), name@) == spec_header(headers@, name@),
        decreases headers@.len() - k,
    {
        proof {
            assert(headers@.skip(k as int)[0] == headers@[k as int]);
            assert(headers@.skip(k as int).drop_first() =~= headers@.skip(k as int + 1));
        }
        if str_eq_ci(headers[k].0.as_str(), name) {
            return Some(&headers[k].1);
        }
        k += 1;
    }
    proof {
        assert(headers@.skip(headers@.len() as int) =~= Seq::<(String, String)>::empty());
    }
    None
}

/// The `Content-Type` header's value.
pub fn content_type(headers: &Vec<(String, String)>) -> (r: Option<String>)
    ensures
        match r {
            Some(v) => spec_header(headers@, "Content-Type"@) == Some(v@),
            None => spec_header(headers@, "Content-Type"@) is None,
        },
{
    match find_header(headers, "Content-Type") {
        Some(v) => Some(v.clone()),
        None => None,
    }
}

/// The decimal value of a string of digits, when it is one and fits.
pub open spec fn spec_parse_len(s: Seq<char>) -> Option<usize> {
    if 1 <= s.len() <= 19 && (forall|i: int| 0 <= i < s.len() ==> is_digit_char(#[trigger] s[i]))
        && digits_value(s) <= usize::MAX {
        Some(digits_value(s) as usize)
    } else {
        None
    }
}

/// Parses a decimal header value; twenty or more digits cannot name a
/// payload length that fits in memory and give `None`.
pub fn parse_len(s: &str) -> (r: Option<usize>)
    ensures
        r == spec_parse_len(s@),
{
    let n = s.unicode_len();
    if n < 1 || n > 19 {
        return None;
    }
    let mut value: u64 = 0;
    let mut k: usize = 0;
    proof {
        assert(s@.take(0) =~= Seq::<char>::empty());
    }
    while k < n
        invariant
            k <= n,
            n == s@.len(),
            n <= 19,
            forall|i: int| 0 <= i < k ==> is_digit_char(#[trigger] s@[i]),
            value == digits_value(s@.take(k as int)),
        decreases n - k,
    {
        let c = s.get_char(k);
        if !('0' <= c && c <= '9') {
            return None;
        }
        let d: u64 = (c as u32 - 48) as u64;
        proof {
            crate::httpd::lemma_digits_bound(s@.take(k as int));
            assert(s@.take(k as int + 1).drop_last() =~= s@.take(k as int));
            assert(s@.take(k as int + 1).last() == s@[k as int]);
        }
        value = value * 10 + d;
        k += 1;
    }
    proof {
        assert(s@.take(n as int) =~= s@);
        crate::httpd::lemma_digits_bound(s@);
    }
    if value > usize::MAX as u64 {
        return None;
    }
    Some(value as usize)
}

/// The `Content-Length` header parsed as a number.
pub fn content_length(headers: &Vec<(String, String)>) -> (r: Option<usize>)
    ensures
        r == (match spec_header(headers@, "Content-Length"@) {
            Some(v) => spec_parse_len(v),
            None => None,
        }),
{
    match find_header(headers, "Content-Length") {
        Some(v) => parse_len(v.as_str()),
        None => None,
    }
}

/// The `Docker-Content-Digest` header's value.
pub fn docker_content_digest(headers: &Vec<(String, String)>) -> (r: Option<String>)
    ensures
        match r {
            Some(v) => spec_header(headers@, "Docker-Content-Digest"@) == Some(v@),
            None => spec_header(headers@, "Docker-Content-Digest"@) is None,
        },
{
    match find_header(headers, "Docker-Content-Digest") {
        Some(v) => Some(v.clone()),
        None => None,
    }
}

/// A media-type mismatch between header and document is tolerated only when
/// one of the two is absent.
pub fn verify_content_type(content_type: &Option<String>, media_type: &Option<MediaType>) -> (r:
    bool)
    ensures
        r == (match (content_type, media_type) {
            (Some(ct), Some(mt)) => ct@ == crate::mediatype::media_type_chars(*mt),
            _ => true,
        }),
{
    match (content_type, media_type) {
        (Some(ct), Some(mt)) => crate::text::str_eq(ct.as_str(), mt.as_str()),
        _ => true,
    }
}

/// Maps an HTTP status to the client's error: any non-2xx status is a
/// status error, never a panic.
pub fn check_status(status: u16) -> (r: Result<(), Error>)
    ensures
        r is Ok <==> 200 <= status < 300,
        r is Err ==> r.unwrap_err() == Error::StatusError(status),
{
    if 200 <= status && status < 300 {
        Ok(())
    } else {
        Err(Error::StatusError(status))
    }
}

/// The integrity checks on a buffered JSON payload: a `Content-Length`
/// header must equal the byte count, and a `Docker-Content-Digest` header
/// must parse and match the bytes.
pub fn check_json_response(
    bytes: &[u8],
    content_length: Option<usize>,
    content_digest: Option<&String>,
) -> (r: Result<(), Error>)
    ensures
        match r {
            Ok(_) => {
                &&& (content_length is Some ==> content_length.unwrap() == bytes@.len())
                &&& (content_digest is Some ==> parse_digest_chars(content_digest.unwrap()@)
                    is Some && matches_hash(
                    parse_digest_chars(content_digest.unwrap()@).unwrap().0,
                    parse_digest_chars(content_digest.unwrap()@).unwrap().1,
                    bytes@,
                ))
            },
            Err(e) => {
                ||| (content_length is Some && content_length.unwrap() != bytes@.len() && e
                    == Error::ResponseLengthInvalid)
                ||| (content_digest is Some && e == Error::ResponseDigestInvalid && (
                parse_digest_chars(content_digest.unwrap()@) is None || !matches_hash(
                    parse_digest_chars(content_digest.unwrap()@).unwrap().0,
                    parse_digest_chars(content_digest.unwrap()@).unwrap().1,
                    bytes@,
                )))
            },
        },
{
    if let Some(cl) = content_length {
        if cl != bytes.len() {
            return Err(Error::ResponseLengthInvalid);
        }
    }
    if let Some(cd) = content_digest {
        let d = match Digest::parse(cd.as_str()) {
            Ok(d) => d,
            Err(_) => {
                return Err(Error::ResponseDigestInvalid);
            }
        };
        if !crate::hashing::verify_digest(&d, bytes) {
            return Err(Error::ResponseDigestInvalid);
        }
    }
    Ok(())
}

/// What a blob response's headers say about the stream: its length, its
/// media type when recognized, and its digest.
#[derive(Debug)]
pub struct BlobInfo {
    pub length: Option<usize>,
    pub media_type: Option<MediaType>,
    pub digest: Option<Digest>,
}

impl BlobInfo {
    /// The announced length.
    pub fn len(&self) -> (r: &Option<usize>)
        ensures
            r == self.length,
    {
        &self.length
    }

    /// The recognized media type.
    pub fn media_type(&self) -> (r: &Option<MediaType>)
        ensures
            r == self.media_type,
    {
        &self.media_type
    }

    /// The announced digest.
    pub fn digest(&self) -> (r: &Option<Digest>)
        ensures
            r == self.digest,
    {
        &self.digest
    }

    /// Reads the blob metadata out of response headers; an announced digest
    /// that does not parse is an integrity error.
    pub fn from_headers(headers: &Vec<(String, String)>) -> (r: Result<BlobInfo, Error>)
        ensures
            match r {
                Ok(info) => {
                    &&& info.length == (match spec_header(headers@, "Content-Length"@) {
                        Some(v) => spec_parse_len(v),
                        None => None,
                    })
                    &&& info.media_type == (match spec_header(headers@, "Content-Type"@) {
                        Some(v) => media_type_of_chars(v),
                        None => None,
                    })
                    &&& (match spec_header(headers@, "Docker-Content-Digest"@) {
                        Some(v) => info.digest is Some && parse_digest_chars(v) is Some
                            && info.digest.unwrap().algo == parse_digest_chars(v).unwrap().0
                            && info.digest.unwrap().hash@ == parse_digest_chars(v).unwrap().1,
                        None => info.digest is None,
                    })
                },
                Err(e) => e == Error::ResponseDigestInvalid && (match spec_header(
                    headers@,
                    "Docker-Content-Digest"@,
                ) {
                    Some(v) => parse_digest_chars(v) is None,
                    None => false,
                }),
            },
    {
        let length = content_length(headers);
        let media_type = match content_type(headers) {
            Some(ct) => MediaType::from_str(ct.as_str()),
            None => None,
        };
        let digest = match docker_content_digest(headers) {
            Some(cd) => {
                match Digest::parse(cd.as_str()) {
                    Ok(d) => Some(d),
                    Err(_) => {
                        return Err(Error::ResponseDigestInvalid);
                    }
                }
            }
            None => None,
        };
        Ok(BlobInfo { length, media_type, digest })
    }
}

/// Everything the puller needs about one image: the manifest's layers, the
/// config and its digest, and the manifest's annotations.
#[derive(Debug, Clone)]
pub struct ImageInfo {
    pub app_name: String,
    pub layers: Vec<Descriptor>,
    pub config_digest: Digest,
    pub config: ImageConfig,
    pub annotations: Vec<(String, String)>,
}

impl ImageInfo {
    /// The parsed image configuration.
    pub fn config(&self) -> (r: &ImageConfig)
        ensures
            r == self.config,
    {
        &self.config
    }

    /// The digest of the config blob.
    pub fn config_digest(&self) -> (r: &Digest)
        ensures
            r == self.config_digest,
    {
        &self.config_digest
    }

    /// The manifest's annotations.
    pub fn annotations(&self) -> (r: &Vec<(String, String)>)
        ensures
            r == self.annotations,
    {
        &self.annotations
    }
}

/// Whether image information can be assembled: the config digest parses,
/// the fetched blob hashes to it, and the blob parses as an image
/// configuration.
pub open spec fn spec_image_info_ok(config_digest: Seq<char>, config_bytes: Seq<u8>) -> bool {
    &&& parse_digest_chars(config_digest) is Some
    &&& matches_hash(
        parse_digest_chars(config_digest).unwrap().0,
        parse_digest_chars(config_digest).unwrap().1,
        config_bytes,
    )
    &&& json_of(config_bytes) is Some
    &&& crate::docs::spec_image_config(json_of(config_bytes).unwrap()) is Some
}

/// Builds the image information from a manifest document and the fetched
/// config blob: the config digest must parse and the blob must hash to it,
/// and the blob must parse as an image configuration; succeeds exactly when
/// all of that holds.
pub fn build_image_info(
    app_name: &str,
    manifest: &ImageManifest,
    annotations: Vec<(String, String)>,
    config_bytes: &[u8],
) -> (r: Result<ImageInfo, Error>)
    ensures
        r is Ok <==> spec_image_info_ok(manifest.config.digest@, config_bytes@),
        match r {
            Ok(info) => {
                &&& parse_digest_chars(manifest.config.digest@) is Some
                &&& info.config_digest.algo == parse_digest_chars(
                    manifest.config.digest@,
                ).unwrap().0
                &&& info.config_digest.hash@ == parse_digest_chars(
                    manifest.config.digest@,
                ).unwrap().1
                &&& matches_hash(info.config_digest.algo, info.config_digest.hash@, config_bytes@)
                &&& json_of(config_bytes@) is Some
                &&& crate::docs::spec_image_config(json_of(config_bytes@).unwrap()) == Some(
                    info.config@,
                )
                &&& info.app_name@ == app_name@
                &&& info.layers@ == manifest.layers@
                &&& info.annotations == annotations
            },
            Err(e) => {
                ||| (e == Error::DigestInvalidError && (parse_digest_chars(
                    manifest.config.digest@,
                ) is None || !matches_hash(
                    parse_digest_chars(manifest.config.digest@).unwrap().0,
                    parse_digest_chars(manifest.config.digest@).unwrap().1,
                    config_bytes@,
                )))
                ||| (e is JSONParsingError && json_of(config_bytes@) is None)
                ||| (e == Error::ManifestFormatError && json_of(config_bytes@) is Some
                    && crate::docs::spec_image_config(json_of(config_bytes@).unwrap()) is None)
            },
        },
{
    let config_digest = match Digest::parse(manifest.config.digest.as_str()) {
        Ok(d) => d,
        Err(_) => {
            return Err(Error::DigestInvalidError);
        }
    };
    if !crate::hashing::verify_digest(&config_digest, config_bytes) {
        return Err(Error::DigestInvalidError);
    }
    let cv = match json_parse(config_bytes) {
        Some(v) => v,
        None => {
            return Err(Error::JSONParsingError(String::from_str("config is not JSON")));
        }
    };
    let config = match parse_image_config(&cv) {
        Ok(c) => c,
        Err(_) => {
            return Err(Error::ManifestFormatError);
        }
    };
    let mut layers: Vec<Descriptor> = Vec::new();
    let mut k: usize = 0;
    proof {
        assert(layers@ =~= manifest.layers@.take(0));
    }
    while k < manifest.layers.len()
        invariant
            k <= manifest.layers@.len(),
            layers@ == manifest.layers@.take(k as int),
        decreases manifest.layers@.len() - k,
    {
        layers.push(manifest.layers[k].dup());
        proof {
            assert(layers@ =~= manifest.layers@.take(k as int + 1));
        }
        k += 1;
    }
    proof {
        assert(manifest.layers@.take(manifest.layers@.len() as int) =~= manifest.layers@);
    }
    Ok(
        ImageInfo {
            app_name: String::from_str(app_name),
            layers,
            config_digest,
            config,
            annotations,
        },
    )
}

} // verus!
