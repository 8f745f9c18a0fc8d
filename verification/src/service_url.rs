//! Building the registry URLs a client requests: schemes, endpoint paths,
//! and tag-listing query options.

use vstd::prelude::*;
use vstd::string::{StrSliceExecFns, StringExecFns};
use crate::digest::Digest;
use crate::errors::Error;
use crate::httpd::{dec_chars, u64_to_string};
use crate::mediatype::MediaType;
use crate::reference::Reference;
use crate::tag::Tag;

verus! {

/// A URL scheme prefix.
#[derive(Debug, Clone, Copy)]
pub struct Scheme {
    pub text: &'static str,
}

impl Scheme {
    /// Wraps a scheme prefix.
    pub fn init(scheme: &'static str) -> (r: Scheme)
        ensures
            r.text@ == scheme@,
    {
        Scheme { text: scheme }
    }

    /// The scheme prefix.
    pub fn as_str(&self) -> (r: &'static str)
        ensures
            r@ == self.text@,
    {
        self.text
    }
}

/// The secure scheme.
pub fn https_scheme() -> (r: Scheme)
    ensures
        r.text@ == "https://"@,
{
    Scheme { text: "https://" }
}

/// The plain scheme.
pub fn http_scheme() -> (r: Scheme)
    ensures
        r.text@ == "http://"@,
{
    Scheme { text: "http://" }
}

/// Tag-listing options: a page limit and a cut-point.
pub struct TagList {
    pub n: Option<usize>,
    pub last: Option<Tag>,
}

impl TagList {
    /// The endpoint's file name.
    pub fn as_str(&self) -> (r: &'static str)
        ensures
            r@ == "list"@,
    {
        "list"
    }

    /// A listing without options.
    pub fn new() -> (r: TagList)
        ensures
            r.n is None && r.last is None,
    {
        TagList { n: None, last: None }
    }

    /// A listing with the given options.
    pub fn with_options(n: Option<usize>, last: Option<Tag>) -> (r: TagList)
        ensures
            r.n == n,
            match (r.last, last) {
                (Some(a), Some(b)) => a.text@ == b.text@,
                (None, None) => true,
                _ => false,
            },
    {
        TagList { n, last }
    }

    /// The query pairs of the options, `n` first; `None` when there are no
    /// options.
    pub fn options(&self) -> (r: Option<Vec<(String, String)>>)
        ensures
            spec_options(
                self.n,
                match self.last {
                    Some(t) => Some(t.text@),
                    None => None,
                },
                match r {
                    Some(pairs) => Some(pairs@),
                    None => None,
                },
            ),
    {
        let mut options: Vec<(String, String)> = Vec::new();
        if let Some(n) = self.n {
            options.push((String::from_str("n"), u64_to_string(n as u64)));
        }
        if let Some(last) = &self.last {
            options.push((String::from_str("last"), String::from_str(last.as_str())));
        }
        if options.len() == 0 {
            None
        } else {
            Some(options)
        }
    }
}

/// The query pairs a tag listing with the given options produces: the
/// limit first, then the cut-point; none without options.
pub open spec fn spec_options(
    n: Option<usize>,
    last: Option<Seq<char>>,
    r: Option<Seq<(String, String)>>,
) -> bool {
    match r {
        Some(pairs) => {
            &&& (n is Some || last is Some)
            &&& pairs.len() == (if n is Some {
                1int
            } else {
                0int
            }) + (if last is Some {
                1int
            } else {
                0int
            })
            &&& (n is Some ==> pairs[0].0@ == "n"@ && pairs[0].1@ == dec_chars(n.unwrap() as u64))
            &&& (last is Some ==> pairs.last().0@ == "last"@ && pairs.last().1@ == last.unwrap())
        },
        None => n is None && last is None,
    }
}

/// One of the three service endpoints, with what it addresses.
pub enum ServiceFile {
    Manifest(Reference),
    Blob(Digest),
    TagList(TagList),
}

/// The URI tail of an endpoint.
pub open spec fn spec_file_uri(f: ServiceFile) -> Seq<char> {
    match f {
        ServiceFile::Manifest(r) => "manifests/"@ + r.chars(),
        ServiceFile::Blob(d) => "blobs/"@ + d.chars(),
        ServiceFile::TagList(_) => "tags/list"@,
    }
}

impl ServiceFile {
    /// The endpoint path under the application: `manifests/<reference>`,
    /// `blobs/<digest>` or `tags/list`.
    pub fn get_file_uri(&self) -> (r: String)
        ensures
            r@ == spec_file_uri(*self),
    {
        proof {
            reveal_strlit("manifests/");
            reveal_strlit("blobs/");
            reveal_strlit("tags/");
            reveal_strlit("list");
            reveal_strlit("tags/list");
        }
        match self {
            ServiceFile::Manifest(reference) => {
                let mut s = String::from_str("manifests/");
                s.append(reference.to_string().as_str());
                s
            }
            ServiceFile::Blob(digest) => {
                let mut s = String::from_str("blobs/");
                s.append(digest.to_string().as_str());
                s
            }
            ServiceFile::TagList(tag_list) => {
                let mut s = String::from_str("tags/");
                s.append(tag_list.as_str());
                proof {
                    assert(s@ =~= "tags/list"@);
                }
                s
            }
        }
    }

    /// The query options of the endpoint: a tag listing returns its
    /// options, the other endpoints have none.
    pub fn get_options(&self) -> (r: Option<Vec<(String, String)>>)
        ensures
            match self {
                ServiceFile::TagList(t) => spec_options(
                    t.n,
                    match t.last {
                        Some(l) => Some(l.text@),
                        None => None,
                    },
                    match r {
                        Some(pairs) => Some(pairs@),
                        None => None,
                    },
                ),
                _ => r is None,
            },
    {
        if let ServiceFile::TagList(tag_list) = self {
            return tag_list.options();
        }
        None
    }

    /// The media types the client accepts from this endpoint.
    pub fn supported_media_types(&self) -> (r: Vec<String>)
        ensures
            match self {
                ServiceFile::Manifest(_) => r@.len() == 1 && r@[0]@
                    == crate::mediatype::media_type_chars(MediaType::ImageManifest),
                ServiceFile::Blob(_) => r@.len() == 4,
                ServiceFile::TagList(_) => r@.len() == 1 && r@[0]@ == "application/json"@,
            },
    {
        let mut out: Vec<String> = Vec::new();
        match self {
            ServiceFile::Manifest(_) => {
                out.push(MediaType::ImageManifest.to_string());
            }
            ServiceFile::Blob(_) => {
                out.push(MediaType::ImageLayer.to_string());
                out.push(MediaType::ImageLayerGzip.to_string());
                out.push(MediaType::ImageLayerZstd.to_string());
                out.push(MediaType::ImageConfig.to_string());
            }
            ServiceFile::TagList(_) => {
                out.push(String::from_str("application/json"));
            }
        }
        out
    }
}

/// Whether the host string already starts with the given prefix.
pub open spec fn starts_with(s: Seq<char>, prefix: Seq<char>) -> bool {
    s.len() >= prefix.len() && s.take(prefix.len() as int) == prefix
}

/// True for an ASCII letter.
pub open spec fn is_alpha_char(c: char) -> bool {
    ('a' <= c && c <= 'z') || ('A' <= c && c <= 'Z')
}

/// True for a character allowed in a URL scheme after its leading letter.
pub open spec fn is_scheme_char(c: char) -> bool {
    is_alpha_char(c) || ('0' <= c && c <= '9') || c == '+' || c == '-' || c == '.'
}

/// The host names a URL scheme: a leading letter and scheme characters up
/// to the first other character, which begins `://`. The colon position is
/// forced to the first non-scheme character, so at most one witness exists.
pub open spec fn has_url_scheme(s: Seq<char>) -> bool {
    exists|i: int|
        #![trigger s[i]]
        1 <= i && i + 3 <= s.len() && s[i] == ':' && s[i + 1] == '/' && s[i + 2] == '/'
            && is_alpha_char(s[0]) && (forall|j: int| 1 <= j < i ==> is_scheme_char(#[trigger] s[j]))
}

/// Detects a `scheme://` prefix on the host.
fn host_names_scheme(s: &str) -> (r: bool)
    ensures
        r == has_url_scheme(s@),
{
    let n = s.unicode_len();
    if n < 4 {
        return false;
    }
    let c0 = s.get_char(0);
    if !(('a' <= c0 && c0 <= 'z') || ('A' <= c0 && c0 <= 'Z')) {
        return false;
    }
    let mut k: usize = 1;
    while k < n
        invariant
            1 <= k <= n,
            n == s@.len(),
            is_alpha_char(s@[0]),
            forall|j: int| 1 <= j < k ==> is_scheme_char(#[trigger] s@[j]),
        decreases n - k,
    {
        let c = s.get_char(k);
        if c == ':' {
            if n - k >= 3 {
                if s.get_char(k + 1) == '/' && s.get_char(k + 2) == '/' {
                    return true;
                }
            }
            proof {
                if has_url_scheme(s@) {
                    let i = choose|i: int|
                        #![trigger s@[i]]
                        1 <= i && i + 3 <= s@.len() && s@[i] == ':' && s@[i + 1] == '/' && s@[i
                            + 2] == '/' && is_alpha_char(s@[0]) && (forall|j: int|
                            1 <= j < i ==> is_scheme_char(#[trigger] s@[j]));
                    if i < k as int {
                        assert(is_scheme_char(s@[i]));
                    } else if i > k as int {
                        assert(is_scheme_char(s@[k as int]));
                    }
                    assert(false);
                }
            }
            return false;
        }
        if !(('a' <= c && c <= 'z') || ('A' <= c && c <= 'Z') || ('0' <= c && c <= '9') || c == '+'
            || c == '-' || c == '.') {
            proof {
                if has_url_scheme(s@) {
                    let i = choose|i: int|
                        #![trigger s@[i]]
                        1 <= i && i + 3 <= s@.len() && s@[i] == ':' && s@[i + 1] == '/' && s@[i
                            + 2] == '/' && is_alpha_char(s@[0]) && (forall|j: int|
                            1 <= j < i ==> is_scheme_char(#[trigger] s@[j]));
                    if i <= k as int {
                        assert(is_scheme_char(s@[i]) || s@[i] == ':');
                    } else {
                        assert(is_scheme_char(s@[k as int]));
                    }
                    assert(false);
                }
            }
            return false;
        }
        k += 1;
    }
    proof {
        if has_url_scheme(s@) {
            let i = choose|i: int|
                #![trigger s@[i]]
                1 <= i && i + 3 <= s@.len() && s@[i] == ':' && s@[i + 1] == '/' && s@[i + 2] == '/'
                    && is_alpha_char(s@[0]) && (forall|j: int|
                    1 <= j < i ==> is_scheme_char(#[trigger] s@[j]));
            assert(is_scheme_char(s@[i]));
            assert(false);
        }
    }
    false
}

fn str_starts_with(s: &str, prefix: &str) -> (r: bool)
    ensures
        r == starts_with(s@, prefix@),
{
    let n = s.unicode_len();
    let np = prefix.unicode_len();
    if n < np {
        return false;
    }
    let head = s.substring_char(0, np);
    proof {
        assert(s@.take(np as int) =~= s@.subrange(0, np as int));
    }
    crate::text::str_eq(head, prefix)
}

/// The service address: a scheme and a host, possibly already carrying its
/// scheme.
pub struct ServiceUrl {
    pub scheme: Scheme,
    pub host: String,
}

/// The base URL: the host with the scheme prepended when it carries none.
pub open spec fn spec_base_url(scheme: Seq<char>, host: Seq<char>) -> Seq<char> {
    if starts_with(host, scheme) {
        host
    } else {
        scheme + host
    }
}

impl ServiceUrl {
    /// A service address.
    pub fn init(scheme: Scheme, host: String) -> (r: ServiceUrl)
        ensures
            r.scheme.text@ == scheme.text@,
            r.host@ == host@,
    {
        ServiceUrl { scheme, host }
    }

    /// The full URL of an endpoint: the base URL, the version path, the
    /// application name and the endpoint path, with the tag-listing options
    /// as query pairs. Fails exactly when the host already names a scheme
    /// and it is not this address's scheme, character for character.
    pub fn get_url_path(&self, app_name: &str, file: ServiceFile) -> (r: Result<String, Error>)
        ensures
            r is Err <==> (has_url_scheme(self.host@) && !starts_with(
                self.host@,
                self.scheme.text@,
            )),
            match r {
                Ok(u) => {
                    let base = spec_base_url(self.scheme.text@, self.host@) + "/v2/"@ + app_name@
                        + seq!['/'] + spec_file_uri(file);
                    &&& u@.len() >= base.len() && u@.take(base.len() as int) == base
                    &&& (!(file is TagList) ==> u@ == base)
                },
                Err(e) => e is UrlParsingError,
            },
    {
        proof {
            reveal_strlit("http://");
            reveal_strlit("https://");
            reveal_strlit("/v2/");
            reveal_strlit("/");
            reveal_strlit("?");
            reveal_strlit("=");
            reveal_strlit("&");
        }
        let already = str_starts_with(self.host.as_str(), self.scheme.as_str());
        if !already {
            if host_names_scheme(self.host.as_str()) {
                return Err(Error::UrlParsingError(String::from_str("invalid user scheme")));
            }
        }
        let mut url = if already {
            String::from_str(self.host.as_str())
        } else {
            let mut u = String::from_str(self.scheme.as_str());
            u.append(self.host.as_str());
            u
        };
        url.append("/v2/");
        url.append(app_name);
        url.append("/");
        url.append(file.get_file_uri().as_str());
        let ghost base = spec_base_url(self.scheme.text@, self.host@) + "/v2/"@ + app_name@
            + seq!['/'] + spec_file_uri(file);
        proof {
            assert(url@ =~= base);
        }
        proof {
            assert(url@.take(base.len() as int) =~= base);
        }
        match file.get_options() {
            Some(options) => {
                let mut k: usize = 0;
                while k < options.len()
                    invariant
                        url@.len() >= base.len(),
                        url@.take(base.len() as int) == base,
                    decreases options@.len() - k,
                {
                    if k == 0 {
                        url.append("?");
                    } else {
                        url.append("&");
                    }
                    url.append(options[k].0.as_str());
                    url.append("=");
                    url.append(options[k].1.as_str());
                    proof {
                        assert(url@.take(base.len() as int) =~= base);
                    }
                    k += 1;
                }
                Ok(url)
            }
            None => Ok(url),
        }
    }
}

} // verus!
