//! References: either a content digest or a tag; parsing tries the digest
//! form first.

use vstd::prelude::*;
use vstd::string::StringExecFns;
use crate::digest::{Digest, parse_digest_chars};
use crate::errors::Error;
use crate::tag::{Tag, valid_tag};

verus! {

/// A manifest reference: a digest or a tag.
#[derive(Debug, Clone)]
pub enum Reference {
    Digest(Digest),
    Tag(Tag),
}

/// Which form a character sequence parses to: the digest form wins, then the
/// tag form; otherwise nothing.
pub open spec fn reference_kind(s: Seq<char>) -> Option<bool> {
    if parse_digest_chars(s) is Some {
        Some(true)
    } else if valid_tag(s) {
        Some(false)
    } else {
        None
    }
}

impl Reference {
    /// Well-formedness of the wrapped value.
    pub open spec fn wf(&self) -> bool {
        match self {
            Reference::Digest(d) => d.wf(),
            Reference::Tag(t) => t.wf(),
        }
    }

    /// The character form of the reference.
    pub open spec fn chars(&self) -> Seq<char> {
        match self {
            Reference::Digest(d) => d.chars(),
            Reference::Tag(t) => t.text@,
        }
    }

    /// Parses a reference: a digest if it has the digest form, else a tag,
    /// else an error.
    pub fn parse(s: &str) -> (r: Result<Reference, Error>)
        ensures
            match r {
                Ok(rf) => {
                    &&& rf.wf()
                    &&& rf.chars() == s@
                    &&& (rf is Digest <==> reference_kind(s@) == Some(true))
                    &&& (rf is Tag <==> reference_kind(s@) == Some(false))
                },
                Err(e) => reference_kind(s@) is None && e == Error::ReferenceInvalidError,
            },
    {
        match Digest::parse(s) {
            Ok(d) => {
                proof {
                    crate::digest::lemma_digest_round_trip(s@);
                }
                Ok(Reference::Digest(d))
            }
            Err(_) => {
                match Tag::parse(s) {
                    Ok(t) => Ok(Reference::Tag(t)),
                    Err(_) => Err(Error::ReferenceInvalidError),
                }
            }
        }
    }

    /// The reference as a string: `algo:hex` for a digest, the text for a
    /// tag.
    pub fn to_string(&self) -> (r: String)
        ensures
            r@ == self.chars(),
    {
        match self {
            Reference::Digest(d) => d.to_string(),
            Reference::Tag(t) => String::from_str(t.as_str()),
        }
    }
}

} // verus!
