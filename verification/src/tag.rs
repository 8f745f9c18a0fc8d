//! Tag names: a leading word character followed by up to 127 characters
//! drawn from letters, digits, `.`, `_` and `-`.

use vstd::prelude::*;
use vstd::string::{StrSliceExecFns, StringExecFns};
use crate::errors::Error;

verus! {

/// True for a character allowed to start a tag: a letter, digit or `_`.
pub open spec fn is_tag_start(c: char) -> bool {
    ('a' <= c && c <= 'z') || ('A' <= c && c <= 'Z') || ('0' <= c && c <= '9') || c == '_'
}

/// True for a character allowed after the first: additionally `.` and `-`.
pub open spec fn is_tag_char(c: char) -> bool {
    is_tag_start(c) || c == '.' || c == '-'
}

/// A valid tag: 1 to 128 characters, the first a word character, the rest
/// tag characters.
pub open spec fn valid_tag(s: Seq<char>) -> bool {
    &&& 1 <= s.len() <= 128
    &&& is_tag_start(s[0])
    &&& forall|i: int| 1 <= i < s.len() ==> is_tag_char(#[trigger] s[i])
}

/// Checks a string against the tag grammar.
pub fn verify(tag: &str) -> (r: bool)
    ensures
        r == valid_tag(tag@),
{
    let n = tag.unicode_len();
    if n < 1 || n > 128 {
        return false;
    }
    let c0 = tag.get_char(0);
    if !(('a' <= c0 && c0 <= 'z') || ('A' <= c0 && c0 <= 'Z') || ('0' <= c0 && c0 <= '9') || c0
        == '_') {
        return false;
    }
    let mut k: usize = 1;
    while k < n
        invariant
            1 <= k <= n,
            n == tag@.len(),
            forall|i: int| 1 <= i < k ==> is_tag_char(#[trigger] tag@[i]),
        decreases n - k,
    {
        let c = tag.get_char(k);
        if !(('a' <= c && c <= 'z') || ('A' <= c && c <= 'Z') || ('0' <= c && c <= '9') || c == '_'
            || c == '.' || c == '-') {
            return false;
        }
        k += 1;
    }
    true
}

/// A validated tag name.
#[derive(Debug, Clone)]
pub struct Tag {
    pub text: String,
}

impl Tag {
    /// Well-formedness: the stored text passes the tag grammar.
    pub open spec fn wf(&self) -> bool {
        valid_tag(self.text@)
    }

    /// The tag's text.
    pub fn as_str(&self) -> (r: &str)
        ensures
            r@ == self.text@,
    {
        self.text.as_str()
    }

    /// Parses a tag, rejecting strings that fail the grammar.
    pub fn parse(s: &str) -> (r: Result<Tag, Error>)
        ensures
            match r {
                Ok(t) => valid_tag(s@) && t.text@ == s@ && t.wf(),
                Err(e) => !valid_tag(s@) && e == Error::TagInvalidError,
            },
    {
        if verify(s) {
            Ok(Tag { text: String::from_str(s) })
        } else {
            Err(Error::TagInvalidError)
        }
    }
}

} // verus!
