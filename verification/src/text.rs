//! Helpers tying ASCII byte sequences to character strings.

use vstd::prelude::*;
use vstd::utf8::is_ascii_chars;

verus! {

/// The characters of an ASCII byte sequence, one character per byte.
pub open spec fn ascii_view(bytes: Seq<u8>) -> Seq<char> {
    bytes.map_values(|b: u8| b as char)
}

/// True when every byte is ASCII.
pub open spec fn all_ascii(bytes: Seq<u8>) -> bool {
    forall|i: int| 0 <= i < bytes.len() ==> bytes[i] < 128
}

/// Relies on `String::from_utf8`: ASCII bytes decode to the matching
/// one-byte characters.
#[verifier::external_body]
pub fn ascii_string(bytes: &Vec<u8>) -> (r: String)
    requires
        all_ascii(bytes@),
    ensures
        r@ == ascii_view(bytes@),
        is_ascii_chars(r@),
{
    String::from_utf8(bytes.clone()).unwrap_or_default()
}

/// Relies on `Vec`: a vector of bytes holds at most `isize::MAX` of them,
/// so its length fits a signed 64-bit integer.
#[verifier::external_body]
pub fn byte_vec_len(v: &Vec<u8>) -> (r: u64)
    ensures
        r == v@.len(),
        r <= 0x7FFFFFFFFFFFFFFF,
{
    v.len() as u64
}

/// Compares two byte slices for equality.
pub fn bytes_eq(a: &[u8], b: &[u8]) -> (r: bool)
    ensures
        r == (a@ == b@),
{
    if a.len() != b.len() {
        proof {
            assert(a@.len() != b@.len());
        }
        return false;
    }
    let mut k: usize = 0;
    while k < a.len()
        invariant
            k <= a@.len(),
            a@.len() == b@.len(),
            forall|i: int| 0 <= i < k ==> a@[i] == b@[i],
        decreases a@.len() - k,
    {
        if a[k] != b[k] {
            return false;
        }
        k += 1;
    }
    proof {
        assert(a@ =~= b@);
    }
    true
}

/// Compares two strings by their UTF-8 bytes, which decides view equality.
pub fn str_eq(a: &str, b: &str) -> (r: bool)
    ensures
        r == (a@ == b@),
{
    let r = bytes_eq(a.as_bytes(), b.as_bytes());
    proof {
        vstd::utf8::encode_utf8_decode_utf8(a@);
        vstd::utf8::encode_utf8_decode_utf8(b@);
    }
    r
}

} // verus!
