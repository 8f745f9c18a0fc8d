//! Hash computation over byte buffers, the incremental hasher, and
//! verification of content against a digest.

use vstd::prelude::*;
use vstd::string::StrSliceExecFns;
use crate::digest::{Digest, HashType, algo_hex_len, is_hex_digit_char};
use crate::hex::{hex_encoding, hex_decoding, hex_encode, hex_decode};
use crate::text::{ascii_string, ascii_view, all_ascii, bytes_eq};

use sha2::Digest as Sha2Digest;

verus! {

/// The SHA-256 hash of a byte sequence.
pub uninterp spec fn sha256_of(data: Seq<u8>) -> Seq<u8>;

/// The SHA-512 hash of a byte sequence.
pub uninterp spec fn sha512_of(data: Seq<u8>) -> Seq<u8>;

/// The hash of `data` under the given algorithm.
pub open spec fn spec_hash(algo: HashType, data: Seq<u8>) -> Seq<u8> {
    match algo {
        HashType::Sha256 => sha256_of(data),
        HashType::Sha512 => sha512_of(data),
    }
}

/// Length in bytes of a raw hash under the given algorithm.
pub open spec fn raw_hash_len(algo: HashType) -> nat {
    match algo {
        HashType::Sha256 => 32,
        HashType::Sha512 => 64,
    }
}

/// Relies on `sha2::Sha256::digest`: the hash depends on the bytes alone and
/// is 32 bytes long.
#[verifier::external_body]
fn sha256_raw(data: &[u8]) -> (r: Vec<u8>)
    ensures
        r@ == sha256_of(data@),
        r@.len() == 32,
{
    sha2::Sha256::digest(data).to_vec()
}

/// Relies on `sha2::Sha512::digest`: the hash depends on the bytes alone and
/// is 64 bytes long.
#[verifier::external_body]
fn sha512_raw(data: &[u8]) -> (r: Vec<u8>)
    ensures
        r@ == sha512_of(data@),
        r@.len() == 64,
{
    sha2::Sha512::digest(data).to_vec()
}

/// Computes the hash of a whole buffer, as a streaming reader fed to the end
/// would.
pub fn hash_reader(algo: HashType, data: &[u8]) -> (r: Vec<u8>)
    ensures
        r@ == spec_hash(algo, data@),
        r@.len() == raw_hash_len(algo),
{
    match algo {
        HashType::Sha256 => sha256_raw(data),
        HashType::Sha512 => sha512_raw(data),
    }
}

/// An incremental hasher: the digest of everything fed to it since the last
/// reset. The hash covers exactly the bytes handed to [`Hasher::update`].
#[derive(Debug)]
pub struct Hasher {
    pub algo: HashType,
    pub fed: Vec<u8>,
}

impl Hasher {
    /// A fresh hasher for the given algorithm.
    pub fn new(algo: HashType) -> (r: Hasher)
        ensures
            r.algo == algo,
            r.fed@ == Seq::<u8>::empty(),
    {
        Hasher { algo, fed: Vec::new() }
    }

    /// Feeds more bytes; the pending hash now covers the old bytes followed
    /// by `data`.
    pub fn update(&mut self, data: &[u8])
        ensures
            final(self).algo == old(self).algo,
            final(self).fed@ == old(self).fed@ + data@,
    {
        let mut k: usize = 0;
        while k < data.len()
            invariant
                k <= data@.len(),
                self.algo == old(self).algo,
                self.fed@ == old(self).fed@ + data@.take(k as int),
            decreases data@.len() - k,
        {
            self.fed.push(data[k]);
            proof {
                assert(old(self).fed@ + data@.take(k as int + 1) =~= (old(self).fed@ + data@.take(
                    k as int,
                )).push(data@[k as int]));
            }
            k += 1;
        }
        proof {
            assert(data@.take(data@.len() as int) =~= data@);
        }
    }

    /// Returns the hash of the fed bytes and resets the hasher.
    pub fn finalize(&mut self) -> (r: Vec<u8>)
        ensures
            r@ == spec_hash(old(self).algo, old(self).fed@),
            r@.len() == raw_hash_len(old(self).algo),
            final(self).algo == old(self).algo,
            final(self).fed@ == Seq::<u8>::empty(),
    {
        let r = hash_reader(self.algo, self.fed.as_slice());
        self.fed = Vec::new();
        r
    }
}

/// The bytes of an ASCII character sequence, one byte per character.
pub open spec fn char_bytes(s: Seq<char>) -> Seq<u8> {
    s.map_values(|c: char| c as u8)
}

/// True when every character is ASCII.
pub open spec fn all_chars_ascii(s: Seq<char>) -> bool {
    forall|i: int| 0 <= i < s.len() ==> #[trigger] s[i] <= '\u{7f}'
}

/// Whether a hex character string names the hash of `data` under `algo`.
pub open spec fn matches_hash(algo: HashType, hash: Seq<char>, data: Seq<u8>) -> bool {
    &&& all_chars_ascii(hash)
    &&& hex_decoding(char_bytes(hash)) == Some(spec_hash(algo, data))
}

/// Converts an ASCII string to its bytes; `None` if any character is not
/// ASCII.
pub fn chars_to_bytes(s: &str) -> (r: Option<Vec<u8>>)
    ensures
        match r {
            Some(v) => all_chars_ascii(s@) && v@ == char_bytes(s@),
            None => !all_chars_ascii(s@),
        },
{
    let n = s.unicode_len();
    let mut out: Vec<u8> = Vec::new();
    let mut k: usize = 0;
    while k < n
        invariant
            k <= n,
            n == s@.len(),
            out@.len() == k,
            forall|i: int| 0 <= i < k ==> #[trigger] s@[i] <= '\u{7f}',
            forall|i: int| 0 <= i < k ==> out@[i] == char_bytes(s@)[i],
        decreases n - k,
    {
        let c = s.get_char(k);
        if c > '\u{7f}' {
            return None;
        }
        let b: u8 = c as u8;
        out.push(b);
        k += 1;
    }
    proof {
        assert(out@ =~= char_bytes(s@));
    }
    Some(out)
}

/// Checks content bytes against a checked digest: hashes the bytes and
/// compares with the digest's hex value.
pub fn verify(data: &[u8], digest: &Digest) -> (r: bool)
    requires
        digest.wf(),
    ensures
        r == matches_hash(digest.algo, digest.hash@, data@),
{
    verify_digest(digest, data)
}

/// Checks content bytes against a digest; a digest whose hex value does not
/// decode never matches.
pub fn verify_digest(digest: &Digest, content: &[u8]) -> (r: bool)
    ensures
        r == matches_hash(digest.algo, digest.hash@, content@),
{
    let hb = match chars_to_bytes(digest.hash.as_str()) {
        Some(hb) => hb,
        None => {
            return false;
        }
    };
    let decoded = match hex_decode(hb.as_slice()) {
        Some(d) => d,
        None => {
            return false;
        }
    };
    let computed = hash_reader(digest.algo, content);
    bytes_eq(decoded.as_slice(), computed.as_slice())
}

/// Builds the checked digest of a byte buffer.
pub fn from_bytes(algo: HashType, data: &[u8]) -> (r: Digest)
    ensures
        r.algo == algo,
        r.hash@ == ascii_view(hex_encoding(spec_hash(algo, data@))),
        r.wf(),
{
    let raw = hash_reader(algo, data);
    let hexb = hex_encode(raw.as_slice());
    proof {
        crate::hex::lemma_hex_encoding_digits(raw@);
    }
    let hash = ascii_string(&hexb);
    proof {
        assert forall|i: int| 0 <= i < hash@.len() implies is_hex_digit_char(
            #[trigger] hash@[i],
        ) by {
            assert(hash@[i] == hexb@[i] as char);
            assert(crate::hex::is_hex_digit_byte(hexb@[i]));
        }
    }
    Digest { algo, hash }
}

/// A digest built from content verifies against that same content: the hex
/// encoding of the hash decodes back to the hash.
pub proof fn lemma_from_bytes_verifies(algo: HashType, data: Seq<u8>)
    ensures
        matches_hash(algo, ascii_view(hex_encoding(spec_hash(algo, data))), data),
{
    let h = spec_hash(algo, data);
    let e = hex_encoding(h);
    crate::hex::lemma_hex_encoding_digits(h);
    let chars = ascii_view(e);
    assert(all_chars_ascii(chars)) by {
        assert forall|i: int| 0 <= i < chars.len() implies #[trigger] chars[i] <= '\u{7f}' by {
            assert(chars[i] == e[i] as char);
            assert(e[i] < 128);
        }
    }
    assert(char_bytes(chars) =~= e) by {
        assert forall|i: int| 0 <= i < e.len() implies char_bytes(chars)[i] == e[i] by {
            assert(chars[i] == e[i] as char);
            assert(e[i] < 128);
        }
    }
    crate::hex::lemma_hex_round_trip(h);
}

} // verus!
