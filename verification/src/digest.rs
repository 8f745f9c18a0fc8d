//! Content digests: `algo:hex` pairs over SHA-256 or SHA-512, with checked
//! and unchecked construction, canonical string and path forms.

use vstd::prelude::*;
use vstd::string::{StrSliceExecFns, StringExecFns};
use crate::errors::RegistryError;

verus! {

/// The hash algorithms a digest may name.
#[derive(Clone, Copy, Debug, PartialEq, Eq, Structural)]
pub enum HashType {
    Sha256,
    Sha512,
}

/// The characters of an algorithm's lowercase name.
pub open spec fn algo_chars(t: HashType) -> Seq<char> {
    match t {
        HashType::Sha256 => seq!['s', 'h', 'a', '2', '5', '6'],
        HashType::Sha512 => seq!['s', 'h', 'a', '5', '1', '2'],
    }
}

/// Number of hex digits in a digest of the given algorithm.
pub open spec fn algo_hex_len(t: HashType) -> nat {
    match t {
        HashType::Sha256 => 64,
        HashType::Sha512 => 128,
    }
}

/// The algorithm named by a character sequence, if any.
pub open spec fn algo_of_chars(s: Seq<char>) -> Option<HashType> {
    if s == algo_chars(HashType::Sha256) {
        Some(HashType::Sha256)
    } else if s == algo_chars(HashType::Sha512) {
        Some(HashType::Sha512)
    } else {
        None
    }
}

/// True for a lowercase hex digit character.
pub open spec fn is_hex_digit_char(c: char) -> bool {
    ('0' <= c && c <= '9') || ('a' <= c && c <= 'f')
}

/// True when `h` has the hex length of `t` and holds only hex digits.
pub open spec fn valid_hash_chars(t: HashType, h: Seq<char>) -> bool {
    &&& h.len() == algo_hex_len(t)
    &&& forall|i: int| 0 <= i < h.len() ==> is_hex_digit_char(#[trigger] h[i])
}

impl HashType {
    /// The lowercase name of the algorithm.
    pub fn as_str(&self) -> (r: &'static str)
        ensures
            r@ == algo_chars(*self),
    {
        proof {
            reveal_strlit("sha256");
            reveal_strlit("sha512");
        }
        match self {
            HashType::Sha256 => "sha256",
            HashType::Sha512 => "sha512",
        }
    }

    /// The number of hex digits in a digest of this algorithm.
    pub fn hex_len(&self) -> (r: usize)
        ensures
            r == algo_hex_len(*self),
    {
        match self {
            HashType::Sha256 => 64,
            HashType::Sha512 => 128,
        }
    }
}

/// A content digest: an algorithm and the lowercase hex form of the hash.
///
/// A value built by [`Digest::new`] or [`Digest::parse`] satisfies
/// [`Digest::wf`]; one built by [`Digest::new_unchecked`] may not, and must
/// not be handed to hash verification.
#[derive(Debug, Clone)]
pub struct Digest {
    pub algo: HashType,
    pub hash: String,
}

/// The canonical `algo:hex` character form of a digest.
pub open spec fn digest_chars(algo: HashType, hash: Seq<char>) -> Seq<char> {
    algo_chars(algo) + seq![':'] + hash
}

/// The `algo/hex` relative path form of a digest.
pub open spec fn path_chars(algo: HashType, hash: Seq<char>) -> Seq<char> {
    algo_chars(algo) + seq!['/'] + hash
}

/// The algorithm and hex characters a well-formed `algo:hex` sequence
/// denotes, if any: exactly one colon, a known algorithm, and a hex hash of
/// the right length.
pub open spec fn parse_digest_chars(s: Seq<char>) -> Option<(HashType, Seq<char>)> {
    if exists|i: int|
        0 <= i < s.len() && s[i] == ':' && algo_of_chars(s.take(i)) is Some && valid_hash_chars(
            algo_of_chars(s.take(i)).unwrap(),
            s.skip(i + 1),
        ) && count_char(s, ':') == 1 {
        let i = choose|i: int|
            0 <= i < s.len() && s[i] == ':' && algo_of_chars(s.take(i)) is Some
                && valid_hash_chars(algo_of_chars(s.take(i)).unwrap(), s.skip(i + 1)) && count_char(
                s,
                ':',
            ) == 1;
        Some((algo_of_chars(s.take(i)).unwrap(), s.skip(i + 1)))
    } else {
        None
    }
}

/// How often `c` occurs in `s`.
pub open spec fn count_char(s: Seq<char>, c: char) -> nat
    decreases s.len(),
{
    if s.len() == 0 {
        0
    } else {
        (if s[0] == c {
            1nat
        } else {
            0nat
        }) + count_char(s.drop_first(), c)
    }
}

impl Digest {
    /// Well-formedness: the stored hex hash fits the stored algorithm.
    pub open spec fn wf(&self) -> bool {
        valid_hash_chars(self.algo, self.hash@)
    }

    /// The `algo:hex` character form of this digest.
    pub open spec fn chars(&self) -> Seq<char> {
        digest_chars(self.algo, self.hash@)
    }

    /// Builds a checked digest from an algorithm name and a hex hash;
    /// rejects unknown algorithms, wrong lengths and non-hex characters.
    pub fn new(algo: String, hash: String) -> (r: Result<Digest, RegistryError>)
        ensures
            match r {
                Ok(d) => {
                    &&& algo_of_chars(algo@) == Some(d.algo)
                    &&& d.hash@ == hash@
                    &&& d.wf()
                },
                Err(_) => !(algo_of_chars(algo@) is Some && valid_hash_chars(
                    algo_of_chars(algo@).unwrap(),
                    hash@,
                )),
            },
    {
        proof {
            reveal_strlit("sha256");
            reveal_strlit("sha512");
            assert("sha256"@ =~= algo_chars(HashType::Sha256));
            assert("sha512"@ =~= algo_chars(HashType::Sha512));
        }
        let t: HashType = if crate::text::str_eq(algo.as_str(), "sha256") {
            HashType::Sha256
        } else if crate::text::str_eq(algo.as_str(), "sha512") {
            HashType::Sha512
        } else {
            return Err(
                RegistryError::OciRegistry(String::from_str("wrong hash algorithm")),
            );
        };
        proof {
            assert(algo_of_chars(algo@) == Some(t));
        }
        let n = hash.as_str().unicode_len();
        if n != t.hex_len() {
            return Err(RegistryError::OciRegistry(String::from_str("wrong hash length")));
        }
        let mut k: usize = 0;
        while k < n
            invariant
                k <= n,
                n == hash@.len(),
                forall|i: int| 0 <= i < k ==> is_hex_digit_char(#[trigger] hash@[i]),
            decreases n - k,
        {
            let c = hash.as_str().get_char(k);
            if !(('0' <= c && c <= '9') || ('a' <= c && c <= 'f')) {
                return Err(
                    RegistryError::OciRegistry(String::from_str("incorrect hash string")),
                );
            }
            k += 1;
        }
        Ok(Digest { algo: t, hash })
    }

    /// Builds a digest without validating the hex hash; such a value is only
    /// for probing on-disk names and must not reach hash verification.
    pub fn new_unchecked(algo: HashType, hash: String) -> (r: Digest)
        ensures
            r.algo == algo,
            r.hash@ == hash@,
    {
        Digest { algo, hash }
    }

    /// Parses the canonical `algo:hex` form.
    pub fn parse(s: &str) -> (r: Result<Digest, RegistryError>)
        ensures
            match r {
                Ok(d) => {
                    &&& parse_digest_chars(s@) is Some
                    &&& d.algo == parse_digest_chars(s@).unwrap().0
                    &&& d.hash@ == parse_digest_chars(s@).unwrap().1
                    &&& d.wf()
                    &&& d.chars() == s@
                },
                Err(_) => parse_digest_chars(s@) is None,
            },
    {
        let n = s.unicode_len();
        let mut colon: usize = 0;
        let mut count: usize = 0;
        let mut k: usize = 0;
        while k < n
            invariant
                k <= n,
                n == s@.len(),
                count == count_char(s@.take(k as int), ':'),
                count <= k,
                count > 0 ==> (colon < k && s@[colon as int] == ':' && count_char(
                    s@.take(colon as int),
                    ':',
                ) == 0),
            decreases n - k,
        {
            let c = s.get_char(k);
            proof {
                lemma_count_char_snoc(s@, k as int, ':');
            }
            if c == ':' {
                if count == 0 {
                    colon = k;
                    proof {
                        assert(count_char(s@.take(k as int), ':') == 0);
                    }
                }
                count += 1;
            }
            k += 1;
        }
        proof {
            assert(s@.take(n as int) =~= s@);
        }
        if count != 1 {
            proof {
                lemma_parse_digest_needs_one_colon(s@);
            }
            return Err(RegistryError::OciRegistry(String::from_str("not a digest")));
        }
        let algo_part = s.substring_char(0, colon);
        let hash_part = s.substring_char(colon + 1, n);
        proof {
            assert(algo_part@ == s@.take(colon as int));
            assert(hash_part@ == s@.skip(colon as int + 1));
        }
        let d = Digest::new(String::from_str(algo_part), String::from_str(hash_part));
        match d {
            Ok(d) => {
                proof {
                    lemma_parse_digest_at_colon(s@, colon as int, d.algo);
                    assert(s@.take(colon as int) + seq![':'] + s@.skip(colon as int + 1) =~= s@);
                }
                Ok(d)
            }
            Err(e) => {
                proof {
                    lemma_parse_digest_no_valid_colon(s@, colon as int);
                }
                Err(e)
            }
        }
    }

    /// The algorithm of this digest.
    pub fn hash_type(&self) -> (r: &HashType)
        ensures
            r == self.algo,
    {
        &self.algo
    }

    /// The hex hash of this digest.
    pub fn value(&self) -> (r: &str)
        ensures
            r@ == self.hash@,
    {
        self.hash.as_str()
    }

    /// The lowercase name of this digest's algorithm.
    pub fn get_algo(&self) -> (r: &str)
        ensures
            r@ == algo_chars(self.algo),
    {
        self.algo.as_str()
    }

    /// The hex hash of this digest.
    pub fn get_hash(&self) -> (r: &str)
        ensures
            r@ == self.hash@,
    {
        self.hash.as_str()
    }

    /// The canonical `algo:hex` string.
    pub fn to_string(&self) -> (r: String)
        ensures
            r@ == self.chars(),
    {
        proof {
            reveal_strlit(":");
        }
        let mut out = String::from_str(self.algo.as_str());
        out.append(":");
        out.append(self.hash.as_str());
        proof {
            assert(out@ =~= self.chars());
        }
        out
    }

    /// The relative path form `algo/hex`.
    pub fn to_path(&self) -> (r: String)
        ensures
            r@ == path_chars(self.algo, self.hash@),
    {
        proof {
            reveal_strlit("/");
        }
        let mut out = String::from_str(self.algo.as_str());
        out.append("/");
        out.append(self.hash.as_str());
        proof {
            assert(out@ =~= path_chars(self.algo, self.hash@));
        }
        out
    }

    /// Digest equality: same algorithm and same hex characters.
    pub fn equals(&self, other: &Digest) -> (r: bool)
        ensures
            r == (self.algo == other.algo && self.hash@ == other.hash@),
    {
        let same_algo = match (self.algo, other.algo) {
            (HashType::Sha256, HashType::Sha256) => true,
            (HashType::Sha512, HashType::Sha512) => true,
            _ => false,
        };
        same_algo && crate::text::str_eq(self.hash.as_str(), other.hash.as_str())
    }
}

proof fn lemma_count_char_snoc(s: Seq<char>, k: int, c: char)
    requires
        0 <= k < s.len(),
    ensures
        count_char(s.take(k + 1), c) == count_char(s.take(k), c) + (if s[k] == c {
            1nat
        } else {
            0nat
        }),
    decreases k,
{
    if k == 0 {
        assert(s.take(1).drop_first() =~= Seq::<char>::empty());
        assert(s.take(1)[0] == s[0]);
        assert(count_char(Seq::<char>::empty(), c) == 0);
        assert(s.take(0) =~= Seq::<char>::empty());
    } else {
        lemma_count_char_snoc(s.drop_first(), k - 1, c);
        assert(s.take(k + 1).drop_first() =~= s.drop_first().take(k));
        assert(s.take(k).drop_first() =~= s.drop_first().take(k - 1));
        assert(s.take(k + 1)[0] == s[0]);
        assert(s.take(k)[0] == s[0]);
        assert(s.drop_first()[k - 1] == s[k]);
    }
}

/// Splits the colon count of `s` around position `i`.
proof fn lemma_count_char_parts(s: Seq<char>, i: int)
    requires
        0 <= i < s.len(),
    ensures
        count_char(s, ':') == count_char(s.take(i), ':') + (if s[i] == ':' {
            1nat
        } else {
            0nat
        }) + count_char(s.skip(i + 1), ':'),
    decreases i,
{
    if i == 0 {
        assert(s.take(0) =~= Seq::<char>::empty());
        assert(s.skip(1) =~= s.drop_first());
    } else {
        lemma_count_char_parts(s.drop_first(), i - 1);
        assert(s.take(i).drop_first() =~= s.drop_first().take(i - 1));
        assert(s.take(i)[0] == s[0]);
        assert(s.drop_first().skip(i) =~= s.skip(i + 1));
        assert(s.drop_first()[i - 1] == s[i]);
    }
}

/// `count_char` is zero iff no position holds the character.
proof fn lemma_count_char_zero(s: Seq<char>, c: char)
    ensures
        count_char(s, c) == 0 <==> forall|j: int| 0 <= j < s.len() ==> s[j] != c,
    decreases s.len(),
{
    if s.len() > 0 {
        lemma_count_char_zero(s.drop_first(), c);
        if count_char(s, c) == 0 {
            assert forall|j: int| 0 <= j < s.len() implies s[j] != c by {
                if j > 0 {
                    assert(s.drop_first()[j - 1] == s[j]);
                }
            }
        } else {
            if s[0] != c {
                assert(count_char(s.drop_first(), c) > 0);
                let j = choose|j: int| 0 <= j < s.drop_first().len() && s.drop_first()[j] == c;
                assert(s[j + 1] == c);
            }
        }
    }
}

/// With exactly one colon sitting at `i` and the parts valid, parsing
/// succeeds and gives exactly those parts.
proof fn lemma_parse_digest_at_colon(s: Seq<char>, i: int, t: HashType)
    requires
        0 <= i < s.len(),
        s[i] == ':',
        count_char(s, ':') == 1,
        algo_of_chars(s.take(i)) == Some(t),
        valid_hash_chars(t, s.skip(i + 1)),
    ensures
        parse_digest_chars(s) is Some,
        parse_digest_chars(s).unwrap().0 == t,
        parse_digest_chars(s).unwrap().1 == s.skip(i + 1),
{
    assert(0 <= i < s.len() && s[i] == ':' && algo_of_chars(s.take(i)) is Some && valid_hash_chars(
        algo_of_chars(s.take(i)).unwrap(),
        s.skip(i + 1),
    ) && count_char(s, ':') == 1);
    let j = choose|j: int|
        0 <= j < s.len() && s[j] == ':' && algo_of_chars(s.take(j)) is Some && valid_hash_chars(
            algo_of_chars(s.take(j)).unwrap(),
            s.skip(j + 1),
        ) && count_char(s, ':') == 1;
    if j != i {
        lemma_count_char_parts(s, i);
        lemma_count_char_zero(s.take(i), ':');
        lemma_count_char_zero(s.skip(i + 1), ':');
        if j < i {
            assert(s.take(i)[j] == s[j]);
            assert(false);
        } else {
            assert(s.skip(i + 1)[j - i - 1] == s[j]);
            assert(false);
        }
    }
}

/// Without exactly one colon, no parse exists.
proof fn lemma_parse_digest_needs_one_colon(s: Seq<char>)
    requires
        count_char(s, ':') != 1,
    ensures
        parse_digest_chars(s) is None,
{
}

/// If the single colon's parts fail validation, no parse exists.
proof fn lemma_parse_digest_no_valid_colon(s: Seq<char>, i: int)
    requires
        0 <= i < s.len(),
        s[i] == ':',
        count_char(s, ':') == 1,
        !(algo_of_chars(s.take(i)) is Some && valid_hash_chars(
            algo_of_chars(s.take(i)).unwrap(),
            s.skip(i + 1),
        )),
    ensures
        parse_digest_chars(s) is None,
{
    if parse_digest_chars(s) is Some {
        let j = choose|j: int|
            0 <= j < s.len() && s[j] == ':' && algo_of_chars(s.take(j)) is Some
                && valid_hash_chars(algo_of_chars(s.take(j)).unwrap(), s.skip(j + 1)) && count_char(
                s,
                ':',
            ) == 1;
        if j != i {
            lemma_count_char_parts(s, i);
            lemma_count_char_zero(s.take(i), ':');
            lemma_count_char_zero(s.skip(i + 1), ':');
            if j < i {
                assert(s.take(i)[j] == s[j]);
                assert(false);
            } else {
                assert(s.skip(i + 1)[j - i - 1] == s[j]);
                assert(false);
            }
        }
        assert(false);
    }
}

/// A canonical `algo:hex` form with a valid hash parses back to its parts.
pub proof fn lemma_digest_chars_parse(t: HashType, h: Seq<char>)
    requires
        valid_hash_chars(t, h),
    ensures
        parse_digest_chars(digest_chars(t, h)) == Some((t, h)),
{
    let s = digest_chars(t, h);
    let i = algo_chars(t).len() as int;
    assert(s.len() == i + 1 + h.len());
    assert(s[i] == ':');
    assert(s.take(i) =~= algo_chars(t));
    assert(s.skip(i + 1) =~= h);
    assert(algo_of_chars(s.take(i)) == Some(t));
    assert(count_char(s, ':') == 1) by {
        lemma_count_char_parts(s, i);
        lemma_count_char_zero(s.take(i), ':');
        lemma_count_char_zero(s.skip(i + 1), ':');
        assert forall|j: int| 0 <= j < algo_chars(t).len() implies s.take(i)[j] != ':' by {
            assert(s.take(i)[j] == algo_chars(t)[j]);
        }
        assert forall|j: int| 0 <= j < h.len() implies #[trigger] s.skip(i + 1)[j] != ':' by {
            assert(is_hex_digit_char(h[j]));
        }
    }
    lemma_parse_digest_at_colon(s, i, t);
}

/// The digest round trip: a string that parses as a digest prints back to
/// itself, and its path form is the algorithm, a slash, and the hex hash.
pub proof fn lemma_digest_round_trip(s: Seq<char>)
    requires
        parse_digest_chars(s) is Some,
    ensures
        digest_chars(parse_digest_chars(s).unwrap().0, parse_digest_chars(s).unwrap().1) == s,
        path_chars(parse_digest_chars(s).unwrap().0, parse_digest_chars(s).unwrap().1)
            == algo_chars(parse_digest_chars(s).unwrap().0) + seq!['/'] + parse_digest_chars(
            s,
        ).unwrap().1,
{
    let i = choose|i: int|
        0 <= i < s.len() && s[i] == ':' && algo_of_chars(s.take(i)) is Some && valid_hash_chars(
            algo_of_chars(s.take(i)).unwrap(),
            s.skip(i + 1),
        ) && count_char(s, ':') == 1;
    let (t, h) = parse_digest_chars(s).unwrap();
    assert(algo_chars(t) == s.take(i));
    assert(h == s.skip(i + 1));
    assert(s.take(i) + seq![':'] + s.skip(i + 1) =~= s);
}

} // verus!
