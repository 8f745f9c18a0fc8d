//! Lowercase hexadecimal encoding and decoding over bytes, with the
//! round-trip law `decode(encode(b)) == Some(b)`.

use vstd::prelude::*;

verus! {

/// True for the byte of an ASCII lowercase hex digit (`0`..`9`, `a`..`f`).
pub open spec fn is_hex_digit_byte(b: u8) -> bool {
    (48 <= b && b <= 57) || (97 <= b && b <= 102)
}

/// Numeric value of a hex digit byte.
pub open spec fn hex_digit_value(b: u8) -> u8
    recommends
        is_hex_digit_byte(b),
{
    if 48 <= b && b <= 57 {
        (b - 48) as u8
    } else {
        (b - 87) as u8
    }
}

/// The hex digit byte for a value below 16.
pub open spec fn hex_digit_of(v: u8) -> u8
    recommends
        v < 16,
{
    if v < 10 {
        (48 + v) as u8
    } else {
        (87 + v) as u8
    }
}

/// The two lowercase hex digits of one byte, high digit first.
pub open spec fn hex_byte(b: u8) -> Seq<u8> {
    seq![hex_digit_of(b / 16), hex_digit_of((b % 16) as u8)]
}

/// Lowercase hex encoding of a byte sequence.
pub open spec fn hex_encoding(bytes: Seq<u8>) -> Seq<u8>
    decreases bytes.len(),
{
    if bytes.len() == 0 {
        Seq::empty()
    } else {
        hex_byte(bytes[0]) + hex_encoding(bytes.drop_first())
    }
}

/// Decoding of a lowercase hex digit sequence back to bytes; `None` when the
/// length is odd or some byte is not a lowercase hex digit.
pub open spec fn hex_decoding(digits: Seq<u8>) -> Option<Seq<u8>>
    decreases digits.len(),
{
    if digits.len() == 0 {
        Some(Seq::empty())
    } else if digits.len() == 1 {
        None
    } else if !is_hex_digit_byte(digits[0]) || !is_hex_digit_byte(digits[1]) {
        None
    } else {
        match hex_decoding(digits.skip(2)) {
            Some(rest) => Some(
                seq![(hex_digit_value(digits[0]) * 16 + hex_digit_value(digits[1])) as u8] + rest,
            ),
            None => None,
        }
    }
}

/// Encodes `bytes` as lowercase hex digits.
pub fn hex_encode(bytes: &[u8]) -> (r: Vec<u8>)
    ensures
        r@ == hex_encoding(bytes@),
        r@.len() == 2 * bytes@.len(),
{
    let mut out: Vec<u8> = Vec::new();
    let mut k: usize = 0;
    proof {
        lemma_hex_encoding_len(bytes@);
    }
    while k < bytes.len()
        invariant
            k <= bytes@.len(),
            out@ == hex_encoding(bytes@.take(k as int)),
            out@.len() == 2 * k,
        decreases bytes@.len() - k,
    {
        let b = bytes[k];
        let hi: u8 = b / 16;
        let lo: u8 = b % 16;
        let hid: u8 = if hi < 10 { 48 + hi } else { 87 + hi };
        let lod: u8 = if lo < 10 { 48 + lo } else { 87 + lo };
        out.push(hid);
        out.push(lod);
        proof {
            lemma_hex_encoding_snoc(bytes@, k as int);
        }
        k += 1;
    }
    proof {
        assert(bytes@.take(bytes@.len() as int) =~= bytes@);
    }
    out
}

/// Decodes lowercase hex digits; `None` on odd length or a non-digit byte.
pub fn hex_decode(digits: &[u8]) -> (r: Option<Vec<u8>>)
    ensures
        match r {
            Some(v) => hex_decoding(digits@) == Some(v@),
            None => hex_decoding(digits@) is None,
        },
{
    if digits.len() % 2 != 0 {
        proof {
            lemma_hex_decoding_odd(digits@);
        }
        return None;
    }
    let mut out: Vec<u8> = Vec::new();
    let mut k: usize = 0;
    proof {
        assert(digits@.skip(0) =~= digits@);
        assert forall|rest: Option<Seq<u8>>|
            hex_decoding(digits@.skip(0)) == rest implies #[trigger] hex_decoding(digits@)
            == prepend_decoded(Seq::<u8>::empty(), rest) by {
            match rest {
                Some(r) => {
                    assert(Seq::<u8>::empty() + r =~= r);
                }
                None => {}
            }
        }
    }
    while k + 1 < digits.len()
        invariant
            k % 2 == 0,
            digits@.len() % 2 == 0,
            k <= digits@.len(),
            out@.len() * 2 == k,
            forall|rest: Option<Seq<u8>>|
                hex_decoding(digits@.skip(k as int)) == rest ==> #[trigger] hex_decoding(digits@)
                    == prepend_decoded(out@, rest),
        decreases digits@.len() - k,
    {
        let d0 = digits[k];
        let d1 = digits[k + 1];
        if !((48 <= d0 && d0 <= 57) || (97 <= d0 && d0 <= 102)) || !((48 <= d1 && d1 <= 57) || (97
            <= d1 && d1 <= 102)) {
            assert(hex_decoding(digits@.skip(k as int)) is None);
            assert(hex_decoding(digits@) == prepend_decoded(out@, None::<Seq<u8>>));
            return None;
        }
        let v0: u8 = if d0 <= 57 { d0 - 48 } else { d0 - 87 };
        let v1: u8 = if d1 <= 57 { d1 - 48 } else { d1 - 87 };
        let b: u8 = v0 * 16 + v1;
        proof {
            let s = digits@.skip(k as int);
            assert(s[0] == d0 && s[1] == d1);
            assert(s.skip(2) =~= digits@.skip(k as int + 2));
            assert(b == hex_digit_value(d0) * 16 + hex_digit_value(d1));
            lemma_prepend_decoded_step(out@, b, hex_decoding(digits@.skip(k as int + 2)));
            assert(forall|rest: Option<Seq<u8>>|
                hex_decoding(digits@.skip(k as int + 2)) == rest
                    ==> #[trigger] hex_decoding(digits@.skip(k as int)) == prepend_decoded(
                    seq![b],
                    rest,
                ));
        }
        out.push(b);
        k += 2;
    }
    proof {
        assert(k == digits@.len());
        assert(digits@.skip(k as int) =~= Seq::<u8>::empty());
        assert(hex_decoding(digits@.skip(k as int)) == Some(Seq::<u8>::empty()));
        assert(hex_decoding(digits@) == prepend_decoded(out@, Some(Seq::<u8>::empty())));
        assert(out@ + Seq::<u8>::empty() =~= out@);
    }
    Some(out)
}

/// Prefixes `done` onto a partial decoding result.
pub open spec fn prepend_decoded(done: Seq<u8>, rest: Option<Seq<u8>>) -> Option<Seq<u8>> {
    match rest {
        Some(r) => Some(done + r),
        None => None,
    }
}

proof fn lemma_prepend_decoded_step(done: Seq<u8>, b: u8, rest: Option<Seq<u8>>)
    ensures
        prepend_decoded(done, prepend_decoded(seq![b], rest)) == prepend_decoded(
            done.push(b),
            rest,
        ),
{
    match rest {
        Some(r) => {
            assert(done + (seq![b] + r) =~= done.push(b) + r);
        }
        None => {}
    }
}

proof fn lemma_hex_decoding_odd(digits: Seq<u8>)
    requires
        digits.len() % 2 != 0,
    ensures
        hex_decoding(digits) is None,
    decreases digits.len(),
{
    if digits.len() > 1 {
        if is_hex_digit_byte(digits[0]) && is_hex_digit_byte(digits[1]) {
            lemma_hex_decoding_odd(digits.skip(2));
        }
    }
}

proof fn lemma_hex_encoding_len(bytes: Seq<u8>)
    ensures
        hex_encoding(bytes).len() == 2 * bytes.len(),
    decreases bytes.len(),
{
    if bytes.len() > 0 {
        lemma_hex_encoding_len(bytes.drop_first());
    }
}

proof fn lemma_hex_encoding_snoc(bytes: Seq<u8>, k: int)
    requires
        0 <= k < bytes.len(),
    ensures
        hex_encoding(bytes.take(k + 1)) == hex_encoding(bytes.take(k)) + hex_byte(bytes[k]),
    decreases k,
{
    if k == 0 {
        assert(hex_encoding(Seq::<u8>::empty()) == Seq::<u8>::empty());
        assert(bytes.take(1).drop_first() =~= Seq::<u8>::empty());
        assert(bytes.take(1).len() == 1);
        assert(bytes.take(1)[0] == bytes[0]);
        assert(hex_encoding(bytes.take(1)) == hex_byte(bytes[0]) + hex_encoding(
            Seq::<u8>::empty(),
        ));
        assert(bytes.take(0) =~= Seq::<u8>::empty());
        assert(hex_encoding(bytes.take(0)) + hex_byte(bytes[0]) =~= hex_byte(bytes[0])
            + Seq::<u8>::empty());
    } else {
        lemma_hex_encoding_snoc(bytes.drop_first(), k - 1);
        assert(bytes.take(k + 1).drop_first() =~= bytes.drop_first().take(k));
        assert(bytes.take(k).drop_first() =~= bytes.drop_first().take(k - 1));
        assert(bytes.take(k + 1)[0] == bytes[0]);
        assert(bytes.take(k)[0] == bytes[0]);
        assert(hex_encoding(bytes.take(k + 1)) == hex_byte(bytes[0]) + hex_encoding(
            bytes.drop_first().take(k),
        ));
        assert(bytes.drop_first()[k - 1] == bytes[k]);
        assert(hex_byte(bytes[0]) + (hex_encoding(bytes.drop_first().take(k - 1)) + hex_byte(
            bytes[k],
        )) =~= (hex_byte(bytes[0]) + hex_encoding(bytes.drop_first().take(k - 1))) + hex_byte(
            bytes[k],
        ));
    }
}

/// The hex round trip: decoding an encoding gives back the bytes.
pub proof fn lemma_hex_round_trip(bytes: Seq<u8>)
    ensures
        hex_decoding(hex_encoding(bytes)) == Some(bytes),
    decreases bytes.len(),
{
    if bytes.len() == 0 {
        assert(hex_encoding(bytes) =~= Seq::<u8>::empty());
    } else {
        lemma_hex_round_trip(bytes.drop_first());
        let e = hex_encoding(bytes);
        let b = bytes[0];
        assert(e == hex_byte(b) + hex_encoding(bytes.drop_first()));
        assert(e[0] == hex_digit_of(b / 16));
        assert(e[1] == hex_digit_of((b % 16) as u8));
        assert(is_hex_digit_byte(e[0]));
        assert(is_hex_digit_byte(e[1]));
        assert(hex_digit_value(e[0]) == b / 16);
        assert(hex_digit_value(e[1]) == b % 16);
        assert(e.skip(2) =~= hex_encoding(bytes.drop_first()));
        assert(hex_digit_value(e[0]) * 16 + hex_digit_value(e[1]) == b);
        assert(seq![b] + bytes.drop_first() =~= bytes);
    }
}

/// Every byte of a hex encoding is a lowercase hex digit.
pub proof fn lemma_hex_encoding_digits(bytes: Seq<u8>)
    ensures
        hex_encoding(bytes).len() == 2 * bytes.len(),
        forall|i: int|
            0 <= i < hex_encoding(bytes).len() ==> is_hex_digit_byte(#[trigger] hex_encoding(
                bytes,
            )[i]),
    decreases bytes.len(),
{
    if bytes.len() > 0 {
        lemma_hex_encoding_digits(bytes.drop_first());
        let e = hex_encoding(bytes);
        assert forall|i: int| 0 <= i < e.len() implies is_hex_digit_byte(#[trigger] e[i]) by {
            if i >= 2 {
                assert(e[i] == hex_encoding(bytes.drop_first())[i - 2]);
            }
        }
    }
}

} // verus!
