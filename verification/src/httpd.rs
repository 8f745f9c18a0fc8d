//! The pull-only distribution surface: tag listing with case-insensitive
//! order and pagination, manifest and blob responses with digest
//! announcement, and single-sided byte ranges.

use vstd::prelude::*;
use vstd::string::{StrSliceExecFns, StringExecFns};
use crate::application::Content;
use crate::text::{ascii_string, ascii_view, all_ascii};

verus! {

/// Case folding for sorting: an ASCII capital letter becomes its lowercase
/// form, every other character stays.
pub open spec fn fold_val(c: char) -> int {
    if 'A' <= c && c <= 'Z' {
        c as u32 + 32
    } else {
        c as u32 as int
    }
}

/// Lexicographic order over case-folded characters.
pub open spec fn chars_le(a: Seq<char>, b: Seq<char>) -> bool
    decreases a.len(),
{
    if a.len() == 0 {
        true
    } else if b.len() == 0 {
        false
    } else if fold_val(a[0]) < fold_val(b[0]) {
        true
    } else if fold_val(a[0]) > fold_val(b[0]) {
        false
    } else {
        chars_le(a.drop_first(), b.drop_first())
    }
}

/// The order is total: one direction always holds.
pub proof fn lemma_chars_le_total(a: Seq<char>, b: Seq<char>)
    ensures
        chars_le(a, b) || chars_le(b, a),
    decreases a.len(),
{
    if a.len() > 0 && b.len() > 0 && fold_val(a[0]) == fold_val(b[0]) {
        lemma_chars_le_total(a.drop_first(), b.drop_first());
    }
}

/// Compares two strings in case-folded lexicographic order.
pub fn str_le_ci(a: &str, b: &str) -> (r: bool)
    ensures
        r == chars_le(a@, b@),
{
    let na = a.unicode_len();
    let nb = b.unicode_len();
    let mut k: usize = 0;
    proof {
        assert(a@.skip(0) =~= a@);
        assert(b@.skip(0) =~= b@);
    }
    while k < na && k < nb
        invariant
            k <= na,
            k <= nb,
            na == a@.len(),
            nb == b@.len(),
            chars_le(a@, b@) == chars_le(a@.skip(k as int), b@.skip(k as int)),
            chars_le(b@, a@) == chars_le(b@.skip(k as int), a@.skip(k as int)),
        decreases na - k,
    {
        let ca = a.get_char(k);
        let cb = b.get_char(k);
        let fa: u32 = if 'A' <= ca && ca <= 'Z' {
            ca as u32 + 32
        } else {
            ca as u32
        };
        let fb: u32 = if 'A' <= cb && cb <= 'Z' {
            cb as u32 + 32
        } else {
            cb as u32
        };
        proof {
            assert(a@.skip(k as int)[0] == a@[k as int]);
            assert(b@.skip(k as int)[0] == b@[k as int]);
            assert(a@.skip(k as int).drop_first() =~= a@.skip(k as int + 1));
            assert(b@.skip(k as int).drop_first() =~= b@.skip(k as int + 1));
            assert(fa == fold_val(a@[k as int]));
            assert(fb == fold_val(b@[k as int]));
        }
        if fa < fb {
            return true;
        }
        if fa > fb {
            return false;
        }
        k += 1;
    }
    proof {
        if k >= na {
            assert(a@.skip(k as int) =~= Seq::<char>::empty());
        } else {
            assert(b@.skip(k as int) =~= Seq::<char>::empty());
            assert(a@.skip(k as int).len() > 0);
        }
    }
    na <= nb
}

/// Adjacent entries are in case-folded order.
pub open spec fn tags_sorted(s: Seq<String>) -> bool {
    forall|i: int| 0 <= i < s.len() - 1 ==> chars_le((#[trigger] s[i])@, s[i + 1]@)
}

/// Sorts tags ascending by case-folded comparison, keeping exactly the same
/// multiset of values.
pub fn sort_tags(tags: Vec<String>) -> (r: Vec<String>)
    ensures
        tags_sorted(r@),
        r@.to_multiset() == tags@.to_multiset(),
{
    let mut out: Vec<String> = Vec::new();
    let mut k: usize = 0;
    proof {
        broadcast use vstd::seq_lib::group_to_multiset_ensures;

        assert(tags@.take(0) =~= Seq::<String>::empty());
        assert(out@.to_multiset() =~= tags@.take(0).to_multiset());
    }
    while k < tags.len()
        invariant
            k <= tags@.len(),
            tags_sorted(out@),
            out@.to_multiset() == tags@.take(k as int).to_multiset(),
        decreases tags@.len() - k,
    {
        let x = tags[k].clone();
        let mut p: usize = 0;
        while p < out.len() && str_le_ci(out[p].as_str(), x.as_str())
            invariant
                p <= out@.len(),
                x == tags@[k as int],
                forall|i: int| 0 <= i < p ==> chars_le((#[trigger] out@[i])@, x@),
            decreases out@.len() - p,
        {
            p += 1;
        }
        let ghost old_out = out@;
        proof {
            if p < out@.len() {
                lemma_chars_le_total(out@[p as int]@, x@);
            }
        }
        out.insert(p, x);
        proof {
            broadcast use vstd::seq_lib::group_to_multiset_ensures;

            assert(tags_sorted(out@)) by {
                assert forall|i: int| 0 <= i < out@.len() - 1 implies chars_le(
                    (#[trigger] out@[i])@,
                    out@[i + 1]@,
                ) by {
                    if i + 1 < p {
                        assert(out@[i] == old_out[i] && out@[i + 1] == old_out[i + 1]);
                    } else if i + 1 == p {
                        assert(out@[i] == old_out[i]);
                    } else if i == p {
                        assert(out@[i + 1] == old_out[i]);
                    } else {
                        assert(out@[i] == old_out[i - 1] && out@[i + 1] == old_out[i]);
                    }
                }
            }
            lemma_insert_to_multiset(old_out, p as int, tags@[k as int]);
            assert(tags@.take(k as int + 1).drop_last() =~= tags@.take(k as int));
            assert(tags@.take(k as int + 1).last() == tags@[k as int]);
            assert(tags@.take(k as int + 1) =~= tags@.take(k as int).push(tags@[k as int]));
        }
        k += 1;
    }
    proof {
        assert(tags@.take(tags@.len() as int) =~= tags@);
    }
    out
}

/// Inserting into a sequence adds one occurrence to its multiset.
proof fn lemma_insert_to_multiset(s: Seq<String>, p: int, x: String)
    requires
        0 <= p <= s.len(),
    ensures
        s.insert(p, x).to_multiset() == s.to_multiset().insert(x),
{
    broadcast use vstd::seq_lib::group_to_multiset_ensures;

    let t = s.insert(p, x);
    assert(t.remove(p) =~= s);
    assert(t[p] == x);
    assert(t.remove(p).to_multiset() =~= t.to_multiset().remove(x));
    assert(t.to_multiset().contains(x)) by {
        assert(t.contains(x));
    }
    assert(t.to_multiset() =~= s.to_multiset().insert(x));
}

/// The entries after the first occurrence of `last`; empty when `last` does
/// not occur.
pub open spec fn spec_cut(tags: Seq<String>, last: Seq<char>) -> Seq<String>
    decreases tags.len(),
{
    if tags.len() == 0 {
        Seq::empty()
    } else if tags[0]@ == last {
        tags.drop_first()
    } else {
        spec_cut(tags.drop_first(), last)
    }
}

/// The page: cut at `last` when present, then at most `n` entries.
pub open spec fn spec_paginate(
    tags: Seq<String>,
    last: Option<Seq<char>>,
    n: Option<usize>,
) -> Seq<String> {
    let cut = match last {
        Some(l) => spec_cut(tags, l),
        None => tags,
    };
    match n {
        Some(n) => if n < cut.len() {
            cut.take(n as int)
        } else {
            cut
        },
        None => cut,
    }
}

/// Applies the `last` cut-point and the `n` limit to a tag list.
pub fn paginate(tags: Vec<String>, last: Option<&str>, n: Option<usize>) -> (r: Vec<String>)
    ensures
        r@ == spec_paginate(
            tags@,
            match last {
                Some(l) => Some(l@),
                None => None,
            },
            n,
        ),
{
    let mut cut: Vec<String> = match last {
        Some(l) => {
            let mut pos: Option<usize> = None;
            let mut k: usize = 0;
            proof {
                assert(tags@.skip(0) =~= tags@);
            }
            while k < tags.len()
                invariant_except_break
                    pos is None,
                    k <= tags@.len(),
                    spec_cut(tags@.skip(k as int), l@) == spec_cut(tags@, l@),
                ensures
                    match pos {
                        Some(p) => p < tags@.len() && spec_cut(tags@, l@) == tags@.skip(
                            p as int + 1,
                        ),
                        None => spec_cut(tags@, l@) == Seq::<String>::empty(),
                    },
                decreases tags@.len() - k,
            {
                proof {
                    assert(tags@.skip(k as int)[0] == tags@[k as int]);
                    assert(tags@.skip(k as int).drop_first() =~= tags@.skip(k as int + 1));
                }
                if crate::text::str_eq(tags[k].as_str(), l) {
                    pos = Some(k);
                    break ;
                }
                k += 1;
            }
            proof {
                if pos is None {
                    assert(tags@.skip(tags@.len() as int) =~= Seq::<String>::empty());
                }
            }
            let mut cut: Vec<String> = Vec::new();
            let total = tags.len();
            match pos {
                Some(p) => {
                    proof {
                        assert(p < total);
                    }
                    let mut j: usize = p + 1;
                    proof {
                        assert(cut@ =~= tags@.skip(p as int + 1).take(0));
                    }
                    while j < tags.len()
                        invariant
                            p < j <= tags@.len(),
                            cut@ == tags@.skip(p as int + 1).take(j - p - 1),
                        decreases tags@.len() - j,
                    {
                        cut.push(tags[j].clone());
                        proof {
                            assert(cut@ =~= tags@.skip(p as int + 1).take(j - p));
                        }
                        j += 1;
                    }
                    proof {
                        assert(tags@.skip(p as int + 1).take(tags@.len() - p - 1) =~= tags@.skip(
                            p as int + 1,
                        ));
                    }
                }
                None => {
                    proof {
                        assert(cut@ =~= spec_cut(tags@, l@));
                    }
                }
            }
            cut
        }
        None => tags,
    };
    if let Some(limit) = n {
        if limit < cut.len() {
            cut.truncate(limit);
        }
    }
    cut
}

/// Tag pagination: on a list where the cut-point first occurs at `idx`, the
/// page holds the entries from `idx + 1` on, at most `k` of them.
pub proof fn lemma_tag_pagination(tags: Seq<String>, idx: int, k: usize)
    requires
        0 <= idx < tags.len(),
        forall|j: int| 0 <= j < idx ==> (#[trigger] tags[j])@ != tags[idx]@,
    ensures
        spec_paginate(tags, Some(tags[idx]@), Some(k)) == if k < tags.len() - idx - 1 {
            tags.skip(idx + 1).take(k as int)
        } else {
            tags.skip(idx + 1)
        },
    decreases idx,
{
    if idx == 0 {
        assert(spec_cut(tags, tags[0]@) == tags.drop_first());
        assert(tags.drop_first() =~= tags.skip(1));
    } else {
        assert(tags[0]@ != tags[idx]@);
        lemma_tag_pagination(tags.drop_first(), idx - 1, k);
        assert(tags.drop_first()[idx - 1] == tags[idx]);
        assert(spec_cut(tags, tags[idx]@) == spec_cut(tags.drop_first(), tags[idx]@));
        assert(tags.drop_first().skip(idx) =~= tags.skip(idx + 1));
        assert forall|j: int| 0 <= j < idx - 1 implies (#[trigger] tags.drop_first()[j])@
            != tags.drop_first()[idx - 1]@ by {
            assert(tags.drop_first()[j] == tags[j + 1]);
        }
    }
}

/// The decimal digit bytes of a number, most significant first.
pub open spec fn dec_bytes(n: u64) -> Seq<u8>
    decreases n,
{
    if n < 10 {
        seq![(48 + n) as u8]
    } else {
        dec_bytes(n / 10).push((48 + n % 10) as u8)
    }
}

/// The decimal characters of a number.
pub open spec fn dec_chars(n: u64) -> Seq<char> {
    ascii_view(dec_bytes(n))
}

fn push_dec(n: u64, out: &mut Vec<u8>)
    ensures
        final(out)@ == old(out)@ + dec_bytes(n),
    decreases n,
{
    if n >= 10 {
        push_dec(n / 10, out);
    }
    out.push(48 + (n % 10) as u8);
    proof {
        if n < 10 {
            assert(final(out)@ =~= old(out)@ + dec_bytes(n));
        } else {
            assert(final(out)@ =~= old(out)@ + dec_bytes(n));
        }
    }
}

/// Every decimal digit byte is ASCII.
proof fn lemma_dec_bytes_ascii(n: u64)
    ensures
        all_ascii(dec_bytes(n)),
    decreases n,
{
    if n >= 10 {
        lemma_dec_bytes_ascii(n / 10);
        assert forall|i: int| 0 <= i < dec_bytes(n).len() implies dec_bytes(n)[i] < 128 by {
            if i < dec_bytes(n).len() - 1 {
                assert(dec_bytes(n)[i] == dec_bytes(n / 10)[i]);
            }
        }
    }
}

/// Formats a number in decimal.
pub fn u64_to_string(n: u64) -> (r: String)
    ensures
        r@ == dec_chars(n),
{
    let mut out: Vec<u8> = Vec::new();
    push_dec(n, &mut out);
    proof {
        lemma_dec_bytes_ascii(n);
        assert(out@ =~= dec_bytes(n));
    }
    ascii_string(&out)
}

/// True for a decimal digit character.
pub open spec fn is_digit_char(c: char) -> bool {
    '0' <= c && c <= '9'
}

/// The value of decimal digit characters, most significant first.
pub open spec fn digits_value(s: Seq<char>) -> nat
    decreases s.len(),
{
    if s.len() == 0 {
        0
    } else {
        digits_value(s.drop_last()) * 10 + (s.last() as u32 - 48) as nat
    }
}

/// What a `Range` header means: `bytes=<skip>-` with 1 to 19 digits gives
/// the skip count; anything else is not acceptable. A skip of twenty or more
/// digits cannot fit a 64-bit size and is likewise not acceptable.
pub open spec fn spec_range(s: Seq<char>) -> Option<u64> {
    if s.len() >= 8 && s.take(6) == "bytes="@ && s.last() == '-' && {
        let mid = s.subrange(6, s.len() - 1);
        1 <= mid.len() <= 19 && (forall|i: int| 0 <= i < mid.len() ==> is_digit_char(
            #[trigger] mid[i],
        ))
    } {
        Some(digits_value(s.subrange(6, s.len() - 1)) as u64)
    } else {
        None
    }
}

/// Ten to the `n`.
pub open spec fn pow10(n: nat) -> nat
    decreases n,
{
    if n == 0 {
        1
    } else {
        10 * pow10((n - 1) as nat)
    }
}

proof fn lemma_digits_value_pow(s: Seq<char>)
    requires
        forall|i: int| 0 <= i < s.len() ==> is_digit_char(#[trigger] s[i]),
    ensures
        digits_value(s) < pow10(s.len()),
    decreases s.len(),
{
    if s.len() > 0 {
        lemma_digits_value_pow(s.drop_last());
    }
}

proof fn lemma_pow10_le(a: nat, b: nat)
    requires
        a <= b,
    ensures
        pow10(a) <= pow10(b),
    decreases b,
{
    if a < b {
        lemma_pow10_le(a, (b - 1) as nat);
        assert(pow10((b - 1) as nat) >= 1) by {
            lemma_pow10_pos((b - 1) as nat);
        }
    }
}

proof fn lemma_pow10_pos(n: nat)
    ensures
        pow10(n) >= 1,
    decreases n,
{
    if n > 0 {
        lemma_pow10_pos((n - 1) as nat);
    }
}

/// The value of at most 19 digits fits under ten to the nineteenth, and of
/// at most 18 under ten to the eighteenth.
pub proof fn lemma_digits_bound(s: Seq<char>)
    requires
        forall|i: int| 0 <= i < s.len() ==> is_digit_char(#[trigger] s[i]),
        s.len() <= 19,
    ensures
        digits_value(s) < 0x8AC7230489E80000,
        s.len() <= 18 ==> digits_value(s) < 0xDE0B6B3A7640000,
{
    lemma_digits_value_pow(s);
    lemma_pow10_le(s.len(), 19);
    assert(pow10(19) == 0x8AC7230489E80000 && pow10(18) == 0xDE0B6B3A7640000) by {
        reveal_with_fuel(pow10, 21);
    }
    if s.len() <= 18 {
        lemma_pow10_le(s.len(), 18);
    }
}

/// Parses a `Range` header value.
pub fn parse_range(s: &str) -> (r: Option<u64>)
    ensures
        r == spec_range(s@),
{
    proof {
        reveal_strlit("bytes=");
    }
    let n = s.unicode_len();
    if n < 8 {
        return None;
    }
    let prefix = s.substring_char(0, 6);
    proof {
        assert(s@.take(6) =~= s@.subrange(0, 6));
    }
    if !crate::text::str_eq(prefix, "bytes=") {
        return None;
    }
    if s.get_char(n - 1) != '-' {
        return None;
    }
    let mid_len = n - 7;
    if mid_len < 1 || mid_len > 19 {
        return None;
    }
    let ghost mid = s@.subrange(6, s@.len() - 1);
    let mut value: u64 = 0;
    let mut k: usize = 6;
    proof {
        assert(mid.take(0) =~= Seq::<char>::empty());
    }
    while k < n - 1
        invariant
            6 <= k <= n - 1,
            n == s@.len(),
            8 <= n,
            mid == s@.subrange(6, s@.len() - 1),
            mid.len() == n - 7 <= 19,
            forall|i: int| 0 <= i < k - 6 ==> is_digit_char(#[trigger] mid[i]),
            value == digits_value(mid.take(k - 6)),
        decreases n - k,
    {
        let c = s.get_char(k);
        if !('0' <= c && c <= '9') {
            proof {
                assert(mid[k - 6] == s@[k as int]);
                assert(!is_digit_char(mid[k - 6]));
            }
            return None;
        }
        let d: u64 = (c as u32 - 48) as u64;
        proof {
            assert(mid[k - 6] == s@[k as int]);
            lemma_digits_value_pow(mid.take(k - 6));
            lemma_pow10_le((k - 6) as nat, 18);
            assert(pow10(18) == 0xDE0B6B3A7640000) by {
                reveal_with_fuel(pow10, 20);
            }
            assert(mid.take(k - 6 + 1).drop_last() =~= mid.take(k - 6));
            assert(mid.take(k - 6 + 1).last() == mid[k - 6]);
        }
        value = value * 10 + d;
        k += 1;
    }
    proof {
        assert(mid.take(mid.len() as int) =~= mid);
        assert(s@.last() == s@[n - 1]);
    }
    Some(value)
}

/// Copies the bytes from `skip` on.
pub fn skip_bytes(data: &Vec<u8>, skip: usize) -> (r: Vec<u8>)
    requires
        skip <= data@.len(),
    ensures
        r@ == data@.skip(skip as int),
{
    let mut out: Vec<u8> = Vec::new();
    let mut k: usize = skip;
    proof {
        assert(out@ =~= data@.skip(skip as int).take(0));
    }
    while k < data.len()
        invariant
            skip <= k <= data@.len(),
            out@ == data@.skip(skip as int).take(k - skip),
        decreases data@.len() - k,
    {
        out.push(data[k]);
        proof {
            assert(out@ =~= data@.skip(skip as int).take(k + 1 - skip));
        }
        k += 1;
    }
    proof {
        assert(data@.skip(skip as int).take(data@.len() - skip) =~= data@.skip(skip as int));
    }
    out
}

/// A computed HTTP response: the status code, the headers in order, and the
/// body bytes.
pub struct HttpResponse {
    pub status: u16,
    pub headers: Vec<(String, String)>,
    pub body: Vec<u8>,
}

/// The characters of a `Content-Range` line for a satisfied range.
pub open spec fn content_range_chars(skip: u64, size: u64) -> Seq<char> {
    "bytes "@ + dec_chars(skip) + seq!['-'] + dec_chars((size - 1) as u64) + seq!['/'] + dec_chars(
        size,
    )
}

/// The characters of a `Content-Range` line for an unsatisfiable range.
pub open spec fn content_range_unsatisfied_chars(size: u64) -> Seq<char> {
    "bytes */"@ + dec_chars(size)
}

fn content_headers(content: &Content, len: u64) -> (r: Vec<(String, String)>)
    ensures
        r@.len() == 3,
        r@[0].0@ == "Content-Type"@ && r@[0].1@ == content.media_type@,
        r@[1].0@ == "Content-Length"@ && r@[1].1@ == dec_chars(len),
        r@[2].0@ == "Docker-Content-Digest"@ && r@[2].1@ == content.digest@,
{
    let mut out: Vec<(String, String)> = Vec::new();
    out.push((String::from_str("Content-Type"), content.media_type.clone()));
    out.push((String::from_str("Content-Length"), u64_to_string(len)));
    out.push((String::from_str("Docker-Content-Digest"), content.digest.clone()));
    out
}

/// Serves a stored content: a plain read is a 200 with the full bytes; a
/// `bytes=<skip>-` range within the size is a 206 with the bytes from `skip`
/// on; any other range form is a 416. The digest announced in the headers is
/// always the digest of the whole content, and a HEAD answer carries the
/// same headers with an empty body.
pub fn content_response(content: &Content, data: &Vec<u8>, range: Option<&str>, head: bool) -> (r:
    HttpResponse)
    requires
        data@.len() == content.size,
    ensures
        match range {
            None => {
                &&& r.status == 200
                &&& r.body@ == if head {
                    Seq::<u8>::empty()
                } else {
                    data@
                }
                &&& r.headers@.len() == 3
                &&& r.headers@[1].1@ == dec_chars(content.size)
            },
            Some(h) => {
                match spec_range(h@) {
                    Some(skip) => {
                        if skip < content.size {
                            &&& r.status == 206
                            &&& r.body@ == if head {
                                Seq::<u8>::empty()
                            } else {
                                data@.skip(skip as int)
                            }
                            &&& r.headers@.len() == 4
                            &&& r.headers@[3].0@ == "Content-Range"@
                            &&& r.headers@[3].1@ == content_range_chars(skip, content.size)
                            &&& r.headers@[1].1@ == dec_chars((content.size - skip) as u64)
                        } else {
                            &&& r.status == 416
                            &&& r.body@ == Seq::<u8>::empty()
                            &&& r.headers@.len() == 1
                            &&& r.headers@[0].0@ == "Content-Range"@
                            &&& r.headers@[0].1@ == content_range_unsatisfied_chars(content.size)
                        }
                    },
                    None => {
                        &&& r.status == 416
                        &&& r.body@ == Seq::<u8>::empty()
                        &&& r.headers@.len() == 1
                        &&& r.headers@[0].0@ == "Content-Range"@
                        &&& r.headers@[0].1@ == content_range_unsatisfied_chars(content.size)
                    },
                }
            },
        },
        r.status != 416 ==> {
            &&& r.headers@[0].0@ == "Content-Type"@ && r.headers@[0].1@ == content.media_type@
            &&& r.headers@[1].0@ == "Content-Length"@
            &&& r.headers@[2].0@ == "Docker-Content-Digest"@ && r.headers@[2].1@
                == content.digest@
        },
{
    proof {
        reveal_strlit("bytes ");
        reveal_strlit("-");
        reveal_strlit("/");
        reveal_strlit("bytes */");
    }
    match range {
        None => {
            let headers = content_headers(content, content.size);
            let body: Vec<u8> = if head {
                Vec::new()
            } else {
                skip_bytes(data, 0)
            };
            proof {
                assert(data@.skip(0) =~= data@);
                assert(body@ == if head {
                    Seq::<u8>::empty()
                } else {
                    data@
                });
            }
            HttpResponse { status: 200, headers, body }
        }
        Some(h) => {
            match parse_range(h) {
                Some(skip) => {
                    if skip < content.size {
                        let mut headers = content_headers(content, content.size - skip);
                        let mut range_line = String::from_str("bytes ");
                        range_line.append(u64_to_string(skip).as_str());
                        range_line.append("-");
                        range_line.append(u64_to_string(content.size - 1).as_str());
                        range_line.append("/");
                        range_line.append(u64_to_string(content.size).as_str());
                        proof {
                            assert(range_line@ =~= content_range_chars(skip, content.size));
                        }
                        headers.push((String::from_str("Content-Range"), range_line));
                        let dlen = data.len();
                        proof {
                            assert(dlen == content.size);
                            assert(skip <= dlen as u64);
                        }
                        let body: Vec<u8> = if head {
                            Vec::new()
                        } else {
                            skip_bytes(data, skip as usize)
                        };
                        HttpResponse { status: 206, headers, body }
                    } else {
                        let mut headers: Vec<(String, String)> = Vec::new();
                        let mut range_line = String::from_str("bytes */");
                        range_line.append(u64_to_string(content.size).as_str());
                        proof {
                            assert(range_line@ =~= content_range_unsatisfied_chars(content.size));
                        }
                        headers.push((String::from_str("Content-Range"), range_line));
                        HttpResponse { status: 416, headers, body: Vec::new() }
                    }
                }
                None => {
                    let mut headers: Vec<(String, String)> = Vec::new();
                    let mut range_line = String::from_str("bytes */");
                    range_line.append(u64_to_string(content.size).as_str());
                    proof {
                        assert(range_line@ =~= content_range_unsatisfied_chars(content.size));
                    }
                    headers.push((String::from_str("Content-Range"), range_line));
                    HttpResponse { status: 416, headers, body: Vec::new() }
                }
            }
        }
    }
}

/// The version probe body.
pub fn support_body() -> (r: &'static str)
    ensures
        r@ == "OCI Distribution Spec V2 supported"@,
{
    "OCI Distribution Spec V2 supported"
}

/// The fixed body of unmatched routes.
pub fn not_found_body() -> (r: &'static str)
    ensures
        r@ == "In the beginning there was darkness... Or was it 404? I can\'t remember."@,
{
    "In the beginning there was darkness... Or was it 404? I can\'t remember."
}

/// Builds the tag listing document: an object holding the repository name
/// and the served tags, in order, printed compactly.
pub fn tags_body(name: &str, tags: &Vec<String>) -> (r: Vec<u8>)
    ensures
        crate::json::json_of(r@) is Some,
        ({
            let v = crate::json::json_of(r@).unwrap();
            let m = crate::json::json_obj(v);
            &&& m is Some
            &&& m.unwrap().dom().contains("name"@)
            &&& crate::json::json_str_of(m.unwrap()["name"@]) == Some(name@)
            &&& m.unwrap().dom().contains("tags"@)
            &&& ({
                let arr = crate::json::json_arr(m.unwrap()["tags"@]);
                &&& arr is Some
                &&& arr.unwrap().len() == tags@.len()
                &&& forall|i: int|
                    0 <= i < tags@.len() ==> crate::json::json_str_of(#[trigger] arr.unwrap()[i])
                        == Some(tags@[i]@)
            })
        }),
{
    let mut items: Vec<serde_json::Value> = Vec::new();
    let mut k: usize = 0;
    while k < tags.len()
        invariant
            k <= tags@.len(),
            items@.len() == k,
            forall|i: int|
                0 <= i < k ==> crate::json::json_str_of(#[trigger] items@[i]) == Some(tags@[i]@),
            forall|i: int| 0 <= i < k ==> crate::json::json_depth(#[trigger] items@[i]) == 0,
        decreases tags@.len() - k,
    {
        items.push(crate::json::json_string(tags[k].as_str()));
        k += 1;
    }
    proof {
        assert(crate::json::items_depth_le(items@, 0));
    }
    let arr = crate::json::json_array(items);
    let name_v = crate::json::json_string(name);
    let mut entries: Vec<(String, serde_json::Value)> = Vec::new();
    entries.push((String::from_str("name"), name_v));
    entries.push((String::from_str("tags"), arr));
    let ghost es = entries@;
    proof {
        assert(crate::json::json_depth(arr) <= 1);
        assert(crate::json::entries_depth_le(es, 1));
    }
    let obj = crate::json::json_object(entries);
    proof {
        assert(crate::json::json_depth(obj) <= 2);
        reveal_strlit("name");
        reveal_strlit("tags");
        assert("name"@[0] == 'n' && "tags"@[0] == 't');
        assert("name"@ != "tags"@);
        assert(es.len() == 2);
        assert(es.drop_last().drop_last() =~= Seq::<(String, serde_json::Value)>::empty());
        assert(es.drop_last().last() == es[0]);
        assert(crate::json::entries_map(es) == crate::json::entries_map(es.drop_last()).insert(
            es[1].0@,
            es[1].1,
        ));
        assert(crate::json::entries_map(es.drop_last()) == crate::json::entries_map(
            Seq::<(String, serde_json::Value)>::empty(),
        ).insert(es[0].0@, es[0].1));
        assert(es[0].0@ == "name"@ && es[1].0@ == "tags"@);
    }
    crate::json::json_compact(&obj)
}

} // verus!
