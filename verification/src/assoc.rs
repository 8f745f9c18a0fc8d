//! Association lists keyed by strings, with distinct keys: the verified map
//! shape used for tags, manifests, blobs and applications.

use vstd::prelude::*;
use crate::text::str_eq;

verus! {

/// No two entries share a key.
pub open spec fn keys_distinct<V>(s: Seq<(String, V)>) -> bool {
    forall|i: int, j: int| 0 <= i < j < s.len() ==> s[i].0@ != s[j].0@
}

/// First (and with distinct keys: only) value under a key.
pub open spec fn assoc_find<V>(s: Seq<(String, V)>, key: Seq<char>) -> Option<V>
    decreases s.len(),
{
    if s.len() == 0 {
        None
    } else if s[0].0@ == key {
        Some(s[0].1)
    } else {
        assoc_find(s.drop_first(), key)
    }
}

/// Inserts or replaces the value under `key`, keeping keys distinct.
pub fn upsert<V>(v: &mut Vec<(String, V)>, key: String, c: V)
    requires
        keys_distinct(old(v)@),
    ensures
        keys_distinct(final(v)@),
        forall|j: int|
            0 <= j < final(v)@.len() ==> ((#[trigger] final(v)@[j]).0@ == key@ && final(v)@[j].1
                == c) || (exists|i: int| #![auto] 0 <= i < old(v)@.len() && old(v)@[i] == final(v)@[j]),
        assoc_find(final(v)@, key@) == Some(c),
        forall|k2: Seq<char>|
            k2 != key@ ==> #[trigger] assoc_find(final(v)@, k2) == assoc_find(old(v)@, k2),
        forall|k2: Seq<char>|
            #[trigger] assoc_find(old(v)@, k2) is Some ==> assoc_find(final(v)@, k2) is Some,
{
    let mut k: usize = 0;
    while k < v.len()
        invariant
            k <= v@.len(),
            v@ == old(v)@,
            keys_distinct(v@),
            forall|i: int| 0 <= i < k ==> (#[trigger] v@[i].0@) != key@,
        decreases v@.len() - k,
    {
        if str_eq(v[k].0.as_str(), key.as_str()) {
            let ghost oldv = v@;
            v.set(k, (key, c));
            proof {
                assert(keys_distinct(v@)) by {
                    assert forall|i: int, j: int| 0 <= i < j < v@.len() implies v@[i].0@
                        != v@[j].0@ by {
                        if i != k as int && j != k as int {
                            assert(oldv[i].0@ != oldv[j].0@);
                        }
                    }
                }
                lemma_assoc_find_unique(v@, k as int);
                assert forall|k2: Seq<char>| k2 != key@ implies #[trigger] assoc_find(v@, k2)
                    == assoc_find(oldv, k2) by {
                    lemma_assoc_find_set(oldv, v@, k as int, k2);
                }
            }
            return ;
        }
        k += 1;
    }
    let ghost oldv = v@;
    v.push((key, c));
    proof {
        assert(keys_distinct(v@)) by {
            assert forall|i: int, j: int| 0 <= i < j < v@.len() implies v@[i].0@ != v@[j].0@ by {
                if j == v@.len() - 1 {
                    assert(oldv[i].0@ != key@);
                } else {
                    assert(oldv[i].0@ != oldv[j].0@);
                }
            }
        }
        lemma_assoc_find_unique(v@, v@.len() - 1);
        assert forall|k2: Seq<char>| k2 != v@.last().0@ implies #[trigger] assoc_find(v@, k2)
            == assoc_find(oldv, k2) by {
            assert(v@ =~= oldv.push(v@.last()));
            lemma_assoc_find_push(oldv, v@.last(), k2);
        }
        assert forall|j: int| 0 <= j < v@.len() - 1 implies exists|i: int|
            #![auto]
            0 <= i < oldv.len() && oldv[i] == (#[trigger] v@[j]) by {
            assert(oldv[j] == v@[j]);
        }
    }
}


/// With distinct keys, the entry at `k` is what lookup of its key finds.
pub proof fn lemma_assoc_find_unique<V>(s: Seq<(String, V)>, k: int)
    requires
        keys_distinct(s),
        0 <= k < s.len(),
    ensures
        assoc_find(s, s[k].0@) == Some(s[k].1),
    decreases s.len(),
{
    if k > 0 {
        assert(s[0].0@ != s[k].0@);
        lemma_assoc_find_unique(s.drop_first(), k - 1);
        assert(s.drop_first()[k - 1] == s[k]);
    }
}

/// Replacing the entry at `k` leaves lookups of other keys unchanged,
/// provided keys were distinct and the new entry keeps the key at `k`'s
/// replacement distinct from `k2`.
pub proof fn lemma_assoc_find_set<V>(
    olds: Seq<(String, V)>,
    news: Seq<(String, V)>,
    k: int,
    k2: Seq<char>,
)
    requires
        0 <= k < olds.len(),
        news.len() == olds.len(),
        forall|i: int| 0 <= i < olds.len() && i != k ==> news[i] == olds[i],
        news[k].0@ != k2,
        olds[k].0@ != k2,
    ensures
        assoc_find(news, k2) == assoc_find(olds, k2),
    decreases olds.len(),
{
    if olds.len() > 0 {
        if k == 0 {
            assert(news.drop_first() =~= olds.drop_first());
        } else {
            assert(news[0] == olds[0]);
            if olds[0].0@ != k2 {
                lemma_assoc_find_set(olds.drop_first(), news.drop_first(), k - 1, k2);
                assert(olds.drop_first()[k - 1] == olds[k]);
                assert(news.drop_first()[k - 1] == news[k]);
            }
        }
    }
}

/// Appending an entry leaves lookups of other keys unchanged.
pub proof fn lemma_assoc_find_push<V>(olds: Seq<(String, V)>, kc: (String, V), k2: Seq<char>)
    requires
        k2 != kc.0@,
    ensures
        assoc_find(olds.push(kc), k2) == assoc_find(olds, k2),
    decreases olds.len(),
{
    if olds.len() == 0 {
        assert(olds.push(kc)[0] == kc);
        assert(olds.push(kc).drop_first() =~= Seq::<(String, V)>::empty());
        assert(assoc_find(Seq::<(String, V)>::empty(), k2) is None);
    } else {
        lemma_assoc_find_push(olds.drop_first(), kc, k2);
        assert(olds.push(kc).drop_first() =~= olds.drop_first().push(kc));
        assert(olds.push(kc)[0] == olds[0]);
    }
}

/// Whether the map holds an entry under `key`.
pub fn assoc_contains<V>(v: &Vec<(String, V)>, key: &str) -> (r: bool)
    ensures
        r == (assoc_find(v@, key@) is Some),
{
    let mut k: usize = 0;
    proof {
        assert(v@.skip(0) =~= v@);
    }
    while k < v.len()
        invariant
            k <= v@.len(),
            forall|i: int| 0 <= i < k ==> (#[trigger] v@[i].0@) != key@,
            assoc_find(v@.skip(k as int), key@) == assoc_find(v@, key@),
        decreases v@.len() - k,
    {
        if str_eq(v[k].0.as_str(), key) {
            proof {
                assert(v@.skip(k as int)[0] == v@[k as int]);
            }
            return true;
        }
        proof {
            assert(v@.skip(k as int).drop_first() =~= v@.skip(k as int + 1));
            assert(v@.skip(k as int)[0] == v@[k as int]);
        }
        k += 1;
    }
    proof {
        assert(v@.skip(v@.len() as int) =~= Seq::<(String, V)>::empty());
    }
    false
}

/// Looks up the value under `key`.
pub fn assoc_get<'a, V>(v: &'a Vec<(String, V)>, key: &str) -> (r: Option<&'a V>)
    ensures
        match r {
            Some(c) => assoc_find(v@, key@) == Some(*c),
            None => assoc_find(v@, key@) is None,
        },
{
    let mut k: usize = 0;
    proof {
        assert(v@.skip(0) =~= v@);
    }
    while k < v.len()
        invariant
            k <= v@.len(),
            forall|i: int| 0 <= i < k ==> (#[trigger] v@[i].0@) != key@,
            assoc_find(v@.skip(k as int), key@) == assoc_find(v@, key@),
        decreases v@.len() - k,
    {
        if str_eq(v[k].0.as_str(), key) {
            proof {
                assert(v@.skip(k as int)[0] == v@[k as int]);
            }
            return Some(&v[k].1);
        }
        proof {
            assert(v@.skip(k as int).drop_first() =~= v@.skip(k as int + 1));
            assert(v@.skip(k as int)[0] == v@[k as int]);
        }
        k += 1;
    }
    proof {
        assert(v@.skip(v@.len() as int) =~= Seq::<(String, V)>::empty());
    }
    None
}


/// The keys of the map, in order.
pub fn assoc_keys<V>(v: &Vec<(String, V)>) -> (r: Vec<String>)
    ensures
        r@.len() == v@.len(),
        forall|i: int| 0 <= i < v@.len() ==> (#[trigger] r@[i])@ == v@[i].0@,
{
    let mut out: Vec<String> = Vec::new();
    let mut k: usize = 0;
    while k < v.len()
        invariant
            k <= v@.len(),
            out@.len() == k,
            forall|i: int| 0 <= i < k ==> (#[trigger] out@[i])@ == v@[i].0@,
        decreases v@.len() - k,
    {
        out.push(v[k].0.clone());
        k += 1;
    }
    out
}

/// Appending an entry: lookup finds the old value first, else the new entry
/// when the key matches.
pub proof fn lemma_assoc_find_push_any<V>(olds: Seq<(String, V)>, kc: (String, V), k2: Seq<char>)
    ensures
        assoc_find(olds.push(kc), k2) == match assoc_find(olds, k2) {
            Some(v) => Some(v),
            None => if kc.0@ == k2 {
                Some(kc.1)
            } else {
                None
            },
        },
    decreases olds.len(),
{
    if olds.len() == 0 {
        assert(olds.push(kc)[0] == kc);
        assert(olds.push(kc).drop_first() =~= Seq::<(String, V)>::empty());
        assert(assoc_find(Seq::<(String, V)>::empty(), k2) is None);
    } else {
        lemma_assoc_find_push_any(olds.drop_first(), kc, k2);
        assert(olds.push(kc).drop_first() =~= olds.drop_first().push(kc));
        assert(olds.push(kc)[0] == olds[0]);
    }
}

} // verus!
