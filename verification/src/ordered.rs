//! Text-to-text maps that keep their entries in insertion order.

use vstd::prelude::*;
use linked_hash_map::LinkedHashMap;

verus! {

/// `LinkedHashMap` of the `linked-hash-map` crate: a hash map that keeps
/// its entries in the order in which they were put in.
#[verifier::external_type_specification]
#[verifier::external_body]
#[verifier::reject_recursive_types(K)]
#[verifier::reject_recursive_types(V)]
#[verifier::reject_recursive_types(S)]
pub struct ExLinkedHashMap<K, V, S>(LinkedHashMap<K, V, S>);

/// The entries of a map, oldest first: each a key and its value.
pub uninterp spec fn entries_of(m: LinkedHashMap<String, String>) -> Seq<(Seq<char>, Seq<char>)>;

/// The views of a vector of pairs of strings.
pub open spec fn pair_views(pairs: Seq<(String, String)>) -> Seq<(Seq<char>, Seq<char>)> {
    Seq::new(pairs.len(), |i: int| (pairs[i].0@, pairs[i].1@))
}

/// Some entry has the key `k`.
pub open spec fn has_key(s: Seq<(Seq<char>, Seq<char>)>, k: Seq<char>) -> bool {
    exists|i: int| 0 <= i < s.len() && (#[trigger] s[i]).0 == k
}

/// No two entries share a key.
pub open spec fn distinct_keys(s: Seq<(Seq<char>, Seq<char>)>) -> bool {
    forall|i: int, j: int| 0 <= i < j < s.len() ==> (#[trigger] s[i]).0 != (#[trigger] s[j]).0
}

/// The entries of `s` whose key is not `k`, in their order.
pub open spec fn without_key(s: Seq<(Seq<char>, Seq<char>)>, k: Seq<char>) -> Seq<
    (Seq<char>, Seq<char>),
>
    decreases s.len(),
{
    if s.len() == 0 {
        s
    } else if s.last().0 == k {
        without_key(s.drop_last(), k)
    } else {
        without_key(s.drop_last(), k).push(s.last())
    }
}

/// The entries after `k` has been given the value `v`: the pair stands last,
/// and an older entry for `k` is gone.
pub open spec fn inserted(s: Seq<(Seq<char>, Seq<char>)>, k: Seq<char>, v: Seq<char>) -> Seq<
    (Seq<char>, Seq<char>),
> {
    without_key(s, k).push((k, v))
}

/// The entries of a map that was empty and then given each pair in turn.
pub open spec fn collected(pairs: Seq<(Seq<char>, Seq<char>)>) -> Seq<(Seq<char>, Seq<char>)>
    decreases pairs.len(),
{
    if pairs.len() == 0 {
        pairs
    } else {
        inserted(collected(pairs.drop_last()), pairs.last().0, pairs.last().1)
    }
}

/// Taking out a key that is not there changes nothing.
pub proof fn lemma_without_absent_key(s: Seq<(Seq<char>, Seq<char>)>, k: Seq<char>)
    requires
        !has_key(s, k),
    ensures
        without_key(s, k) == s,
    decreases s.len(),
{
    if s.len() > 0 {
        let init = s.drop_last();
        assert(s[s.len() - 1].0 != k);
        assert forall|i: int| 0 <= i < init.len() implies (#[trigger] init[i]).0 != k by {
            assert(init[i] == s[i]);
        }
        lemma_without_absent_key(init, k);
        assert(init.push(s.last()) =~= s);
    }
}

/// What is left after taking out a key are entries that were there, none
/// with that key, and distinct keys stay distinct.
pub proof fn lemma_without_key_facts(s: Seq<(Seq<char>, Seq<char>)>, k: Seq<char>)
    ensures
        !has_key(without_key(s, k), k),
        without_key(s, k).len() <= s.len(),
        forall|i: int|
            0 <= i < without_key(s, k).len() ==> s.contains(#[trigger] without_key(s, k)[i]),
        distinct_keys(s) ==> distinct_keys(without_key(s, k)),
    decreases s.len(),
{
    if s.len() > 0 {
        let init = s.drop_last();
        lemma_without_key_facts(init, k);
        let w0 = without_key(init, k);
        let w = without_key(s, k);
        assert forall|i: int| 0 <= i < w.len() implies s.contains(#[trigger] w[i]) by {
            if i < w0.len() {
                assert(init.contains(w0[i]));
                let j = choose|j: int| 0 <= j < init.len() && init[j] == w0[i];
                assert(s[j] == w0[i]);
            } else {
                assert(w[i] == s[s.len() - 1]);
            }
        }
        if distinct_keys(s) {
            assert forall|i: int, j: int| 0 <= i < j < init.len() implies (#[trigger] init[i]).0
                != (#[trigger] init[j]).0 by {
                assert(init[i] == s[i] && init[j] == s[j]);
            }
            if s.last().0 != k {
                assert forall|i: int, j: int| 0 <= i < j < w.len() implies (#[trigger] w[i]).0
                    != (#[trigger] w[j]).0 by {
                    if j == w.len() - 1 {
                        assert(init.contains(w0[i]));
                        let m = choose|m: int| 0 <= m < init.len() && init[m] == w0[i];
                        assert(s[m] == w[i]);
                        assert(s[s.len() - 1] == w[j]);
                    }
                }
            }
        }
    }
}

/// Giving a key a value keeps the keys distinct.
pub proof fn lemma_inserted_distinct(s: Seq<(Seq<char>, Seq<char>)>, k: Seq<char>, v: Seq<char>)
    requires
        distinct_keys(s),
    ensures
        distinct_keys(inserted(s, k, v)),
        inserted(s, k, v).len() >= 1,
        !has_key(s, k) ==> inserted(s, k, v) == s.push((k, v)),
{
    lemma_without_key_facts(s, k);
    let w = without_key(s, k);
    let r = inserted(s, k, v);
    assert forall|i: int, j: int| 0 <= i < j < r.len() implies (#[trigger] r[i]).0 != (
    #[trigger] r[j]).0 by {
        if j == r.len() - 1 {
            assert(w[i].0 != k);
        } else {
            assert(r[i] == w[i] && r[j] == w[j]);
        }
    }
    if !has_key(s, k) {
        lemma_without_absent_key(s, k);
    }
}

/// A map that was given pairs one after another has distinct keys.
pub proof fn lemma_collected_distinct(pairs: Seq<(Seq<char>, Seq<char>)>)
    ensures
        distinct_keys(collected(pairs)),
        pairs.len() > 0 ==> collected(pairs).len() > 0,
        forall|i: int|
            0 <= i < collected(pairs).len() ==> pairs.contains(#[trigger] collected(pairs)[i]),
    decreases pairs.len(),
{
    if pairs.len() > 0 {
        let init = pairs.drop_last();
        lemma_collected_distinct(init);
        let c0 = collected(init);
        let last = pairs.last();
        lemma_inserted_distinct(c0, last.0, last.1);
        lemma_without_key_facts(c0, last.0);
        let w = without_key(c0, last.0);
        let c = collected(pairs);
        assert forall|i: int| 0 <= i < c.len() implies pairs.contains(#[trigger] c[i]) by {
            if i < w.len() {
                assert(c0.contains(w[i]));
                let j = choose|j: int| 0 <= j < c0.len() && c0[j] == w[i];
                assert(init.contains(c0[j]));
                let m = choose|m: int| 0 <= m < init.len() && init[m] == c0[j];
                assert(pairs[m] == c[i]);
            } else {
                assert(pairs[pairs.len() - 1] == c[i]);
            }
        }
    }
}

/// Pairs with distinct keys are kept as they are, in their order.
pub proof fn lemma_collected_keeps_distinct_pairs(pairs: Seq<(Seq<char>, Seq<char>)>)
    requires
        distinct_keys(pairs),
    ensures
        collected(pairs) == pairs,
    decreases pairs.len(),
{
    if pairs.len() > 0 {
        let init = pairs.drop_last();
        assert forall|i: int, j: int| 0 <= i < j < init.len() implies (#[trigger] init[i]).0 != (
        #[trigger] init[j]).0 by {
            assert(init[i] == pairs[i] && init[j] == pairs[j]);
        }
        lemma_collected_keeps_distinct_pairs(init);
        let k = pairs.last().0;
        assert forall|i: int| 0 <= i < init.len() implies (#[trigger] init[i]).0 != k by {
            assert(init[i] == pairs[i]);
            assert(pairs[pairs.len() - 1].0 == k);
        }
        assert(!has_key(init, k));
        lemma_without_absent_key(init, k);
        assert(init.push(pairs.last()) =~= pairs);
    }
}

/// `LinkedHashMap::new` makes a map without entries.
#[verifier::external_body]
pub(crate) fn new_map() -> (m: LinkedHashMap<String, String>)
    ensures
        entries_of(m) == Seq::<(Seq<char>, Seq<char>)>::empty(),
{
    LinkedHashMap::new()
}

/// `LinkedHashMap::insert` gives `key` the value `value`. A key that the map
/// did not hold is added behind all others. For a key that it held, the value
/// is replaced and the entry moves behind all others.
#[verifier::external_body]
pub(crate) fn map_insert(m: &mut LinkedHashMap<String, String>, key: String, value: String)
    ensures
        entries_of(*final(m)) == inserted(entries_of(*old(m)), key@, value@),
{
    m.insert(key, value);
}

/// `LinkedHashMap::len` is the number of entries.
#[verifier::external_body]
pub(crate) fn map_len(m: &LinkedHashMap<String, String>) -> (n: usize)
    ensures
        n == entries_of(*m).len(),
{
    m.len()
}

/// `LinkedHashMap::iter` walks the entries oldest first; each is handed out
/// as a pair of owned strings.
#[verifier::external_body]
pub(crate) fn map_entries(m: &LinkedHashMap<String, String>) -> (v: Vec<(String, String)>)
    ensures
        pair_views(v@) == entries_of(*m),
{
    m.iter().map(|(k, v)| (k.clone(), v.clone())).collect()
}

} // verus!
