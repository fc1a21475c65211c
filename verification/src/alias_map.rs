//! The ordered alias map (`IndexMap<String, String>`) and what the library
//! relies on about it.
//!
//! The contents of a map are modelled as the sequence of its `(name, command)`
//! pairs in iteration order.
use indexmap::IndexMap;
use vstd::prelude::*;

verus! {

/// The ordered map type of the `indexmap` crate.
#[verifier::external_type_specification]
#[verifier::external_body]
#[verifier::reject_recursive_types(K)]
#[verifier::reject_recursive_types(V)]
#[verifier::reject_recursive_types(S)]
pub struct ExIndexMap<K, V, S>(IndexMap<K, V, S>);

/// The `(key, value)` pairs of an alias map, in the map's iteration order.
pub uninterp spec fn alias_entries(m: IndexMap<String, String>) -> Seq<(Seq<char>, Seq<char>)>;

/// The pairs of an alias map as a plain sequence.
pub type Entries = Seq<(Seq<char>, Seq<char>)>;

/// Whether some pair of `es` has key `k`.
pub open spec fn has_key(es: Entries, k: Seq<char>) -> bool {
    exists|i: int| 0 <= i < es.len() && (#[trigger] es[i]).0 == k
}

/// The index of the first pair of `es` with key `k`, or `es.len()` if there is none.
pub open spec fn key_position(es: Entries, k: Seq<char>) -> int
    decreases es.len(),
{
    if es.len() == 0 {
        0
    } else if es[0].0 == k {
        0
    } else {
        1 + key_position(es.drop_first(), k)
    }
}

/// `es` with every pair whose key is `k` taken out, the others in their order.
pub open spec fn without_key(es: Entries, k: Seq<char>) -> Entries
    decreases es.len(),
{
    if es.len() == 0 {
        es
    } else if es.last().0 == k {
        without_key(es.drop_last(), k)
    } else {
        without_key(es.drop_last(), k).push(es.last())
    }
}

/// What inserting `(k, v)` makes of `es`: the value of an existing key is
/// replaced in its place, a new key goes last.
pub open spec fn with_entry(es: Entries, k: Seq<char>, v: Seq<char>) -> Entries {
    if has_key(es, k) {
        es.update(key_position(es, k), (k, v))
    } else {
        es.push((k, v))
    }
}

/// The value stored under the first pair with key `k`.
pub open spec fn value_of(es: Entries, k: Seq<char>) -> Seq<char> {
    es[key_position(es, k)].1
}

/// Creates an empty alias map.
///
/// Trusted: `IndexMap::new`, which creates a map with no pairs.
#[verifier::external_body]
pub(crate) fn new_alias_map() -> (m: IndexMap<String, String>)
    ensures
        alias_entries(m) == Seq::<(Seq<char>, Seq<char>)>::empty(),
{
    IndexMap::new()
}

/// The number of pairs of `m`.
///
/// Trusted: `IndexMap::len`, which returns the number of key-value pairs.
#[verifier::external_body]
pub(crate) fn alias_map_len(m: &IndexMap<String, String>) -> (n: usize)
    ensures
        n == alias_entries(*m).len(),
{
    m.len()
}

/// The pair at position `i` of `m`.
///
/// Trusted: `IndexMap::get_index`, which returns the pair at that position of
/// the iteration order (`Some` for every index below `len`).
#[verifier::external_body]
pub(crate) fn alias_map_get_index(m: &IndexMap<String, String>, i: usize) -> (r: (&String, &String))
    requires
        i < alias_entries(*m).len(),
    ensures
        (r.0@, r.1@) == alias_entries(*m)[i as int],
{
    m.get_index(i).unwrap()
}

/// Removes the pair with key `key` from `m`, keeping the others in order.
///
/// Trusted: `IndexMap::shift_remove`, which removes the pair equivalent to
/// `key` by shifting the later pairs, and returns its value (`None` if the key
/// was absent). A map never holds two equal keys, so taking out every pair
/// with that key is taking out that pair.
#[verifier::external_body]
pub(crate) fn alias_map_shift_remove(m: &mut IndexMap<String, String>, key: &String) -> (r: Option<String>)
    ensures
        alias_entries(*final(m)) == without_key(alias_entries(*old(m)), key@),
        r is Some <==> has_key(alias_entries(*old(m)), key@),
        r matches Some(v) ==> v@ == value_of(alias_entries(*old(m)), key@),
{
    m.shift_remove(key)
}

/// Inserts `(key, value)` into `m`.
///
/// Trusted: `IndexMap::insert`, which replaces the value of an existing
/// equivalent key in its place, or else appends the pair last; it returns
/// the old value, if any.
#[verifier::external_body]
pub(crate) fn alias_map_insert(m: &mut IndexMap<String, String>, key: String, value: String) -> (r: Option<String>)
    ensures
        alias_entries(*final(m)) == with_entry(alias_entries(*old(m)), key@, value@),
        r is Some <==> has_key(alias_entries(*old(m)), key@),
        r matches Some(v) ==> v@ == value_of(alias_entries(*old(m)), key@),
{
    m.insert(key, value)
}


/// `es` after merging the pairs `ps` in order: each pair's key is removed
/// wherever it stands, and the pair is appended last.
pub open spec fn merge_entries(es: Entries, ps: Entries) -> Entries
    decreases ps.len(),
{
    if ps.len() == 0 {
        es
    } else {
        merge_entries(without_key(es, ps[0].0).push(ps[0]), ps.drop_first())
    }
}

/// No pair of `without_key(es, k)` has key `k`.
pub proof fn lemma_without_key_lacks(es: Entries, k: Seq<char>)
    ensures
        !has_key(without_key(es, k), k),
    decreases es.len(),
{
    if es.len() > 0 {
        lemma_without_key_lacks(es.drop_last(), k);
        let r = without_key(es.drop_last(), k);
        if es.last().0 != k {
            assert forall|i: int| 0 <= i < r.push(es.last()).len() implies (#[trigger] r.push(es.last())[i]).0
                != k by {
                if i < r.len() {
                    assert(r.push(es.last())[i] == r[i]);
                }
            }
        }
    }
}


/// No two pairs of `es` have the same key.
pub open spec fn distinct_keys(es: Entries) -> bool {
    forall|i: int, j: int| 0 <= i < j < es.len() ==> (#[trigger] es[i]).0 != (#[trigger] es[j]).0
}

/// `es` with the keys of all pairs of `ps` taken out.
pub open spec fn without_keys(es: Entries, ps: Entries) -> Entries
    decreases ps.len(),
{
    if ps.len() == 0 {
        es
    } else {
        without_keys(without_key(es, ps[0].0), ps.drop_first())
    }
}

/// Taking a key out of two sequences one after the other is taking it out of
/// each.
pub proof fn lemma_without_key_concat(a: Entries, b: Entries, k: Seq<char>)
    ensures
        without_key(a + b, k) == without_key(a, k) + without_key(b, k),
    decreases b.len(),
{
    if b.len() == 0 {
        assert(a + b =~= a);
        assert(without_key(b, k) =~= Seq::<(Seq<char>, Seq<char>)>::empty());
        assert(without_key(a, k) + without_key(b, k) =~= without_key(a, k));
    } else {
        assert((a + b).drop_last() =~= a + b.drop_last());
        assert((a + b).last() == b.last());
        lemma_without_key_concat(a, b.drop_last(), k);
        if b.last().0 != k {
            assert(without_key(a, k) + without_key(b.drop_last(), k).push(b.last()) =~= (without_key(a, k)
                + without_key(b.drop_last(), k)).push(b.last()));
        }
    }
}

/// Taking several keys out distributes over concatenation.
pub proof fn lemma_without_keys_concat(a: Entries, b: Entries, ps: Entries)
    ensures
        without_keys(a + b, ps) == without_keys(a, ps) + without_keys(b, ps),
    decreases ps.len(),
{
    if ps.len() > 0 {
        lemma_without_key_concat(a, b, ps[0].0);
        lemma_without_keys_concat(without_key(a, ps[0].0), without_key(b, ps[0].0), ps.drop_first());
    }
}

/// Law: merging pairs into a map is taking their keys out of the map, then
/// appending what merging the same pairs into an empty map gives. So a name
/// that is merged again moves to the end with its latest command, and the
/// names not merged keep their order in front.
pub proof fn law_merge_moves_merged_keys_last(es: Entries, ps: Entries)
    ensures
        merge_entries(es, ps) == without_keys(es, ps) + merge_entries(Seq::empty(), ps),
    decreases ps.len(),
{
    if ps.len() > 0 {
        let k = ps[0].0;
        let rest = ps.drop_first();
        let e: Entries = Seq::empty();
        law_merge_moves_merged_keys_last(without_key(es, k).push(ps[0]), rest);
        law_merge_moves_merged_keys_last(without_key(e, k).push(ps[0]), rest);
        assert(without_key(es, k).push(ps[0]) =~= without_key(es, k) + seq![ps[0]]);
        lemma_without_keys_concat(without_key(es, k), seq![ps[0]], rest);
        assert(without_key(e, k) =~= e);
        assert(without_key(e, k).push(ps[0]) =~= seq![ps[0]]);
        assert(without_keys(es, ps) == without_keys(without_key(es, k), rest));
    }
}

/// The keys of `without_key(es, k)` are keys of `es`.
pub proof fn lemma_without_key_keys(es: Entries, k: Seq<char>, x: Seq<char>)
    ensures
        has_key(without_key(es, k), x) ==> has_key(es, x),
    decreases es.len(),
{
    if es.len() > 0 {
        lemma_without_key_keys(es.drop_last(), k, x);
        let r = without_key(es.drop_last(), k);
        if has_key(without_key(es, k), x) {
            let i = choose|i: int| 0 <= i < without_key(es, k).len() && (#[trigger] without_key(es, k)[i]).0 == x;
            if es.last().0 != k && i == r.len() {
                assert(es[es.len() - 1].0 == x);
            } else {
                assert(r[i].0 == x);
                assert(has_key(r, x));
                let j = choose|j: int| 0 <= j < es.drop_last().len() && (#[trigger] es.drop_last()[j]).0 == x;
                assert(es[j].0 == x);
            }
        }
    }
}

/// Taking a key out keeps keys distinct.
pub proof fn lemma_without_key_distinct(es: Entries, k: Seq<char>)
    requires
        distinct_keys(es),
    ensures
        distinct_keys(without_key(es, k)),
    decreases es.len(),
{
    if es.len() > 0 {
        let init = es.drop_last();
        assert(distinct_keys(init)) by {
            assert forall|i: int, j: int| 0 <= i < j < init.len() implies (#[trigger] init[i]).0 != (#[trigger] init[j]).0 by {
                assert(init[i] == es[i] && init[j] == es[j]);
            }
        }
        lemma_without_key_distinct(init, k);
        if es.last().0 != k {
            let r = without_key(init, k);
            lemma_without_key_keys(init, k, es.last().0);
            assert(!has_key(init, es.last().0)) by {
                if has_key(init, es.last().0) {
                    let j = choose|j: int| 0 <= j < init.len() && (#[trigger] init[j]).0 == es.last().0;
                    assert(es[j].0 == es[es.len() - 1].0);
                }
            }
            assert forall|i: int, j: int| 0 <= i < j < r.push(es.last()).len() implies (#[trigger] r.push(
                es.last(),
            )[i]).0 != (#[trigger] r.push(es.last())[j]).0 by {
                if j == r.len() {
                    assert(r.push(es.last())[i] == r[i]);
                    if r[i].0 == es.last().0 {
                        assert(has_key(r, es.last().0));
                    }
                } else {
                    assert(r.push(es.last())[i] == r[i]);
                    assert(r.push(es.last())[j] == r[j]);
                }
            }
        }
    }
}

/// Law: merging keeps the names of a map distinct: every name appears at
/// most once after any merge into a map whose names were distinct.
pub proof fn law_merge_keeps_keys_distinct(es: Entries, ps: Entries)
    requires
        distinct_keys(es),
    ensures
        distinct_keys(merge_entries(es, ps)),
    decreases ps.len(),
{
    if ps.len() > 0 {
        let k = ps[0].0;
        let w = without_key(es, k);
        lemma_without_key_distinct(es, k);
        lemma_without_key_lacks(es, k);
        assert(distinct_keys(w.push(ps[0]))) by {
            assert forall|i: int, j: int| 0 <= i < j < w.push(ps[0]).len() implies (#[trigger] w.push(ps[0])[i]).0
                != (#[trigger] w.push(ps[0])[j]).0 by {
                assert(w.push(ps[0])[i] == w[i]);
                if j == w.len() {
                    if w[i].0 == k {
                        assert(has_key(w, k));
                    }
                } else {
                    assert(w.push(ps[0])[j] == w[j]);
                }
            }
        }
        law_merge_keeps_keys_distinct(w.push(ps[0]), ps.drop_first());
    }
}

/// Law: the pair merged last ends the map, with its command; so among
/// repeated definitions of a name the latest one wins.
pub proof fn law_last_merged_pair_comes_last(es: Entries, ps: Entries)
    requires
        ps.len() > 0,
    ensures
        merge_entries(es, ps).len() > 0,
        merge_entries(es, ps).last() == ps.last(),
    decreases ps.len(),
{
    let next = without_key(es, ps[0].0).push(ps[0]);
    if ps.len() == 1 {
        assert(ps.drop_first().len() == 0);
        assert(merge_entries(next, ps.drop_first()) == next);
        assert(merge_entries(es, ps) == next);
    } else {
        law_last_merged_pair_comes_last(next, ps.drop_first());
        assert(ps.drop_first().last() == ps.last());
    }
}

/// The value of the last pair of `ps` with key `k` (meaningful when there is one).
pub open spec fn last_value(ps: Entries, k: Seq<char>) -> Seq<char>
    decreases ps.len(),
{
    if ps.len() == 0 {
        Seq::empty()
    } else if has_key(ps.drop_first(), k) {
        last_value(ps.drop_first(), k)
    } else {
        ps[0].1
    }
}

/// Taking out another key keeps a pair.
proof fn lemma_without_key_keeps(s: Entries, k: Seq<char>, x: (Seq<char>, Seq<char>))
    requires
        s.contains(x),
        x.0 != k,
    ensures
        without_key(s, k).contains(x),
    decreases s.len(),
{
    let init = s.drop_last();
    let r = without_key(init, k);
    if x == s.last() {
        assert(without_key(s, k) == r.push(s.last()));
        assert(r.push(s.last())[r.len() as int] == x);
    } else {
        let i = choose|i: int| 0 <= i < s.len() && s[i] == x;
        assert(i < s.len() - 1);
        assert(init[i] == x);
        lemma_without_key_keeps(init, k, x);
        let j = choose|j: int| 0 <= j < r.len() && r[j] == x;
        if s.last().0 != k {
            assert(r.push(s.last())[j] == x);
        }
    }
}

/// A pair whose key is not merged again stays in the map.
proof fn lemma_merge_keeps(s: Entries, ps: Entries, x: (Seq<char>, Seq<char>))
    requires
        s.contains(x),
        !has_key(ps, x.0),
    ensures
        merge_entries(s, ps).contains(x),
    decreases ps.len(),
{
    if ps.len() > 0 {
        assert(ps[0].0 != x.0) by {
            if ps[0].0 == x.0 {
                assert(has_key(ps, x.0));
            }
        }
        lemma_without_key_keeps(s, ps[0].0, x);
        let w = without_key(s, ps[0].0);
        let j = choose|j: int| 0 <= j < w.len() && w[j] == x;
        assert(w.push(ps[0])[j] == x);
        assert(!has_key(ps.drop_first(), x.0)) by {
            if has_key(ps.drop_first(), x.0) {
                let i = choose|i: int| 0 <= i < ps.drop_first().len() && (#[trigger] ps.drop_first()[i]).0 == x.0;
                assert(ps[i + 1].0 == x.0);
            }
        }
        lemma_merge_keeps(w.push(ps[0]), ps.drop_first(), x);
    }
}

/// Law: after merging pairs into a map, every name given in the pairs maps to
/// the command of its last occurrence there, and every pair of the map whose
/// name was not given stays as it was. With `law_merge_keeps_keys_distinct`,
/// that pair is the only one with its name.
pub proof fn law_latest_definition_wins(es: Entries, ps: Entries, k: Seq<char>)
    ensures
        has_key(ps, k) ==> merge_entries(es, ps).contains((k, last_value(ps, k))),
        forall|x: (Seq<char>, Seq<char>)| #[trigger] es.contains(x) && !has_key(ps, x.0) ==> merge_entries(es, ps).contains(x),
    decreases ps.len(),
{
    assert forall|x: (Seq<char>, Seq<char>)| #[trigger] es.contains(x) && !has_key(ps, x.0) implies merge_entries(
        es,
        ps,
    ).contains(x) by {
        lemma_merge_keeps(es, ps, x);
    }
    if ps.len() > 0 && has_key(ps, k) {
        let rest = ps.drop_first();
        let next = without_key(es, ps[0].0).push(ps[0]);
        if has_key(rest, k) {
            law_latest_definition_wins(next, rest, k);
        } else {
            assert(ps[0].0 == k) by {
                let i = choose|i: int| 0 <= i < ps.len() && (#[trigger] ps[i]).0 == k;
                if i > 0 {
                    assert(rest[i - 1].0 == k);
                }
            }
            assert(next[next.len() - 1] == (k, last_value(ps, k)));
            assert(next.contains((k, last_value(ps, k))));
            lemma_merge_keeps(next, rest, (k, last_value(ps, k)));
        }
    }
}

} // verus!
