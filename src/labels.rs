//! Label namespace, keyed lookups over association lists, and the small string
//! operations the label interpretation needs.
use vstd::prelude::*;

verus! {

/// Namespace that every label recognised by this library lives under.
pub const LABEL_PREFIX: &'static str = "kasama.traefik-exposer.";

/// Full label key for a recognised suffix.
pub open spec fn key_of(suffix: Seq<char>) -> Seq<char> {
    LABEL_PREFIX@ + suffix
}

/// Whether a label key lies under the library's namespace.
pub open spec fn in_namespace(key: Seq<char>) -> bool {
    LABEL_PREFIX@.is_prefix_of(key)
}

/// Position of the first entry whose key is `k`, or `m.len()` when none is.
pub open spec fn key_position<V>(m: Seq<(Seq<char>, V)>, k: Seq<char>) -> nat
    decreases m.len(),
{
    if m.len() == 0 {
        0
    } else if m[0].0 == k {
        0
    } else {
        1 + key_position(m.drop_first(), k)
    }
}

/// Value bound to `k` in an association list (its first entry for `k`).
pub open spec fn lookup<V>(m: Seq<(Seq<char>, V)>, k: Seq<char>) -> Option<V> {
    let i = key_position(m, k);
    if i < m.len() {
        Some(m[i as int].1)
    } else {
        None
    }
}

/// The list with `k` bound to `v`: the entry for `k` is replaced in place, or
/// appended when there is none.
pub open spec fn with_entry<V>(m: Seq<(Seq<char>, V)>, k: Seq<char>, v: V) -> Seq<(Seq<char>, V)> {
    let i = key_position(m, k);
    if i < m.len() {
        m.update(i as int, (k, v))
    } else {
        m.push((k, v))
    }
}

/// No key is bound twice.
pub open spec fn keys_distinct<V>(m: Seq<(Seq<char>, V)>) -> bool {
    forall|i: int, j: int| 0 <= i < j < m.len() ==> m[i].0 != m[j].0
}

/// The first position holding `k` lies within the list, holds `k`, and no
/// earlier entry does.
pub proof fn lemma_key_position_bounds<V>(m: Seq<(Seq<char>, V)>, k: Seq<char>)
    ensures
        key_position(m, k) <= m.len(),
        key_position(m, k) < m.len() ==> m[key_position(m, k) as int].0 == k,
        forall|j: int| 0 <= j < key_position(m, k) ==> m[j].0 != k,
    decreases m.len(),
{
    if m.len() > 0 && m[0].0 != k {
        let t = m.drop_first();
        lemma_key_position_bounds(t, k);
        assert forall|j: int| 0 <= j < key_position(m, k) implies m[j].0 != k by {
            if j > 0 {
                assert(m[j] == t[j - 1]);
            }
        }
    }
}

/// The first position holding `k` is the one a scan from the front stops at.
pub proof fn lemma_key_position_at<V>(m: Seq<(Seq<char>, V)>, k: Seq<char>, i: int)
    requires
        0 <= i <= m.len(),
        forall|j: int| 0 <= j < i ==> m[j].0 != k,
        i == m.len() || m[i].0 == k,
    ensures
        key_position(m, k) == i,
    decreases m.len(),
{
    if m.len() > 0 && i > 0 {
        let t = m.drop_first();
        assert forall|j: int| 0 <= j < i - 1 implies t[j].0 != k by {
            assert(t[j] == m[j + 1]);
        }
        lemma_key_position_at(t, k, i - 1);
    }
}

/// After binding `k` to `v`, looking `k` up gives `v`.
pub proof fn lemma_lookup_with_entry<V>(m: Seq<(Seq<char>, V)>, k: Seq<char>, v: V)
    ensures
        lookup(with_entry(m, k, v), k) == Some(v),
{
    lemma_key_position_bounds(m, k);
    let i = key_position(m, k) as int;
    let n = with_entry(m, k, v);
    assert forall|j: int| 0 <= j < i implies n[j].0 != k by {}
    lemma_key_position_at(n, k, i);
}

/// Binding a key keeps the keys of an association list distinct.
pub proof fn lemma_with_entry_keeps_keys_distinct<V>(m: Seq<(Seq<char>, V)>, k: Seq<char>, v: V)
    requires
        keys_distinct(m),
    ensures
        keys_distinct(with_entry(m, k, v)),
{
    lemma_key_position_bounds(m, k);
    let n = with_entry(m, k, v);
    if key_position(m, k) < m.len() {
        assert forall|j: int| 0 <= j < m.len() implies n[j].0 == m[j].0 by {}
    } else {
        assert forall|j: int| 0 <= j < m.len() implies n[j].0 != k by {}
    }
}

/// Full key of a recognised label: the namespace followed by `name`.
pub fn label_key(name: &str) -> (r: String)
    ensures
        r@ == key_of(name@),
{
    let prefix = String::from_str(LABEL_PREFIX);
    prefix.concat(name)
}

/// Whether `key` lies under the library's label namespace.
pub fn has_label_prefix(key: &str) -> (r: bool)
    ensures
        r == in_namespace(key@),
{
    let prefix = LABEL_PREFIX;
    let plen = prefix.unicode_len();
    let klen = key.unicode_len();
    if klen < plen {
        return false;
    }
    let mut i: usize = 0;
    while i < plen
        invariant
            i <= plen,
            plen == prefix@.len(),
            plen <= klen,
            klen == key@.len(),
            prefix@ == LABEL_PREFIX@,
            forall|j: int| 0 <= j < i ==> prefix@[j] == key@[j],
        decreases plen - i,
    {
        if prefix.get_char(i) != key.get_char(i) {
            assert(key@.subrange(0, plen as int)[i as int] != prefix@[i as int]);
            return false;
        }
        i += 1;
    }
    assert(prefix@ =~= key@.subrange(0, plen as int));
    true
}

/// Value of the label `key` in `labels`, if any.
pub fn get_label(labels: &Vec<(String, String)>, key: &String) -> (r: Option<String>)
    ensures
        r.deep_view() == lookup(labels.deep_view(), key@),
{
    let ghost m = labels.deep_view();
    let mut i: usize = 0;
    while i < labels.len()
        invariant
            i <= labels.len(),
            m == labels.deep_view(),
            forall|j: int| 0 <= j < i ==> m[j].0 != key@,
        decreases labels.len() - i,
    {
        if labels[i].0 == *key {
            proof {
                lemma_key_position_at(m, key@, i as int);
            }
            return Some(labels[i].1.clone());
        }
        i += 1;
    }
    proof {
        lemma_key_position_at(m, key@, i as int);
    }
    None
}

/// Binds `k` to `v` in an association list, replacing an earlier entry for `k`.
pub fn put_entry<V: DeepView>(m: &mut Vec<(String, V)>, k: String, v: V)
    ensures
        final(m).deep_view() == with_entry(old(m).deep_view(), k@, v.deep_view()),
{
    let ghost before = m.deep_view();
    let mut i: usize = 0;
    while i < m.len()
        invariant
            i <= m.len(),
            before == m.deep_view(),
            before == old(m).deep_view(),
            forall|j: int| 0 <= j < i ==> before[j].0 != k@,
        decreases m.len() - i,
    {
        if m[i].0 == k {
            proof {
                lemma_key_position_at(before, k@, i as int);
            }
            let ghost kv = k@;
            let ghost vv = v.deep_view();
            m[i] = (k, v);
            assert(m.deep_view() =~= with_entry(before, kv, vv));
            return;
        }
        i += 1;
    }
    proof {
        lemma_key_position_at(before, k@, i as int);
    }
    let ghost kv = k@;
    let ghost vv = v.deep_view();
    m.push((k, v));
    assert(m.deep_view() =~= with_entry(before, kv, vv));
}

/// Pieces of `s` between commas, as `str::split(',')` yields them: the empty
/// string gives one empty piece, and each comma starts a new piece.
pub open spec fn split_commas(s: Seq<char>) -> Seq<Seq<char>>
    decreases s.len(),
{
    if s.len() == 0 {
        seq![Seq::<char>::empty()]
    } else {
        let r = split_commas(s.drop_last());
        if s.last() == ',' {
            r.push(Seq::<char>::empty())
        } else {
            r.update(r.len() - 1, r.last().push(s.last()))
        }
    }
}

/// Splits a comma-separated list into its pieces, empty pieces included.
pub fn split_on_commas(s: &str) -> (r: Vec<String>)
    ensures
        r.deep_view() == split_commas(s@),
{
    let n = s.unicode_len();
    let mut parts: Vec<String> = Vec::new();
    let mut start: usize = 0;
    let mut i: usize = 0;
    proof {
        assert(s@.take(0) =~= Seq::<char>::empty());
    }
    while i < n
        invariant
            n == s@.len(),
            start <= i <= n,
            split_commas(s@.take(i as int)) == parts.deep_view().push(s@.subrange(start as int, i as int)),
        decreases n - i,
    {
        let c = s.get_char(i);
        let ghost prev = s@.take(i as int);
        proof {
            assert(s@.take(i + 1).drop_last() =~= prev);
            assert(s@.take(i + 1).last() == c);
        }
        if c == ',' {
            let piece = String::from_str(s.substring_char(start, i));
            parts.push(piece);
            start = i + 1;
            proof {
                assert(s@.subrange(start as int, i + 1) =~= Seq::<char>::empty());
            }
        } else {
            proof {
                assert(s@.subrange(start as int, i as int).push(c) =~= s@.subrange(start as int, i + 1));
            }
        }
        i += 1;
        proof {
            let pv = parts.deep_view();
            let cur = s@.subrange(start as int, i as int);
            assert(split_commas(s@.take(i as int)) =~= pv.push(cur));
        }
    }
    let last = String::from_str(s.substring_char(start, n));
    parts.push(last);
    proof {
        assert(s@.take(n as int) =~= s@);
    }
    assert(parts.deep_view() =~= split_commas(s@));
    parts
}

} // verus!
