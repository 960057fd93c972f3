//! The mathematical model of an ordered string map: a sequence of entries whose
//! keys strictly increase, and the map that such a sequence stands for.

use crate::text::{
    key_less, lemma_key_less_asymmetric, lemma_key_less_irreflexive, lemma_key_less_total,
    lemma_key_less_transitive,
};
use vstd::prelude::*;

verus! {

/// One entry: a key and its value, both as character sequences.
pub type Entry = (Seq<char>, Seq<char>);

/// A map from keys to values, both character sequences.
pub type TextMap = Map<Seq<char>, Seq<char>>;

/// The keys of `s` strictly increase, so no key occurs twice.
pub open spec fn sorted(s: Seq<Entry>) -> bool {
    forall|i: int, j: int| 0 <= i < j < s.len() ==> key_less(#[trigger] s[i].0, #[trigger] s[j].0)
}

/// The number of leading entries of `s` whose key is less than `k`. In a
/// sorted sequence this is where `k` stands, or where it would be put.
pub open spec fn rank(s: Seq<Entry>, k: Seq<char>) -> int
    decreases s.len(),
{
    if s.len() == 0 || !key_less(s[0].0, k) {
        0
    } else {
        1 + rank(s.drop_first(), k)
    }
}

/// `s` holds an entry for `k`.
pub open spec fn has(s: Seq<Entry>, k: Seq<char>) -> bool {
    rank(s, k) < s.len() && s[rank(s, k)].0 == k
}

/// The value that `s` holds for `k`, where it holds one.
pub open spec fn value_of(s: Seq<Entry>, k: Seq<char>) -> Seq<char> {
    s[rank(s, k)].1
}

/// The map that a sorted sequence of entries stands for.
pub open spec fn to_map(s: Seq<Entry>) -> TextMap {
    Map::new(|k: Seq<char>| has(s, k), |k: Seq<char>| value_of(s, k))
}

/// `s` with `k` bound to `v`: the entry for `k` replaced in place, or a new
/// entry put where the order wants it.
pub open spec fn put(s: Seq<Entry>, k: Seq<char>, v: Seq<char>) -> Seq<Entry> {
    if has(s, k) {
        s.update(rank(s, k), (k, v))
    } else {
        s.insert(rank(s, k), (k, v))
    }
}

/// `s` without its entry for `k`.
pub open spec fn del(s: Seq<Entry>, k: Seq<char>) -> Seq<Entry> {
    if has(s, k) {
        s.remove(rank(s, k))
    } else {
        s
    }
}

/// What `rank` returns: an index up to the length, with smaller keys before
/// it and no smaller key at it.
pub proof fn lemma_rank_bounds(s: Seq<Entry>, k: Seq<char>)
    ensures
        0 <= rank(s, k) <= s.len(),
        forall|i: int| 0 <= i < rank(s, k) ==> key_less(#[trigger] s[i].0, k),
        rank(s, k) < s.len() ==> !key_less(s[rank(s, k)].0, k),
    decreases s.len(),
{
    if s.len() == 0 || !key_less(s[0].0, k) {
    } else {
        let t = s.drop_first();
        lemma_rank_bounds(t, k);
        assert forall|i: int| 0 <= i < rank(s, k) implies key_less(#[trigger] s[i].0, k) by {
            if i > 0 {
                assert(s[i] == t[i - 1]);
            }
        }
        if rank(s, k) < s.len() {
            assert(s[rank(s, k)] == t[rank(t, k)]);
        }
    }
}

/// An index with smaller keys before it and no smaller key at it is the rank.
pub proof fn lemma_rank_is(s: Seq<Entry>, k: Seq<char>, r: int)
    requires
        0 <= r <= s.len(),
        forall|i: int| 0 <= i < r ==> key_less(#[trigger] s[i].0, k),
        r < s.len() ==> !key_less(s[r].0, k),
    ensures
        rank(s, k) == r,
    decreases s.len(),
{
    if r > 0 {
        let t = s.drop_first();
        assert(key_less(s[0].0, k));
        assert forall|i: int| 0 <= i < r - 1 implies key_less(#[trigger] t[i].0, k) by {
            assert(t[i] == s[i + 1]);
        }
        if r - 1 < t.len() {
            assert(t[r - 1] == s[r]);
        }
        lemma_rank_is(t, k, r - 1);
    }
}

/// In a sorted sequence every entry stands at the rank of its own key.
pub proof fn lemma_sorted_index(s: Seq<Entry>, i: int)
    requires
        sorted(s),
        0 <= i < s.len(),
    ensures
        rank(s, s[i].0) == i,
        has(s, s[i].0),
        value_of(s, s[i].0) == s[i].1,
{
    lemma_key_less_irreflexive(s[i].0);
    lemma_rank_is(s, s[i].0, i);
}

/// The rank of a key depends on the keys of the sequence alone.
pub proof fn lemma_rank_same_keys(s: Seq<Entry>, t: Seq<Entry>, k: Seq<char>)
    requires
        s.len() == t.len(),
        forall|i: int| 0 <= i < s.len() ==> (#[trigger] s[i]).0 == t[i].0,
    ensures
        rank(s, k) == rank(t, k),
{
    lemma_rank_bounds(s, k);
    let r = rank(s, k);
    assert forall|i: int| 0 <= i < r implies key_less(#[trigger] t[i].0, k) by {
        assert(s[i].0 == t[i].0);
    }
    if r < t.len() {
        assert(s[r].0 == t[r].0);
    }
    lemma_rank_is(t, k, r);
}

/// Binding a key keeps the sequence sorted.
pub proof fn lemma_put_sorted(s: Seq<Entry>, k: Seq<char>, v: Seq<char>)
    requires
        sorted(s),
    ensures
        sorted(put(s, k, v)),
{
    lemma_rank_bounds(s, k);
    let r = rank(s, k);
    let n = put(s, k, v);
    if has(s, k) {
        assert forall|i: int, j: int| 0 <= i < j < n.len() implies key_less(
            #[trigger] n[i].0,
            #[trigger] n[j].0,
        ) by {
            assert(n[i].0 == s[i].0);
            assert(n[j].0 == s[j].0);
        }
    } else {
        assert forall|i: int, j: int| 0 <= i < j < n.len() implies key_less(
            #[trigger] n[i].0,
            #[trigger] n[j].0,
        ) by {
            if j < r {
                assert(n[i] == s[i] && n[j] == s[j]);
            } else if j == r {
                assert(n[i] == s[i]);
            } else if i < r {
                assert(n[i] == s[i] && n[j] == s[j - 1]);
                if j - 1 != i {
                    assert(key_less(s[i].0, s[j - 1].0));
                }
                if j - 1 == i {
                    assert(false);
                }
            } else if i == r {
                assert(n[j] == s[j - 1]);
                lemma_key_less_total(k, s[r].0);
                if j - 1 > r {
                    assert(key_less(s[r].0, s[j - 1].0));
                    lemma_key_less_transitive(k, s[r].0, s[j - 1].0);
                }
            } else {
                assert(n[i] == s[i - 1] && n[j] == s[j - 1]);
            }
        }
    }
}

/// The rank of another key after `k` was bound.
proof fn lemma_put_rank(s: Seq<Entry>, k: Seq<char>, v: Seq<char>, q: Seq<char>)
    requires
        q != k,
    ensures
        has(put(s, k, v), q) == has(s, q),
        has(s, q) ==> value_of(put(s, k, v), q) == value_of(s, q),
{
    lemma_rank_bounds(s, k);
    lemma_rank_bounds(s, q);
    let r = rank(s, k);
    let rq = rank(s, q);
    let n = put(s, k, v);
    if has(s, k) {
        lemma_rank_same_keys(s, n, q);
    } else if key_less(k, q) {
        if rq < r {
            lemma_key_less_transitive(s[rq].0, k, q);
        }
        assert forall|i: int| 0 <= i < rq + 1 implies key_less(#[trigger] n[i].0, q) by {
            if i < r {
                assert(n[i] == s[i]);
            } else if i > r {
                assert(n[i] == s[i - 1]);
            }
        }
        if rq + 1 < n.len() {
            assert(n[rq + 1] == s[rq]);
        }
        lemma_rank_is(n, q, rq + 1);
        if rq < s.len() {
            assert(n[rq + 1] == s[rq]);
        }
    } else {
        lemma_key_less_total(k, q);
        if rq > r {
            assert(key_less(s[r].0, q));
            lemma_key_less_transitive(s[r].0, q, k);
        }
        assert forall|i: int| 0 <= i < rq implies key_less(#[trigger] n[i].0, q) by {
            assert(n[i] == s[i]);
        }
        if rq < r {
            assert(n[rq] == s[rq]);
        }
        lemma_rank_is(n, q, rq);
    }
}

/// Binding a key is `insert` on the map that the sequence stands for.
pub proof fn lemma_put_map(s: Seq<Entry>, k: Seq<char>, v: Seq<char>)
    ensures
        to_map(put(s, k, v)) == to_map(s).insert(k, v),
{
    lemma_rank_bounds(s, k);
    let r = rank(s, k);
    let n = put(s, k, v);
    lemma_key_less_irreflexive(k);
    if has(s, k) {
        lemma_rank_same_keys(s, n, k);
    } else {
        assert forall|i: int| 0 <= i < r implies key_less(#[trigger] n[i].0, k) by {
            assert(n[i] == s[i]);
        }
        lemma_rank_is(n, k, r);
    }
    assert(has(n, k) && value_of(n, k) == v);
    assert forall|q: Seq<char>| q != k implies has(n, q) == has(s, q) && (has(s, q) ==> value_of(
        n,
        q,
    ) == value_of(s, q)) by {
        lemma_put_rank(s, k, v, q);
    }
    assert(to_map(n) =~= to_map(s).insert(k, v));
}

/// Dropping a key keeps the sequence sorted.
pub proof fn lemma_del_sorted(s: Seq<Entry>, k: Seq<char>)
    requires
        sorted(s),
    ensures
        sorted(del(s, k)),
{
    lemma_rank_bounds(s, k);
    let n = del(s, k);
    let r = rank(s, k);
    if has(s, k) {
        assert forall|i: int, j: int| 0 <= i < j < n.len() implies key_less(
            #[trigger] n[i].0,
            #[trigger] n[j].0,
        ) by {
            let si = if i < r { i } else { i + 1 };
            let sj = if j < r { j } else { j + 1 };
            assert(n[i] == s[si] && n[j] == s[sj]);
            assert(key_less(s[si].0, s[sj].0));
        }
    }
}

/// Dropping a key is `remove` on the map that the sequence stands for.
pub proof fn lemma_del_map(s: Seq<Entry>, k: Seq<char>)
    requires
        sorted(s),
    ensures
        to_map(del(s, k)) == to_map(s).remove(k),
{
    lemma_rank_bounds(s, k);
    let r = rank(s, k);
    let n = del(s, k);
    if has(s, k) {
        lemma_del_sorted(s, k);
        assert forall|q: Seq<char>| has(n, q) == (q != k && has(s, q)) && (has(n, q) ==> value_of(
            n,
            q,
        ) == value_of(s, q)) by {
            lemma_rank_bounds(s, q);
            lemma_rank_bounds(n, q);
            let rq = rank(s, q);
            let nq = rank(n, q);
            if has(n, q) {
                let si = if nq < r { nq } else { nq + 1 };
                assert(n[nq] == s[si]);
                lemma_sorted_index(s, si);
                lemma_sorted_index(s, r);
            } else if q != k && has(s, q) {
                let ni = if rq < r { rq } else { rq - 1 };
                assert(n[ni] == s[rq]);
                lemma_sorted_index(n, ni);
            }
        }
        assert(to_map(n) =~= to_map(s).remove(k));
    } else {
        assert(to_map(n) =~= to_map(s).remove(k));
    }
}

/// The last entry of a sorted sequence holds its greatest key.
proof fn lemma_last_is_greatest(s: Seq<Entry>, k: Seq<char>)
    requires
        sorted(s),
        has(s, k),
    ensures
        k == s.last().0 || key_less(k, s.last().0),
{
    lemma_rank_bounds(s, k);
    let r = rank(s, k);
    if r < s.len() - 1 {
        assert(key_less(s[r].0, s[s.len() - 1].0));
    }
}

/// A sorted sequence is determined by the map it stands for.
pub proof fn lemma_sorted_unique(a: Seq<Entry>, b: Seq<Entry>)
    requires
        sorted(a),
        sorted(b),
        to_map(a) == to_map(b),
    ensures
        a == b,
    decreases a.len(),
{
    assert forall|k: Seq<char>| has(a, k) == has(b, k) && (has(a, k) ==> value_of(a, k)
        == value_of(b, k)) by {
        assert(to_map(a).contains_key(k) == has(a, k));
        assert(to_map(b).contains_key(k) == has(b, k));
        if has(a, k) {
            assert(to_map(a)[k] == value_of(a, k));
            assert(to_map(b)[k] == value_of(b, k));
        }
    }
    if a.len() == 0 {
        if b.len() > 0 {
            lemma_sorted_index(b, 0);
            assert(has(a, b[0].0));
        }
        assert(a =~= b);
    } else {
        let la = a.len() - 1;
        lemma_sorted_index(a, la);
        let ka = a[la].0;
        assert(has(b, ka));
        let lb = b.len() - 1;
        lemma_sorted_index(b, lb);
        let kb = b[lb].0;
        assert(has(a, kb));
        lemma_last_is_greatest(a, kb);
        lemma_last_is_greatest(b, ka);
        if ka != kb {
            lemma_key_less_asymmetric(ka, kb);
        }
        assert(a[la] == b[lb]);
        lemma_del_map(a, ka);
        lemma_del_map(b, kb);
        lemma_del_sorted(a, ka);
        lemma_del_sorted(b, kb);
        assert(del(a, ka) =~= a.drop_last());
        assert(del(b, kb) =~= b.drop_last());
        lemma_sorted_unique(a.drop_last(), b.drop_last());
        assert(a =~= a.drop_last().push(a[la]));
        assert(b =~= b.drop_last().push(b[lb]));
    }
}

/// The map of a sorted sequence is finite and has one key for each entry.
pub proof fn lemma_map_len(s: Seq<Entry>)
    requires
        sorted(s),
    ensures
        to_map(s).dom().finite(),
        to_map(s).dom().len() == s.len(),
    decreases s.len(),
{
    if s.len() == 0 {
        assert(to_map(s).dom() =~= Set::<Seq<char>>::empty());
    } else {
        let l = s.len() - 1;
        let k = s[l].0;
        lemma_sorted_index(s, l);
        lemma_del_map(s, k);
        lemma_del_sorted(s, k);
        assert(del(s, k) =~= s.drop_last());
        lemma_map_len(s.drop_last());
        assert(to_map(s).dom() =~= to_map(s.drop_last()).dom().insert(k));
    }
}

} // verus!
