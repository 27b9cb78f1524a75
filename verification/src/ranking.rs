//! Ranking of domains by edit count: the order used by every leaderboard,
//! the specification of a top-k list, and the selection that computes one.
use vstd::prelude::*;
use vstd::utf8::{decode_utf8, encode_utf8, encode_utf8_decode_utf8};

verus! {

/// Strict lexicographic order on byte strings (a proper prefix comes first).
pub open spec fn bytes_lt(a: Seq<u8>, b: Seq<u8>) -> bool
    decreases a.len(),
{
    if a.len() == 0 {
        b.len() > 0
    } else if b.len() == 0 {
        false
    } else if a[0] < b[0] {
        true
    } else if a[0] > b[0] {
        false
    } else {
        bytes_lt(a.drop_first(), b.drop_first())
    }
}

/// Order on names: the byte order of their UTF-8 encodings, which is the order
/// of Rust's `str` comparison.
pub open spec fn name_lt(a: Seq<char>, b: Seq<char>) -> bool {
    bytes_lt(encode_utf8(a), encode_utf8(b))
}

/// A (name, count) entry ranks before another when its count is higher, or
/// when the counts tie and its name comes first.
pub open spec fn ranks_before(a: (Seq<char>, u64), b: (Seq<char>, u64)) -> bool {
    a.1 > b.1 || (a.1 == b.1 && name_lt(a.0, b.0))
}

/// The abstract value of a stored entry.
pub open spec fn entry_view(e: (String, u64)) -> (Seq<char>, u64) {
    (e.0@, e.1)
}

/// The abstract values of a list of stored entries.
pub open spec fn entries_view(t: Seq<(String, u64)>) -> Seq<(Seq<char>, u64)> {
    t.map_values(|e: (String, u64)| entry_view(e))
}

/// No name occurs twice.
pub open spec fn names_distinct(t: Seq<(Seq<char>, u64)>) -> bool {
    forall|i: int, j: int| 0 <= i < j < t.len() ==> t[i].0 != t[j].0
}

/// The name-to-count map that a list of entries describes.
pub open spec fn as_counts(t: Seq<(Seq<char>, u64)>) -> Map<Seq<char>, u64>
    decreases t.len(),
{
    if t.len() == 0 {
        Map::empty()
    } else {
        as_counts(t.drop_last()).insert(t.last().0, t.last().1)
    }
}

/// `r` is the top-`k` of `counts`: the `min(k, |counts|)` highest-ranked
/// entries, in ranking order, with every omitted entry ranking after all of
/// them.
pub open spec fn is_top(counts: Map<Seq<char>, u64>, r: Seq<(Seq<char>, u64)>, k: nat) -> bool {
    &&& counts.dom().finite()
    &&& r.len() == (if k < counts.dom().len() { k } else { counts.dom().len() })
    &&& forall|i: int| 0 <= i < r.len() ==> #[trigger] counts.contains_key(r[i].0) && counts[r[i].0] == r[i].1
    &&& forall|i: int, j: int| 0 <= i < j < r.len() ==> ranks_before(#[trigger] r[i], #[trigger] r[j])
    &&& forall|key: Seq<char>, i: int|
        #![trigger counts[key], r[i]]
        counts.contains_key(key) && (forall|j: int| 0 <= j < r.len() ==> r[j].0 != key) && 0 <= i < r.len()
            ==> ranks_before(r[i], (key, counts[key]))
}

pub proof fn lemma_bytes_lt_irreflexive(a: Seq<u8>)
    ensures
        !bytes_lt(a, a),
    decreases a.len(),
{
    if a.len() > 0 {
        lemma_bytes_lt_irreflexive(a.drop_first());
    }
}

pub proof fn lemma_bytes_lt_asymmetric(a: Seq<u8>, b: Seq<u8>)
    ensures
        bytes_lt(a, b) ==> !bytes_lt(b, a),
    decreases a.len(),
{
    if a.len() > 0 && b.len() > 0 && a[0] == b[0] {
        lemma_bytes_lt_asymmetric(a.drop_first(), b.drop_first());
    }
}

pub proof fn lemma_bytes_lt_transitive(a: Seq<u8>, b: Seq<u8>, c: Seq<u8>)
    ensures
        bytes_lt(a, b) && bytes_lt(b, c) ==> bytes_lt(a, c),
    decreases a.len(),
{
    if a.len() > 0 && b.len() > 0 && c.len() > 0 {
        lemma_bytes_lt_transitive(a.drop_first(), b.drop_first(), c.drop_first());
    }
}

pub proof fn lemma_bytes_lt_total(a: Seq<u8>, b: Seq<u8>)
    ensures
        a != b ==> bytes_lt(a, b) || bytes_lt(b, a),
    decreases a.len(),
{
    if a.len() > 0 && b.len() > 0 && a[0] == b[0] {
        lemma_bytes_lt_total(a.drop_first(), b.drop_first());
        if a.drop_first() == b.drop_first() {
            assert(a =~= seq![a[0]] + a.drop_first());
            assert(b =~= seq![b[0]] + b.drop_first());
        }
    } else if a.len() == 0 && b.len() == 0 {
        assert(a =~= b);
    }
}

/// Distinct names have distinct encodings.
pub proof fn lemma_encode_injective(a: Seq<char>, b: Seq<char>)
    ensures
        a != b ==> encode_utf8(a) != encode_utf8(b),
{
    encode_utf8_decode_utf8(a);
    encode_utf8_decode_utf8(b);
}

/// `ranks_before` is a strict order that is total on entries with distinct
/// names.
pub proof fn lemma_ranks_before_order(a: (Seq<char>, u64), b: (Seq<char>, u64), c: (Seq<char>, u64))
    ensures
        !ranks_before(a, a),
        ranks_before(a, b) ==> !ranks_before(b, a),
        ranks_before(a, b) && ranks_before(b, c) ==> ranks_before(a, c),
        a.0 != b.0 ==> ranks_before(a, b) || ranks_before(b, a),
{
    let (ea, eb, ec) = (encode_utf8(a.0), encode_utf8(b.0), encode_utf8(c.0));
    lemma_bytes_lt_irreflexive(ea);
    lemma_bytes_lt_asymmetric(ea, eb);
    lemma_bytes_lt_transitive(ea, eb, ec);
    lemma_bytes_lt_total(ea, eb);
    lemma_encode_injective(a.0, b.0);
}

/// The map described by a list with distinct names has exactly its entries.
pub proof fn lemma_as_counts(t: Seq<(Seq<char>, u64)>)
    requires
        names_distinct(t),
    ensures
        as_counts(t).dom().finite(),
        as_counts(t).dom().len() == t.len(),
        forall|i: int| 0 <= i < t.len() ==> #[trigger] as_counts(t).contains_key(t[i].0) && as_counts(t)[t[i].0] == t[i].1,
        forall|key: Seq<char>| #[trigger] as_counts(t).contains_key(key) ==> exists|i: int| 0 <= i < t.len() && t[i].0 == key,
    decreases t.len(),
{
    if t.len() > 0 {
        let s = t.drop_last();
        assert(names_distinct(s));
        lemma_as_counts(s);
        assert forall|i: int| 0 <= i < s.len() implies #[trigger] s[i].0 != t.last().0 by {
            assert(t[i] == s[i]);
        }
        assert(!as_counts(s).contains_key(t.last().0));
        assert forall|i: int| 0 <= i < t.len() implies #[trigger] as_counts(t).contains_key(t[i].0)
            && as_counts(t)[t[i].0] == t[i].1 by {
            if i < t.len() - 1 {
                assert(t[i] == s[i]);
            }
        }
        assert forall|key: Seq<char>| #[trigger] as_counts(t).contains_key(key) implies exists|i: int|
            0 <= i < t.len() && t[i].0 == key by {
            if key != t.last().0 {
                let i = choose|i: int| 0 <= i < s.len() && s[i].0 == key;
                assert(t[i] == s[i]);
            } else {
                assert(t[t.len() - 1].0 == key);
            }
        }
    }
}

proof fn lemma_top_agree_at(counts: Map<Seq<char>, u64>, r1: Seq<(Seq<char>, u64)>, r2: Seq<(Seq<char>, u64)>, k: nat, i: int)
    requires
        is_top(counts, r1, k),
        is_top(counts, r2, k),
        0 <= i < r1.len(),
    ensures
        r1[i] == r2[i],
    decreases i,
{
    assert forall|j: int| 0 <= j < i implies r1[j] == r2[j] by {
        lemma_top_agree_at(counts, r1, r2, k, j);
    }
    if r1[i] != r2[i] {
        let a = r1[i];
        let b = r2[i];
        assert(counts.contains_key(r1[i].0) && counts[r1[i].0] == r1[i].1);
        assert(counts.contains_key(r2[i].0) && counts[r2[i].0] == r2[i].1);
        // a ranks after b in r2's eyes
        if exists|j: int| 0 <= j < r2.len() && r2[j].0 == a.0 {
            let j = choose|j: int| 0 <= j < r2.len() && r2[j].0 == a.0;
            assert(counts.contains_key(r2[j].0) && counts[r2[j].0] == r2[j].1);
            assert(r2[j] == a);
            if j < i {
                assert(r1[j] == r2[j]);
                lemma_ranks_before_order(r1[j], r1[i], r1[i]);
                assert(ranks_before(r1[j], r1[i]));
                assert(false);
            }
            assert(j != i);
            assert(ranks_before(r2[i], r2[j]));
        } else {
            assert(counts[a.0] == a.1);
            assert(ranks_before(r2[i], (a.0, counts[a.0])));
        }
        assert(ranks_before(b, a));
        if exists|j: int| 0 <= j < r1.len() && r1[j].0 == b.0 {
            let j = choose|j: int| 0 <= j < r1.len() && r1[j].0 == b.0;
            assert(counts.contains_key(r1[j].0) && counts[r1[j].0] == r1[j].1);
            assert(r1[j] == b);
            if j < i {
                assert(r1[j] == r2[j]);
                lemma_ranks_before_order(r2[j], r2[i], r2[i]);
                assert(ranks_before(r2[j], r2[i]));
                assert(false);
            }
            assert(j != i);
            assert(ranks_before(r1[i], r1[j]));
        } else {
            assert(counts[b.0] == b.1);
            assert(ranks_before(r1[i], (b.0, counts[b.0])));
        }
        lemma_ranks_before_order(a, b, a);
    }
}

/// A top-`k` list is ordered by count: counts never increase along the list,
/// equal counts come in ascending name order, and no entry left out has a
/// higher count than any entry listed; the listed entries are the map's own.
pub proof fn law_top_by_descending_count(counts: Map<Seq<char>, u64>, r: Seq<(Seq<char>, u64)>, k: nat)
    requires
        is_top(counts, r, k),
    ensures
        forall|i: int, j: int| 0 <= i < j < r.len() ==> (#[trigger] r[i]).1 >= (#[trigger] r[j]).1,
        forall|i: int, j: int| 0 <= i < j < r.len() && r[i].1 == r[j].1 ==> name_lt((#[trigger] r[i]).0, (#[trigger] r[j]).0),
        forall|key: Seq<char>, i: int|
            #![trigger counts[key], r[i]]
            counts.contains_key(key) && (forall|j: int| 0 <= j < r.len() ==> r[j].0 != key) && 0 <= i < r.len()
                ==> counts[key] <= r[i].1,
        forall|i: int| 0 <= i < r.len() ==> #[trigger] counts.contains_key(r[i].0) && counts[r[i].0] == r[i].1,
{
}

/// The top-`k` of a map is unique: any two lists that both are its top-`k`
/// are equal.
pub proof fn law_top_unique(counts: Map<Seq<char>, u64>, r1: Seq<(Seq<char>, u64)>, r2: Seq<(Seq<char>, u64)>, k: nat)
    requires
        is_top(counts, r1, k),
        is_top(counts, r2, k),
    ensures
        r1 == r2,
{
    assert forall|i: int| 0 <= i < r1.len() implies r1[i] == r2[i] by {
        lemma_top_agree_at(counts, r1, r2, k, i);
    }
    assert(r1 =~= r2);
}

/// Whether name `a` comes strictly before name `b`, comparing UTF-8 bytes.
pub fn name_before(a: &str, b: &str) -> (r: bool)
    ensures
        r == name_lt(a@, b@),
{
    let x = a.as_bytes();
    let y = b.as_bytes();
    let mut i: usize = 0;
    assert(x@.skip(0) =~= x@);
    assert(y@.skip(0) =~= y@);
    while i < x.len() && i < y.len()
        invariant
            x@ == encode_utf8(a@),
            y@ == encode_utf8(b@),
            i <= x@.len(),
            i <= y@.len(),
            bytes_lt(x@, y@) == bytes_lt(x@.skip(i as int), y@.skip(i as int)),
        decreases x@.len() - i,
    {
        if x[i] < y[i] {
            return true;
        }
        if x[i] > y[i] {
            return false;
        }
        assert(x@.skip(i as int).drop_first() =~= x@.skip(i + 1));
        assert(y@.skip(i as int).drop_first() =~= y@.skip(i + 1));
        i = i + 1;
    }
    x.len() == i && i < y.len()
}

/// Whether entry `a` ranks strictly before entry `b`.
pub fn entry_ranks_before(a: &(String, u64), b: &(String, u64)) -> (r: bool)
    ensures
        r == ranks_before(entry_view(*a), entry_view(*b)),
{
    if a.1 != b.1 {
        a.1 > b.1
    } else {
        name_before(a.0.as_str(), b.0.as_str())
    }
}

/// Number of unselected positions.
pub open spec fn count_unpicked(s: Seq<bool>) -> nat
    decreases s.len(),
{
    if s.len() == 0 {
        0
    } else {
        count_unpicked(s.drop_last()) + if s.last() { 0nat } else { 1nat }
    }
}

proof fn lemma_count_unpicked_positive(s: Seq<bool>)
    requires
        count_unpicked(s) > 0,
    ensures
        exists|i: int| 0 <= i < s.len() && !s[i],
    decreases s.len(),
{
    if !s.last() {
        assert(!s[s.len() - 1]);
    } else {
        lemma_count_unpicked_positive(s.drop_last());
        let i = choose|i: int| 0 <= i < s.drop_last().len() && !s.drop_last()[i];
        assert(!s[i]);
    }
}

proof fn lemma_count_unpicked_pick(s: Seq<bool>, b: int)
    requires
        0 <= b < s.len(),
        !s[b],
    ensures
        count_unpicked(s.update(b, true)) + 1 == count_unpicked(s),
    decreases s.len(),
{
    let t = s.update(b, true);
    if b == s.len() - 1 {
        assert(t.drop_last() =~= s.drop_last());
    } else {
        assert(t.drop_last() =~= s.drop_last().update(b, true));
        lemma_count_unpicked_pick(s.drop_last(), b);
    }
}

/// A selection that took entries of `ev` (at the positions `pos`) in ranking
/// order, each ranking before every entry left behind, and that stopped after
/// `k` entries or when none was left, is the top-`k` of `ev`.
proof fn lemma_selection_is_top(ev: Seq<(Seq<char>, u64)>, rv: Seq<(Seq<char>, u64)>, pos: Seq<int>, picked: Seq<bool>, k: nat)
    requires
        names_distinct(ev),
        picked.len() == ev.len(),
        rv.len() <= k,
        rv.len() <= ev.len(),
        rv.len() == k || rv.len() == ev.len(),
        pos.len() == rv.len(),
        forall|j: int| 0 <= j < rv.len() ==> 0 <= #[trigger] pos[j] < ev.len() && picked[pos[j]] && rv[j] == ev[pos[j]],
        forall|x: int| 0 <= x < ev.len() && #[trigger] picked[x] ==> exists|j: int| 0 <= j < pos.len() && pos[j] == x,
        forall|i: int, j: int| 0 <= i < j < rv.len() ==> ranks_before(#[trigger] rv[i], #[trigger] rv[j]),
        forall|x: int, j: int| 0 <= x < ev.len() && !(#[trigger] picked[x]) && 0 <= j < rv.len() ==> ranks_before(#[trigger] rv[j], ev[x]),
    ensures
        is_top(as_counts(ev), rv, k),
{
    let c = as_counts(ev);
    lemma_as_counts(ev);
    assert forall|i: int| 0 <= i < rv.len() implies #[trigger] c.contains_key(rv[i].0) && c[rv[i].0] == rv[i].1 by {
        let x = pos[i];
        assert(rv[i] == ev[x]);
        assert(c.contains_key(ev[x].0) && c[ev[x].0] == ev[x].1);
    }
    assert forall|key: Seq<char>, i: int|
        #![trigger c[key], rv[i]]
        c.contains_key(key) && (forall|j: int| 0 <= j < rv.len() ==> rv[j].0 != key) && 0 <= i < rv.len()
        implies ranks_before(rv[i], (key, c[key])) by {
        let x = choose|x: int| 0 <= x < ev.len() && ev[x].0 == key;
        assert(c.contains_key(ev[x].0) && c[ev[x].0] == ev[x].1);
        if picked[x] {
            let j = choose|j: int| 0 <= j < pos.len() && pos[j] == x;
            assert(rv[j] == ev[x]);
            assert(false);
        }
        assert(ev[x] == (key, c[key]));
    }
}

/// The `k` highest-ranked entries of `entries`, in ranking order.
///
/// Each round selects the best entry not selected yet.
pub fn top_entries(entries: &Vec<(String, u64)>, k: usize) -> (r: Vec<(String, u64)>)
    requires
        names_distinct(entries_view(entries@)),
    ensures
        is_top(as_counts(entries_view(entries@)), entries_view(r@), k as nat),
{
    let ghost ev = entries_view(entries@);
    let n = entries.len();
    let mut picked: Vec<bool> = Vec::with_capacity(n);
    let mut p: usize = 0;
    while p < n
        invariant
            p <= n,
            picked@.len() == p,
            forall|i: int| 0 <= i < p ==> !picked@[i],
            count_unpicked(picked@) == p,
        decreases n - p,
    {
        proof {
            assert(picked@.push(false).drop_last() =~= picked@);
        }
        picked.push(false);
        p = p + 1;
    }
    let mut r: Vec<(String, u64)> = Vec::new();
    let ghost mut pos: Seq<int> = Seq::empty();
    while r.len() < k && r.len() < n
        invariant
            n == entries@.len(),
            ev == entries_view(entries@),
            names_distinct(ev),
            picked@.len() == n,
            r@.len() <= k,
            r@.len() <= n,
            r@.len() + count_unpicked(picked@) == n,
            pos.len() == r@.len(),
            forall|j: int| 0 <= j < r@.len() ==> 0 <= #[trigger] pos[j] < n && picked@[pos[j]] && entry_view(r@[j]) == ev[pos[j]],
            forall|x: int| 0 <= x < n && #[trigger] picked@[x] ==> exists|j: int| 0 <= j < pos.len() && pos[j] == x,
            forall|i: int, j: int| 0 <= i < j < r@.len() ==> ranks_before(entry_view(#[trigger] r@[i]), entry_view(#[trigger] r@[j])),
            forall|x: int, j: int| 0 <= x < n && !(#[trigger] picked@[x]) && 0 <= j < r@.len() ==> ranks_before(entry_view(#[trigger] r@[j]), ev[x]),
        decreases n - r@.len(),
    {
        proof {
            lemma_count_unpicked_positive(picked@);
        }
        // find the best unpicked entry
        let mut best: usize = 0;
        let mut found = false;
        let mut i: usize = 0;
        while i < n
            invariant
                n == entries@.len(),
                ev == entries_view(entries@),
                names_distinct(ev),
                picked@.len() == n,
                i <= n,
                found ==> best < n && !picked@[best as int],
                !found ==> forall|y: int| 0 <= y < i ==> picked@[y],
                found ==> forall|y: int| 0 <= y < i && !picked@[y] && y != best ==> ranks_before(ev[best as int], #[trigger] ev[y]),
            decreases n - i,
        {
            if !picked[i] {
                if !found {
                    best = i;
                    found = true;
                } else if entry_ranks_before(&entries[i], &entries[best]) {
                    proof {
                        assert forall|y: int| 0 <= y < i + 1 && !picked@[y] && y != i implies ranks_before(ev[i as int], #[trigger] ev[y]) by {
                            if y != best {
                                lemma_ranks_before_order(ev[i as int], ev[best as int], ev[y]);
                            }
                        }
                    }
                    best = i;
                } else {
                    proof {
                        assert(ev[i as int] == entry_view(entries@[i as int]));
                        assert(ev[best as int] == entry_view(entries@[best as int]));
                        lemma_ranks_before_order(ev[best as int], ev[i as int], ev[i as int]);
                    }
                }
            }
            i = i + 1;
        }
        assert(found);
        let ghost old_picked = picked@;
        let ghost old_r = r@;
        let ghost old_pos = pos;
        proof {
            lemma_count_unpicked_pick(picked@, best as int);
            // the new pick ranks after every earlier pick
            assert forall|j: int| 0 <= j < r@.len() implies ranks_before(entry_view(#[trigger] r@[j]), ev[best as int]) by {}
        }
        picked.set(best, true);
        let e = (entries[best].0.clone(), entries[best].1);
        r.push(e);
        proof {
            pos = pos.push(best as int);
            assert(entry_view(r@[r@.len() - 1]) == ev[best as int]);
            assert forall|x: int| 0 <= x < n && #[trigger] picked@[x] implies exists|j: int| 0 <= j < pos.len() && pos[j] == x by {
                if x != best {
                    assert(old_picked[x]);
                    let j = choose|j: int| 0 <= j < old_pos.len() && old_pos[j] == x;
                    assert(pos[j] == old_pos[j]);
                } else {
                    assert(pos[pos.len() - 1] == x);
                }
            }
            assert forall|x: int, j: int| 0 <= x < n && !(#[trigger] picked@[x]) && 0 <= j < r@.len() implies ranks_before(entry_view(#[trigger] r@[j]), ev[x]) by {
                assert(!old_picked[x]);
                if j == r@.len() - 1 {
                    assert(x != best);
                    assert(ev[x].0 != ev[best as int].0);
                } else {
                    assert(r@[j] == old_r[j]);
                }
            }
            assert forall|a: int, b: int| 0 <= a < b < r@.len() implies ranks_before(entry_view(#[trigger] r@[a]), entry_view(#[trigger] r@[b])) by {
                assert(r@[a] == old_r[a]);
                if b < r@.len() - 1 {
                    assert(r@[b] == old_r[b]);
                }
            }
        }
    }
    proof {
        let rv = entries_view(r@);
        assert forall|j: int| 0 <= j < rv.len() implies 0 <= #[trigger] pos[j] < n && picked@[pos[j]] && rv[j] == ev[pos[j]] by {
            assert(rv[j] == entry_view(r@[j]));
        }
        assert forall|i: int, j: int| 0 <= i < j < rv.len() implies ranks_before(#[trigger] rv[i], #[trigger] rv[j]) by {
            assert(rv[i] == entry_view(r@[i]));
            assert(rv[j] == entry_view(r@[j]));
        }
        assert forall|x: int, j: int| 0 <= x < n && !(#[trigger] picked@[x]) && 0 <= j < rv.len() implies ranks_before(#[trigger] rv[j], ev[x]) by {
            assert(rv[j] == entry_view(r@[j]));
        }
        lemma_selection_is_top(ev, rv, pos, picked@, k as nat);
    }
    r
}

} // verus!
