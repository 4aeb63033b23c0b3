//! The order in which the catalog is listed: by kind, then by search text,
//! with parts that agree in both left as they stood.

use vstd::prelude::*;
use crate::catalog::Component;
use crate::category::{category_lt, law_category_order_strict_total, Category};
use crate::text::{
    lemma_text_lt_asymmetric, lemma_text_lt_irreflexive, lemma_text_lt_total,
    lemma_text_lt_transitive, text_lt, text_precedes,
};

verus! {

/// What a part is ordered by: its kind, then its search text.
pub struct SortKey {
    pub category: Category,
    pub query: Seq<char>,
}

/// The key of a part.
pub open spec fn sort_key(c: Component) -> SortKey {
    SortKey { category: c.component_type@, query: c.query@ }
}

/// The order of keys: by kind in the declared order, and within a kind by
/// search text in code-point order.
pub open spec fn key_lt(a: SortKey, b: SortKey) -> bool {
    category_lt(a.category, b.category) || (a.category == b.category && text_lt(a.query, b.query))
}

/// Whether the part `a` must stand before the part `b`.
pub open spec fn comes_before(a: Component, b: Component) -> bool {
    key_lt(sort_key(a), sort_key(b))
}

/// Whether no part of `s` stands behind one that it must stand before.
pub open spec fn is_ordered(s: Seq<Component>) -> bool {
    forall|i: int, j: int| 0 <= i < j < s.len() ==> !comes_before(#[trigger] s[j], #[trigger] s[i])
}

/// The parts of `s` with the key `k`, in the order in which they stand.
pub open spec fn with_key(s: Seq<Component>, k: SortKey) -> Seq<Component> {
    s.filter(|c: Component| sort_key(c) == k)
}

/// Whether `out` is `input` sorted: `out` is ordered, and the parts of any
/// one key are the same in both and stand in the same order.
pub open spec fn is_stable_sort_of(out: Seq<Component>, input: Seq<Component>) -> bool {
    &&& is_ordered(out)
    &&& forall|k: SortKey| #[trigger] with_key(out, k) == with_key(input, k)
}

/// The order of keys is a strict total order.
pub proof fn lemma_key_order_strict_total(a: SortKey, b: SortKey, c: SortKey)
    ensures
        !key_lt(a, a),
        key_lt(a, b) ==> !key_lt(b, a),
        key_lt(a, b) && key_lt(b, c) ==> key_lt(a, c),
        key_lt(a, b) || key_lt(b, a) || a == b,
{
    law_category_order_strict_total(a.category, b.category, c.category);
    law_category_order_strict_total(b.category, c.category, a.category);
    lemma_text_lt_irreflexive(a.query);
    if text_lt(a.query, b.query) {
        lemma_text_lt_asymmetric(a.query, b.query);
        if text_lt(b.query, c.query) {
            lemma_text_lt_transitive(a.query, b.query, c.query);
        }
    }
    lemma_text_lt_total(a.query, b.query);
}

impl Component {
    /// Whether `self` must stand before `other`.
    pub fn comes_before(&self, other: &Component) -> (r: bool)
        ensures
            r == comes_before(*self, *other),
    {
        if self.component_type.precedes(&other.component_type) {
            true
        } else if self.component_type.same_kind(&other.component_type) {
            text_precedes(self.query.as_str(), other.query.as_str())
        } else {
            false
        }
    }
}

/// The parts with a given key among `t` followed by `x`.
proof fn lemma_with_key_push(t: Seq<Component>, x: Component, k: SortKey)
    ensures
        with_key(t.push(x), k) == if sort_key(x) == k {
            with_key(t, k).push(x)
        } else {
            with_key(t, k)
        },
{
    reveal(Seq::filter);
    assert(t.push(x).drop_last() =~= t);
}

/// Where no part has the key, there are no parts with the key.
proof fn lemma_with_key_none(s: Seq<Component>, k: SortKey)
    requires
        forall|i: int| 0 <= i < s.len() ==> sort_key(#[trigger] s[i]) != k,
    ensures
        with_key(s, k) == Seq::<Component>::empty(),
    decreases s.len(),
{
    reveal(Seq::filter);
    if s.len() > 0 {
        lemma_with_key_none(s.drop_last(), k);
    }
}

/// The parts with a given key after `x` has been put in at `j`.
proof fn lemma_with_key_insert(s: Seq<Component>, j: int, x: Component, k: SortKey)
    requires
        0 <= j <= s.len(),
    ensures
        with_key(s, k) == with_key(s.take(j), k) + with_key(s.skip(j), k),
        with_key(s.insert(j, x), k) == with_key(s.take(j).push(x), k) + with_key(s.skip(j), k),
{
    let p = |c: Component| sort_key(c) == k;
    assert(s =~= s.take(j) + s.skip(j));
    Seq::filter_distributes_over_add(s.take(j), s.skip(j), p);
    Seq::filter_distributes_over_add(s.take(j).push(x), s.skip(j), p);
}

/// Where there are parts with the key `k` among `s`, one of them stands at
/// some place of `s`.
proof fn lemma_with_key_witness(s: Seq<Component>, k: SortKey) -> (i: int)
    requires
        with_key(s, k).len() > 0,
    ensures
        0 <= i < s.len(),
        sort_key(s[i]) == k,
    decreases s.len(),
{
    reveal(Seq::filter);
    if sort_key(s.last()) == k {
        s.len() - 1
    } else {
        lemma_with_key_witness(s.drop_last(), k)
    }
}

/// Two ordered sequences that hold, for every key, the same parts in the
/// same order are one and the same sequence.
pub proof fn lemma_ordered_by_keys_unique(x: Seq<Component>, y: Seq<Component>)
    requires
        is_ordered(x),
        is_ordered(y),
        forall|k: SortKey| #[trigger] with_key(x, k) == with_key(y, k),
    ensures
        x == y,
    decreases x.len(),
{
    reveal(Seq::filter);
    if x.len() == 0 {
        if y.len() > 0 {
            assert(with_key(x, sort_key(y.last())) == with_key(y, sort_key(y.last())));
        }
    } else {
        let lx = x.last();
        let kx = sort_key(lx);
        assert(with_key(x, kx) == with_key(y, kx));
        let ly = y.last();
        let ky = sort_key(ly);
        assert(with_key(x, ky) == with_key(y, ky));
        // Each of the two last keys occurs in the other sequence, where
        // nothing comes behind the last part: the keys are the same.
        let i = lemma_with_key_witness(x, ky);
        let j = lemma_with_key_witness(y, kx);
        lemma_key_order_strict_total(kx, ky, kx);
        assert(kx == ky);
        // So are the two last parts: each is the last with that key.
        assert(with_key(x, kx).last() == lx);
        assert(lx == ly);
        let x0 = x.drop_last();
        let y0 = y.drop_last();
        assert forall|k: SortKey| #[trigger] with_key(x0, k) == with_key(y0, k) by {
            assert(with_key(x, k) == with_key(y, k));
            if k == kx {
                assert(with_key(x0, k) =~= with_key(x, k).drop_last());
                assert(with_key(y0, k) =~= with_key(y, k).drop_last());
            }
        }
        lemma_ordered_by_keys_unique(x0, y0);
        assert(x =~= x0.push(lx));
        assert(y =~= y0.push(ly));
    }
}

/// A catalog has one sorted form only.
pub proof fn law_sort_is_determined(input: Seq<Component>, x: Seq<Component>, y: Seq<Component>)
    requires
        is_stable_sort_of(x, input),
        is_stable_sort_of(y, input),
    ensures
        x == y,
{
    assert forall|k: SortKey| #[trigger] with_key(x, k) == with_key(y, k) by {
        assert(with_key(x, k) == with_key(input, k));
    }
    lemma_ordered_by_keys_unique(x, y);
}

/// Sorting is idempotent: sorting a sorted catalog once more changes
/// nothing.
pub proof fn law_sort_idempotent(input: Seq<Component>, once: Seq<Component>, twice: Seq<Component>)
    requires
        is_stable_sort_of(once, input),
        is_stable_sort_of(twice, once),
    ensures
        twice == once,
{
    lemma_ordered_by_keys_unique(twice, once);
}

/// A place of `s` at which the `i`-th of its parts with the key `k` stands.
proof fn lemma_with_key_position(s: Seq<Component>, k: SortKey, i: int) -> (p: int)
    requires
        0 <= i < with_key(s, k).len(),
    ensures
        0 <= p < s.len(),
        s[p] == with_key(s, k)[i],
    decreases s.len(),
{
    reveal(Seq::filter);
    if sort_key(s.last()) == k && i == with_key(s, k).len() - 1 {
        s.len() - 1
    } else {
        lemma_with_key_position(s.drop_last(), k, i)
    }
}

/// Places of `s` at which the `i`-th and the `j`-th of its parts with the
/// key `k` stand, in that order.
proof fn lemma_with_key_positions(s: Seq<Component>, k: SortKey, i: int, j: int) -> (pq: (int, int))
    requires
        0 <= i < j < with_key(s, k).len(),
    ensures
        0 <= pq.0 < pq.1 < s.len(),
        s[pq.0] == with_key(s, k)[i],
        s[pq.1] == with_key(s, k)[j],
    decreases s.len(),
{
    reveal(Seq::filter);
    if sort_key(s.last()) == k && j == with_key(s, k).len() - 1 {
        let p = lemma_with_key_position(s.drop_last(), k, i);
        (p, s.len() - 1)
    } else {
        lemma_with_key_positions(s.drop_last(), k, i, j)
    }
}

/// The place that the part at `a` has among the parts of `s` with its key.
proof fn lemma_with_key_rank(s: Seq<Component>, a: int) -> (r: int)
    requires
        0 <= a < s.len(),
    ensures
        r == with_key(s.take(a), sort_key(s[a])).len(),
        0 <= r < with_key(s, sort_key(s[a])).len(),
        with_key(s, sort_key(s[a]))[r] == s[a],
{
    let k = sort_key(s[a]);
    let p = |c: Component| sort_key(c) == k;
    assert(s.take(a + 1) =~= s.take(a).push(s[a]));
    lemma_with_key_push(s.take(a), s[a], k);
    assert(s =~= s.take(a + 1) + s.skip(a + 1));
    Seq::filter_distributes_over_add(s.take(a + 1), s.skip(a + 1), p);
    with_key(s.take(a), k).len() as int
}

/// Sorting brings in nothing: every part of the sorted catalog is a part of
/// the input, as it stood there.
pub proof fn law_sort_keeps_parts(input: Seq<Component>, out: Seq<Component>, i: int) -> (j: int)
    requires
        is_stable_sort_of(out, input),
        0 <= i < out.len(),
    ensures
        0 <= j < input.len(),
        input[j] == out[i],
{
    let k = sort_key(out[i]);
    let r = lemma_with_key_rank(out, i);
    assert(with_key(out, k) == with_key(input, k));
    lemma_with_key_position(input, k, r)
}

/// Sorting is stable: of two parts with the same kind and search text, the
/// one that stood first in the input stands first in the output.
pub proof fn law_sort_stable(input: Seq<Component>, out: Seq<Component>, a: int, b: int)
    requires
        is_stable_sort_of(out, input),
        0 <= a < b < input.len(),
        sort_key(input[a]) == sort_key(input[b]),
    ensures
        exists|i: int, j: int|
            0 <= i < j < out.len() && #[trigger] out[i] == input[a] && #[trigger] out[j]
                == input[b],
{
    let k = sort_key(input[a]);
    let p = |c: Component| sort_key(c) == k;
    let ra = lemma_with_key_rank(input, a);
    let rb = lemma_with_key_rank(input, b);
    assert(ra < rb) by {
        assert(input.take(a + 1) =~= input.take(a).push(input[a]));
        lemma_with_key_push(input.take(a), input[a], k);
        assert(input.take(b) =~= input.take(a + 1) + input.subrange(a + 1, b));
        Seq::filter_distributes_over_add(input.take(a + 1), input.subrange(a + 1, b), p);
    }
    assert(with_key(out, k) == with_key(input, k));
    let (i, j) = lemma_with_key_positions(out, k, ra, rb);
    assert(out[i] == input[a] && out[j] == input[b]);
}

/// Where `x` goes into the ordered `sorted`: behind every part that it
/// need not stand before.
fn insertion_point(sorted: &[Component], x: &Component) -> (j: usize)
    requires
        is_ordered(sorted@),
    ensures
        j <= sorted.len(),
        forall|i: int| 0 <= i < j ==> !comes_before(*x, #[trigger] sorted@[i]),
        forall|i: int| j <= i < sorted.len() ==> comes_before(*x, #[trigger] sorted@[i]),
{
    let mut j = sorted.len();
    while j > 0 && x.comes_before(&sorted[j - 1])
        invariant
            j <= sorted.len(),
            forall|i: int| j <= i < sorted.len() ==> comes_before(*x, #[trigger] sorted@[i]),
        decreases j,
    {
        j = j - 1;
    }
    proof {
        if j > 0 {
            let last = sorted@[j - 1];
            assert forall|i: int| 0 <= i < j implies !comes_before(*x, #[trigger] sorted@[i]) by {
                if i < j - 1 {
                    assert(!comes_before(last, sorted@[i]));
                }
                lemma_key_order_strict_total(sort_key(*x), sort_key(sorted@[i]), sort_key(last));
                lemma_key_order_strict_total(sort_key(sorted@[i]), sort_key(last), sort_key(*x));
            }
        }
    }
    j
}

/// Sorts `parts` by kind, then by search text. Parts that agree in both
/// keep the order in which they stood.
pub fn sort_components(parts: &mut Vec<Component>)
    ensures
        is_stable_sort_of(final(parts)@, old(parts)@),
        final(parts)@.len() == old(parts)@.len(),
        final(parts)@.to_multiset() == old(parts)@.to_multiset(),
{
    let mut input: Vec<Component> = Vec::new();
    core::mem::swap(&mut input, parts);
    let ghost given = input@;
    let mut out: Vec<Component> = Vec::new();
    proof {
        assert(out@ =~= given.take(0));
    }
    for x in it: input
        invariant
            it.seq() == given,
            is_stable_sort_of(out@, given.take(it.index() as int)),
            out@.len() == it.index(),
            out@.to_multiset() == given.take(it.index() as int).to_multiset(),
    {
        let ghost m = it.index() as int;
        let ghost before = out@;
        let j = insertion_point(out.as_slice(), &x);
        out.insert(j, x);
        proof {
            let after = out@;
            let seen = given.take(m);
            assert(given.take(m + 1) =~= seen.push(x));
            assert(is_ordered(after)) by {
                assert forall|a: int, b: int| 0 <= a < b < after.len() implies !comes_before(
                    #[trigger] after[b],
                    #[trigger] after[a],
                ) by {
                    if b == j {
                        assert(!comes_before(x, before[a]));
                    } else if a == j {
                        assert(comes_before(x, before[b - 1]));
                        lemma_key_order_strict_total(
                            sort_key(x),
                            sort_key(before[b - 1]),
                            sort_key(x),
                        );
                    } else {
                        let a0 = if a < j { a } else { a - 1 };
                        let b0 = if b < j { b } else { b - 1 };
                        assert(!comes_before(before[b0], before[a0]));
                    }
                }
            }
            assert forall|k: SortKey| #[trigger] with_key(after, k) == with_key(
                seen.push(x),
                k,
            ) by {
                lemma_with_key_insert(before, j as int, x, k);
                lemma_with_key_push(before.take(j as int), x, k);
                lemma_with_key_push(seen, x, k);
                if sort_key(x) == k {
                    let tail = before.skip(j as int);
                    assert forall|i: int| 0 <= i < tail.len() implies sort_key(
                        #[trigger] tail[i],
                    ) != k by {
                        assert(comes_before(x, before[j + i]));
                        lemma_key_order_strict_total(k, k, k);
                    }
                    lemma_with_key_none(tail, k);
                    assert(with_key(before.take(j as int), k) + Seq::<Component>::empty()
                        =~= with_key(before.take(j as int), k));
                    assert(with_key(before.take(j as int), k).push(x) + Seq::<
                        Component,
                    >::empty() =~= with_key(before.take(j as int), k).push(x));
                }
            }
            assert(after.to_multiset() == seen.push(x).to_multiset()) by {
                broadcast use vstd::seq_lib::group_to_multiset_ensures;
                assert(after.remove(j as int) =~= before);
            }
        }
    }
    proof {
        assert(given.take(given.len() as int) =~= given);
    }
    *parts = out;
}

} // verus!
