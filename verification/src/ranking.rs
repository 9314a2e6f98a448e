//! Three-way comparison of the keys the dataset is sorted by, and an
//! insertion sort over any type ranked by such a comparison.
use vstd::prelude::*;

use crate::text::chars_of;
use vstd::multiset::Multiset;

verus! {

broadcast use vstd::seq_lib::group_to_multiset_ensures;

/// -1, 0 or 1 as `a` is below, equal to or above `b`.
pub open spec fn order_int(a: int, b: int) -> int {
    if a < b {
        -1
    } else if a == b {
        0
    } else {
        1
    }
}

/// `None` sorts before every `Some`.
pub open spec fn order_opt_u32(a: Option<u32>, b: Option<u32>) -> int {
    match (a, b) {
        (None, None) => 0,
        (None, Some(_)) => -1,
        (Some(_), None) => 1,
        (Some(x), Some(y)) => order_int(x as int, y as int),
    }
}

/// Lexicographic order of texts by code point (the byte order of their UTF-8 form).
pub open spec fn order_text(a: Seq<char>, b: Seq<char>) -> int
    decreases a.len(),
{
    if a.len() == 0 {
        if b.len() == 0 {
            0
        } else {
            -1
        }
    } else if b.len() == 0 {
        1
    } else if a[0] < b[0] {
        -1
    } else if a[0] > b[0] {
        1
    } else {
        order_text(a.drop_first(), b.drop_first())
    }
}

pub open spec fn order_opt_text(a: Option<Seq<char>>, b: Option<Seq<char>>) -> int {
    match (a, b) {
        (None, None) => 0,
        (None, Some(_)) => -1,
        (Some(_), None) => 1,
        (Some(x), Some(y)) => order_text(x, y),
    }
}

/// The first of `c1`, `c2` that is not 0.
pub open spec fn then_order(c1: int, c2: int) -> int {
    if c1 != 0 {
        c1
    } else {
        c2
    }
}

/// A three-way comparison that is a total order up to `0`.
pub open spec fn is_order(c: int) -> bool {
    c == -1 || c == 0 || c == 1
}

pub proof fn lemma_order_text(a: Seq<char>, b: Seq<char>)
    ensures
        is_order(order_text(a, b)),
        order_text(a, b) == -order_text(b, a),
        (order_text(a, b) == 0) == (a == b),
    decreases a.len(),
{
    if a.len() > 0 && b.len() > 0 && a[0] == b[0] {
        lemma_order_text(a.drop_first(), b.drop_first());
        if a.drop_first() == b.drop_first() {
            assert(a =~= seq![a[0]] + a.drop_first());
            assert(b =~= seq![b[0]] + b.drop_first());
        }
    } else if a.len() > 0 && b.len() > 0 {
        assert(a[0] != b[0]);
    } else if a.len() == 0 && b.len() > 0 {
    } else if a.len() > 0 && b.len() == 0 {
    } else {
        assert(a =~= b);
    }
}

pub proof fn lemma_order_text_trans(a: Seq<char>, b: Seq<char>, c: Seq<char>)
    requires
        order_text(a, b) <= 0,
        order_text(b, c) <= 0,
    ensures
        order_text(a, c) <= 0,
        order_text(a, b) < 0 || order_text(b, c) < 0 ==> order_text(a, c) < 0,
    decreases a.len(),
{
    if a.len() > 0 && b.len() > 0 && c.len() > 0 {
        if a[0] == b[0] && b[0] == c[0] {
            lemma_order_text_trans(a.drop_first(), b.drop_first(), c.drop_first());
        }
    }
}

pub proof fn lemma_order_opt_text(a: Option<Seq<char>>, b: Option<Seq<char>>)
    ensures
        is_order(order_opt_text(a, b)),
        order_opt_text(a, b) == -order_opt_text(b, a),
        (order_opt_text(a, b) == 0) == (a == b),
{
    if let (Some(x), Some(y)) = (a, b) {
        lemma_order_text(x, y);
    }
}

pub proof fn lemma_order_opt_text_trans(a: Option<Seq<char>>, b: Option<Seq<char>>, c: Option<Seq<char>>)
    requires
        order_opt_text(a, b) <= 0,
        order_opt_text(b, c) <= 0,
    ensures
        order_opt_text(a, c) <= 0,
        order_opt_text(a, b) < 0 || order_opt_text(b, c) < 0 ==> order_opt_text(a, c) < 0,
{
    if let (Some(x), Some(y), Some(z)) = (a, b, c) {
        lemma_order_text_trans(x, y, z);
    }
}

/// Exec comparison of two texts.
pub fn order_text_exec(a: &str, b: &str) -> (r: i8)
    ensures
        r as int == order_text(a@, b@),
{
    let va = chars_of(a);
    let vb = chars_of(b);
    let mut i: usize = 0;
    assert(va@.skip(0) =~= va@);
    assert(vb@.skip(0) =~= vb@);
    while i < va.len() && i < vb.len() && va[i] == vb[i]
        invariant
            i <= va@.len(),
            i <= vb@.len(),
            order_text(a@, b@) == order_text(va@.skip(i as int), vb@.skip(i as int)),
            va@ == a@,
            vb@ == b@,
        decreases va.len() - i,
    {
        proof {
            assert(va@.skip(i as int).drop_first() =~= va@.skip(i + 1));
            assert(vb@.skip(i as int).drop_first() =~= vb@.skip(i + 1));
        }
        i += 1;
    }
    if i == va.len() {
        if i == vb.len() {
            0
        } else {
            -1
        }
    } else if i == vb.len() {
        1
    } else if va[i] < vb[i] {
        -1
    } else {
        1
    }
}

pub fn order_opt_u32_exec(a: Option<u32>, b: Option<u32>) -> (r: i8)
    ensures
        r as int == order_opt_u32(a, b),
{
    match (a, b) {
        (None, None) => 0,
        (None, Some(_)) => -1,
        (Some(_), None) => 1,
        (Some(x), Some(y)) => if x < y {
            -1
        } else if x == y {
            0
        } else {
            1
        },
    }
}

pub open spec fn opt_view(v: Option<String>) -> Option<Seq<char>> {
    match v {
        Some(s) => Some(s@),
        None => None,
    }
}

pub fn order_opt_text_exec(a: &Option<String>, b: &Option<String>) -> (r: i8)
    ensures
        r as int == order_opt_text(opt_view(*a), opt_view(*b)),
{
    match (a, b) {
        (None, None) => 0,
        (None, Some(_)) => -1,
        (Some(_), None) => 1,
        (Some(x), Some(y)) => order_text_exec(x.as_str(), y.as_str()),
    }
}

/// A type with a total preorder used for sorting.
pub trait Ranked: Sized {
    spec fn rank_le(self, other: Self) -> bool;

    proof fn lemma_rank_total(a: Self, b: Self)
        ensures
            Self::rank_le(a, b) || Self::rank_le(b, a),
    ;

    proof fn lemma_rank_trans(a: Self, b: Self, c: Self)
        requires
            Self::rank_le(a, b),
            Self::rank_le(b, c),
        ensures
            Self::rank_le(a, c),
    ;

    fn ranks_le(&self, other: &Self) -> (r: bool)
        ensures
            r == Self::rank_le(*self, *other),
    ;
}

/// Every element ranks at most every later element.
pub open spec fn sorted_by_rank<T: Ranked>(s: Seq<T>) -> bool {
    forall|i: int, j: int| 0 <= i < j < s.len() ==> T::rank_le(#[trigger] s[i], #[trigger] s[j])
}

/// `x` placed after the leading elements of `s` that rank at most `x` by `le`.
pub open spec fn insert_by<T>(s: Seq<T>, x: T, le: spec_fn(T, T) -> bool) -> Seq<T>
    decreases s.len(),
{
    if s.len() == 0 {
        seq![x]
    } else if le(s[0], x) {
        seq![s[0]] + insert_by(s.drop_first(), x, le)
    } else {
        seq![x] + s
    }
}

/// `s` sorted by insertion by `le`: its elements inserted one after another,
/// each after the leading elements already placed that rank at most it.
pub open spec fn sort_by<T>(s: Seq<T>, le: spec_fn(T, T) -> bool) -> Seq<T>
    decreases s.len(),
{
    if s.len() == 0 {
        s
    } else {
        insert_by(sort_by(s.drop_last(), le), s.last(), le)
    }
}

/// The rank order of a `Ranked` type as a relation.
pub open spec fn rank_rel<T: Ranked>() -> spec_fn(T, T) -> bool {
    |a: T, b: T| T::rank_le(a, b)
}

/// Inserting at the first position whose element does not rank at most `x`.
pub proof fn lemma_insert_at<T>(s: Seq<T>, x: T, p: int, le: spec_fn(T, T) -> bool)
    requires
        0 <= p <= s.len(),
        forall|j: int| 0 <= j < p ==> le(#[trigger] s[j], x),
        p < s.len() ==> !le(s[p], x),
    ensures
        s.insert(p, x) == insert_by(s, x, le),
    decreases p,
{
    if p == 0 {
        assert(s.insert(0, x) =~= seq![x] + s);
    } else {
        let t = s.drop_first();
        assert forall|j: int| 0 <= j < p - 1 implies le(#[trigger] t[j], x) by {
            assert(t[j] == s[j + 1]);
        }
        lemma_insert_at(t, x, p - 1, le);
        assert(s.insert(p, x) =~= seq![s[0]] + t.insert(p - 1, x));
    }
}

/// Mapping the elements commutes with sorting, when the order of the mapped
/// elements is the order of the elements they come from.
pub proof fn lemma_sort_by_map<A, B>(
    s: Seq<A>,
    f: spec_fn(A) -> B,
    la: spec_fn(A, A) -> bool,
    lb: spec_fn(B, B) -> bool,
)
    requires
        forall|x: A, y: A| #[trigger] la(x, y) == lb(f(x), f(y)),
    ensures
        sort_by(s, la).map_values(f) == sort_by(s.map_values(f), lb),
    decreases s.len(),
{
    if s.len() > 0 {
        lemma_sort_by_map(s.drop_last(), f, la, lb);
        assert(s.map_values(f).drop_last() =~= s.drop_last().map_values(f));
        lemma_insert_by_map(sort_by(s.drop_last(), la), s.last(), f, la, lb);
    }
}

proof fn lemma_insert_by_map<A, B>(
    s: Seq<A>,
    x: A,
    f: spec_fn(A) -> B,
    la: spec_fn(A, A) -> bool,
    lb: spec_fn(B, B) -> bool,
)
    requires
        forall|x: A, y: A| #[trigger] la(x, y) == lb(f(x), f(y)),
    ensures
        insert_by(s, x, la).map_values(f) == insert_by(s.map_values(f), f(x), lb),
    decreases s.len(),
{
    let m = s.map_values(f);
    if s.len() == 0 {
        assert(seq![x].map_values(f) =~= seq![f(x)]);
    } else {
        assert(la(s[0], x) == lb(f(s[0]), f(x)));
        assert(m[0] == f(s[0]));
        assert(m.drop_first() =~= s.drop_first().map_values(f));
        if la(s[0], x) {
            lemma_insert_by_map(s.drop_first(), x, f, la, lb);
            assert((seq![s[0]] + insert_by(s.drop_first(), x, la)).map_values(f) =~= seq![f(s[0])]
                + insert_by(s.drop_first(), x, la).map_values(f));
        } else {
            assert((seq![x] + s).map_values(f) =~= seq![f(x)] + m);
        }
    }
}

/// The elements of `v` in rank order, inserted one after another, each after
/// the elements already placed that rank at most it (so elements of equal
/// rank keep their order).
pub fn sort_by_rank<T: Ranked>(v: Vec<T>) -> (r: Vec<T>)
    ensures
        r@ == sort_by(v@, rank_rel::<T>()),
        sorted_by_rank(r@),
        r@.to_multiset() == v@.to_multiset(),
{
    let mut input = v;
    let mut out: Vec<T> = Vec::new();
    let ghost given = input@;
    let ghost mut k: int = 0;
    proof {
        assert(out@.to_multiset().add(input@.to_multiset()) =~= given.to_multiset());
        assert(given.take(0) =~= Seq::<T>::empty());
        assert(given.skip(0) =~= given);
    }
    while input.len() > 0
        invariant
            0 <= k <= given.len(),
            input@ == given.skip(k),
            out@ == sort_by(given.take(k), rank_rel::<T>()),
            sorted_by_rank(out@),
            out@.to_multiset().add(input@.to_multiset()) == given.to_multiset(),
        decreases input.len(),
    {
        let ghost before_in = input@;
        let x = input.remove(0);
        proof {
            vstd::seq_lib::to_multiset_remove(before_in, 0);
            assert(before_in.remove(0) =~= input@);
            assert(x == given[k]);
            assert(input@ =~= given.skip(k + 1));
        }
        let mut p: usize = 0;
        while p < out.len() && out[p].ranks_le(&x)
            invariant
                p <= out@.len(),
                forall|j: int| 0 <= j < p ==> T::rank_le(#[trigger] out@[j], x),
            decreases out.len() - p,
        {
            p += 1;
        }
        proof {
            if p < out@.len() {
                T::lemma_rank_total(out@[p as int], x);
                assert forall|j: int| p <= j < out@.len() implies T::rank_le(x, #[trigger] out@[j]) by {
                    if j > p {
                        T::lemma_rank_trans(x, out@[p as int], out@[j]);
                    }
                }
            }
        }
        let ghost before_out = out@;
        out.insert(p, x);
        proof {
            lemma_insert_at(before_out, x, p as int, rank_rel::<T>());
            assert(given.take(k + 1).drop_last() =~= given.take(k));
            assert(given.take(k + 1).last() == x);
            k = k + 1;
            vstd::seq_lib::to_multiset_insert(before_out, p as int, x);
            assert(out@ == before_out.insert(p as int, x));
            assert forall|i: int, j: int| 0 <= i < j < out@.len() implies T::rank_le(
                #[trigger] out@[i],
                #[trigger] out@[j],
            ) by {
                if i < p && j < p {
                    assert(out@[i] == before_out[i] && out@[j] == before_out[j]);
                } else if i < p && j == p {
                    assert(out@[i] == before_out[i]);
                } else if i < p && j > p {
                    assert(out@[i] == before_out[i] && out@[j] == before_out[j - 1]);
                } else if i == p {
                    assert(out@[j] == before_out[j - 1]);
                } else {
                    assert(out@[i] == before_out[i - 1] && out@[j] == before_out[j - 1]);
                }
            }
            assert(out@.to_multiset().add(input@.to_multiset()) =~= given.to_multiset());
        }
    }
    proof {
        assert(input@.to_multiset() =~= Multiset::<T>::empty());
        assert(out@.to_multiset() =~= given.to_multiset());
        assert(given.take(k) =~= given);
    }
    out
}

/// A sorted arrangement holds only elements of what was sorted.
pub proof fn lemma_arrangement_elements<T>(r: Seq<T>, v: Seq<T>)
    requires
        r.to_multiset() == v.to_multiset(),
    ensures
        forall|i: int| 0 <= i < r.len() ==> v.contains(#[trigger] r[i]),
{
    assert forall|i: int| 0 <= i < r.len() implies v.contains(#[trigger] r[i]) by {
        assert(r.contains(r[i]));
        assert(r.to_multiset().count(r[i]) > 0);
    }
}

// ---------------------------------------------------------------------------
// Order and stability of the insertion sort
// ---------------------------------------------------------------------------

/// `le` is total and transitive.
pub open spec fn total_preorder<T>(le: spec_fn(T, T) -> bool) -> bool {
    &&& forall|a: T, b: T| #[trigger] le(a, b) || le(b, a)
    &&& forall|a: T, b: T, c: T| #[trigger] le(a, b) && #[trigger] le(b, c) ==> le(a, c)
}

/// Every element is at most every later element by `le`.
pub open spec fn sorted_by<T>(s: Seq<T>, le: spec_fn(T, T) -> bool) -> bool {
    forall|i: int, j: int| 0 <= i < j < s.len() ==> le(#[trigger] s[i], #[trigger] s[j])
}

/// The elements that rank equal to `k`.
pub open spec fn ranks_with<T>(le: spec_fn(T, T) -> bool, k: T) -> spec_fn(T) -> bool {
    |e: T| le(e, k) && le(k, e)
}

proof fn lemma_insert_by_elements<T>(t: Seq<T>, x: T, le: spec_fn(T, T) -> bool)
    ensures
        insert_by(t, x, le).len() == t.len() + 1,
        forall|j: int|
            0 <= j < insert_by(t, x, le).len() ==> #[trigger] insert_by(t, x, le)[j] == x
                || t.contains(insert_by(t, x, le)[j]),
    decreases t.len(),
{
    if t.len() > 0 && le(t[0], x) {
        let rest = t.drop_first();
        lemma_insert_by_elements(rest, x, le);
        let r = insert_by(t, x, le);
        assert forall|j: int| 0 <= j < r.len() implies #[trigger] r[j] == x || t.contains(r[j]) by {
            if j == 0 {
                assert(t[0] == r[0]);
            } else {
                let e = insert_by(rest, x, le)[j - 1];
                assert(r[j] == e);
                if e != x {
                    let m = choose|m: int| 0 <= m < rest.len() && rest[m] == e;
                    assert(t[m + 1] == e);
                }
            }
        }
    } else if t.len() > 0 {
        let r = insert_by(t, x, le);
        assert forall|j: int| 0 <= j < r.len() implies #[trigger] r[j] == x || t.contains(r[j]) by {
            if j > 0 {
                assert(r[j] == t[j - 1]);
            }
        }
    }
}

proof fn lemma_insert_by_sorted<T>(t: Seq<T>, x: T, le: spec_fn(T, T) -> bool)
    requires
        total_preorder(le),
        sorted_by(t, le),
    ensures
        sorted_by(insert_by(t, x, le), le),
    decreases t.len(),
{
    let r = insert_by(t, x, le);
    if t.len() == 0 {
    } else if le(t[0], x) {
        let rest = t.drop_first();
        assert(sorted_by(rest, le)) by {
            assert forall|i: int, j: int| 0 <= i < j < rest.len() implies le(#[trigger] rest[i], #[trigger] rest[j]) by {
                assert(rest[i] == t[i + 1] && rest[j] == t[j + 1]);
            }
        }
        lemma_insert_by_sorted(rest, x, le);
        lemma_insert_by_elements(rest, x, le);
        let tail = insert_by(rest, x, le);
        assert forall|i: int, j: int| 0 <= i < j < r.len() implies le(#[trigger] r[i], #[trigger] r[j]) by {
            assert(r[j] == tail[j - 1]);
            if i == 0 {
                assert(r[0] == t[0]);
                let e = tail[j - 1];
                if e != x {
                    let m = choose|m: int| 0 <= m < rest.len() && rest[m] == e;
                    assert(t[m + 1] == e);
                    assert(le(t[0], t[m + 1]));
                }
            } else {
                assert(r[i] == tail[i - 1]);
            }
        }
    } else {
        assert(le(x, t[0]));
        assert forall|i: int, j: int| 0 <= i < j < r.len() implies le(#[trigger] r[i], #[trigger] r[j]) by {
            assert(r[j] == t[j - 1]);
            if i == 0 {
                if j - 1 > 0 {
                    assert(le(t[0], t[j - 1]));
                    assert(le(x, t[0]) && le(t[0], t[j - 1]));
                }
            } else {
                assert(r[i] == t[i - 1]);
            }
        }
    }
}

/// The insertion sort of `s` by a total preorder is sorted.
pub proof fn lemma_sort_by_sorted<T>(s: Seq<T>, le: spec_fn(T, T) -> bool)
    requires
        total_preorder(le),
    ensures
        sorted_by(sort_by(s, le), le),
    decreases s.len(),
{
    if s.len() > 0 {
        lemma_sort_by_sorted(s.drop_last(), le);
        lemma_insert_by_sorted(sort_by(s.drop_last(), le), s.last(), le);
    }
}

proof fn lemma_filter_single<T>(x: T, p: spec_fn(T) -> bool)
    ensures
        seq![x].filter(p) == (if p(x) {
            seq![x]
        } else {
            Seq::<T>::empty()
        }),
{
    reveal(Seq::filter);
    let one = seq![x];
    assert(one.drop_last() =~= Seq::<T>::empty());
    assert(Seq::<T>::empty().filter(p) =~= Seq::<T>::empty());
    assert(one.last() == x);
    if p(x) {
        assert(Seq::<T>::empty().push(x) =~= one);
    }
}

proof fn lemma_insert_by_filter<T>(t: Seq<T>, x: T, le: spec_fn(T, T) -> bool, k: T)
    requires
        total_preorder(le),
        sorted_by(t, le),
    ensures
        insert_by(t, x, le).filter(ranks_with(le, k)) == (if ranks_with(le, k)(x) {
            t.filter(ranks_with(le, k)).push(x)
        } else {
            t.filter(ranks_with(le, k))
        }),
    decreases t.len(),
{
    reveal(Seq::filter);
    let p = ranks_with(le, k);
    let one = seq![x];
    lemma_filter_single(x, p);
    if t.len() == 0 {
        assert(insert_by(t, x, le) == one);
        assert(t.filter(p) =~= Seq::<T>::empty());
        if p(x) {
            assert(Seq::<T>::empty().push(x) =~= one);
        }
    } else if le(t[0], x) {
        let rest = t.drop_first();
        assert(sorted_by(rest, le)) by {
            assert forall|i: int, j: int| 0 <= i < j < rest.len() implies le(#[trigger] rest[i], #[trigger] rest[j]) by {
                assert(rest[i] == t[i + 1] && rest[j] == t[j + 1]);
            }
        }
        lemma_insert_by_filter(rest, x, le, k);
        let head = seq![t[0]];
        Seq::filter_distributes_over_add(head, insert_by(rest, x, le), p);
        assert(t =~= head + rest);
        Seq::filter_distributes_over_add(head, rest, p);
        if p(x) {
            assert(head.filter(p) + rest.filter(p).push(x) =~= (head.filter(p) + rest.filter(p)).push(x));
        }
    } else {
        Seq::filter_distributes_over_add(one, t, p);
        if p(x) {
            assert forall|i: int| 0 <= i < t.len() implies !p(#[trigger] t[i]) by {
                if p(t[i]) {
                    if i > 0 {
                        assert(le(t[0], t[i]));
                        assert(le(t[0], t[i]) && le(t[i], k));
                    }
                    assert(le(t[0], k));
                    assert(le(t[0], k) && le(k, x));
                }
            }
            t.lemma_all_neg_filter_empty(p);
            assert(t.filter(p) =~= Seq::<T>::empty());
            assert(one + Seq::<T>::empty() =~= Seq::<T>::empty().push(x));
        } else {
            assert(Seq::<T>::empty() + t.filter(p) =~= t.filter(p));
        }
    }
}

/// Sorting by insertion keeps elements that rank equal in the order they
/// came in.
pub proof fn lemma_sort_by_stable<T>(s: Seq<T>, le: spec_fn(T, T) -> bool, k: T)
    requires
        total_preorder(le),
    ensures
        sort_by(s, le).filter(ranks_with(le, k)) == s.filter(ranks_with(le, k)),
    decreases s.len(),
{
    reveal(Seq::filter);
    if s.len() > 0 {
        lemma_sort_by_stable(s.drop_last(), le, k);
        lemma_sort_by_sorted(s.drop_last(), le);
        lemma_insert_by_filter(sort_by(s.drop_last(), le), s.last(), le, k);
    }
}

/// The rank order of a `Ranked` type is a total preorder.
pub proof fn lemma_rank_rel_preorder<T: Ranked>()
    ensures
        total_preorder(rank_rel::<T>()),
{
    assert forall|a: T, b: T| #[trigger] rank_rel::<T>()(a, b) || rank_rel::<T>()(b, a) by {
        T::lemma_rank_total(a, b);
    }
    assert forall|a: T, b: T, c: T| #[trigger] rank_rel::<T>()(a, b) && #[trigger] rank_rel::<T>()(b, c)
        implies rank_rel::<T>()(a, c) by {
        T::lemma_rank_trans(a, b, c);
    }
}

/// Sorting by rank keeps the elements of each rank in the order they came
/// in, and puts every element at most every later one.
pub proof fn lemma_sort_by_rank_stable<T: Ranked>(v: Seq<T>, k: T)
    ensures
        sort_by(v, rank_rel::<T>()).filter(ranks_with(rank_rel::<T>(), k)) == v.filter(
            ranks_with(rank_rel::<T>(), k),
        ),
        sorted_by(sort_by(v, rank_rel::<T>()), rank_rel::<T>()),
{
    lemma_rank_rel_preorder::<T>();
    lemma_sort_by_stable(v, rank_rel::<T>(), k);
    lemma_sort_by_sorted(v, rank_rel::<T>());
}

} // verus!
