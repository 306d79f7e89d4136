//! Ordering: strings by code point, and a stable sort.

use vstd::prelude::*;

verus! {

/// Whether `a` comes before `b` or is `b`, comparing code point by code point. For
/// UTF-8 strings this is the order of their bytes.
pub open spec fn text_le(a: Seq<char>, b: Seq<char>) -> bool
    decreases a.len(),
{
    if a.len() == 0 {
        true
    } else if b.len() == 0 {
        false
    } else if a[0] != b[0] {
        (a[0] as u32) < (b[0] as u32)
    } else {
        text_le(a.drop_first(), b.drop_first())
    }
}

pub fn text_at_most(a: &[char], b: &[char]) -> (r: bool)
    ensures
        r == text_le(a@, b@),
{
    let mut i: usize = 0;
    assert(a@.skip(0) =~= a@);
    assert(b@.skip(0) =~= b@);
    while i < a.len() && i < b.len() && a[i] == b[i]
        invariant
            i <= a@.len(),
            i <= b@.len(),
            text_le(a@, b@) == text_le(a@.skip(i as int), b@.skip(i as int)),
        decreases a@.len() - i,
    {
        assert(a@.skip(i as int).drop_first() =~= a@.skip(i + 1));
        assert(b@.skip(i as int).drop_first() =~= b@.skip(i + 1));
        i = i + 1;
    }
    if i >= a.len() {
        true
    } else if i >= b.len() {
        false
    } else {
        (a[i] as u32) < (b[i] as u32)
    }
}

proof fn lemma_code_points_differ(c: char, d: char)
    ensures
        c as u32 == d as u32 ==> c == d,
{
    vstd::utf8::char_u32_cast(c, c as u32);
    vstd::utf8::char_u32_cast(d, d as u32);
}

pub proof fn lemma_text_le_total(a: Seq<char>, b: Seq<char>)
    ensures
        text_le(a, b) || text_le(b, a),
    decreases a.len(),
{
    if a.len() > 0 && b.len() > 0 {
        lemma_code_points_differ(a[0], b[0]);
        lemma_text_le_total(a.drop_first(), b.drop_first());
    }
}

pub proof fn lemma_text_le_transitive(a: Seq<char>, b: Seq<char>, c: Seq<char>)
    requires
        text_le(a, b),
        text_le(b, c),
    ensures
        text_le(a, c),
    decreases a.len(),
{
    if a.len() > 0 && b.len() > 0 && c.len() > 0 && a[0] == b[0] && b[0] == c[0] {
        lemma_text_le_transitive(a.drop_first(), b.drop_first(), c.drop_first());
    }
}

pub proof fn lemma_text_le_antisymmetric(a: Seq<char>, b: Seq<char>)
    requires
        text_le(a, b),
        text_le(b, a),
    ensures
        a == b,
    decreases a.len(),
{
    if a.len() > 0 && b.len() > 0 {
        lemma_text_le_antisymmetric(a.drop_first(), b.drop_first());
        assert(a =~= seq![a[0]] + a.drop_first());
        assert(b =~= seq![b[0]] + b.drop_first());
    } else {
        assert(a =~= b);
    }
}

/// `x` put into `s` right after the last element that does not rank above it.
pub open spec fn insert_ranked<A>(s: Seq<A>, x: A, le: spec_fn(A, A) -> bool) -> Seq<A>
    decreases s.len(),
{
    if s.len() == 0 || le(s.last(), x) {
        s.push(x)
    } else {
        insert_ranked(s.drop_last(), x, le).push(s.last())
    }
}

/// `s` in rank order, elements of one rank in the order they had.
pub open spec fn stable_sort<A>(s: Seq<A>, le: spec_fn(A, A) -> bool) -> Seq<A>
    decreases s.len(),
{
    if s.len() == 0 {
        s
    } else {
        insert_ranked(stable_sort(s.drop_last(), le), s.last(), le)
    }
}

/// Whether `le` compares any two elements and is transitive.
pub open spec fn ranking<A>(le: spec_fn(A, A) -> bool) -> bool {
    &&& forall|a: A, b: A| #[trigger] le(a, b) || le(b, a)
    &&& forall|a: A, b: A, c: A| #[trigger] le(a, b) && #[trigger] le(b, c) ==> le(a, c)
}

/// Whether each element of `s` ranks no higher than those after it.
pub open spec fn ranked<A>(s: Seq<A>, le: spec_fn(A, A) -> bool) -> bool {
    forall|i: int, j: int| 0 <= i < j < s.len() ==> le(#[trigger] s[i], #[trigger] s[j])
}

proof fn lemma_insert_ranked<A>(s: Seq<A>, x: A, le: spec_fn(A, A) -> bool)
    requires
        ranking(le),
        ranked(s, le),
    ensures
        ranked(insert_ranked(s, x, le), le),
        insert_ranked(s, x, le).len() == s.len() + 1,
        forall|i: int|
            0 <= i < s.len() + 1 ==> (#[trigger] insert_ranked(s, x, le)[i] == x || s.contains(
                insert_ranked(s, x, le)[i],
            )),
    decreases s.len(),
{
    let r = insert_ranked(s, x, le);
    if s.len() == 0 {
    } else if le(s.last(), x) {
        assert forall|i: int, j: int| 0 <= i < j < r.len() implies le(
            #[trigger] r[i],
            #[trigger] r[j],
        ) by {
            if j == s.len() && i < s.len() - 1 {
                assert(le(s[i], s.last()));
            }
        }
    } else {
        let t = s.drop_last();
        lemma_insert_ranked(t, x, le);
        let q = insert_ranked(t, x, le);
        assert forall|i: int, j: int| 0 <= i < j < r.len() implies le(
            #[trigger] r[i],
            #[trigger] r[j],
        ) by {
            if j == s.len() {
                assert(r[i] == q[i]);
                if q[i] != x {
                    let k = choose|k: int| 0 <= k < t.len() && t[k] == q[i];
                    assert(le(s[k], s[s.len() - 1]));
                } else {
                    assert(le(x, s.last()) || le(s.last(), x));
                }
            } else {
                assert(r[i] == q[i] && r[j] == q[j]);
            }
        }
        assert forall|i: int| 0 <= i < s.len() + 1 implies (#[trigger] r[i] == x || s.contains(
            r[i],
        )) by {
            if i < s.len() {
                assert(r[i] == q[i]);
                if q[i] != x {
                    let k = choose|k: int| 0 <= k < t.len() && t[k] == q[i];
                    assert(s[k] == q[i]);
                }
            }
        }
    }
}

/// A sorted sequence is in rank order.
pub proof fn law_sort_is_ranked<A>(s: Seq<A>, le: spec_fn(A, A) -> bool)
    requires
        ranking(le),
    ensures
        ranked(stable_sort(s, le), le),
    decreases s.len(),
{
    if s.len() > 0 {
        law_sort_is_ranked(s.drop_last(), le);
        lemma_insert_ranked(stable_sort(s.drop_last(), le), s.last(), le);
    }
}

proof fn lemma_insert_multiset<A>(s: Seq<A>, x: A, le: spec_fn(A, A) -> bool)
    ensures
        insert_ranked(s, x, le).to_multiset() =~= s.to_multiset().insert(x),
    decreases s.len(),
{
    broadcast use vstd::seq_lib::group_to_multiset_ensures;

    if s.len() > 0 && !le(s.last(), x) {
        lemma_insert_multiset(s.drop_last(), x, le);
        assert(s.drop_last().push(s.last()) =~= s);
    }
}

/// Sorting only moves elements: none is lost and none is added.
pub proof fn law_sort_is_permutation<A>(s: Seq<A>, le: spec_fn(A, A) -> bool)
    ensures
        stable_sort(s, le).to_multiset() =~= s.to_multiset(),
        stable_sort(s, le).len() == s.len(),
    decreases s.len(),
{
    broadcast use vstd::seq_lib::group_to_multiset_ensures;

    if s.len() > 0 {
        law_sort_is_permutation(s.drop_last(), le);
        lemma_insert_multiset(stable_sort(s.drop_last(), le), s.last(), le);
        assert(s.drop_last().push(s.last()) =~= s);
        lemma_insert_len(stable_sort(s.drop_last(), le), s.last(), le);
    }
}

proof fn lemma_insert_len<A>(s: Seq<A>, x: A, le: spec_fn(A, A) -> bool)
    ensures
        insert_ranked(s, x, le).len() == s.len() + 1,
    decreases s.len(),
{
    if s.len() > 0 && !le(s.last(), x) {
        lemma_insert_len(s.drop_last(), x, le);
    }
}

proof fn lemma_insert_keeps_rank<A>(s: Seq<A>, x: A, k: A, le: spec_fn(A, A) -> bool)
    requires
        ranking(le),
        ranked(s, le),
    ensures
        ({
            let same = |y: A| le(y, k) && le(k, y);
            insert_ranked(s, x, le).filter(same) == s.push(x).filter(same)
        }),
    decreases s.len(),
{
    broadcast use Seq::lemma_filter_push;

    let same = |y: A| le(y, k) && le(k, y);
    if s.len() > 0 && !le(s.last(), x) {
        let t = s.drop_last();
        let l = s.last();
        lemma_insert_keeps_rank(t, x, k, le);
        assert(t.push(l) =~= s);
        if same(x) && same(l) {
            assert(le(l, k) && le(k, x));
            assert(false);
        }
    }
}

/// Sorting is stable: the elements of one rank come out in the order they had.
pub proof fn law_sort_is_stable<A>(s: Seq<A>, k: A, le: spec_fn(A, A) -> bool)
    requires
        ranking(le),
    ensures
        ({
            let same = |y: A| le(y, k) && le(k, y);
            stable_sort(s, le).filter(same) == s.filter(same)
        }),
    decreases s.len(),
{
    broadcast use Seq::lemma_filter_push;

    let same = |y: A| le(y, k) && le(k, y);
    if s.len() > 0 {
        let t = s.drop_last();
        law_sort_is_stable(t, k, le);
        law_sort_is_ranked(t, le);
        lemma_insert_keeps_rank(stable_sort(t, le), s.last(), k, le);
        assert(t.push(s.last()) =~= s);
    }
}

proof fn lemma_insert_map<A, B>(
    s: Seq<A>,
    x: A,
    f: spec_fn(A) -> B,
    le: spec_fn(A, A) -> bool,
    le2: spec_fn(B, B) -> bool,
)
    requires
        forall|a: A, b: A| le(a, b) == #[trigger] le2(f(a), f(b)),
    ensures
        insert_ranked(s, x, le).map_values(f) == insert_ranked(s.map_values(f), f(x), le2),
    decreases s.len(),
{
    let m = s.map_values(f);
    if s.len() == 0 {
        assert(insert_ranked(s, x, le).map_values(f) =~= insert_ranked(m, f(x), le2));
    } else {
        assert(le(s.last(), x) == le2(f(s.last()), f(x)));
        assert(m.last() == f(s.last()));
        if le(s.last(), x) {
            assert(s.push(x).map_values(f) =~= m.push(f(x)));
        } else {
            lemma_insert_map(s.drop_last(), x, f, le, le2);
            assert(s.drop_last().map_values(f) =~= m.drop_last());
            assert(insert_ranked(s, x, le).map_values(f) =~= insert_ranked(
                s.drop_last(),
                x,
                le,
            ).map_values(f).push(f(s.last())));
        }
    }
}

/// Sorting commutes with a map that keeps the ranks.
pub proof fn lemma_sort_map<A, B>(
    s: Seq<A>,
    f: spec_fn(A) -> B,
    le: spec_fn(A, A) -> bool,
    le2: spec_fn(B, B) -> bool,
)
    requires
        forall|a: A, b: A| le(a, b) == #[trigger] le2(f(a), f(b)),
    ensures
        stable_sort(s, le).map_values(f) == stable_sort(s.map_values(f), le2),
    decreases s.len(),
{
    let m = s.map_values(f);
    if s.len() == 0 {
        assert(s.map_values(f) =~= Seq::<B>::empty());
        assert(stable_sort(s, le).map_values(f) =~= m);
    } else {
        lemma_sort_map(s.drop_last(), f, le, le2);
        lemma_insert_map(stable_sort(s.drop_last(), le), s.last(), f, le, le2);
        assert(s.drop_last().map_values(f) =~= m.drop_last());
        assert(m.last() == f(s.last()));
    }
}

/// Every element of a sorted sequence was there before.
pub proof fn lemma_sort_keeps<A>(s: Seq<A>, le: spec_fn(A, A) -> bool)
    ensures
        stable_sort(s, le).len() == s.len(),
        forall|i: int| 0 <= i < s.len() ==> s.contains(#[trigger] stable_sort(s, le)[i]),
{
    broadcast use vstd::seq_lib::group_to_multiset_ensures;

    law_sort_is_permutation(s, le);
    let r = stable_sort(s, le);
    assert forall|i: int| 0 <= i < s.len() implies s.contains(#[trigger] r[i]) by {
        assert(r.contains(r[i]));
        assert(r.to_multiset().count(r[i]) > 0);
        assert(s.to_multiset().count(r[i]) > 0);
    }
}

/// What can be sorted.
pub trait Ranked: Sized {
    spec fn rank_le(self, other: Self) -> bool;

    fn at_most(&self, other: &Self) -> (r: bool)
        ensures
            r == (*self).rank_le(*other),
    ;
}

proof fn lemma_insert_at<A>(s: Seq<A>, x: A, le: spec_fn(A, A) -> bool, pos: int)
    requires
        0 <= pos <= s.len(),
        pos > 0 ==> le(s[pos - 1], x),
        forall|i: int| pos <= i < s.len() ==> !le(#[trigger] s[i], x),
    ensures
        insert_ranked(s, x, le) == s.insert(pos, x),
    decreases s.len(),
{
    if pos == s.len() {
        assert(s.insert(pos, x) =~= s.push(x));
    } else {
        assert(!le(s[s.len() - 1], x));
        lemma_insert_at(s.drop_last(), x, le, pos);
        assert(s.insert(pos, x) =~= s.drop_last().insert(pos, x).push(s.last()));
    }
}

/// The elements of `v` in rank order, those of one rank in the order they had.
pub fn stable_sorted<T: Ranked>(v: Vec<T>) -> (r: Vec<T>)
    ensures
        r@ == stable_sort(v@, |a: T, b: T| a.rank_le(b)),
{
    let ghost all = v@;
    let ghost le = |a: T, b: T| a.rank_le(b);
    let mut rest: Vec<T> = v;
    let mut out: Vec<T> = Vec::new();
    let ghost mut done: int = 0;
    assert(all.skip(0) =~= all);
    assert(all.take(0) =~= Seq::<T>::empty());
    while rest.len() > 0
        invariant
            le == (|a: T, b: T| a.rank_le(b)),
            0 <= done,
            done + rest@.len() == all.len(),
            rest@ == all.skip(done),
            out@ == stable_sort(all.take(done), le),
        decreases rest@.len(),
    {
        let x: T = rest.remove(0);
        let ghost before = out@;
        let mut pos: usize = out.len();
        while pos > 0 && !out[pos - 1].at_most(&x)
            invariant
                pos <= out@.len(),
                out@ == before,
                le == (|a: T, b: T| a.rank_le(b)),
                forall|i: int| pos <= i < out@.len() ==> !le(#[trigger] out@[i], x),
            decreases pos,
        {
            pos = pos - 1;
        }
        out.insert(pos, x);
        proof {
            lemma_insert_at(before, x, le, pos as int);
            assert(all.take(done + 1).drop_last() =~= all.take(done));
            assert(all.skip(done).remove(0) =~= all.skip(done + 1));
        }
        proof {
            done = done + 1;
        }
    }
    assert(all.take(done) =~= all);
    out
}

/// An item with the text that it is sorted by.
pub struct Keyed<T> {
    pub key: Vec<char>,
    pub item: T,
}

impl<T> Ranked for Keyed<T> {
    open spec fn rank_le(self, other: Self) -> bool {
        text_le(self.key@, other.key@)
    }

    fn at_most(&self, other: &Self) -> (r: bool) {
        text_at_most(self.key.as_slice(), other.key.as_slice())
    }
}

pub proof fn lemma_insert_agrees<A>(
    s: Seq<A>,
    x: A,
    le: spec_fn(A, A) -> bool,
    le2: spec_fn(A, A) -> bool,
)
    requires
        forall|i: int| 0 <= i < s.len() ==> le(#[trigger] s[i], x) == le2(s[i], x),
    ensures
        insert_ranked(s, x, le) == insert_ranked(s, x, le2),
    decreases s.len(),
{
    if s.len() > 0 {
        assert(le(s[s.len() - 1], x) == le2(s[s.len() - 1], x));
        assert forall|i: int| 0 <= i < s.drop_last().len() implies le(
            #[trigger] s.drop_last()[i],
            x,
        ) == le2(s.drop_last()[i], x) by {
            assert(le(s[i], x) == le2(s[i], x));
        }
        lemma_insert_agrees(s.drop_last(), x, le, le2);
    }
}

proof fn lemma_sort_agrees<A>(s: Seq<A>, le: spec_fn(A, A) -> bool, le2: spec_fn(A, A) -> bool)
    requires
        forall|i: int, j: int|
            0 <= i < s.len() && 0 <= j < s.len() ==> le(#[trigger] s[i], #[trigger] s[j]) == le2(
                s[i],
                s[j],
            ),
    ensures
        stable_sort(s, le) == stable_sort(s, le2),
    decreases s.len(),
{
    if s.len() > 0 {
        let t = s.drop_last();
        assert forall|i: int, j: int| 0 <= i < t.len() && 0 <= j < t.len() implies le(
            #[trigger] t[i],
            #[trigger] t[j],
        ) == le2(t[i], t[j]) by {
            assert(t[i] == s[i] && t[j] == s[j]);
        }
        lemma_sort_agrees(t, le, le2);
        let r = stable_sort(t, le);
        lemma_sort_keeps(t, le);
        assert forall|i: int| 0 <= i < r.len() implies le(#[trigger] r[i], s.last()) == le2(
            r[i],
            s.last(),
        ) by {
            assert(t.contains(r[i]));
            let j = choose|j: int| 0 <= j < t.len() && t[j] == r[i];
            assert(s[j] == r[i]);
            assert(le(s[j], s[s.len() - 1]) == le2(s[j], s[s.len() - 1]));
        }
        lemma_insert_agrees(r, s.last(), le, le2);
    }
}

/// The indices below `n`.
pub open spec fn indices(n: nat) -> Seq<usize> {
    Seq::new(n, |i: int| i as usize)
}

/// The order of indices that sorts `keys`.
pub open spec fn index_le(keys: Seq<Seq<char>>) -> spec_fn(usize, usize) -> bool {
    |a: usize, b: usize| text_le(keys[a as int], keys[b as int])
}

pub open spec fn key_views(keys: Seq<Vec<char>>) -> Seq<Seq<char>> {
    Seq::new(keys.len(), |i: int| keys[i]@)
}

/// Picking the items in the order that sorts their keys sorts the items.
pub proof fn lemma_sort_items<A>(keys: Seq<Seq<char>>, items: Seq<A>, le: spec_fn(A, A) -> bool)
    requires
        keys.len() == items.len(),
        items.len() <= usize::MAX,
        forall|i: int, j: int|
            0 <= i < items.len() && 0 <= j < items.len() ==> le(
                #[trigger] items[i],
                #[trigger] items[j],
            ) == text_le(keys[i], keys[j]),
    ensures
        stable_sort(indices(items.len()), index_le(keys)).map_values(|i: usize| items[i as int])
            == stable_sort(items, le),
        stable_sort(indices(items.len()), index_le(keys)).len() == items.len(),
        forall|m: int|
            0 <= m < items.len() ==> #[trigger] stable_sort(
                indices(items.len()),
                index_le(keys),
            )[m] < items.len(),
{
    let s = indices(items.len());
    let f = |i: usize| items[i as int];
    let le2 = |a: usize, b: usize| le(items[a as int], items[b as int]);
    assert forall|i: int, j: int| 0 <= i < s.len() && 0 <= j < s.len() implies index_le(keys)(
        #[trigger] s[i],
        #[trigger] s[j],
    ) == le2(s[i], s[j]) by {
        assert(s[i] == i && s[j] == j);
        assert(le(items[i], items[j]) == text_le(keys[i], keys[j]));
    }
    lemma_sort_agrees(s, index_le(keys), le2);
    lemma_sort_map(s, f, le2, le);
    assert(s.map_values(f) =~= items);
    lemma_sort_keeps(s, index_le(keys));
    let r = stable_sort(s, index_le(keys));
    assert forall|m: int| 0 <= m < items.len() implies #[trigger] r[m] < items.len() by {
        assert(s.contains(r[m]));
        let j = choose|j: int| 0 <= j < s.len() && s[j] == r[m];
        assert(s[j] == j);
    }
}

/// The indices of `keys` in the order that sorts them.
pub fn sorted_order(keys: &Vec<Vec<char>>) -> (r: Vec<usize>)
    ensures
        r@ == stable_sort(indices(keys@.len()), index_le(key_views(keys@))),
        r@.len() == keys@.len(),
{
    let ghost ks = key_views(keys@);
    let ghost le = index_le(ks);
    let mut out: Vec<usize> = Vec::new();
    let mut i: usize = 0;
    assert(indices(keys@.len()).take(0) =~= Seq::<usize>::empty());
    while i < keys.len()
        invariant
            i <= keys@.len(),
            ks == key_views(keys@),
            le == index_le(ks),
            out@.len() == i,
            out@ == stable_sort(indices(keys@.len()).take(i as int), le),
            forall|j: int| 0 <= j < i ==> #[trigger] out@[j] < keys@.len(),
        decreases keys@.len() - i,
    {
        let ghost before = out@;
        let mut pos: usize = out.len();
        while pos > 0 && !text_at_most(keys[out[pos - 1]].as_slice(), keys[i].as_slice())
            invariant
                i < keys@.len(),
                pos <= out@.len(),
                out@ == before,
                ks == key_views(keys@),
                le == index_le(ks),
                forall|j: int| 0 <= j < out@.len() ==> #[trigger] out@[j] < keys@.len(),
                forall|j: int| pos <= j < out@.len() ==> !le(#[trigger] out@[j], i),
            decreases pos,
        {
            assert(ks[out@[pos - 1] as int] == keys@[out@[pos - 1] as int]@);
            assert(ks[i as int] == keys@[i as int]@);
            pos = pos - 1;
        }
        assert(pos > 0 ==> le(out@[pos - 1], i)) by {
            if pos > 0 {
                assert(ks[out@[pos - 1] as int] == keys@[out@[pos - 1] as int]@);
                assert(ks[i as int] == keys@[i as int]@);
            }
        }
        out.insert(pos, i);
        proof {
            lemma_insert_at(before, i, le, pos as int);
            let all = indices(keys@.len());
            assert(all.take(i + 1).drop_last() =~= all.take(i as int));
            assert forall|j: int| 0 <= j < out@.len() implies #[trigger] out@[j] < keys@.len() by {
                if j < pos {
                    assert(out@[j] == before[j]);
                } else if j > pos {
                    assert(out@[j] == before[j - 1]);
                }
            }
        }
        i = i + 1;
    }
    assert(indices(keys@.len()).take(i as int) =~= indices(keys@.len()));
    out
}

/// Texts are ordered by the first character in which they differ, and where one ends
/// before they do, the shorter one comes first.
pub proof fn law_texts_are_ordered_by_code_points(
    p: Seq<char>,
    c: char,
    d: char,
    s: Seq<char>,
    t: Seq<char>,
)
    requires
        c != d,
    ensures
        text_le(p + seq![c] + s, p + seq![d] + t) <==> (c as u32) < (d as u32),
        text_le(p, p + seq![c] + s),
        !text_le(p + seq![c] + s, p),
        text_le(p, p),
    decreases p.len(),
{
    let a = p + seq![c] + s;
    let b = p + seq![d] + t;
    if p.len() == 0 {
        assert(a[0] == c && b[0] == d);
    } else {
        let q = p.drop_first();
        assert(a[0] == p[0] && b[0] == p[0]);
        assert(a.drop_first() =~= q + seq![c] + s);
        assert(b.drop_first() =~= q + seq![d] + t);
        law_texts_are_ordered_by_code_points(q, c, d, s, t);
    }
}

} // verus!
