//! Tables of texts by texts, and the `key = value` lines they are stored as.

use crate::text::{
    blank, chars_of, is_white_space, join, lacks, law_trim_padded, lemma_index_of_is,
    lemma_lines_append, lines, lines_of, no_outer_space, same_text, split_once, split_once_at,
    string_of, strip_cr, trim, trimmed, views,
};
use vstd::prelude::*;
use vstd::string::*;

verus! {

/// The table that results when the pairs are put in one after the other: the last
/// value of a key counts.
pub open spec fn pairs_map(s: Seq<(Seq<char>, Seq<char>)>) -> Map<Seq<char>, Seq<char>>
    decreases s.len(),
{
    if s.len() == 0 {
        Map::empty()
    } else {
        pairs_map(s.drop_last()).insert(s.last().0, s.last().1)
    }
}

pub open spec fn distinct_keys(s: Seq<(Seq<char>, Seq<char>)>) -> bool {
    forall|i: int, j: int| 0 <= i < j < s.len() ==> (#[trigger] s[i]).0 != (#[trigger] s[j]).0
}

pub open spec fn pair_views(v: Seq<(String, String)>) -> Seq<(Seq<char>, Seq<char>)> {
    Seq::new(v.len(), |i: int| (v[i].0@, v[i].1@))
}

/// A table of texts by texts.
pub struct Table {
    entries: Vec<(String, String)>,
}

pub proof fn lemma_pairs_domain(s: Seq<(Seq<char>, Seq<char>)>, k: Seq<char>)
    ensures
        pairs_map(s).dom().contains(k) <==> exists|i: int| 0 <= i < s.len() && (#[trigger] s[i]).0
            == k,
    decreases s.len(),
{
    if s.len() > 0 {
        let t = s.drop_last();
        lemma_pairs_domain(t, k);
        if pairs_map(s).dom().contains(k) {
            if s.last().0 == k {
                assert(s[s.len() - 1].0 == k);
            } else {
                let i = choose|i: int| 0 <= i < t.len() && (#[trigger] t[i]).0 == k;
                assert(s[i].0 == k);
            }
        }
        if exists|i: int| 0 <= i < s.len() && (#[trigger] s[i]).0 == k {
            let i = choose|i: int| 0 <= i < s.len() && (#[trigger] s[i]).0 == k;
            if i < t.len() {
                assert(t[i].0 == k);
            }
        }
    }
}

/// In a table of distinct keys each pair is an entry.
pub proof fn lemma_pairs_lookup(s: Seq<(Seq<char>, Seq<char>)>, i: int)
    requires
        distinct_keys(s),
        0 <= i < s.len(),
    ensures
        pairs_map(s).dom().contains(s[i].0),
        pairs_map(s)[s[i].0] == s[i].1,
    decreases s.len(),
{
    if i < s.len() - 1 {
        let t = s.drop_last();
        assert(distinct_keys(t)) by {
            assert forall|a: int, b: int| 0 <= a < b < t.len() implies (#[trigger] t[a]).0 != (
            #[trigger] t[b]).0 by {
                assert(s[a].0 != s[b].0);
            }
        }
        lemma_pairs_lookup(t, i);
        assert(t[i] == s[i]);
        assert(s[i].0 != s[s.len() - 1].0);
    }
}

proof fn lemma_remove_and_insert(
    s: Seq<(Seq<char>, Seq<char>)>,
    i: int,
    k: Seq<char>,
    v: Seq<char>,
)
    requires
        0 <= i < s.len(),
        s[i].0 == k,
    ensures
        pairs_map(s.remove(i)).insert(k, v) =~= pairs_map(s).insert(k, v),
    decreases s.len(),
{
    if i == s.len() - 1 {
        assert(s.remove(i) =~= s.drop_last());
    } else {
        let t = s.drop_last();
        lemma_remove_and_insert(t, i, k, v);
        assert(s.remove(i).drop_last() =~= t.remove(i));
        assert(s.remove(i).last() == s.last());
        let l = s.last();
        assert(pairs_map(s.remove(i)) == pairs_map(t.remove(i)).insert(l.0, l.1));
        assert(pairs_map(s) == pairs_map(t).insert(l.0, l.1));
        if l.0 == k {
            assert(pairs_map(t.remove(i)).insert(l.0, l.1).insert(k, v) =~= pairs_map(
                t.remove(i),
            ).insert(k, v));
            assert(pairs_map(t).insert(l.0, l.1).insert(k, v) =~= pairs_map(t).insert(k, v));
        } else {
            assert(pairs_map(t.remove(i)).insert(l.0, l.1).insert(k, v) =~= pairs_map(
                t.remove(i),
            ).insert(k, v).insert(l.0, l.1));
            assert(pairs_map(t).insert(l.0, l.1).insert(k, v) =~= pairs_map(t).insert(k, v).insert(
                l.0,
                l.1,
            ));
        }
    }
}

proof fn lemma_pairs_count(s: Seq<(Seq<char>, Seq<char>)>)
    requires
        distinct_keys(s),
    ensures
        pairs_map(s).dom().finite(),
        pairs_map(s).dom().len() == s.len(),
    decreases s.len(),
{
    if s.len() > 0 {
        let t = s.drop_last();
        assert(distinct_keys(t)) by {
            assert forall|a: int, b: int| 0 <= a < b < t.len() implies (#[trigger] t[a]).0 != (
            #[trigger] t[b]).0 by {
                assert(s[a].0 != s[b].0);
            }
        }
        lemma_pairs_count(t);
        lemma_pairs_domain(t, s.last().0);
        if pairs_map(t).dom().contains(s.last().0) {
            let i = choose|i: int| 0 <= i < t.len() && (#[trigger] t[i]).0 == s.last().0;
            assert(s[i].0 == s[s.len() - 1].0);
        }
        assert(pairs_map(s).dom() =~= pairs_map(t).dom().insert(s.last().0));
    } else {
        assert(pairs_map(s).dom() =~= Set::<Seq<char>>::empty());
    }
}

impl Table {
    /// The entries, in the order in which they were put in last.
    pub closed spec fn pairs(&self) -> Seq<(Seq<char>, Seq<char>)> {
        pair_views(self.entries@)
    }

    #[verifier::type_invariant]
    spec fn keys_distinct(&self) -> bool {
        distinct_keys(self.pairs())
    }

    pub open spec fn view(&self) -> Map<Seq<char>, Seq<char>> {
        pairs_map(self.pairs())
    }

    pub fn new() -> (r: Table)
        ensures
            r@ == Map::<Seq<char>, Seq<char>>::empty(),
            r.pairs() == Seq::<(Seq<char>, Seq<char>)>::empty(),
    {
        let r: Table = Table { entries: Vec::new() };
        assert(r.pairs() =~= Seq::<(Seq<char>, Seq<char>)>::empty());
        r
    }

    /// The number of keys.
    pub fn len(&self) -> (r: usize)
        ensures
            r == self@.dom().len(),
            r == self.pairs().len(),
            distinct_keys(self.pairs()),
    {
        proof {
            use_type_invariant(self);
            lemma_pairs_count(self.pairs());
        }
        self.entries.len()
    }

    /// The `i`-th entry.
    pub fn entry(&self, i: usize) -> (r: (&String, &String))
        requires
            i < self.pairs().len(),
        ensures
            (r.0@, r.1@) == self.pairs()[i as int],
    {
        let e: &(String, String) = &self.entries[i];
        (&e.0, &e.1)
    }

    fn position(&self, key: &str) -> (r: Option<usize>)
        ensures
            match r {
                Some(i) => i < self.entries@.len() && self.entries@[i as int].0@ == key@,
                None => forall|i: int|
                    0 <= i < self.entries@.len() ==> (#[trigger] self.entries@[i]).0@ != key@,
            },
    {
        let mut i: usize = 0;
        while i < self.entries.len()
            invariant
                i <= self.entries@.len(),
                forall|j: int| 0 <= j < i ==> (#[trigger] self.entries@[j]).0@ != key@,
            decreases self.entries@.len() - i,
        {
            if same_text(self.entries[i].0.as_str(), key) {
                return Some(i);
            }
            i = i + 1;
        }
        None
    }

    /// The value of a key.
    pub fn get(&self, key: &str) -> (r: Option<&String>)
        ensures
            match r {
                Some(v) => self@.dom().contains(key@) && self@[key@] == v@,
                None => !self@.dom().contains(key@),
            },
    {
        proof {
            use_type_invariant(self);
            lemma_pairs_domain(self.pairs(), key@);
        }
        match self.position(key) {
            Some(i) => {
                proof {
                    assert(self.pairs()[i as int].0 == key@);
                    lemma_pairs_lookup(self.pairs(), i as int);
                }
                Some(&self.entries[i].1)
            },
            None => {
                proof {
                    assert forall|i: int| 0 <= i < self.pairs().len() implies (
                    #[trigger] self.pairs()[i]).0 != key@ by {
                        assert(self.entries@[i].0@ != key@);
                    }
                }
                None
            },
        }
    }

    /// The table with `value` for `key`.
    pub fn insert(self, key: String, value: String) -> (r: Table)
        ensures
            r@ == self@.insert(key@, value@),
    {
        let ghost before = self.pairs();
        proof {
            use_type_invariant(&self);
        }
        let found: Option<usize> = self.position(key.as_str());
        let Table { mut entries } = self;
        let ghost k = key@;
        let ghost v = value@;
        match found {
            Some(i) => {
                let ghost kept = before.remove(i as int);
                entries.remove(i);
                entries.push((key, value));
                proof {
                    assert(pair_views(entries@) =~= kept.push((k, v)));
                    lemma_remove_and_insert(before, i as int, k, v);
                    assert(kept.push((k, v)).drop_last() =~= kept);
                    assert forall|a: int, b: int|
                        0 <= a < b < entries@.len() implies (#[trigger] pair_views(entries@)[a]).0
                        != (#[trigger] pair_views(entries@)[b]).0 by {
                        let x = if a < i {
                            a
                        } else {
                            a + 1
                        };
                        assert(pair_views(entries@)[a] == before[x]);
                        if b < kept.len() {
                            let y = if b < i {
                                b
                            } else {
                                b + 1
                            };
                            assert(pair_views(entries@)[b] == before[y]);
                            assert(before[x].0 != before[y].0);
                        } else {
                            assert(before[i as int].0 == k);
                            if x < i {
                                assert(before[x].0 != before[i as int].0);
                            } else {
                                assert(before[i as int].0 != before[x].0);
                            }
                        }
                    }
                }
            },
            None => {
                entries.push((key, value));
                proof {
                    assert(pair_views(entries@) =~= before.push((k, v)));
                    assert(before.push((k, v)).drop_last() =~= before);
                    assert forall|a: int, b: int|
                        0 <= a < b < entries@.len() implies (#[trigger] pair_views(entries@)[a]).0
                        != (#[trigger] pair_views(entries@)[b]).0 by {
                        assert(pair_views(entries@)[a] == before[a]);
                        if b < before.len() {
                            assert(before[a].0 != before[b].0);
                        }
                    }
                }
            },
        }
        Table { entries }
    }
}

/// The pair that a `key = value` line holds: what stands before and after its
/// first equals sign, without white space around.
pub open spec fn pair_of_line(line: Seq<char>) -> Option<(Seq<char>, Seq<char>)> {
    match split_once(line, '=') {
        Some((k, v)) => Some((trim(k), trim(v))),
        None => None,
    }
}

/// The pairs of a text, line by line; a line without an equals sign holds none.
pub open spec fn pairs_of_text(text: Seq<char>) -> Seq<(Seq<char>, Seq<char>)> {
    lines(text).filter_map(|line: Seq<char>| pair_of_line(line))
}

/// The line that holds a pair.
pub open spec fn pair_line(k: Seq<char>, v: Seq<char>) -> Seq<char> {
    k + " = "@ + v
}

pub proof fn lemma_map_push(s: Seq<(Seq<char>, Seq<char>)>, k: Seq<char>, v: Seq<char>)
    ensures
        pairs_map(s + seq![(k, v)]) == pairs_map(s).insert(k, v),
{
    assert((s + seq![(k, v)]).drop_last() =~= s);
}

/// Whether a pair comes back from its line: no equals sign in the key, no line
/// break in either, and no white space at their ends.
pub open spec fn storable(k: Seq<char>, v: Seq<char>) -> bool {
    &&& no_outer_space(k)
    &&& no_outer_space(v)
    &&& forall|i: int| 0 <= i < k.len() ==> #[trigger] k[i] != '=' && k[i] != '\n'
    &&& forall|i: int| 0 <= i < v.len() ==> #[trigger] v[i] != '\n'
}

/// A pair reads back from its line.
pub proof fn law_pair_line_reads_back(k: Seq<char>, v: Seq<char>)
    requires
        storable(k, v),
    ensures
        pair_of_line(pair_line(k, v)) == Some((k, v)),
        line_safe(pair_line(k, v)),
{
    reveal_strlit(" = ");
    let l = pair_line(k, v);
    let e = k.len() as int + 1;
    assert(l[e] == '=');
    assert forall|j: int| 0 <= j < e implies l[j] != '=' by {
        if j < k.len() {
            assert(l[j] == k[j]);
        }
    }
    lemma_index_of_is(l, '=', e);
    let sp = seq![' '];
    assert(l.take(e) =~= Seq::<char>::empty() + k + sp);
    assert(l.skip(e + 1) =~= sp + v + Seq::<char>::empty());
    law_trim_padded(Seq::empty(), k, sp);
    law_trim_padded(sp, v, Seq::empty());
    assert forall|i: int| 0 <= i < l.len() implies #[trigger] l[i] != '\n' by {
        if i < k.len() {
            assert(l[i] == k[i]);
        } else if i >= k.len() + 3 {
            assert(l[i] == v[i - k.len() - 3]);
        }
    }
    if v.len() > 0 {
        assert(l.last() == v.last());
    } else {
        assert(l.last() == ' ');
    }
}

/// Pairs read back from their lines.
pub proof fn lemma_pairs_of_lines(ps: Seq<(Seq<char>, Seq<char>)>)
    requires
        forall|i: int| 0 <= i < ps.len() ==> storable((#[trigger] ps[i]).0, ps[i].1),
    ensures
        ({
            let ls = ps.map_values(|p: (Seq<char>, Seq<char>)| pair_line(p.0, p.1));
            ls.filter_map(|line: Seq<char>| pair_of_line(line)) == ps
        }),
    decreases ps.len(),
{
    let f = |line: Seq<char>| pair_of_line(line);
    let g = |p: (Seq<char>, Seq<char>)| pair_line(p.0, p.1);
    let ls = ps.map_values(g);
    if ps.len() > 0 {
        let t = ps.drop_last();
        assert forall|i: int| 0 <= i < t.len() implies storable((#[trigger] t[i]).0, t[i].1) by {
            assert(t[i] == ps[i]);
        }
        lemma_pairs_of_lines(t);
        assert(ls.drop_last() =~= t.map_values(g));
        assert(storable(ps[ps.len() - 1].0, ps[ps.len() - 1].1));
        law_pair_line_reads_back(ps.last().0, ps.last().1);
        assert(ls.filter_map(f) =~= t.push(ps.last()));
        assert(t.push(ps.last()) =~= ps);
    } else {
        assert(ls.filter_map(f) =~= ps);
    }
}

/// The order of pairs with distinct keys does not matter to the table they make.
pub proof fn law_order_does_not_matter(
    p: Seq<(Seq<char>, Seq<char>)>,
    q: Seq<(Seq<char>, Seq<char>)>,
)
    requires
        distinct_keys(p),
        p.to_multiset() == q.to_multiset(),
    ensures
        distinct_keys(q),
        pairs_map(p) == pairs_map(q),
{
    broadcast use vstd::seq_lib::group_to_multiset_ensures;

    assert(p.no_duplicates()) by {
        assert forall|i: int, j: int| 0 <= i < p.len() && 0 <= j < p.len() && i != j implies p[i]
            != p[j] by {
            if i < j {
                assert(p[i].0 != p[j].0);
            } else {
                assert(p[j].0 != p[i].0);
            }
        }
    }
    p.lemma_multiset_has_no_duplicates();
    q.lemma_multiset_has_no_duplicates_conv();
    assert forall|i: int, j: int| 0 <= i < j < q.len() implies (#[trigger] q[i]).0 != (
    #[trigger] q[j]).0 by {
        assert(q[i] != q[j]);
        lemma_shared(q, p, i);
        lemma_shared(q, p, j);
        let a = choose|a: int| 0 <= a < p.len() && p[a] == q[i];
        let b = choose|b: int| 0 <= b < p.len() && p[b] == q[j];
        if a < b {
            assert(p[a].0 != p[b].0);
        } else {
            assert(p[b].0 != p[a].0);
        }
    }
    assert forall|k: Seq<char>| pairs_map(p).dom().contains(k) == #[trigger] pairs_map(
        q,
    ).dom().contains(k) by {
        lemma_pairs_domain(p, k);
        lemma_pairs_domain(q, k);
        if pairs_map(p).dom().contains(k) {
            let i = choose|i: int| 0 <= i < p.len() && (#[trigger] p[i]).0 == k;
            lemma_shared(p, q, i);
            let j = choose|j: int| 0 <= j < q.len() && q[j] == p[i];
            assert(q[j].0 == k);
        }
        if pairs_map(q).dom().contains(k) {
            let i = choose|i: int| 0 <= i < q.len() && (#[trigger] q[i]).0 == k;
            lemma_shared(q, p, i);
            let j = choose|j: int| 0 <= j < p.len() && p[j] == q[i];
            assert(p[j].0 == k);
        }
    }
    assert forall|k: Seq<char>| #[trigger] pairs_map(p).dom().contains(k) implies pairs_map(p)[k]
        == pairs_map(q)[k] by {
        lemma_pairs_domain(p, k);
        let i = choose|i: int| 0 <= i < p.len() && (#[trigger] p[i]).0 == k;
        lemma_shared(p, q, i);
        let j = choose|j: int| 0 <= j < q.len() && q[j] == p[i];
        lemma_pairs_lookup(p, i);
        lemma_pairs_lookup(q, j);
    }
    assert(pairs_map(p) =~= pairs_map(q));
}

proof fn lemma_shared(
    p: Seq<(Seq<char>, Seq<char>)>,
    q: Seq<(Seq<char>, Seq<char>)>,
    i: int,
)
    requires
        p.to_multiset() == q.to_multiset(),
        0 <= i < p.len(),
    ensures
        exists|j: int| 0 <= j < q.len() && q[j] == p[i],
{
    broadcast use vstd::seq_lib::group_to_multiset_ensures;

    assert(p.contains(p[i]));
    assert(p.to_multiset().count(p[i]) > 0);
    assert(q.contains(p[i]));
}

/// Reads `key = value` lines. The last line of a key counts.
pub fn parse_pairs(text: &str) -> (r: Table)
    ensures
        r@ == pairs_map(pairs_of_text(text@)),
{
    let cs: Vec<char> = chars_of(text);
    let ls: Vec<&[char]> = lines_of(cs.as_slice());
    let ghost all = lines(text@);
    let ghost f = |line: Seq<char>| pair_of_line(line);
    let mut table: Table = Table::new();
    let mut i: usize = 0;
    assert(all.take(0).filter_map(f) =~= seq![]);
    while i < ls.len()
        invariant
            i <= ls@.len(),
            views(ls@) == all,
            f == (|line: Seq<char>| pair_of_line(line)),
            table@ == pairs_map(all.take(i as int).filter_map(f)),
        decreases ls@.len() - i,
    {
        let ghost before = all.take(i as int).filter_map(f);
        proof {
            all.lemma_filter_map_take_succ(f, i as int);
        }
        match split_once_at(ls[i], '=') {
            Some((k, v)) => {
                table = table.insert(string_of(trimmed(k)), string_of(trimmed(v)));
                proof {
                    lemma_map_push(before, trim(k@), trim(v@));
                }
            },
            None => {
                assert(before + seq![] =~= before);
            },
        }
        i = i + 1;
    }
    assert(all.take(i as int) =~= all);
    table
}

/// Whether a text has no line break in it and does not end in a carriage return,
/// so that as a line it comes back whole.
pub open spec fn line_safe(s: Seq<char>) -> bool {
    (forall|i: int| 0 <= i < s.len() ==> #[trigger] s[i] != '\n') && (s.len() > 0 ==> s.last()
        != '\r')
}

/// The lines, each with a line break after it.
pub open spec fn terminated(ls: Seq<Seq<char>>) -> Seq<char>
    decreases ls.len(),
{
    if ls.len() == 0 {
        seq![]
    } else {
        terminated(ls.drop_last()) + ls.last() + "\n"@
    }
}

proof fn lemma_lines_push(a: Seq<char>, x: Seq<char>)
    requires
        a.len() > 0 ==> a.last() == '\n',
        line_safe(x),
    ensures
        lines(a + x + "\n"@) == lines(a).push(x),
{
    reveal_strlit("\n");
    let line = x + "\n"@;
    lemma_lines_append(a, line);
    assert(a + line =~= a + x + "\n"@);
    lemma_index_of_is(line, '\n', x.len() as int);
    assert(line.take(x.len() as int) =~= x);
    assert(line.skip(x.len() as int + 1) =~= seq![]);
    assert(lines(line.skip(x.len() as int + 1)) =~= seq![]);
    assert(strip_cr(x) == x);
    assert(lines(line) =~= seq![x]);
    assert(lines(a) + seq![x] =~= lines(a).push(x));
}

/// Lines with a break after each read back as those lines.
pub proof fn law_lines_of_terminated(ls: Seq<Seq<char>>)
    requires
        forall|i: int| 0 <= i < ls.len() ==> line_safe(#[trigger] ls[i]),
    ensures
        lines(terminated(ls)) == ls,
        terminated(ls).len() > 0 ==> terminated(ls).last() == '\n',
    decreases ls.len(),
{
    reveal_strlit("\n");
    if ls.len() == 0 {
        assert(lines(terminated(ls)) =~= ls);
    } else {
        let t = ls.drop_last();
        assert forall|i: int| 0 <= i < t.len() implies line_safe(#[trigger] t[i]) by {
            assert(t[i] == ls[i]);
        }
        law_lines_of_terminated(t);
        assert(line_safe(ls[ls.len() - 1]));
        lemma_lines_push(terminated(t), ls.last());
        assert(t.push(ls.last()) =~= ls);
    }
}

/// Lines joined by breaks, with a break at the end, are those lines with a break
/// after each.
pub proof fn lemma_joined_is_terminated(ls: Seq<Seq<char>>)
    requires
        ls.len() > 0,
    ensures
        join(ls, "\n"@) + "\n"@ == terminated(ls),
    decreases ls.len(),
{
    if ls.len() == 1 {
        assert(terminated(ls.drop_last()) =~= seq![]);
        assert(join(ls, "\n"@) + "\n"@ =~= terminated(ls));
    } else {
        lemma_joined_is_terminated(ls.drop_last());
        assert(join(ls, "\n"@) + "\n"@ =~= terminated(ls));
    }
}

/// Of several pairs with one key the last one counts, and a pair changes what its own
/// key stands for alone.
pub proof fn law_last_pair_counts(
    s: Seq<(Seq<char>, Seq<char>)>,
    k: Seq<char>,
    v: Seq<char>,
    other: Seq<char>,
)
    requires
        other != k,
    ensures
        pairs_map(s.push((k, v))).dom().contains(k),
        pairs_map(s.push((k, v)))[k] == v,
        pairs_map(s.push((k, v))).dom().contains(other) == pairs_map(s).dom().contains(other),
        pairs_map(s).dom().contains(other) ==> pairs_map(s.push((k, v)))[other] == pairs_map(
            s,
        )[other],
        pairs_map(seq![]).dom() =~= Set::<Seq<char>>::empty(),
{
    assert(s.push((k, v)).drop_last() =~= s);
}

/// A pair is read from its line whatever white space stands around its two sides.
pub proof fn law_pairs_are_read_through_white_space(
    k: Seq<char>,
    v: Seq<char>,
    gaps: (Seq<char>, Seq<char>, Seq<char>, Seq<char>),
)
    requires
        no_outer_space(k),
        no_outer_space(v),
        lacks(k, '='),
        blank(gaps.0) && blank(gaps.1) && blank(gaps.2) && blank(gaps.3),
    ensures
        pair_of_line(gaps.0 + k + gaps.1 + seq!['='] + gaps.2 + v + gaps.3) == Some((k, v)),
{
    let l = gaps.0 + k + gaps.1 + seq!['='] + gaps.2 + v + gaps.3;
    let a = gaps.0 + k + gaps.1;
    let b = gaps.2 + v + gaps.3;
    assert(l =~= a + seq!['='] + b);
    let e = a.len() as int;
    assert forall|j: int| 0 <= j < e implies l[j] != '=' by {
        let m = j - gaps.0.len();
        if m < 0 {
            assert(l[j] == gaps.0[j]);
            assert(is_white_space(gaps.0[j]));
        } else if m < k.len() {
            assert(l[j] == k[m]);
        } else {
            assert(l[j] == gaps.1[m - k.len()]);
            assert(is_white_space(gaps.1[m - k.len()]));
        }
    }
    assert(l[e] == '=');
    lemma_index_of_is(l, '=', e);
    assert(l.take(e) =~= a);
    assert(l.skip(e + 1) =~= b);
    law_trim_padded(gaps.0, k, gaps.1);
    law_trim_padded(gaps.2, v, gaps.3);
}

} // verus!
