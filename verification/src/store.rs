//! The files of the workspace: buffers and preferences.

use crate::number::{decimal, nat_text};
use crate::order::{
    law_sort_is_permutation, law_sort_is_ranked, lemma_sort_keeps, lemma_sort_map,
    lemma_text_le_antisymmetric, lemma_text_le_total, lemma_text_le_transitive, ranking,
    stable_sort, stable_sorted, text_le, Keyed, Ranked,
};
use crate::pathname::{join_path, path_join};
use crate::table::{
    distinct_keys, law_lines_of_terminated, law_order_does_not_matter, law_pair_line_reads_back,
    lemma_joined_is_terminated, lemma_pairs_of_lines, line_safe, pair_line, pair_of_line,
    pairs_map, pairs_of_text, parse_pairs, storable, Table,
};
use crate::text::{chars_of, join, joined, lines, string_of, string_views};
use vstd::prelude::*;
use vstd::string::*;

verus! {

/// Where the workspace is, before looking at the disk.
pub enum StoreDir {
    /// A directory that was chosen explicitly.
    Chosen(String),
    /// The directory under the home directory, and the one it had before.
    Home { dir: String, old: String },
}

#[verifier::ext_equal]
pub enum StoreDirView {
    Chosen(Seq<char>),
    Home { dir: Seq<char>, old: Seq<char> },
}

impl View for StoreDir {
    type V = StoreDirView;

    open spec fn view(&self) -> StoreDirView {
        match self {
            StoreDir::Chosen(d) => StoreDirView::Chosen(d@),
            StoreDir::Home { dir, old } => StoreDirView::Home { dir: dir@, old: old@ },
        }
    }
}

/// The workspace directory, from the explicit choice and the home directory in the
/// environment.
pub fn store_dir(choice: Option<&str>, home: Option<&str>) -> (r: StoreDir)
    ensures
        r@ == (match choice {
            Some(c) => StoreDirView::Chosen(c@),
            None => {
                let h = match home {
                    Some(x) => x@,
                    None => "."@,
                };
                StoreDirView::Home {
                    dir: path_join(h, ".sonic-pi/store/sonic-oxide"@),
                    old: path_join(h, ".sonic-pi/store/streamlined"@),
                }
            },
        }),
{
    match choice {
        Some(c) => StoreDir::Chosen(String::from_str(c)),
        None => {
            let h: &str = match home {
                Some(x) => x,
                None => ".",
            };
            StoreDir::Home {
                dir: join_path(h, ".sonic-pi/store/sonic-oxide"),
                old: join_path(h, ".sonic-pi/store/streamlined"),
            }
        },
    }
}

/// Whether the old workspace directory is to be renamed: it is there and the new
/// one is not.
pub fn needs_migration(dir_exists: bool, old_exists: bool) -> (r: bool)
    ensures
        r == (!dir_exists && old_exists),
{
    !dir_exists && old_exists
}

/// The directory to use, given whether a rename was tried and failed: the old one
/// stays in use then.
pub fn default_store_dir(found: StoreDir, rename_failed: bool) -> (r: String)
    ensures
        r@ == (match found@ {
            StoreDirView::Chosen(d) => d,
            StoreDirView::Home { dir, old } => if rename_failed {
                old
            } else {
                dir
            },
        }),
{
    match found {
        StoreDir::Chosen(d) => d,
        StoreDir::Home { dir, old } => if rename_failed {
            old
        } else {
            dir
        },
    }
}

/// The file of a buffer.
pub fn buffer_path(dir: &str, index: usize) -> (r: String)
    ensures
        r@ == path_join(dir@, "buffer_"@ + decimal(index as nat) + ".spi"@),
{
    let mut name: String = String::from_str("buffer_");
    name.append(nat_text(index as u64).as_str());
    name.append(".spi");
    join_path(dir, name.as_str())
}

/// The file of the preferences.
pub fn prefs_path(dir: &str) -> (r: String)
    ensures
        r@ == path_join(dir@, "prefs.conf"@),
{
    join_path(dir, "prefs.conf")
}

/// Reads the preferences from the text of their file: nothing from a file that
/// cannot be read.
pub fn load_prefs(text: &str) -> (r: Table)
    ensures
        r@ == pairs_map(pairs_of_text(text@)),
{
    parse_pairs(text)
}

pub open spec fn pref_lines(pairs: Seq<(Seq<char>, Seq<char>)>) -> Seq<Seq<char>> {
    pairs.map_values(|p: (Seq<char>, Seq<char>)| pair_line(p.0, p.1))
}

/// Texts in code point order.
pub open spec fn text_order() -> spec_fn(Seq<char>, Seq<char>) -> bool {
    |a: Seq<char>, b: Seq<char>| text_le(a, b)
}

/// The text of a preferences file: its lines in order.
pub open spec fn prefs_text(pairs: Seq<(Seq<char>, Seq<char>)>) -> Seq<char> {
    join(stable_sort(pref_lines(pairs), text_order()), "\n"@) + "\n"@
}

/// The text of a preferences file.
pub fn save_prefs(prefs: &Table) -> (r: String)
    ensures
        r@ == prefs_text(prefs.pairs()),
{
    let ghost want = pref_lines(prefs.pairs());
    let mut keyed: Vec<Keyed<()>> = Vec::new();
    let n: usize = prefs.len();
    let mut i: usize = 0;
    let ghost f = |k: Keyed<()>| k.key@;
    assert(keyed@.map_values(f) =~= want.take(0));
    while i < n
        invariant
            i <= n,
            n == prefs.pairs().len(),
            want == pref_lines(prefs.pairs()),
            f == (|k: Keyed<()>| k.key@),
            keyed@.map_values(f) == want.take(i as int),
        decreases n - i,
    {
        let ghost before = keyed@;
        let (k, v) = prefs.entry(i);
        let mut line: String = String::from_str(k.as_str());
        line.append(" = ");
        line.append(v.as_str());
        let key: Vec<char> = chars_of(line.as_str());
        let x: Keyed<()> = Keyed { key, item: () };
        keyed.push(x);
        assert(f(x) =~= want[i as int]);
        assert(keyed@.map_values(f) =~= before.map_values(f).push(f(x)));
        assert(want.take(i + 1) =~= want.take(i as int).push(want[i as int]));
        i = i + 1;
    }
    assert(want.take(n as int) =~= want);
    let ghost given = keyed@;
    let sorted: Vec<Keyed<()>> = stable_sorted(keyed);
    let ghost le = |a: Keyed<()>, b: Keyed<()>| a.rank_le(b);
    proof {
        lemma_sort_map(given, f, le, text_order());
    }
    let mut out: Vec<String> = Vec::new();
    let mut j: usize = 0;
    while j < sorted.len()
        invariant
            j <= sorted@.len(),
            out@.len() == j,
            forall|m: int| 0 <= m < j ==> (#[trigger] out@[m])@ == sorted@[m].key@,
        decreases sorted@.len() - j,
    {
        out.push(string_of(sorted[j].key.as_slice()));
        j = j + 1;
    }
    assert(string_views(out@) =~= sorted@.map_values(f));
    let mut text: String = joined(&out, "\n");
    text.append("\n");
    text
}

proof fn lemma_text_order()
    ensures
        ranking(text_order()),
        vstd::relations::total_ordering(text_order()),
{
    let le = text_order();
    assert forall|a: Seq<char>, b: Seq<char>| #[trigger] le(a, b) || le(b, a) by {
        lemma_text_le_total(a, b);
    }
    assert forall|a: Seq<char>, b: Seq<char>, c: Seq<char>| #[trigger]
        le(a, b) && #[trigger] le(b, c) implies le(a, c) by {
        lemma_text_le_transitive(a, b, c);
    }
    assert forall|a: Seq<char>, b: Seq<char>| #[trigger] le(a, b) && #[trigger] le(b, a) implies a
        == b by {
        lemma_text_le_antisymmetric(a, b);
    }
}

proof fn lemma_lines_multiset(
    p: Seq<(Seq<char>, Seq<char>)>,
    q: Seq<(Seq<char>, Seq<char>)>,
)
    requires
        p.to_multiset() == q.to_multiset(),
    ensures
        pref_lines(p).to_multiset() == pref_lines(q).to_multiset(),
    decreases p.len(),
{
    broadcast use vstd::seq_lib::group_to_multiset_ensures;

    if p.len() == 0 {
        p.to_multiset_ensures();
        q.to_multiset_ensures();
        assert(q.len() == 0);
        assert(pref_lines(p) =~= pref_lines(q));
    } else {
        let x = p.last();
        let t = p.drop_last();
        assert(t.push(x) =~= p);
        assert(p.contains(p[p.len() - 1]));
        assert(q.to_multiset().count(x) > 0);
        assert(q.contains(x));
        let i = choose|i: int| 0 <= i < q.len() && q[i] == x;
        let u = q.remove(i);
        assert(t.to_multiset() =~= p.to_multiset().remove(x));
        assert(u.to_multiset() =~= q.to_multiset().remove(x));
        lemma_lines_multiset(t, u);
        let y = pair_line(x.0, x.1);
        assert(pref_lines(t).push(y) =~= pref_lines(p));
        assert(pref_lines(q).remove(i) =~= pref_lines(u));
        assert(pref_lines(q)[i] == y);
        assert(pref_lines(q).contains(pref_lines(q)[i]));
        assert(pref_lines(q).to_multiset() =~= pref_lines(u).to_multiset().insert(y));
    }
}

/// The order in which preferences were set does not matter to their file.
pub proof fn law_prefs_text_is_canonical(
    p: Seq<(Seq<char>, Seq<char>)>,
    q: Seq<(Seq<char>, Seq<char>)>,
)
    requires
        p.to_multiset() == q.to_multiset(),
    ensures
        prefs_text(p) == prefs_text(q),
{
    let le = text_order();
    lemma_text_order();
    lemma_lines_multiset(p, q);
    law_sort_is_ranked(pref_lines(p), le);
    law_sort_is_ranked(pref_lines(q), le);
    law_sort_is_permutation(pref_lines(p), le);
    law_sort_is_permutation(pref_lines(q), le);
    vstd::seq_lib::lemma_sorted_unique(
        stable_sort(pref_lines(p), le),
        stable_sort(pref_lines(q), le),
        le,
    );
}

/// Preferences read back from their file as they were saved.
pub proof fn law_prefs_round_trip(pairs: Seq<(Seq<char>, Seq<char>)>)
    requires
        distinct_keys(pairs),
        forall|i: int| 0 <= i < pairs.len() ==> storable((#[trigger] pairs[i]).0, pairs[i].1),
    ensures
        pairs_map(pairs_of_text(prefs_text(pairs))) == pairs_map(pairs),
{
    let g = |p: (Seq<char>, Seq<char>)| pair_line(p.0, p.1);
    let le2 = |a: (Seq<char>, Seq<char>), b: (Seq<char>, Seq<char>)| text_le(g(a), g(b));
    let sorted = stable_sort(pairs, le2);
    let ls = sorted.map_values(g);
    lemma_sort_map(pairs, g, le2, text_order());
    assert(ls == stable_sort(pref_lines(pairs), text_order()));
    lemma_sort_keeps(pairs, le2);
    assert forall|i: int| 0 <= i < sorted.len() implies storable(
        (#[trigger] sorted[i]).0,
        sorted[i].1,
    ) by {
        assert(pairs.contains(sorted[i]));
        let j = choose|j: int| 0 <= j < pairs.len() && pairs[j] == sorted[i];
        assert(storable(pairs[j].0, pairs[j].1));
    }
    if pairs.len() == 0 {
        reveal_strlit("\n");
        let text = prefs_text(pairs);
        assert(text =~= "\n"@);
        let f = |line: Seq<char>| pair_of_line(line);
        crate::text::lemma_index_of_is(text, '\n', 0);
        assert(text.take(0) =~= seq![]);
        assert(text.skip(1) =~= seq![]);
        assert(lines(text.skip(1)) =~= seq![]);
        assert(lines(text) =~= seq![Seq::<char>::empty()]);
        assert(pair_of_line(Seq::<char>::empty()) is None);
        assert(lines(text).drop_last() =~= seq![]);
        assert(lines(text).drop_last().filter_map(f) =~= seq![]);
        assert(lines(text).filter_map(f) =~= seq![]);
        assert(pairs =~= seq![]);
    } else {
        assert forall|i: int| 0 <= i < ls.len() implies line_safe(#[trigger] ls[i]) by {
            assert(storable(sorted[i].0, sorted[i].1));
            law_pair_line_reads_back(sorted[i].0, sorted[i].1);
        }
        lemma_joined_is_terminated(ls);
        law_lines_of_terminated(ls);
        lemma_pairs_of_lines(sorted);
        assert(pairs_of_text(prefs_text(pairs)) == sorted);
        law_sort_is_permutation(pairs, le2);
        law_order_does_not_matter(pairs, sorted);
    }
}

/// The lines of a preferences file say `key = value`, and stand in the order of their
/// characters.
pub proof fn law_preferences_are_written_in_order(pairs: Seq<(Seq<char>, Seq<char>)>)
    requires
        pairs.len() > 0,
        forall|i: int| 0 <= i < pairs.len() ==> storable((#[trigger] pairs[i]).0, pairs[i].1),
    ensures
        ({
            let ls = lines(prefs_text(pairs));
            &&& ls.len() == pairs.len()
            &&& forall|i: int, j: int|
                0 <= i < j < ls.len() ==> text_le(#[trigger] ls[i], #[trigger] ls[j])
            &&& forall|i: int|
                0 <= i < pairs.len() ==> ls.contains(
                    (#[trigger] pairs[i]).0 + " = "@ + pairs[i].1,
                )
        }),
{
    let g = |p: (Seq<char>, Seq<char>)| pair_line(p.0, p.1);
    let given = pref_lines(pairs);
    let ls = stable_sort(given, text_order());
    lemma_text_order();
    law_sort_is_ranked(given, text_order());
    law_sort_is_permutation(given, text_order());
    lemma_sort_keeps(given, text_order());
    assert forall|i: int| 0 <= i < ls.len() implies line_safe(#[trigger] ls[i]) by {
        assert(given.contains(ls[i]));
        let k = choose|k: int| 0 <= k < given.len() && given[k] == ls[i];
        assert(storable(pairs[k].0, pairs[k].1));
        law_pair_line_reads_back(pairs[k].0, pairs[k].1);
    }
    lemma_joined_is_terminated(ls);
    law_lines_of_terminated(ls);
    assert forall|i: int| 0 <= i < pairs.len() implies ls.contains(
        (#[trigger] pairs[i]).0 + " = "@ + pairs[i].1,
    ) by {
        broadcast use vstd::seq_lib::group_to_multiset_ensures;

        assert(given[i] == pair_line(pairs[i].0, pairs[i].1));
        assert(given.contains(given[i]));
        assert(ls.to_multiset().count(given[i]) > 0);
    }
    assert forall|i: int, j: int| 0 <= i < j < ls.len() implies text_le(
        #[trigger] ls[i],
        #[trigger] ls[j],
    ) by {
        assert(text_order()(ls[i], ls[j]));
    }
}

} // verus!
