//! What holds of the vocabulary as a whole, and of what is found in it.

use super::cheatsheet::{
    cheat_flush, cheat_line, cheat_lines, cheat_start, cheatsheet, CheatState,
};
use super::index::{
    all_lang_docs, at_most, dedup, gathered, optional_chords, optional_scales, VocabSources,
};
use super::lang::{lang_docs, lang_lines, lang_start, LangState};
use super::matching::{
    best_hits, completions, function_matches, hit_entries, hit_le, hits, kind_entries, lookup,
    nearest_with_options, offered_options, option_matches, symbol_matches, symbol_words, HitView,
};
use super::names::{
    all_notes, chord_names, chord_of_line, label_le, sample_of_file, samples, scale_names,
    scale_table, sort_by_label,
};
use super::{EntryView, OptView, VocabKind};
use crate::order::{
    law_sort_is_permutation, law_sort_is_ranked, lemma_insert_agrees, lemma_sort_keeps,
    lemma_text_le_antisymmetric, lemma_text_le_total, lemma_text_le_transitive, ranked, ranking,
    stable_sort, text_le,
};
use crate::text::{find, lemma_lines_append, lines, string_views, strip_prefix, trim};
use crate::tutorial::{file_views, FileView};
use crate::utf8::byte_len;
use vstd::prelude::*;

verus! {

/// Whether two entries have one label and one kind.
pub open spec fn alike(a: EntryView, b: EntryView) -> bool {
    a.label == b.label && a.kind == b.kind
}

proof fn lemma_labels_rank()
    ensures
        ranking(label_le()),
{
    let le = label_le();
    assert forall|a: EntryView, b: EntryView| #[trigger] le(a, b) || le(b, a) by {
        lemma_text_le_total(a.label, b.label);
    }
    assert forall|a: EntryView, b: EntryView, c: EntryView| #[trigger]
        le(a, b) && #[trigger] le(b, c) implies le(a, c) by {
        lemma_text_le_transitive(a.label, b.label, c.label);
    }
}

/// Whether `s` holds an entry that is like `e`.
pub open spec fn has_alike(s: Seq<EntryView>, e: EntryView) -> bool {
    exists|k: int| 0 <= k < s.len() && alike(e, #[trigger] s[k])
}

/// Whether no two neighbours in `s` are alike.
spec fn neighbours_differ(s: Seq<EntryView>) -> bool {
    forall|i: int, j: int|
        0 <= i && j == i + 1 && j < s.len() ==> !alike(#[trigger] s[i], #[trigger] s[j])
}

proof fn lemma_dedup_neighbours(s: Seq<EntryView>)
    ensures
        neighbours_differ(dedup(s)),
    decreases s.len(),
{
    if s.len() > 0 {
        lemma_dedup_neighbours(s.drop_last());
    }
}

proof fn lemma_dedup_member(s: Seq<EntryView>, i: int)
    requires
        0 <= i < dedup(s).len(),
    ensures
        s.contains(dedup(s)[i]),
    decreases s.len(),
{
    let t = s.drop_last();
    if i < dedup(t).len() {
        lemma_dedup_member(t, i);
        let k = choose|k: int| 0 <= k < t.len() && t[k] == dedup(t)[i];
        assert(s[k] == dedup(s)[i]);
    } else {
        assert(s[s.len() - 1] == dedup(s)[i]);
    }
}

proof fn lemma_dedup_keeps(s: Seq<EntryView>, i: int)
    requires
        0 <= i < s.len(),
    ensures
        has_alike(dedup(s), s[i]),
    decreases s.len(),
{
    let t = s.drop_last();
    let d = dedup(s);
    if i < t.len() {
        lemma_dedup_keeps(t, i);
        let k = choose|k: int| 0 <= k < dedup(t).len() && alike(t[i], #[trigger] dedup(t)[k]);
        assert(alike(s[i], d[k]));
    } else {
        assert(alike(s[i], d[d.len() - 1]));
    }
}

proof fn lemma_dedup_ranked(s: Seq<EntryView>, le: spec_fn(EntryView, EntryView) -> bool)
    requires
        ranked(s, le),
    ensures
        ranked(dedup(s), le),
    decreases s.len(),
{
    if s.len() > 0 {
        let t = s.drop_last();
        let (d, e) = (dedup(s), dedup(t));
        assert(ranked(t, le)) by {
            assert forall|i: int, j: int| 0 <= i < j < t.len() implies le(
                #[trigger] t[i],
                #[trigger] t[j],
            ) by {
                assert(le(s[i], s[j]));
            }
        }
        lemma_dedup_ranked(t, le);
        assert forall|i: int, j: int| 0 <= i < j < d.len() implies le(
            #[trigger] d[i],
            #[trigger] d[j],
        ) by {
            if j < e.len() {
                assert(le(e[i], e[j]));
            } else {
                lemma_dedup_member(t, i);
                let k = choose|k: int| 0 <= k < t.len() && t[k] == e[i];
                assert(le(s[k], s[s.len() - 1]));
            }
        }
    }
}

/// The place of a kind in the order in which the sources are read.
pub open spec fn kind_rank(k: VocabKind) -> int {
    match k {
        VocabKind::Synth => 0,
        VocabKind::Fx => 1,
        VocabKind::Sample => 2,
        VocabKind::Func => 3,
        VocabKind::Note => 4,
        VocabKind::Scale => 5,
        VocabKind::Chord => 6,
    }
}

/// Whether each kind stands in one run, in the order in which the sources are read.
pub open spec fn kinds_in_order(s: Seq<EntryView>) -> bool {
    forall|i: int, j: int|
        0 <= i < j < s.len() ==> kind_rank((#[trigger] s[i]).kind) <= kind_rank(
            (#[trigger] s[j]).kind,
        )
}

/// By label, and by kind where the labels are the same.
pub open spec fn label_kind_le() -> spec_fn(EntryView, EntryView) -> bool {
    |a: EntryView, b: EntryView|
        text_le(a.label, b.label) && (a.label == b.label ==> kind_rank(a.kind) <= kind_rank(b.kind))
}

proof fn lemma_labels_and_kinds_rank()
    ensures
        ranking(label_kind_le()),
{
    let le = label_kind_le();
    assert forall|a: EntryView, b: EntryView| #[trigger] le(a, b) || le(b, a) by {
        lemma_text_le_total(a.label, b.label);
        if a.label == b.label {
            lemma_text_le_total(a.label, a.label);
        }
    }
    assert forall|a: EntryView, b: EntryView, c: EntryView| #[trigger]
        le(a, b) && #[trigger] le(b, c) implies le(a, c) by {
        lemma_text_le_transitive(a.label, b.label, c.label);
        if a.label == c.label {
            lemma_text_le_antisymmetric(a.label, b.label);
        }
    }
}

/// Sorting entries whose kinds are in order by label leaves those of one label in
/// the order of their kinds.
proof fn lemma_sort_orders_kinds(s: Seq<EntryView>)
    requires
        kinds_in_order(s),
    ensures
        stable_sort(s, label_le()) == stable_sort(s, label_kind_le()),
    decreases s.len(),
{
    if s.len() > 0 {
        let t = s.drop_last();
        let x = s.last();
        let r = stable_sort(t, label_le());
        assert(kinds_in_order(t)) by {
            assert forall|i: int, j: int| 0 <= i < j < t.len() implies kind_rank(
                (#[trigger] t[i]).kind,
            ) <= kind_rank((#[trigger] t[j]).kind) by {
                assert(s[i] == t[i] && s[j] == t[j]);
            }
        }
        lemma_sort_orders_kinds(t);
        lemma_sort_keeps(t, label_le());
        assert forall|i: int| 0 <= i < r.len() implies label_le()(#[trigger] r[i], x)
            == label_kind_le()(r[i], x) by {
            assert(t.contains(r[i]));
            let k = choose|k: int| 0 <= k < t.len() && t[k] == r[i];
            assert(kind_rank(s[k].kind) <= kind_rank(s[s.len() - 1].kind));
        }
        lemma_insert_agrees(r, x, label_le(), label_kind_le());
    }
}

/// Whether no two entries of `s` are alike.
pub open spec fn none_alike(s: Seq<EntryView>) -> bool {
    forall|i: int, j: int| 0 <= i < j < s.len() ==> !alike(#[trigger] s[i], #[trigger] s[j])
}

/// In the order of labels and kinds, entries that are alike are neighbours.
proof fn lemma_alike_are_neighbours(s: Seq<EntryView>)
    requires
        ranked(s, label_kind_le()),
        neighbours_differ(s),
    ensures
        none_alike(s),
{
    let le = label_kind_le();
    assert forall|i: int, j: int| 0 <= i < j < s.len() implies !alike(
        #[trigger] s[i],
        #[trigger] s[j],
    ) by {
        let n = i + 1;
        assert(!alike(s[i], s[n]));
        if alike(s[i], s[j]) && n < j {
            assert(le(s[i], s[n]));
            assert(le(s[n], s[j]));
            lemma_text_le_antisymmetric(s[i].label, s[n].label);
            assert(kind_rank(s[i].kind) == kind_rank(s[n].kind));
            assert(s[i].kind == s[n].kind);
        }
    }
}

/// Whether all entries of `s` are of this kind.
pub open spec fn all_of_kind(s: Seq<EntryView>, kind: VocabKind) -> bool {
    forall|i: int| 0 <= i < s.len() ==> (#[trigger] s[i]).kind == kind
}

proof fn lemma_kinds_appended(s: Seq<EntryView>, t: Seq<EntryView>, last: VocabKind, kind: VocabKind)
    requires
        kinds_in_order(s),
        forall|i: int| 0 <= i < s.len() ==> kind_rank((#[trigger] s[i]).kind) <= kind_rank(last),
        all_of_kind(t, kind),
        kind_rank(last) <= kind_rank(kind),
    ensures
        kinds_in_order(s + t),
        forall|i: int|
            0 <= i < (s + t).len() ==> kind_rank((#[trigger] (s + t)[i]).kind) <= kind_rank(kind),
{
    let u = s + t;
    assert forall|i: int| 0 <= i < u.len() implies kind_rank((#[trigger] u[i]).kind) <= kind_rank(
        kind,
    ) by {
        if i < s.len() {
            assert(u[i] == s[i]);
        } else {
            assert(u[i] == t[i - s.len()]);
        }
    }
    assert forall|i: int, j: int| 0 <= i < j < u.len() implies kind_rank((#[trigger] u[i]).kind)
        <= kind_rank((#[trigger] u[j]).kind) by {
        if j < s.len() {
            assert(u[i] == s[i] && u[j] == s[j]);
        } else {
            assert(u[j] == t[j - s.len()]);
        }
    }
}

proof fn lemma_filter_map_of_kind(
    s: Seq<Seq<char>>,
    f: spec_fn(Seq<char>) -> Option<EntryView>,
    kind: VocabKind,
)
    requires
        forall|t: Seq<char>| (#[trigger] f(t)) matches Some(e) ==> e.kind == kind,
    ensures
        all_of_kind(s.filter_map(f), kind),
    decreases s.len(),
{
    if s.len() > 0 {
        lemma_filter_map_of_kind(s.drop_last(), f, kind);
        assert(f(s.last()) matches Some(e) ==> e.kind == kind);
    }
}

proof fn lemma_scale_table_of_kind(ls: Seq<Seq<char>>)
    ensures
        all_of_kind(scale_table(ls), VocabKind::Scale),
    decreases ls.len(),
{
    if ls.len() > 0 {
        lemma_scale_table_of_kind(ls.drop_first());
    }
}

proof fn lemma_lang_docs_of_kind(files: Seq<FileView>)
    ensures
        all_of_kind(all_lang_docs(files), VocabKind::Func),
    decreases files.len(),
{
    if files.len() > 0 {
        lemma_lang_docs_of_kind(files.drop_last());
        match files.last().text {
            Some(t) => law_language_source_gives_functions(t),
            None => {},
        }
    }
}

proof fn lemma_samples_of_kind(files: Seq<Seq<char>>)
    ensures
        all_of_kind(samples(files), VocabKind::Sample),
{
    let f = |name: Seq<char>| sample_of_file(name);
    let s = files.filter_map(f);
    lemma_filter_map_of_kind(files, f, VocabKind::Sample);
    lemma_sort_keeps(s, label_le());
    assert forall|i: int| 0 <= i < samples(files).len() implies (#[trigger] samples(files)[i]).kind
        == VocabKind::Sample by {
        assert(s.contains(samples(files)[i]));
    }
}

proof fn lemma_chords_of_kind(rb: Seq<char>)
    ensures
        all_of_kind(chord_names(rb), VocabKind::Chord),
{
    let f = |line: Seq<char>| chord_of_line(line);
    lemma_filter_map_of_kind(lines(rb), f, VocabKind::Chord);
}

proof fn lemma_scales_of_kind(rb: Seq<char>)
    ensures
        all_of_kind(scale_names(rb), VocabKind::Scale),
{
    match find(rb, "SCALE = lambda"@) {
        Some(a) => match find(rb.skip(a), "\n      {"@) {
            Some(b) => {
                lemma_scale_table_of_kind(lines(rb.skip(a).skip(b)).drop_first());
            },
            None => {},
        },
        None => {},
    }
}

/// The sources are read kind by kind.
proof fn lemma_gathered_kinds(src: VocabSources)
    ensures
        kinds_in_order(gathered(src)),
{
    let a = cheatsheet(src.synths@, VocabKind::Synth);
    let b = cheatsheet(src.fx@, VocabKind::Fx);
    let c = samples(string_views(src.sample_files@));
    let d = all_lang_docs(file_views(src.lang@));
    let f = optional_scales(src.scales);
    let g = optional_chords(src.chords);
    law_cheatsheet_gives_symbols_of_its_kind(src.synths@, VocabKind::Synth);
    assert(all_of_kind(a, VocabKind::Synth));
    law_cheatsheet_gives_symbols_of_its_kind(src.fx@, VocabKind::Fx);
    assert(all_of_kind(b, VocabKind::Fx));
    lemma_samples_of_kind(string_views(src.sample_files@));
    lemma_lang_docs_of_kind(file_views(src.lang@));
    match src.scales {
        Some(t) => lemma_scales_of_kind(t@),
        None => {},
    }
    match src.chords {
        Some(t) => lemma_chords_of_kind(t@),
        None => {},
    }
    lemma_kinds_appended(a, b, VocabKind::Synth, VocabKind::Fx);
    lemma_kinds_appended(a + b, c, VocabKind::Fx, VocabKind::Sample);
    lemma_kinds_appended(a + b + c, d, VocabKind::Sample, VocabKind::Func);
    lemma_kinds_appended(a + b + c + d, all_notes(), VocabKind::Func, VocabKind::Note);
    lemma_kinds_appended(a + b + c + d + all_notes(), f, VocabKind::Note, VocabKind::Scale);
    lemma_kinds_appended(a + b + c + d + all_notes() + f, g, VocabKind::Scale, VocabKind::Chord);
}

proof fn lemma_sort_has<A>(s: Seq<A>, le: spec_fn(A, A) -> bool, i: int)
    requires
        0 <= i < s.len(),
    ensures
        stable_sort(s, le).contains(s[i]),
{
    broadcast use vstd::seq_lib::group_to_multiset_ensures;

    law_sort_is_permutation(s, le);
    assert(s.contains(s[i]));
    assert(s.to_multiset().count(s[i]) > 0);
    assert(stable_sort(s, le).to_multiset().count(s[i]) > 0);
}

/// A loaded vocabulary is in label order, has no two entries with one label and
/// kind, holds only what the sources document, and leaves out nothing but
/// repetitions.
pub proof fn law_vocabulary_is_sorted_and_whole(src: VocabSources)
    ensures
        ({
            let all = dedup(sort_by_label(gathered(src)));
            &&& ranked(all, label_le())
            &&& none_alike(all)
            &&& forall|i: int| 0 <= i < all.len() ==> gathered(src).contains(#[trigger] all[i])
            &&& forall|i: int|
                0 <= i < gathered(src).len() ==> has_alike(all, #[trigger] gathered(src)[i])
        }),
{
    let g = gathered(src);
    let s = sort_by_label(g);
    let all = dedup(s);
    lemma_labels_rank();
    law_sort_is_ranked(g, label_le());
    lemma_dedup_ranked(s, label_le());
    lemma_dedup_neighbours(s);
    lemma_gathered_kinds(src);
    lemma_sort_orders_kinds(g);
    lemma_labels_and_kinds_rank();
    law_sort_is_ranked(g, label_kind_le());
    lemma_dedup_ranked(s, label_kind_le());
    lemma_alike_are_neighbours(all);
    lemma_sort_keeps(g, label_le());
    assert forall|i: int| 0 <= i < all.len() implies g.contains(#[trigger] all[i]) by {
        lemma_dedup_member(s, i);
        let k = choose|k: int| 0 <= k < s.len() && s[k] == all[i];
        assert(g.contains(s[k]));
    }
    assert forall|i: int| 0 <= i < g.len() implies has_alike(all, #[trigger] g[i]) by {
        lemma_sort_has(g, label_le(), i);
        let j = choose|j: int| 0 <= j < s.len() && s[j] == g[i];
        lemma_dedup_keeps(s, j);
    }
}

/// Whether an entry is offered for a prefix, the menu's length aside.
pub open spec fn completes(e: EntryView, prefix: Seq<char>) -> bool {
    byte_len(prefix) >= 2 && match strip_prefix(prefix, ":"@) {
        Some(body) => symbol_matches(e, body),
        None => function_matches(e, prefix) || symbol_matches(e, prefix),
    }
}

/// Completion offers entries that match and no more than it was asked for, the
/// functions before the symbols and, after a colon, no function at all; and a menu
/// that is not full leaves out no entry that matches.
pub proof fn law_completion_offers_what_matches(
    entries: Seq<EntryView>,
    prefix: Seq<char>,
    limit: nat,
)
    ensures
        ({
            let r = completions(entries, prefix, limit);
            &&& r.len() <= limit
            &&& forall|i: int|
                0 <= i < r.len() ==> completes(#[trigger] r[i], prefix) && entries.contains(r[i])
            &&& forall|i: int, j: int|
                0 <= i < j < r.len() && (#[trigger] r[j]).kind == VocabKind::Func ==> (
                #[trigger] r[i]).kind == VocabKind::Func
            &&& strip_prefix(prefix, ":"@) is Some ==> forall|i: int|
                0 <= i < r.len() ==> (#[trigger] r[i]).kind != VocabKind::Func
            &&& r.len() < limit ==> forall|i: int|
                0 <= i < entries.len() && completes(#[trigger] entries[i], prefix) ==> r.contains(
                    entries[i],
                )
        }),
{
    broadcast use Seq::lemma_filter_pred, Seq::lemma_filter_contains;

    let r = completions(entries, prefix, limit);
    if byte_len(prefix) >= 2 {
        match strip_prefix(prefix, ":"@) {
            Some(body) => {
                let p = |e: EntryView| symbol_matches(e, body);
                let all = entries.filter(p);
                lemma_filtered_are_members(entries, p);
                assert forall|i: int| 0 <= i < r.len() implies completes(#[trigger] r[i], prefix)
                    && entries.contains(r[i]) by {
                    assert(r[i] == all[i]);
                    assert(p(all[i]));
                }
                if r.len() < limit {
                    assert forall|i: int|
                        0 <= i < entries.len() && completes(
                            #[trigger] entries[i],
                            prefix,
                        ) implies r.contains(entries[i]) by {
                        assert(p(entries[i]));
                    }
                }
            },
            None => {
                let f = |e: EntryView| function_matches(e, prefix);
                let g = |e: EntryView| symbol_matches(e, prefix);
                let a = entries.filter(f);
                let b = entries.filter(g);
                lemma_filtered_are_members(entries, f);
                lemma_filtered_are_members(entries, g);
                assert forall|i: int| 0 <= i < r.len() implies completes(#[trigger] r[i], prefix)
                    && entries.contains(r[i]) && (r[i].kind == VocabKind::Func <==> i
                    < a.len()) by {
                    if i < a.len() {
                        assert(r[i] == a[i]);
                        assert(f(a[i]));
                    } else {
                        assert(r[i] == b[i - a.len()]);
                        assert(g(b[i - a.len()]));
                    }
                }
                if r.len() < limit {
                    assert(r == a + b);
                    assert forall|i: int|
                        0 <= i < entries.len() && completes(
                            #[trigger] entries[i],
                            prefix,
                        ) implies r.contains(entries[i]) by {
                        if f(entries[i]) {
                            assert(a.contains(entries[i]));
                            let k = choose|k: int| 0 <= k < a.len() && a[k] == entries[i];
                            assert(r[k] == entries[i]);
                        } else {
                            assert(g(entries[i]));
                            assert(b.contains(entries[i]));
                            let k = choose|k: int| 0 <= k < b.len() && b[k] == entries[i];
                            assert(r[a.len() + k] == entries[i]);
                        }
                    }
                }
            },
        }
    }
}

proof fn lemma_filtered_are_members<A>(s: Seq<A>, p: spec_fn(A) -> bool)
    ensures
        forall|i: int| 0 <= i < s.filter(p).len() ==> s.contains(#[trigger] s.filter(p)[i]),
    decreases s.len(),
{
    reveal(Seq::filter);
    if s.len() > 0 {
        let t = s.drop_last();
        lemma_filtered_are_members(t, p);
        assert forall|i: int| 0 <= i < s.filter(p).len() implies s.contains(
            #[trigger] s.filter(p)[i],
        ) by {
            if i < t.filter(p).len() {
                assert(t.contains(t.filter(p)[i]));
                let k = choose|k: int| 0 <= k < t.len() && t[k] == t.filter(p)[i];
                assert(s[k] == s.filter(p)[i]);
            } else {
                assert(s[s.len() - 1] == s.filter(p)[i]);
            }
        }
    }
}

/// The browser of a kind shows the entries of that kind, all of them, in label
/// order.
pub proof fn law_kind_is_listed_in_order(entries: Seq<EntryView>, kind: VocabKind)
    ensures
        ({
            let r = kind_entries(entries, kind);
            &&& ranked(r, label_le())
            &&& r.to_multiset() =~= entries.filter(|e: EntryView| e.kind == kind).to_multiset()
            &&& forall|i: int|
                0 <= i < r.len() ==> (#[trigger] r[i]).kind == kind && entries.contains(r[i])
        }),
{
    let p = |e: EntryView| e.kind == kind;
    let s = entries.filter(p);
    let r = kind_entries(entries, kind);
    lemma_labels_rank();
    law_sort_is_ranked(s, label_le());
    law_sort_is_permutation(s, label_le());
    lemma_sort_keeps(s, label_le());
    lemma_filtered_are_members(entries, p);
    assert forall|i: int| 0 <= i < r.len() implies (#[trigger] r[i]).kind == kind
        && entries.contains(r[i]) by {
        assert(s.contains(r[i]));
        let k = choose|k: int| 0 <= k < s.len() && s[k] == r[i];
        entries.lemma_filter_pred(p, k);
        assert(entries.contains(s[k]));
    }
}

/// Whether a hit is what a search for `q` finds in entry `i`.
pub open spec fn is_hit(
    h: HitView,
    entries: Seq<EntryView>,
    lowered: Seq<Seq<char>>,
    q: Seq<char>,
    i: int,
) -> bool {
    &&& 0 <= i < entries.len()
    &&& h.entry == entries[i]
    &&& find(lowered[i], q) matches Some(at) && h.pos == byte_len(lowered[i].take(at))
    &&& h.len == byte_len(entries[i].label)
}

/// Whether a hit is what a search for `q` finds in some entry.
pub open spec fn is_some_hit(
    h: HitView,
    entries: Seq<EntryView>,
    lowered: Seq<Seq<char>>,
    q: Seq<char>,
) -> bool {
    exists|i: int| is_hit(h, entries, lowered, q, i)
}

proof fn lemma_hit_is_found(entries: Seq<EntryView>, lowered: Seq<Seq<char>>, q: Seq<char>, k: int)
    requires
        lowered.len() == entries.len(),
        0 <= k < hits(entries, lowered, q).len(),
    ensures
        is_some_hit(hits(entries, lowered, q)[k], entries, lowered, q),
    decreases entries.len(),
{
    let (es, ls) = (entries.drop_last(), lowered.drop_last());
    let all = hits(entries, lowered, q);
    let before = hits(es, ls, q);
    if k < before.len() {
        lemma_hit_is_found(es, ls, q, k);
        let i = choose|i: int| is_hit(before[k], es, ls, q, i);
        assert(is_hit(all[k], entries, lowered, q, i));
    } else {
        assert(is_hit(all[k], entries, lowered, q, entries.len() - 1));
    }
}

proof fn lemma_found_is_hit(entries: Seq<EntryView>, lowered: Seq<Seq<char>>, q: Seq<char>, i: int)
    requires
        lowered.len() == entries.len(),
        0 <= i < entries.len(),
        find(lowered[i], q) is Some,
    ensures
        hit_entries(hits(entries, lowered, q)).contains(entries[i]),
    decreases entries.len(),
{
    let (es, ls) = (entries.drop_last(), lowered.drop_last());
    let all = hits(entries, lowered, q);
    let before = hits(es, ls, q);
    if i < entries.len() - 1 {
        lemma_found_is_hit(es, ls, q, i);
        let k = choose|k: int|
            0 <= k < hit_entries(before).len() && hit_entries(before)[k] == entries[i];
        assert(all[k] == before[k]);
        assert(hit_entries(all)[k] == entries[i]);
    } else {
        assert(hit_entries(all)[all.len() - 1] == entries[i]);
    }
}

proof fn lemma_hits_rank()
    ensures
        ranking(hit_le()),
{
}

/// A search finds entries whose label contains the query and no more than it was
/// asked for; among those it found, an earlier match comes first, then a shorter
/// label; and a result that is not full leaves out no entry that contains the query.
pub proof fn law_search_puts_the_best_first(
    entries: Seq<EntryView>,
    lowered: Seq<Seq<char>>,
    q: Seq<char>,
    limit: nat,
)
    requires
        lowered.len() == entries.len(),
        q.len() > 0,
    ensures
        ({
            let r = best_hits(entries, lowered, q, limit);
            let order = stable_sort(hits(entries, lowered, q), hit_le());
            &&& r == at_most(hit_entries(order), limit)
            &&& r.len() <= limit
            &&& ranked(order, hit_le())
            &&& forall|k: int|
                0 <= k < order.len() ==> is_some_hit(#[trigger] order[k], entries, lowered, q)
            &&& r.len() < limit ==> forall|i: int|
                0 <= i < entries.len() && find(#[trigger] lowered[i], q) is Some ==> r.contains(
                    entries[i],
                )
        }),
{
    let found = hits(entries, lowered, q);
    let order = stable_sort(found, hit_le());
    let r = best_hits(entries, lowered, q, limit);
    lemma_hits_rank();
    law_sort_is_ranked(found, hit_le());
    lemma_sort_keeps(found, hit_le());
    assert forall|k: int| 0 <= k < order.len() implies is_some_hit(
        #[trigger] order[k],
        entries,
        lowered,
        q,
    ) by {
        assert(found.contains(order[k]));
        let j = choose|j: int| 0 <= j < found.len() && found[j] == order[k];
        lemma_hit_is_found(entries, lowered, q, j);
    }
    if r.len() < limit {
        assert forall|i: int|
            0 <= i < entries.len() && find(#[trigger] lowered[i], q) is Some implies r.contains(
            entries[i],
        ) by {
            lemma_found_is_hit(entries, lowered, q, i);
            let k = choose|k: int|
                0 <= k < hit_entries(found).len() && hit_entries(found)[k] == entries[i];
            lemma_sort_has(found, hit_le(), k);
            let j = choose|j: int| 0 <= j < order.len() && order[j] == found[k];
            assert(r[j] == entries[i]);
        }
    }
}

/// Whether an entry has an option of this name and default that matches `prefix`.
pub open spec fn is_option_of(
    o: (Seq<char>, Seq<char>),
    e: EntryView,
    prefix: Seq<char>,
) -> bool {
    exists|k: int|
        0 <= k < e.opt_docs.len() && option_matches(#[trigger] e.opt_docs[k], prefix) && o == (
            e.opt_docs[k].name,
            e.opt_docs[k].default,
        )
}

/// The options that are offered are options of the entry that the nearest known
/// symbol names; they match what was typed, with their defaults, and are no more
/// than were asked for.
pub proof fn law_options_are_those_of_the_nearest_symbol(
    entries: Seq<EntryView>,
    text: Seq<char>,
    prefix: Seq<char>,
    limit: nat,
)
    ensures
        ({
            let r = offered_options(entries, text, prefix, limit);
            let nearest = nearest_with_options(entries, symbol_words(text));
            &&& r.len() <= limit
            &&& r.len() > 0 ==> nearest is Some && entries.contains(nearest->0)
            &&& forall|i: int|
                0 <= i < r.len() ==> is_option_of(#[trigger] r[i], nearest->0, prefix)
        }),
{
    let r = offered_options(entries, text, prefix, limit);
    if r.len() > 0 {
        let words = symbol_words(text);
        lemma_nearest_is_known(entries, words);
        let e = nearest_with_options(entries, words)->0;
        let p = |o: OptView| option_matches(o, prefix);
        let kept = e.opt_docs.filter(p);
        lemma_filtered_are_members(e.opt_docs, p);
        assert forall|i: int| 0 <= i < r.len() implies is_option_of(#[trigger] r[i], e, prefix) by {
            assert(r[i] == (kept[i].name, kept[i].default));
            e.opt_docs.lemma_filter_pred(p, i);
            let k = choose|k: int| 0 <= k < e.opt_docs.len() && e.opt_docs[k] == kept[i];
            assert(option_matches(e.opt_docs[k], prefix));
        }
    }
}

proof fn lemma_lookup_is_known(entries: Seq<EntryView>, label: Seq<char>)
    ensures
        lookup(entries, label) matches Some(e) ==> entries.contains(e) && e.label
            == label,
    decreases entries.len(),
{
    if entries.len() > 0 && entries[0].label != label {
        lemma_lookup_is_known(entries.drop_first(), label);
        if let Some(e) = lookup(entries, label) {
            let k = choose|k: int|
                0 <= k < entries.drop_first().len() && entries.drop_first()[k] == e;
            assert(entries[k + 1] == e);
        }
    }
}

proof fn lemma_nearest_is_known(entries: Seq<EntryView>, words: Seq<Seq<char>>)
    ensures
        nearest_with_options(entries, words) matches Some(e) ==> entries.contains(e),
    decreases words.len(),
{
    if words.len() > 0 {
        lemma_lookup_is_known(entries, words.last());
        lemma_nearest_is_known(entries, words.drop_last());
    }
}

/// Whether an entry is a symbol of this kind.
pub open spec fn symbol_of_kind(e: EntryView, kind: VocabKind) -> bool {
    e.kind == kind && e.label.len() > 0 && e.label[0] == ':'
}

proof fn lemma_cheat_lines(st: CheatState, ls: Seq<Seq<char>>, kind: VocabKind)
    requires
        forall|i: int| 0 <= i < st.entries.len() ==> symbol_of_kind(#[trigger] st.entries[i], kind),
        st.key matches Some(k) ==> k.len() > 0 && k[0] == ':',
    ensures
        ({
            let r = cheat_lines(st, ls, kind);
            &&& forall|i: int|
                0 <= i < r.entries.len() ==> symbol_of_kind(#[trigger] r.entries[i], kind)
            &&& r.key matches Some(k) ==> k.len() > 0 && k[0] == ':'
        }),
    decreases ls.len(),
{
    if ls.len() > 0 {
        lemma_cheat_lines(st, ls.drop_last(), kind);
        let t = trim(ls.last());
        assert(":"@.is_prefix_of(t) ==> t.len() > 0 && t[0] == ':') by {
            reveal_strlit(":");
            if ":"@.is_prefix_of(t) {
                assert(":"@[0] == t.subrange(0, 1)[0]);
            }
        }
    }
}

/// A cheatsheet gives symbols of the kind it is read for, and nothing else.
pub proof fn law_cheatsheet_gives_symbols_of_its_kind(md: Seq<char>, kind: VocabKind)
    ensures
        forall|i: int|
            0 <= i < cheatsheet(md, kind).len() ==> symbol_of_kind(
                #[trigger] cheatsheet(md, kind)[i],
                kind,
            ),
{
    lemma_cheat_lines(cheat_start(), lines(md), kind);
}

/// Reading some lines and then more is reading them all.
proof fn lemma_cheat_lines_append(
    st: CheatState,
    a: Seq<Seq<char>>,
    b: Seq<Seq<char>>,
    kind: VocabKind,
)
    ensures
        cheat_lines(st, a + b, kind) == cheat_lines(cheat_lines(st, a, kind), b, kind),
    decreases b.len(),
{
    if b.len() == 0 {
        assert(a + b =~= a);
    } else {
        assert((a + b).drop_last() =~= a + b.drop_last());
        lemma_cheat_lines_append(st, a, b.drop_last(), kind);
    }
}

/// A state with `done` before its entries.
spec fn after_entries(done: Seq<EntryView>, st: CheatState) -> CheatState {
    CheatState { entries: done + st.entries, ..st }
}

/// What was read before only stands before what is read.
proof fn lemma_cheat_lines_after(
    done: Seq<EntryView>,
    st: CheatState,
    ls: Seq<Seq<char>>,
    kind: VocabKind,
)
    ensures
        cheat_lines(after_entries(done, st), ls, kind) == after_entries(
            done,
            cheat_lines(st, ls, kind),
        ),
    decreases ls.len(),
{
    if ls.len() > 0 {
        lemma_cheat_lines_after(done, st, ls.drop_last(), kind);
        let r = cheat_lines(st, ls.drop_last(), kind);
        lemma_cheat_flush_after(done, r, kind);
        assert(cheat_line(after_entries(done, r), ls.last(), kind) =~= after_entries(
            done,
            cheat_line(r, ls.last(), kind),
        ));
    }
}

proof fn lemma_cheat_flush_after(done: Seq<EntryView>, st: CheatState, kind: VocabKind)
    ensures
        cheat_flush(after_entries(done, st), kind) == after_entries(done, cheat_flush(st, kind)),
{
    assert(cheat_flush(after_entries(done, st), kind).entries =~= after_entries(
        done,
        cheat_flush(st, kind),
    ).entries);
}

/// A cheatsheet put behind another one that ends with a line break gives its
/// entries behind those of the other, as long as it starts with a section.
pub proof fn law_cheatsheets_add_up(a: Seq<char>, b: Seq<char>, kind: VocabKind)
    requires
        a.len() > 0 ==> a.last() == '\n',
        lines(b).len() > 0,
        "## "@.is_prefix_of(trim(lines(b)[0])),
    ensures
        cheatsheet(a + b, kind) == cheatsheet(a, kind) + cheatsheet(b, kind),
{
    let (la, lb) = (lines(a), lines(b));
    let (first, rest) = (seq![lb[0]], lb.drop_first());
    let sa = cheat_lines(cheat_start(), la, kind);
    let done = cheatsheet(a, kind);
    lemma_lines_append(a, b);
    lemma_cheat_lines_append(cheat_start(), la, lb, kind);
    assert(lb =~= first + rest);
    lemma_cheat_lines_append(sa, first, rest, kind);
    lemma_cheat_lines_append(cheat_start(), first, rest, kind);
    reveal_with_fuel(cheat_lines, 2);
    assert(first.drop_last() =~= seq![]);
    let fresh = cheat_lines(cheat_start(), first, kind);
    assert(fresh == cheat_line(cheat_start(), lb[0], kind));
    assert(cheat_lines(sa, first, kind) == cheat_line(sa, lb[0], kind));
    assert(cheat_line(sa, lb[0], kind) =~= after_entries(done, fresh));
    lemma_cheat_lines_after(done, fresh, rest, kind);
    lemma_cheat_flush_after(done, cheat_lines(fresh, rest, kind), kind);
}

proof fn lemma_lang_lines(st: LangState, ls: Seq<Seq<char>>)
    requires
        forall|i: int| 0 <= i < st.entries.len() ==> (#[trigger] st.entries[i]).kind
            == VocabKind::Func,
        st.capturing is Some ==> st.entries.len() > 0,
    ensures
        ({
            let r = lang_lines(st, ls);
            &&& forall|i: int|
                0 <= i < r.entries.len() ==> (#[trigger] r.entries[i]).kind == VocabKind::Func
            &&& r.capturing is Some ==> r.entries.len() > 0
        }),
    decreases ls.len(),
{
    if ls.len() > 0 {
        lemma_lang_lines(st, ls.drop_last());
    }
}

/// A language source gives functions, and nothing else.
pub proof fn law_language_source_gives_functions(rb: Seq<char>)
    ensures
        forall|i: int|
            0 <= i < lang_docs(rb).len() ==> (#[trigger] lang_docs(rb)[i]).kind == VocabKind::Func,
{
    lemma_lang_lines(lang_start(), lines(rb));
}

} // verus!
