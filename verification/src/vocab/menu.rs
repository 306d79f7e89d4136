//! What the completion menu holds, told by the kinds and labels of the entries.

use super::completion::{
    entry_item, offered_items, opens_menu, option_item, text_before, typed_word, ItemKind,
};
use super::index::at_most;
use super::laws::{
    is_hit, is_some_hit, law_kind_is_listed_in_order, law_search_puts_the_best_first,
};
use super::matching::{
    best_hits, boundary_at, completions, drop_trailing_colons, function_matches, hit_le, hits,
    kind_entries, lookup, lowercase, lowered_labels, nearest_with_options, offered_options,
    option_matches, options_after, prefix_start, symbol_matches, symbol_word, word_byte,
    word_start,
};
use super::names::label_le;
use super::{EntryView, OptView, VocabKind};
use crate::order::{law_sort_is_permutation, stable_sort, text_le};
use crate::text::{find, lemma_contains_at, lemma_find, strip_prefix};
use crate::utf8::{byte_len, lemma_byte_len_at_least, lemma_byte_len_push, lemma_char_bytes};
use vstd::prelude::*;
use vstd::utf8::{encode_utf8, is_char_boundary};

verus! {

proof fn lemma_disjoint_filters(
    s: Seq<EntryView>,
    p: spec_fn(EntryView) -> bool,
    q: spec_fn(EntryView) -> bool,
)
    requires
        forall|e: EntryView| !(#[trigger] p(e) && q(e)),
    ensures
        s.filter(p).len() + s.filter(q).len() <= s.len(),
    decreases s.len(),
{
    reveal(Seq::filter);
    if s.len() > 0 {
        lemma_disjoint_filters(s.drop_last(), p, q);
        assert(!(p(s.last()) && q(s.last())));
    }
}

proof fn lemma_filter_len(s: Seq<EntryView>, p: spec_fn(EntryView) -> bool)
    ensures
        s.filter(p).len() <= s.len(),
{
    lemma_disjoint_filters(s, p, |e: EntryView| false);
}

/// After a colon and at least one more character, every symbol whose name goes on as
/// was typed is offered, whatever it is the name of.
pub proof fn law_every_symbol_is_offered(
    entries: Seq<EntryView>,
    i: int,
    first: char,
    body: Seq<char>,
    rest: Seq<char>,
    limit: nat,
)
    requires
        0 <= i < entries.len(),
        entries[i].kind == VocabKind::Synth || entries[i].kind == VocabKind::Fx || entries[i].kind
            == VocabKind::Sample || entries[i].kind == VocabKind::Note || entries[i].kind
            == VocabKind::Scale || entries[i].kind == VocabKind::Chord,
        entries[i].label == seq![first] + body + rest,
        body.len() > 0,
        limit >= entries.len(),
    ensures
        completions(entries, seq![':'] + body, limit).contains(entries[i]),
{
    let prefix = seq![':'] + body;
    let e = entries[i];
    let p = |e: EntryView| symbol_matches(e, body);
    reveal_strlit(":");
    lemma_byte_len_at_least(prefix);
    assert(prefix.subrange(0, 1) =~= ":"@);
    assert(prefix.skip(1) =~= body);
    assert(strip_prefix(prefix, ":"@) == Some(body));
    assert(e.label.skip(1) =~= body + rest);
    assert(body =~= (body + rest).subrange(0, body.len() as int));
    lemma_filter_len(entries, p);
    assert(p(e));
    entries.lemma_filter_contains(p, i);
}

/// For a bare word of two bytes or more, every function whose name starts with it is
/// offered, and so is every symbol whose name, behind its first character, does.
pub proof fn law_every_name_is_offered(
    entries: Seq<EntryView>,
    i: int,
    first: char,
    word: Seq<char>,
    rest: Seq<char>,
    limit: nat,
)
    requires
        0 <= i < entries.len(),
        entries[i].kind == VocabKind::Func ==> entries[i].label == word + rest,
        entries[i].kind != VocabKind::Func ==> entries[i].label == seq![first] + word + rest,
        byte_len(word) >= 2,
        word.len() > 0 && word[0] != ':',
        limit >= entries.len(),
    ensures
        completions(entries, word, limit).contains(entries[i]),
{
    let e = entries[i];
    let f = |e: EntryView| function_matches(e, word);
    let g = |e: EntryView| symbol_matches(e, word);
    lemma_bare_word(word);
    lemma_disjoint_filters(entries, f, g);
    let all = entries.filter(f) + entries.filter(g);
    assert(word =~= (word + rest).subrange(0, word.len() as int));
    if e.kind == VocabKind::Func {
        assert(f(e));
        entries.lemma_filter_contains(f, i);
        let k = choose|k: int| 0 <= k < entries.filter(f).len() && entries.filter(f)[k] == e;
        assert(all[k] == e);
    } else {
        assert(e.label.skip(1) =~= word + rest);
        assert(g(e));
        entries.lemma_filter_contains(g, i);
        let k = choose|k: int| 0 <= k < entries.filter(g).len() && entries.filter(g)[k] == e;
        assert(all[entries.filter(f).len() + k] == e);
    }
}

proof fn lemma_bare_word(word: Seq<char>)
    requires
        word.len() > 0 && word[0] != ':',
    ensures
        strip_prefix(word, ":"@) is None,
{
    reveal_strlit(":");
    if ":"@.is_prefix_of(word) {
        assert(":"@[0] == word.subrange(0, 1)[0]);
    }
}

/// What is offered goes on as was typed: after a colon only symbols are, and for a
/// bare word a function from its first character on, a symbol from its second.
pub proof fn law_offers_go_on_as_typed(
    entries: Seq<EntryView>,
    typed: Seq<char>,
    limit: nat,
    k: int,
)
    requires
        0 <= k < completions(entries, typed, limit).len(),
    ensures
        ({
            let e = completions(entries, typed, limit)[k];
            let body = if typed[0] == ':' {
                typed.skip(1)
            } else {
                typed
            };
            &&& typed.len() > 0
            &&& typed[0] == ':' ==> e.kind != VocabKind::Func
            &&& e.kind == VocabKind::Func ==> e.label.len() >= body.len() && e.label.take(
                body.len() as int,
            ) == body
            &&& e.kind != VocabKind::Func ==> e.label.skip(1).len() >= body.len() && e.label.skip(
                1,
            ).take(body.len() as int) == body
        }),
{
    reveal_strlit(":");
    if typed.len() == 0 {
        assert(typed =~= Seq::<char>::empty());
        assert(encode_utf8(typed).len() == 0);
    }
    let e = completions(entries, typed, limit)[k];
    if typed[0] == ':' {
        let body = typed.skip(1);
        assert(typed.subrange(0, 1) =~= ":"@);
        let p = |e: EntryView| symbol_matches(e, body);
        entries.lemma_filter_pred(p, k);
        assert(p(e));
        assert(e.label.skip(1).take(body.len() as int) =~= body);
    } else {
        lemma_bare_word(typed);
        let f = |e: EntryView| function_matches(e, typed);
        let g = |e: EntryView| symbol_matches(e, typed);
        let n = entries.filter(f).len();
        if k < n {
            entries.lemma_filter_pred(f, k);
            assert(f(e));
            assert(e.label.take(typed.len() as int) =~= typed);
        } else {
            entries.lemma_filter_pred(g, k - n);
            assert(g(e));
            assert(e.label.skip(1).take(typed.len() as int) =~= typed);
        }
    }
}

/// Nothing typed, or one character of one byte, offers nothing; and any one
/// character more is enough.
pub proof fn law_two_bytes_are_asked_for(entries: Seq<EntryView>, c: char, limit: nat)
    ensures
        completions(entries, seq![], limit).len() == 0,
        (c as u32) < 0x80 ==> completions(entries, seq![c], limit).len() == 0,
{
    assert(encode_utf8(Seq::<char>::empty()).len() == 0);
    assert(byte_len(Seq::<char>::empty()) == 0);
    lemma_byte_len_push(Seq::<char>::empty(), c);
    lemma_char_bytes(c);
    assert(Seq::<char>::empty().push(c) =~= seq![c]);
}

/// A shorter menu is the start of a longer one, and a menu is as long as was asked
/// for wherever a longer one is.
pub proof fn law_limit_only_cuts(
    entries: Seq<EntryView>,
    typed: Seq<char>,
    shorter: nat,
    longer: nat,
)
    requires
        shorter <= longer,
    ensures
        ({
            let a = completions(entries, typed, shorter);
            let b = completions(entries, typed, longer);
            &&& a.len() <= shorter
            &&& a == b.take(a.len() as int)
            &&& b.len() > a.len() ==> a.len() == shorter
        }),
{
    let a = completions(entries, typed, shorter);
    let b = completions(entries, typed, longer);
    assert(a =~= b.take(a.len() as int));
}

/// The first entry of a label is the one that the label finds.
pub proof fn law_first_of_a_label_is_found(entries: Seq<EntryView>, i: int)
    requires
        0 <= i < entries.len(),
        forall|j: int| 0 <= j < i ==> (#[trigger] entries[j]).label != entries[i].label,
    ensures
        lookup(entries, entries[i].label) == Some(entries[i]),
    decreases i,
{
    if i > 0 {
        let rest = entries.drop_first();
        assert(entries[0].label != entries[i].label);
        assert forall|j: int| 0 <= j < i - 1 implies (#[trigger] rest[j]).label != rest[i
            - 1].label by {
            assert(entries[j + 1].label != entries[i].label);
        }
        law_first_of_a_label_is_found(rest, i - 1);
    }
}

/// A label that no entry has finds nothing.
pub proof fn law_unknown_label_finds_nothing(entries: Seq<EntryView>, label: Seq<char>)
    requires
        forall|j: int| 0 <= j < entries.len() ==> (#[trigger] entries[j]).label != label,
    ensures
        lookup(entries, label) is None,
    decreases entries.len(),
{
    if entries.len() > 0 {
        let rest = entries.drop_first();
        assert(entries[0].label != label);
        assert forall|j: int| 0 <= j < rest.len() implies (#[trigger] rest[j]).label != label by {
            assert(entries[j + 1].label != label);
        }
        law_unknown_label_finds_nothing(rest, label);
    }
}

proof fn lemma_nearest_skips(
    entries: Seq<EntryView>,
    words: Seq<Seq<char>>,
    after: Seq<Seq<char>>,
)
    requires
        forall|j: int| 0 <= j < after.len() ==> lookup(entries, #[trigger] after[j]) is None,
    ensures
        nearest_with_options(entries, words + after) == nearest_with_options(entries, words),
    decreases after.len(),
{
    if after.len() == 0 {
        assert(words + after =~= words);
    } else {
        assert((words + after).drop_last() =~= words + after.drop_last());
        assert((words + after).last() == after[after.len() - 1]);
        lemma_nearest_skips(entries, words, after.drop_last());
    }
}

proof fn lemma_keeps_prefix(prefix: Seq<char>, name: Seq<char>)
    requires
        prefix.len() > 0,
        prefix.last() != ':',
        prefix.is_prefix_of(name),
    ensures
        prefix.is_prefix_of(drop_trailing_colons(name)),
    decreases name.len(),
{
    if name.last() == ':' {
        if prefix.len() == name.len() {
            assert(prefix[prefix.len() - 1] == name.subrange(0, name.len() as int)[name.len() - 1]);
        } else {
            let t = name.drop_last();
            assert(t.subrange(0, prefix.len() as int) =~= name.subrange(0, prefix.len() as int));
            lemma_keeps_prefix(prefix, t);
        }
    }
}

/// Behind a known symbol, with only unknown words between, the options of its entry
/// whose names start as was typed are offered, each under its own name and default.
pub proof fn law_options_of_the_symbol_are_offered(
    entries: Seq<EntryView>,
    i: int,
    k: int,
    before: Seq<Seq<char>>,
    after: Seq<Seq<char>>,
    prefix: Seq<char>,
    rest: Seq<char>,
    limit: nat,
)
    requires
        0 <= i < entries.len(),
        forall|j: int| 0 <= j < i ==> (#[trigger] entries[j]).label != entries[i].label,
        entries[i].label.len() > 1 && entries[i].label[0] == ':',
        forall|j: int|
            0 <= j < entries[i].label.len() - 1 ==> (#[trigger] entries[i].label[j]) != ':'
                || entries[i].label[j + 1] != ':',
        0 <= k < entries[i].opt_docs.len(),
        entries[i].opt_docs[k].name == prefix + rest,
        prefix.len() > 0 && prefix[0] != ':' && prefix.last() != ':',
        forall|j: int, m: int|
            0 <= j < after.len() && 0 <= m < entries.len() ==> (#[trigger] after[j]) != (
            #[trigger] entries[m]).label,
        limit >= entries[i].opt_docs.len(),
    ensures
        options_after(entries, before.push(entries[i].label) + after, prefix, limit).contains(
            (entries[i].opt_docs[k].name, entries[i].opt_docs[k].default),
        ),
{
    let e = entries[i];
    let words = before.push(e.label) + after;
    assert(symbol_word(e.label)) by {
        reveal_strlit(":");
        reveal_strlit("::");
        assert(e.label.subrange(0, 1) =~= ":"@);
        lemma_find(e.label, "::"@);
        if let Some(j) = find(e.label, "::"@) {
            let at = e.label.subrange(j, j + 2);
            assert(at[0] == ':' && at[1] == ':');
            assert(e.label[j] == ':' && e.label[j + 1] == ':');
        }
    }
    assert forall|j: int| 0 <= j < after.len() implies lookup(
        entries,
        #[trigger] after[j],
    ) is None by {
        law_unknown_label_finds_nothing(entries, after[j]);
    }
    lemma_nearest_skips(entries, before.push(e.label), after);
    law_first_of_a_label_is_found(entries, i);
    assert(before.push(e.label).last() == e.label);
    assert(nearest_with_options(entries, words) == Some(e));
    lemma_bare_word(prefix);
    let p = |o: OptView| option_matches(o, prefix);
    let pair = |o: OptView| (o.name, o.default);
    let o = e.opt_docs[k];
    assert(prefix =~= o.name.subrange(0, prefix.len() as int));
    lemma_keeps_prefix(prefix, o.name);
    assert(p(o));
    e.opt_docs.lemma_filter_contains(p, k);
    let kept = e.opt_docs.filter(p);
    let m = choose|m: int| 0 <= m < kept.len() && kept[m] == o;
    lemma_options_len(e.opt_docs, p);
    let all = kept.map_values(pair);
    assert(at_most(all, limit) == all);
    assert(all[m] == (o.name, o.default));
}

/// What is offered as an option is one of a known entry, under its own name and
/// default, and its name starts as was typed.
pub proof fn law_offered_options_start_as_typed(
    entries: Seq<EntryView>,
    words: Seq<Seq<char>>,
    prefix: Seq<char>,
    limit: nat,
    m: int,
)
    requires
        0 <= m < options_after(entries, words, prefix, limit).len(),
    ensures
        ({
            let o = options_after(entries, words, prefix, limit)[m];
            &&& o.0.len() >= prefix.len() && o.0.take(prefix.len() as int) == prefix
            &&& exists|i: int, k: int|
                0 <= i < entries.len() && 0 <= k < entries[i].opt_docs.len() && (
                #[trigger] entries[i].opt_docs[k]).name == o.0 && entries[i].opt_docs[k].default
                    == o.1
        }),
{
    lemma_nearest_is_an_entry(entries, words);
    let e = nearest_with_options(entries, words)->0;
    let p = |o: OptView| option_matches(o, prefix);
    let kept = e.opt_docs.filter(p);
    let o = options_after(entries, words, prefix, limit)[m];
    assert(o == (kept[m].name, kept[m].default));
    e.opt_docs.lemma_filter_pred(p, m);
    assert(p(kept[m]));
    lemma_colons_dropped(kept[m].name);
    assert(o.0.take(prefix.len() as int) =~= prefix);
    lemma_option_is_one(e.opt_docs, p, m);
    let i = choose|i: int| 0 <= i < entries.len() && entries[i] == e;
    let k = choose|k: int| 0 <= k < e.opt_docs.len() && e.opt_docs[k] == kept[m];
    assert(entries[i].opt_docs[k].name == o.0);
}

proof fn lemma_option_is_one(s: Seq<OptView>, p: spec_fn(OptView) -> bool, m: int)
    requires
        0 <= m < s.filter(p).len(),
    ensures
        exists|k: int| 0 <= k < s.len() && s[k] == s.filter(p)[m],
    decreases s.len(),
{
    reveal(Seq::filter);
    let t = s.drop_last();
    if m < t.filter(p).len() {
        lemma_option_is_one(t, p, m);
        let k = choose|k: int| 0 <= k < t.len() && t[k] == t.filter(p)[m];
        assert(s[k] == s.filter(p)[m]);
    } else {
        assert(s[s.len() - 1] == s.filter(p)[m]);
    }
}

proof fn lemma_colons_dropped(s: Seq<char>)
    ensures
        drop_trailing_colons(s).len() <= s.len(),
        drop_trailing_colons(s) == s.take(drop_trailing_colons(s).len() as int),
    decreases s.len(),
{
    if s.len() > 0 && s.last() == ':' {
        let t = s.drop_last();
        lemma_colons_dropped(t);
        let n = drop_trailing_colons(t).len() as int;
        assert(s.take(n) =~= t.take(n));
    } else {
        assert(s.take(s.len() as int) =~= s);
    }
}

proof fn lemma_lookup_is_an_entry(entries: Seq<EntryView>, label: Seq<char>)
    ensures
        lookup(entries, label) matches Some(e) ==> exists|i: int|
            0 <= i < entries.len() && entries[i] == e,
    decreases entries.len(),
{
    if entries.len() > 0 && entries[0].label != label {
        let rest = entries.drop_first();
        lemma_lookup_is_an_entry(rest, label);
        if let Some(e) = lookup(entries, label) {
            let k = choose|k: int| 0 <= k < rest.len() && rest[k] == e;
            assert(entries[k + 1] == e);
        }
    }
}

proof fn lemma_nearest_is_an_entry(entries: Seq<EntryView>, words: Seq<Seq<char>>)
    ensures
        nearest_with_options(entries, words) matches Some(e) ==> exists|i: int|
            0 <= i < entries.len() && entries[i] == e,
    decreases words.len(),
{
    if words.len() > 0 {
        lemma_lookup_is_an_entry(entries, words.last());
        lemma_nearest_is_an_entry(entries, words.drop_last());
    }
}

proof fn lemma_options_len(s: Seq<OptView>, p: spec_fn(OptView) -> bool)
    ensures
        s.filter(p).len() <= s.len(),
    decreases s.len(),
{
    reveal(Seq::filter);
    if s.len() > 0 {
        lemma_options_len(s.drop_last(), p);
    }
}

proof fn lemma_hits_len(entries: Seq<EntryView>, lowered: Seq<Seq<char>>, q: Seq<char>)
    ensures
        hits(entries, lowered, q).len() <= entries.len(),
    decreases entries.len(),
{
    if entries.len() > 0 && lowered.len() > 0 {
        lemma_hits_len(entries.drop_last(), lowered.drop_last(), q);
    }
}

/// A search that has room enough finds every entry that has the query somewhere in
/// its label, letter case aside.
pub proof fn law_search_finds_every_label(
    entries: Seq<EntryView>,
    i: int,
    q: Seq<char>,
    a: Seq<char>,
    b: Seq<char>,
    limit: nat,
)
    requires
        0 <= i < entries.len(),
        q.len() > 0,
        lowercase(entries[i].label) == a + q + b,
        limit > entries.len(),
    ensures
        best_hits(entries, lowered_labels(entries), q, limit).contains(entries[i]),
{
    let lowered = lowered_labels(entries);
    let l = a + q + b;
    assert(l.subrange(a.len() as int, a.len() as int + q.len()) =~= q);
    lemma_contains_at(l, q, a.len() as int);
    assert(lowered[i] == l);
    assert(find(lowered[i], q) is Some);
    law_search_puts_the_best_first(entries, lowered, q, limit);
    law_sort_is_permutation(hits(entries, lowered, q), hit_le());
    lemma_hits_len(entries, lowered, q);
}

/// Where a query stands in a label, in bytes.
pub open spec fn found_at(e: EntryView, q: Seq<char>) -> int {
    byte_len(lowercase(e.label).take(find(lowercase(e.label), q)->0))
}

/// What a search finds has the query in its label, and of two hits the one in which
/// it stands further to the front comes first; where it stands at one place, the one
/// with the shorter label.
pub proof fn law_search_ranks_by_place_and_length(
    entries: Seq<EntryView>,
    q: Seq<char>,
    limit: nat,
    m: int,
    n: int,
)
    requires
        q.len() > 0,
        0 <= m < n < best_hits(entries, lowered_labels(entries), q, limit).len(),
    ensures
        ({
            let r = best_hits(entries, lowered_labels(entries), q, limit);
            &&& find(lowercase(r[m].label), q) is Some
            &&& found_at(r[m], q) <= found_at(r[n], q)
            &&& found_at(r[m], q) == found_at(r[n], q) ==> byte_len(r[m].label) <= byte_len(
                r[n].label,
            )
        }),
{
    let lowered = lowered_labels(entries);
    law_search_puts_the_best_first(entries, lowered, q, limit);
    let order = stable_sort(hits(entries, lowered, q), hit_le());
    let r = best_hits(entries, lowered, q, limit);
    assert(r[m] == order[m].entry && r[n] == order[n].entry);
    assert(is_some_hit(order[m], entries, lowered, q));
    assert(is_some_hit(order[n], entries, lowered, q));
    let i = choose|i: int| is_hit(order[m], entries, lowered, q, i);
    let j = choose|j: int| is_hit(order[n], entries, lowered, q, j);
    assert(lowered[i] == lowercase(entries[i].label));
    assert(lowered[j] == lowercase(entries[j].label));
    assert(hit_le()(order[m], order[n]));
}

/// Nothing is found for an empty query.
pub proof fn law_empty_query_finds_nothing(entries: Seq<EntryView>, limit: nat)
    ensures
        best_hits(entries, lowered_labels(entries), seq![], limit).len() == 0,
{
}

/// The browser of a kind lists every entry of that kind and no other, in the order of
/// their labels.
pub proof fn law_kinds_are_listed_by_label(
    entries: Seq<EntryView>,
    kind: VocabKind,
    i: int,
    m: int,
    n: int,
)
    requires
        0 <= i < entries.len(),
        0 <= m < n < kind_entries(entries, kind).len(),
    ensures
        kind_entries(entries, kind).contains(entries[i]) <==> entries[i].kind == kind,
        text_le(kind_entries(entries, kind)[m].label, kind_entries(entries, kind)[n].label),
{
    broadcast use vstd::seq_lib::group_to_multiset_ensures;

    law_kind_is_listed_in_order(entries, kind);
    let p = |e: EntryView| e.kind == kind;
    let r = kind_entries(entries, kind);
    assert(label_le()(r[m], r[n]));
    if entries[i].kind == kind {
        assert(p(entries[i]));
        entries.lemma_filter_contains(p, i);
        assert(entries.filter(p).to_multiset().count(entries[i]) > 0);
        assert(r.to_multiset().count(entries[i]) > 0);
    }
}

/// What an entry is offered as: its label, which is also what is inserted, its kind,
/// and its summary where it has one.
pub proof fn law_entry_is_offered_as_it_is(e: EntryView)
    ensures
        ({
            let i = entry_item(e);
            &&& i.label == e.label && i.insert_text == e.label
            &&& i.detail == e.kind.short_name()
            &&& e.doc.len() > 0 ==> i.documentation == Some(e.doc)
            &&& e.doc.len() == 0 ==> i.documentation is None
            &&& e.kind == VocabKind::Func ==> i.kind == ItemKind::Function
            &&& e.kind == VocabKind::Sample ==> i.kind == ItemKind::File
            &&& e.kind != VocabKind::Func && e.kind != VocabKind::Sample ==> i.kind
                == ItemKind::Value
        }),
{
}

/// What an option is offered as: its name, which is inserted with a space behind it,
/// and its default.
pub proof fn law_option_is_offered_with_its_default(name: Seq<char>, default: Seq<char>)
    ensures
        ({
            let i = option_item((name, default));
            &&& i.label == name
            &&& i.insert_text == name + seq![' ']
            &&& i.detail == "opt · default "@ + default
            &&& i.documentation is None
            &&& i.kind == ItemKind::Field
        }),
{
    reveal_strlit(" ");
    assert(" "@ =~= seq![' ']);
}

/// The menu holds the options first, twenty at most, and then the entries, fifty at
/// most, each in the order in which they were found.
pub proof fn law_menu_is_options_then_entries(entries: Seq<EntryView>, text: Seq<char>, offset: int)
    ensures
        ({
            let word = typed_word(text, offset);
            let options = offered_options(entries, text_before(text, offset), word, 20);
            let found = completions(entries, word, 50);
            let items = offered_items(entries, text, offset);
            &&& options.len() <= 20 && found.len() <= 50
            &&& items.len() == options.len() + found.len()
            &&& forall|k: int|
                0 <= k < options.len() ==> #[trigger] items[k] == option_item(options[k])
            &&& forall|k: int|
                0 <= k < found.len() ==> items[options.len() + k] == entry_item(
                    #[trigger] found[k],
                )
        }),
{
}

/// A letter, a digit, an underscore and a colon open the menu, and nothing else does.
pub proof fn law_words_open_the_menu(c: char)
    ensures
        'a' <= c <= 'z' || 'A' <= c <= 'Z' || '0' <= c <= '9' || c == '_' || c == ':'
            ==> opens_menu(c),
        !('a' <= c <= 'z' || 'A' <= c <= 'Z' || '0' <= c <= '9' || c == '_' || c == ':')
            ==> !opens_menu(c),
{
}

proof fn lemma_word_start(a: Seq<u8>, w: Seq<u8>, rest: Seq<u8>)
    requires
        forall|i: int| 0 <= i < w.len() ==> word_byte(#[trigger] w[i]),
        a.len() > 0 ==> !word_byte(a.last()),
    ensures
        word_start(a + w + rest, (a.len() + w.len()) as int) == a.len(),
    decreases w.len(),
{
    let all = a + w + rest;
    let end = (a.len() + w.len()) as int;
    if w.len() > 0 {
        assert(all[end - 1] == w[w.len() - 1]);
        let v = w.drop_last();
        assert forall|i: int| 0 <= i < v.len() implies word_byte(#[trigger] v[i]) by {
            assert(v[i] == w[i]);
        }
        lemma_word_start(a, v, seq![w.last()] + rest);
        assert(a + v + (seq![w.last()] + rest) =~= all);
    } else if a.len() > 0 {
        assert(all[end - 1] == a.last());
    }
}

/// The word that is being typed reaches back over letters, digits and underscores.
/// One colon before them belongs to it, as that of a symbol does; the two colons of a
/// scope do not.
pub proof fn law_word_reaches_back_to_its_start(a: Seq<u8>, w: Seq<u8>, rest: Seq<u8>)
    requires
        forall|i: int|
            0 <= i < w.len() ==> 0x30 <= (#[trigger] w[i]) <= 0x39 || 0x41 <= w[i] <= 0x5a || 0x61
                <= w[i] <= 0x7a || w[i] == 0x5f,
        a.len() > 0 ==> !(0x30 <= a.last() <= 0x39 || 0x41 <= a.last() <= 0x5a || 0x61 <= a.last()
            <= 0x7a || a.last() == 0x5f || a.last() == 0x3a),
    ensures
        prefix_start(a + w + rest, (a.len() + w.len()) as int) == a.len(),
        prefix_start(a + seq![0x3au8] + w + rest, (a.len() + 1 + w.len()) as int) == a.len(),
        prefix_start(a + seq![0x3au8, 0x3au8] + w + rest, (a.len() + 2 + w.len()) as int)
            == a.len() + 2,
{
    assert forall|i: int| 0 <= i < w.len() implies word_byte(#[trigger] w[i]) by {}
    lemma_word_start(a, w, rest);
    let b = a + seq![0x3au8];
    lemma_word_start(b, w, rest);
    let c = a + seq![0x3au8, 0x3au8];
    assert(c.last() == 0x3au8);
    lemma_word_start(c, w, rest);
    let all = b + w + rest;
    assert(all[a.len() as int] == 0x3au8);
    if a.len() > 0 {
        assert(all[a.len() - 1] == a.last());
        assert((a + w + rest)[a.len() - 1] == a.last());
    }
    let two = c + w + rest;
    assert(two[a.len() as int] == 0x3au8 && two[a.len() as int + 1] == 0x3au8);
}

/// An offset inside a character counts as the start of that character, and one at a
/// boundary as itself.
pub proof fn law_offsets_fall_back_to_a_boundary(bytes: Seq<u8>, offset: int)
    requires
        0 <= offset <= bytes.len(),
    ensures
        0 <= boundary_at(bytes, offset) <= offset,
        is_char_boundary(bytes, offset) ==> boundary_at(bytes, offset) == offset,
        boundary_at(bytes, offset) > 0 ==> is_char_boundary(bytes, boundary_at(bytes, offset)),
        forall|k: int|
            boundary_at(bytes, offset) < k <= offset ==> !#[trigger] is_char_boundary(bytes, k),
    decreases offset,
{
    if offset > 0 && !is_char_boundary(bytes, offset) {
        law_offsets_fall_back_to_a_boundary(bytes, offset - 1);
    }
}

/// Options are offered for what was typed of a name: not before anything was typed,
/// and not for a symbol.
pub proof fn law_options_wait_for_a_name(
    entries: Seq<EntryView>,
    words: Seq<Seq<char>>,
    rest: Seq<char>,
    limit: nat,
)
    ensures
        options_after(entries, words, ""@, limit).len() == 0,
        options_after(entries, words, ":"@ + rest, limit).len() == 0,
{
    reveal_strlit("");
    assert((":"@ + rest).take(":"@.len() as int) =~= ":"@);
    assert(":"@.is_prefix_of(":"@ + rest));
}

} // verus!
