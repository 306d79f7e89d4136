//! What is read back from the sources of names and of function documentation.

use super::lang::{
    alphanumeric, alphanumerics, closing_quote, declared_name, doc_body, drop_trailing_pairs,
    flush_pending, lang_docs, lang_line, lang_lines, lang_start, name_prefix_by, summary_text,
    unescape_quotes, LangState,
};
use super::names::{
    all_notes, chord_key, chord_of_line, note_symbol, octave_names, pitch_names, sample_of_file, samples,
    scale_of_line, scale_table,
};
use super::{EntryView, VocabKind};
use crate::number::decimal;
use crate::order::{law_sort_is_permutation, law_sort_is_ranked, ranking, text_le};
use crate::table::{law_lines_of_terminated, line_safe, terminated};
use crate::text::{
    blank, drop_leading_quotes, drop_trailing_quotes, is_white_space, lacks, law_trim_padded,
    lemma_index_of_is, lemma_last_index_of, lemma_trim_start_padded, no_outer_space, strip_prefix,
    trim, trim_start, white_space_index,
};
use vstd::prelude::*;

verus! {

/// Every one of the seventeen pitches has a note in every octave from the zeroth to
/// the eighth, octave by octave, under a colon, its name and the number of the octave.
pub proof fn law_every_pitch_has_its_notes(o: int, p: int)
    requires
        0 <= o <= 8,
        0 <= p < 17,
    ensures
        all_notes().len() == 9 * 17,
        all_notes()[17 * o + p].label == seq![':'] + pitch_names()[p] + decimal(o as nat),
        all_notes()[17 * o + p].kind == VocabKind::Note,
{
    reveal_strlit(":");
    assert(":"@ =~= seq![':']);
    reveal_strlit("0");
    reveal_strlit("1");
    reveal_strlit("2");
    reveal_strlit("3");
    reveal_strlit("4");
    reveal_strlit("5");
    reveal_strlit("6");
    reveal_strlit("7");
    reveal_strlit("8");
    let i = 17 * o + p;
    assert(i / 17 == o && i % 17 == p);
    assert(all_notes()[i].label == note_symbol(o, p));
    assert(octave_names()[o] =~= decimal(o as nat));
}

/// The pitches go up from c to b, each sharp written with an `s` and each flat with a
/// `b`.
pub proof fn law_pitches_in_order()
    ensures
        ({
            let n = pitch_names();
            &&& n.len() == 17
            &&& n[0] == "c"@ && n[1] == "cs"@ && n[2] == "db"@ && n[3] == "d"@ && n[4] == "ds"@
            &&& n[5] == "eb"@ && n[6] == "e"@ && n[7] == "f"@ && n[8] == "fs"@ && n[9] == "gb"@
            &&& n[10] == "g"@ && n[11] == "gs"@ && n[12] == "ab"@ && n[13] == "a"@
            &&& n[14] == "as"@ && n[15] == "bb"@ && n[16] == "b"@
        }),
{
}

/// A line of the scale table names a scale by what stands before its colon, if that
/// is a word of small letters, digits and underscores.
pub proof fn law_scale_lines_name_their_scale(
    key: Seq<char>,
    gaps: (Seq<char>, Seq<char>),
    rest: Seq<char>,
)
    requires
        key.len() > 0,
        forall|i: int|
            0 <= i < key.len() ==> 'a' <= (#[trigger] key[i]) <= 'z' || '0' <= key[i] <= '9'
                || key[i] == '_',
        blank(gaps.0) && blank(gaps.1),
        no_outer_space(rest),
    ensures
        scale_of_line(gaps.0 + key + gaps.1 + seq![':'] + rest) == Some(
            EntryView {
                label: seq![':'] + key,
                kind: VocabKind::Scale,
                doc: seq![],
                opt_docs: seq![],
                long_doc: seq![],
            },
        ),
{
    reveal_strlit(":");
    reveal_strlit("");
    assert(":"@ =~= seq![':']);
    assert(""@ =~= seq![]);
    let none = Seq::<char>::empty();
    let body = key + gaps.1 + seq![':'] + rest;
    assert(gaps.0 + key + gaps.1 + seq![':'] + rest =~= gaps.0 + body + none);
    assert(!is_white_space(key[0]));
    assert(body[0] == key[0]);
    assert(body.last() == if rest.len() > 0 {
        rest.last()
    } else {
        ':'
    });
    law_trim_padded(gaps.0, body, none);
    let e = (key.len() + gaps.1.len()) as int;
    assert(body[e] == ':');
    assert forall|j: int| 0 <= j < e implies body[j] != ':' by {
        if j < key.len() {
            assert(body[j] == key[j]);
        } else {
            assert(body[j] == gaps.1[j - key.len()]);
            assert(is_white_space(gaps.1[j - key.len()]));
        }
    }
    lemma_index_of_is(body, ':', e);
    assert(body.take(e) =~= none + key + gaps.1);
    assert(!is_white_space(key[key.len() - 1]));
    law_trim_padded(none, key, gaps.1);
}

/// The scales of a table are those of its lines, in order, up to the brace that
/// closes it.
pub proof fn law_scale_table_ends_at_its_brace(l: Seq<char>, ls: Seq<Seq<char>>)
    ensures
        trim(l).len() > 0 && trim(l)[0] == '}' ==> scale_table(seq![l] + ls).len() == 0,
        trim(l).len() == 0 || trim(l)[0] != '}' ==> scale_table(seq![l] + ls) == (match
        scale_of_line(l) {
            Some(e) => seq![e] + scale_table(ls),
            None => scale_table(ls),
        }),
        scale_table(seq![]).len() == 0,
{
    reveal_strlit("}");
    let all = seq![l] + ls;
    assert(all[0] == l);
    assert(all.drop_first() =~= ls);
    let t = trim(l);
    if t.len() > 0 && t[0] == '}' {
        assert(t.subrange(0, 1) =~= "}"@);
    } else if "}"@.is_prefix_of(t) {
        assert("}"@[0] == t.subrange(0, 1)[0]);
    }
}

proof fn lemma_white_space_index_is(s: Seq<char>, n: int)
    requires
        0 <= n <= s.len(),
        forall|j: int| 0 <= j < n ==> !is_white_space(#[trigger] s[j]),
        n < s.len() ==> is_white_space(s[n]),
    ensures
        white_space_index(s) == n,
    decreases n,
{
    if n > 0 {
        let t = s.drop_first();
        assert(!is_white_space(s[0]));
        assert forall|j: int| 0 <= j < n - 1 implies !is_white_space(#[trigger] t[j]) by {
            assert(!is_white_space(s[j + 1]));
        }
        lemma_white_space_index_is(t, n - 1);
    }
}

/// A line `:name =>` names a chord, if the name is of letters, digits and
/// underscores.
pub proof fn law_chord_lines_name_their_chord(
    key: Seq<char>,
    gaps: (Seq<char>, Seq<char>),
    rest: Seq<char>,
)
    requires
        forall|i: int|
            0 <= i < key.len() ==> 'a' <= (#[trigger] key[i]) <= 'z' || 'A' <= key[i] <= 'Z' || '0'
                <= key[i] <= '9' || key[i] == '_',
        blank(gaps.0) && blank(gaps.1),
        no_outer_space(rest),
    ensures
        chord_of_line(gaps.0 + seq![':'] + key + seq![' '] + gaps.1 + seq!['=', '>'] + rest)
            == Some(
            EntryView {
                label: seq![':'] + key,
                kind: VocabKind::Chord,
                doc: seq![],
                opt_docs: seq![],
                long_doc: seq![],
            },
        ),
{
    reveal_strlit(":");
    reveal_strlit("");
    reveal_strlit("=>");
    assert(":"@ =~= seq![':']);
    assert(""@ =~= seq![]);
    let none = Seq::<char>::empty();
    let arrow = seq!['=', '>'] + rest;
    let after = key + seq![' '] + gaps.1 + arrow;
    let body = seq![':'] + after;
    assert(gaps.0 + seq![':'] + key + seq![' '] + gaps.1 + seq!['=', '>'] + rest =~= gaps.0 + body
        + none);
    assert(body.last() == if rest.len() > 0 {
        rest.last()
    } else {
        '>'
    });
    law_trim_padded(gaps.0, body, none);
    assert(body.subrange(0, 1) =~= ":"@);
    assert(body.skip(1) =~= after);
    assert(strip_prefix(body, ":"@) == Some(after));
    let w = key.len() as int;
    assert forall|j: int| 0 <= j < w implies !is_white_space(#[trigger] after[j]) by {
        assert(after[j] == key[j]);
    }
    assert(after[w] == ' ');
    lemma_white_space_index_is(after, w);
    assert(after.skip(w + 1) =~= gaps.1 + arrow);
    lemma_trim_start_padded(gaps.1, arrow);
    assert(trim_start(arrow) == arrow);
    assert(arrow.subrange(0, 2) =~= "=>"@);
    assert(after.take(w) =~= key);
}

/// A file with the extension of an audio file is a sample under the rest of its name;
/// another file, and one that has no name before its extension, is none.
pub proof fn law_audio_files_are_samples(name: Seq<char>, ext: Seq<char>)
    requires
        lacks(ext, '.'),
    ensures
        name.len() > 0 && (ext == "flac"@ || ext == "wav"@ || ext == "wave"@ || ext == "aif"@ || ext
            == "aiff"@) ==> sample_of_file(name + seq!['.'] + ext) == Some(
            EntryView {
                label: seq![':'] + name,
                kind: VocabKind::Sample,
                doc: seq![],
                opt_docs: seq![],
                long_doc: seq![],
            },
        ),
        name.len() == 0 || !(ext == "flac"@ || ext == "wav"@ || ext == "wave"@ || ext == "aif"@
            || ext == "aiff"@) ==> sample_of_file(name + seq!['.'] + ext) is None,
{
    reveal_strlit(":");
    reveal_strlit("");
    assert(":"@ =~= seq![':']);
    assert(""@ =~= seq![]);
    let file = name + seq!['.'] + ext;
    let d = name.len() as int;
    lemma_last_index_of(file, '.');
    assert(file[d] == '.');
    assert forall|j: int| d < j < file.len() implies file[j] != '.' by {
        assert(file[j] == ext[j - d - 1]);
    }
    assert(file.skip(d + 1) =~= ext);
    assert(file.take(d) =~= name);
}

/// The samples are listed in the order of their names, and every audio file is among
/// them.
pub proof fn law_samples_are_listed_by_name(files: Seq<Seq<char>>, m: int, n: int)
    requires
        0 <= m < n < samples(files).len(),
    ensures
        text_le(samples(files)[m].label, samples(files)[n].label),
        samples(files).to_multiset() =~= files.filter_map(
            |name: Seq<char>| sample_of_file(name),
        ).to_multiset(),
{
    let le = super::names::label_le();
    let s = files.filter_map(|name: Seq<char>| sample_of_file(name));
    assert(ranking(le)) by {
        assert forall|a: EntryView, b: EntryView| #[trigger] le(a, b) || le(b, a) by {
            crate::order::lemma_text_le_total(a.label, b.label);
        }
        assert forall|a: EntryView, b: EntryView, c: EntryView| #[trigger]
            le(a, b) && #[trigger] le(b, c) implies le(a, c) by {
            crate::order::lemma_text_le_transitive(a.label, b.label, c.label);
        }
    }
    law_sort_is_ranked(s, le);
    law_sort_is_permutation(s, le);
    assert(le(samples(files)[m], samples(files)[n]));
}

/// Whether a character can stand in the name of a function.
pub open spec fn in_names(c: char) -> bool {
    alphanumeric(c) || c == '_' || c == '?' || c == '!'
}

proof fn lemma_name_prefix(name: Seq<char>, rest: Seq<char>)
    requires
        forall|i: int| 0 <= i < name.len() ==> in_names(#[trigger] name[i]),
        rest.len() > 0 ==> !in_names(rest[0]),
    ensures
        name_prefix_by(name + rest, alphanumerics(name + rest)) == name,
    decreases name.len(),
{
    let s = name + rest;
    let flags = alphanumerics(s);
    if name.len() > 0 {
        let t = name.drop_first();
        assert(in_names(name[0]));
        assert(s[0] == name[0]);
        assert forall|i: int| 0 <= i < t.len() implies in_names(#[trigger] t[i]) by {
            assert(t[i] == name[i + 1]);
        }
        assert(s.drop_first() =~= t + rest);
        assert(flags.drop_first() =~= alphanumerics(t + rest));
        lemma_name_prefix(t, rest);
        assert(seq![name[0]] + t =~= name);
    } else {
        assert(s =~= rest);
    }
}

/// A `doc name:` line opens the documentation of the function that it names; one
/// that was open before is kept without a summary.
pub proof fn law_name_lines_open_a_function(
    st: LangState,
    gap: Seq<char>,
    name: Seq<char>,
    rest: Seq<char>,
)
    requires
        st.capturing is None,
        blank(gap),
        name.len() > 0,
        forall|i: int| 0 <= i < name.len() ==> in_names(#[trigger] name[i]),
        rest.len() > 0 ==> !in_names(rest[0]),
    ensures
        lang_line(st, gap + "doc name: :"@ + name + rest) == (LangState {
            entries: match st.pending {
                Some(before) => st.entries.push(
                    EntryView {
                        label: before,
                        kind: VocabKind::Func,
                        doc: seq![],
                        opt_docs: seq![],
                        long_doc: seq![],
                    },
                ),
                None => st.entries,
            },
            pending: Some(name),
            capturing: None,
        }),
{
    reveal_strlit("doc name: :");
    reveal_strlit("doc name:");
    reveal_strlit(":");
    reveal_strlit("");
    assert(""@ =~= seq![]);
    let body = "doc name: :"@ + name + rest;
    let line = gap + "doc name: :"@ + name + rest;
    assert(line =~= gap + body);
    lemma_trim_start_padded(gap, body);
    assert(body[0] == 'd');
    assert(trim_start(body) == body);
    assert(body.subrange(0, 9) =~= "doc name:"@);
    let tail = body.skip(9);
    let symbol = seq![':'] + (name + rest);
    assert(tail =~= seq![' '] + symbol);
    assert(strip_prefix(body, "doc name:"@) == Some(tail));
    assert(blank(seq![' ']));
    lemma_trim_start_padded(seq![' '], symbol);
    assert(trim_start(symbol) == symbol);
    assert(symbol.subrange(0, 1) =~= ":"@);
    assert(symbol.skip(1) =~= name + rest);
    lemma_name_prefix(name, rest);
    assert(declared_name(tail) == name);
}

/// A `summary:` line ends what is said of an open function: its summary is the text
/// between the quotes.
pub proof fn law_summary_lines_close_a_function(
    st: LangState,
    gap: Seq<char>,
    name: Seq<char>,
    s: Seq<char>,
)
    requires
        st.capturing is None,
        st.pending == Some(name),
        blank(gap),
        s.len() > 0 && s[0] != '"' && s.last() != '"' && s.last() != ',',
    ensures
        lang_line(st, gap + "summary: \""@ + s + "\","@) == (LangState {
            entries: st.entries.push(
                EntryView {
                    label: name,
                    kind: VocabKind::Func,
                    doc: s,
                    opt_docs: seq![],
                    long_doc: seq![],
                },
            ),
            pending: None,
            capturing: None,
        }),
{
    reveal_strlit("summary: \"");
    reveal_strlit("\",");
    reveal_strlit("summary:");
    reveal_strlit("doc name:");
    let body = "summary: \""@ + s + "\","@;
    let line = gap + "summary: \""@ + s + "\","@;
    assert(line =~= gap + body);
    lemma_trim_start_padded(gap, body);
    assert(body[0] == 's');
    assert(trim_start(body) == body);
    if "doc name:"@.is_prefix_of(body) {
        assert("doc name:"@[0] == body.subrange(0, 9)[0]);
    }
    assert(body.subrange(0, 8) =~= "summary:"@);
    let quoted = seq!['"'] + s + seq!['"', ','];
    assert(body.skip(8) =~= seq![' '] + quoted);
    let none = Seq::<char>::empty();
    assert(seq![' '] + quoted + none =~= seq![' '] + quoted);
    assert(quoted[0] == '"' && quoted.last() == ',');
    assert(blank(seq![' ']));
    law_trim_padded(seq![' '], quoted, none);
    let open = s + seq!['"', ','];
    assert(quoted.drop_first() =~= open);
    reveal_with_fuel(drop_leading_quotes, 2);
    assert(open[0] == s[0]);
    assert(drop_leading_quotes(quoted) == open);
    assert(open.last() == ',');
    assert(drop_trailing_quotes(open) == open);
    assert(open[open.len() - 2] == '"');
    assert(open.take(open.len() - 2) =~= s);
    reveal_with_fuel(drop_trailing_pairs, 2);
    assert(drop_trailing_pairs(s) == s);
    assert(summary_text(seq![' '] + quoted) == s);
}

proof fn lemma_plain_body(b: Seq<char>, rest: Seq<char>, i: int)
    requires
        lacks(b, '"'),
        lacks(b, '\\'),
        0 <= i <= b.len(),
        rest.len() > 0 ==> rest[0] == '"',
    ensures
        closing_quote(b + rest, i) == if rest.len() > 0 {
            Some(b.len() as int)
        } else {
            None
        },
    decreases b.len() - i,
{
    let s = b + rest;
    if i < b.len() {
        assert(s[i] == b[i]);
        lemma_plain_body(b, rest, i + 1);
    }
}

proof fn lemma_nothing_escaped(b: Seq<char>)
    requires
        lacks(b, '\\'),
    ensures
        unescape_quotes(b) == b,
    decreases b.len(),
{
    if b.len() > 0 {
        assert(b[0] != '\\');
        let t = b.drop_first();
        assert forall|i: int| 0 <= i < t.len() implies #[trigger] t[i] != '\\' by {
            assert(t[i] == b[i + 1]);
        }
        lemma_nothing_escaped(t);
        assert(seq![b[0]] + t =~= b);
    } else {
        assert(unescape_quotes(b) =~= b);
    }
}

/// A `doc:` line documents the last function by the text between its quotes, white
/// space at the ends aside. Where the text is not closed in that line, it goes on.
pub proof fn law_doc_lines_document_the_last_function(
    st: LangState,
    gap: Seq<char>,
    body: Seq<char>,
    rest: Seq<char>,
)
    requires
        st.capturing is None,
        st.entries.len() > 0,
        blank(gap),
        lacks(body, '"'),
        lacks(body, '\\'),
        rest.len() > 0 ==> rest[0] == '"',
    ensures
        ({
            let r = lang_line(st, gap + "doc: \""@ + body + rest);
            &&& r.pending == st.pending
            &&& rest.len() > 0 ==> r.capturing is None && r.entries == st.entries.drop_last().push(
                EntryView { long_doc: trim(body), ..st.entries.last() },
            )
            &&& rest.len() == 0 ==> r.capturing == Some(body) && r.entries == st.entries
        }),
{
    reveal_strlit("doc: \"");
    reveal_strlit("doc name:");
    reveal_strlit("summary:");
    reveal_strlit("doc:");
    let t = "doc: \""@ + body + rest;
    let line = gap + "doc: \""@ + body + rest;
    assert(line =~= gap + t);
    lemma_trim_start_padded(gap, t);
    assert(t[0] == 'd' && t[3] == ':');
    assert(trim_start(t) == t);
    if "doc name:"@.is_prefix_of(t) {
        assert("doc name:"@[3] == t.subrange(0, 9)[3]);
    }
    if "summary:"@.is_prefix_of(t) {
        assert("summary:"@[0] == t.subrange(0, 8)[0]);
    }
    assert(t.subrange(0, 4) =~= "doc:"@);
    let after = t.skip(4);
    assert(after =~= seq![' ', '"'] + (body + rest));
    assert(after[0] == ' ' && after[1] == '"');
    lemma_index_of_is(after, '"', 1);
    assert(after.skip(2) =~= body + rest);
    lemma_plain_body(body, rest, 0);
    assert((body + rest).take(body.len() as int) =~= body);
    if rest.len() == 0 {
        assert(body + rest =~= body);
    }
    lemma_nothing_escaped(body);
}

/// Documentation that goes on takes in every line up to the quote that closes it,
/// with the line breaks between them.
pub proof fn law_open_documentation_goes_on(
    st: LangState,
    text: Seq<char>,
    body: Seq<char>,
    rest: Seq<char>,
)
    requires
        st.capturing == Some(text),
        st.entries.len() > 0,
        lacks(text, '\\'),
        lacks(body, '"'),
        lacks(body, '\\'),
        rest.len() > 0 ==> rest[0] == '"',
    ensures
        ({
            let r = lang_line(st, body + rest);
            let all = text + seq!['\n'] + body;
            &&& r.pending == st.pending
            &&& rest.len() == 0 ==> r.capturing == Some(all) && r.entries == st.entries
            &&& rest.len() > 0 ==> r.capturing is None && r.entries == st.entries.drop_last().push(
                EntryView { long_doc: trim(all), ..st.entries.last() },
            )
        }),
{
    lemma_plain_body(body, rest, 0);
    assert((body + rest).take(body.len() as int) =~= body);
    if rest.len() == 0 {
        assert(body + rest =~= body);
    }
    let all = text + seq!['\n'] + body;
    assert(text.push('\n') + body =~= all);
    assert(lacks(all, '\\'));
    lemma_nothing_escaped(all);
}

/// In a documentation text a quote with a backslash before it stands for itself and
/// closes nothing.
pub proof fn law_escaped_quotes_are_part_of_the_text(a: Seq<char>, b: Seq<char>)
    requires
        lacks(a, '"') && lacks(a, '\\'),
        lacks(b, '"') && lacks(b, '\\'),
    ensures
        closing_quote(a + seq!['\\', '"'] + b + seq!['"'], 0) == Some(
            (a.len() + 2 + b.len()) as int,
        ),
        doc_body(a + seq!['\\', '"'] + b) == trim(a + seq!['"'] + b),
{
    let s = a + seq!['\\', '"'] + b + seq!['"'];
    lemma_quote_after(s, a.len() as int, 0);
    let n = (a.len() + 2 + b.len()) as int;
    lemma_quote_found(s, (a.len() + 2) as int, n);
    lemma_unescape_prefix(a, seq!['\\', '"'] + b);
    assert(a + (seq!['\\', '"'] + b) =~= a + seq!['\\', '"'] + b);
    let e = seq!['\\', '"'] + b;
    assert(e.skip(2) =~= b);
    lemma_nothing_escaped(b);
    assert(a + (seq!['"'] + b) =~= a + seq!['"'] + b);
}

proof fn lemma_quote_after(s: Seq<char>, n: int, i: int)
    requires
        0 <= i <= n < s.len(),
        forall|j: int| 0 <= j < n ==> #[trigger] s[j] != '"' && s[j] != '\\',
        s[n] == '\\',
    ensures
        closing_quote(s, i) == closing_quote(s, n + 2),
    decreases n - i,
{
    if i < n {
        assert(s[i] != '"' && s[i] != '\\');
        lemma_quote_after(s, n, i + 1);
    }
}

proof fn lemma_quote_found(s: Seq<char>, i: int, n: int)
    requires
        0 <= i <= n < s.len(),
        forall|j: int| i <= j < n ==> #[trigger] s[j] != '"' && s[j] != '\\',
        s[n] == '"',
    ensures
        closing_quote(s, i) == Some(n),
    decreases n - i,
{
    if i < n {
        assert(s[i] != '"' && s[i] != '\\');
        lemma_quote_found(s, i + 1, n);
    }
}

proof fn lemma_unescape_prefix(a: Seq<char>, b: Seq<char>)
    requires
        lacks(a, '\\'),
    ensures
        unescape_quotes(a + b) == a + unescape_quotes(b),
    decreases a.len(),
{
    if a.len() > 0 {
        let t = a.drop_first();
        assert(a[0] != '\\');
        assert((a + b)[0] == a[0]);
        assert forall|i: int| 0 <= i < t.len() implies #[trigger] t[i] != '\\' by {
            assert(t[i] == a[i + 1]);
        }
        assert((a + b).drop_first() =~= t + b);
        lemma_unescape_prefix(t, b);
        assert(seq![a[0]] + (t + unescape_quotes(b)) =~= a + unescape_quotes(b));
    } else {
        assert(a + b =~= b);
        assert(a + unescape_quotes(b) =~= unescape_quotes(b));
    }
}

/// A function that is documented by its three lines is read back with its name, its
/// summary and its documentation.
pub proof fn law_language_source_reads_back(
    name: Seq<char>,
    summary: Seq<char>,
    body: Seq<char>,
    rb: Seq<char>,
)
    requires
        name.len() > 0,
        forall|i: int| 0 <= i < name.len() ==> in_names(#[trigger] name[i]),
        !in_names(','),
        summary.len() > 0 && summary[0] != '"' && summary.last() != '"' && summary.last() != ',',
        lacks(body, '"') && lacks(body, '\\') && no_outer_space(body),
        line_safe("doc name: :"@ + name + ","@),
        line_safe("summary: \""@ + summary + "\","@),
        line_safe("doc: \""@ + body + "\","@),
        rb == terminated(
            seq![
                "doc name: :"@ + name + ","@,
                "summary: \""@ + summary + "\","@,
                "doc: \""@ + body + "\","@,
            ],
        ),
    ensures
        lang_docs(rb) == seq![
            EntryView {
                label: name,
                kind: VocabKind::Func,
                doc: summary,
                opt_docs: seq![],
                long_doc: body,
            },
        ],
{
    reveal_strlit(",");
    reveal_strlit("\",");
    let none = Seq::<char>::empty();
    let l0 = "doc name: :"@ + name + ","@;
    let l1 = "summary: \""@ + summary + "\","@;
    let l2 = "doc: \""@ + body + "\","@;
    let ls = seq![l0, l1, l2];
    law_lines_of_terminated(ls);
    assert(none + "doc name: :"@ + name + ","@ =~= l0);
    assert(none + "summary: \""@ + summary + "\","@ =~= l1);
    assert(none + "doc: \""@ + body + "\","@ =~= l2);
    let s0 = lang_start();
    law_name_lines_open_a_function(s0, none, name, ","@);
    let s1 = lang_line(s0, l0);
    law_summary_lines_close_a_function(s1, none, name, summary);
    let s2 = lang_line(s1, l1);
    law_doc_lines_document_the_last_function(s2, none, body, "\","@);
    assert(none + body + none =~= body);
    law_trim_padded(none, body, none);
    reveal_with_fuel(lang_lines, 4);
    assert(ls.drop_last() =~= seq![l0, l1]);
    assert(ls.drop_last().drop_last() =~= seq![l0]);
    assert(ls.drop_last().drop_last().drop_last() =~= Seq::<Seq<char>>::empty());
    let s3 = lang_line(s2, l2);
    assert(lang_lines(s0, ls) == s3);
    assert(flush_pending(s3) =~= seq![
        EntryView {
            label: name,
            kind: VocabKind::Func,
            doc: summary,
            opt_docs: seq![],
            long_doc: body,
        },
    ]);
}

/// A line whose name has any other character in it names no chord, and neither does
/// one without the colon in front.
pub proof fn law_other_lines_name_no_chord(key: Seq<char>, k: int, rest: Seq<char>)
    requires
        0 <= k < key.len(),
        forall|i: int| 0 <= i < key.len() ==> !is_white_space(#[trigger] key[i]),
        !('a' <= key[k] <= 'z' || 'A' <= key[k] <= 'Z' || '0' <= key[k] <= '9' || key[k] == '_'),
        no_outer_space(rest),
    ensures
        chord_of_line(seq![':'] + key + seq![' ', '=', '>'] + rest) is None,
        key[0] != ':' ==> chord_of_line(key + seq![' ', '=', '>'] + rest) is None,
{
    reveal_strlit(":");
    reveal_strlit("=>");
    assert(":"@ =~= seq![':']);
    let none = Seq::<char>::empty();
    let after = key + seq![' ', '=', '>'] + rest;
    let body = seq![':'] + after;
    assert(seq![':'] + key + seq![' ', '=', '>'] + rest =~= none + body + none);
    assert(body.last() == if rest.len() > 0 {
        rest.last()
    } else {
        '>'
    });
    law_trim_padded(none, body, none);
    assert(body.subrange(0, 1) =~= ":"@);
    assert(body.skip(1) =~= after);
    let w = key.len() as int;
    assert forall|j: int| 0 <= j < w implies !is_white_space(#[trigger] after[j]) by {
        assert(after[j] == key[j]);
    }
    assert(after[w] == ' ');
    lemma_white_space_index_is(after, w);
    assert(after.take(w) =~= key);
    assert(!chord_key(key));
    if key[0] != ':' {
        assert(none + after + none =~= after);
        assert(after[0] == key[0]);
        assert(after.last() == body.last());
        law_trim_padded(none, after, none);
        if ":"@.is_prefix_of(after) {
            assert(after.subrange(0, 1)[0] == ":"@[0]);
        }
    }
}

} // verus!
