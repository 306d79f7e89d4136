//! What is read back from a cheatsheet that was written for some entries.

use super::cheatsheet::{
    cheat_flush, cheat_line, cheat_lines, cheat_option_line, cheat_start, cheatsheet,
    detailed_option, opened_option, CheatSection, CheatState,
};
use super::{EntryView, OptView, VocabKind};
use crate::table::{law_lines_of_terminated, line_safe, terminated};
use crate::text::{
    blank, lacks, law_trim_padded, lemma_index_of_is, no_outer_space, strip_prefix, trim,
};
use vstd::prelude::*;

verus! {

/// Whether a text can stand in a line by itself: something without white space at its
/// ends.
pub open spec fn says_something(s: Seq<char>) -> bool {
    s.len() > 0 && no_outer_space(s)
}

/// Whether a note is not taken for something else than a note.
pub open spec fn plain_note(n: Seq<char>) -> bool {
    says_something(n) && !"doc:"@.is_prefix_of(n) && !"default:"@.is_prefix_of(n)
}

/// The lines of the notes on an option.
pub open spec fn note_lines(notes: Seq<Seq<char>>) -> Seq<Seq<char>> {
    notes.map_values(|n: Seq<char>| "- "@ + n)
}

/// The lines that document an option.
pub open spec fn option_lines(o: OptView) -> Seq<Seq<char>> {
    seq!["* "@ + o.name + " "@ + o.default, "- doc: "@ + o.doc] + note_lines(o.notes)
}

/// The lines that document some options.
pub open spec fn options_lines(os: Seq<OptView>) -> Seq<Seq<char>>
    decreases os.len(),
{
    if os.len() == 0 {
        seq![]
    } else {
        options_lines(os.drop_last()) + option_lines(os.last())
    }
}

/// The lines that document an entry, under a title.
pub open spec fn entry_lines(title: Seq<char>, e: EntryView) -> Seq<Seq<char>> {
    seq!["## "@ + title, e.label, "### Doc:"@, e.doc, "### Opts:"@] + options_lines(e.opt_docs)
}

/// Whether an option can be written: a name that ends in its only colon, a default, a
/// text, and notes.
pub open spec fn writable_option(o: OptView) -> bool {
    &&& o.name.len() > 1 && o.name.last() == ':'
    &&& lacks(o.name.drop_last(), ':')
    &&& no_outer_space(o.name.drop_last())
    &&& says_something(o.default)
    &&& says_something(o.doc)
    &&& forall|i: int| 0 <= i < o.notes.len() ==> plain_note(#[trigger] o.notes[i])
}

/// Whether an entry can be written: a label that is a symbol, a text that is no
/// heading, and options.
pub open spec fn writable_entry(e: EntryView) -> bool {
    &&& says_something(e.label) && e.label[0] == ':'
    &&& says_something(e.doc) && e.doc[0] != '#'
    &&& e.long_doc.len() == 0
    &&& forall|i: int| 0 <= i < e.opt_docs.len() ==> writable_option(#[trigger] e.opt_docs[i])
}

proof fn lemma_trim_same(s: Seq<char>)
    requires
        no_outer_space(s),
    ensures
        trim(s) == s,
{
    let none = Seq::<char>::empty();
    assert(none + s + none =~= s);
    law_trim_padded(none, s, none);
}

proof fn lemma_trim_space(s: Seq<char>)
    requires
        no_outer_space(s),
    ensures
        trim(seq![' '] + s) == s,
{
    let none = Seq::<char>::empty();
    assert(seq![' '] + s + none =~= seq![' '] + s);
    assert(blank(seq![' ']));
    law_trim_padded(seq![' '], s, none);
}

proof fn lemma_lines_append(st: CheatState, a: Seq<Seq<char>>, b: Seq<Seq<char>>, kind: VocabKind)
    ensures
        cheat_lines(st, a + b, kind) == cheat_lines(cheat_lines(st, a, kind), b, kind),
    decreases b.len(),
{
    if b.len() == 0 {
        assert(a + b =~= a);
    } else {
        assert((a + b).drop_last() =~= a + b.drop_last());
        lemma_lines_append(st, a, b.drop_last(), kind);
    }
}

proof fn lemma_one_line(st: CheatState, l: Seq<char>, kind: VocabKind)
    ensures
        cheat_lines(st, seq![l], kind) == cheat_line(st, l, kind),
{
    assert(seq![l].drop_last() =~= Seq::<Seq<char>>::empty());
    assert(seq![l].last() == l);
    reveal_with_fuel(cheat_lines, 2);
}

/// A line of the options part goes to the options.
proof fn lemma_option_part(st: CheatState, l: Seq<char>, kind: VocabKind)
    requires
        st.section == CheatSection::Opts,
        st.key is Some,
        says_something(l),
        l[0] == '*' || l[0] == '-',
    ensures
        cheat_line(st, l, kind) == (CheatState { opts: cheat_option_line(st.opts, l), ..st }),
{
    reveal_strlit("## ");
    reveal_strlit("### Doc:");
    reveal_strlit("### Opts:");
    reveal_strlit("### ");
    reveal_strlit(":");
    lemma_trim_same(l);
    if "## "@.is_prefix_of(l) {
        assert("## "@[0] == l.subrange(0, 3)[0]);
    }
    if "### "@.is_prefix_of(l) {
        assert("### "@[0] == l.subrange(0, 4)[0]);
    }
    assert("### Doc:"@[0] == '#' && "### Opts:"@[0] == '#');
}

/// A starred line opens an option with its name and its default.
proof fn lemma_opened(opts: Seq<OptView>, o: OptView)
    requires
        writable_option(o),
    ensures
        ({
            let l = "* "@ + o.name + " "@ + o.default;
            &&& says_something(l) && l[0] == '*'
            &&& cheat_option_line(opts, l) == opts.push(
                OptView { name: o.name, default: o.default, doc: seq![], notes: seq![] },
            )
        }),
{
    reveal_strlit("* ");
    reveal_strlit(" ");
    reveal_strlit("*");
    let l = "* "@ + o.name + " "@ + o.default;
    assert(l[0] == '*' && l.last() == o.default.last());
    assert(l.subrange(0, 1) =~= "*"@);
    let body = o.name + " "@ + o.default;
    assert(l.skip(1) =~= seq![' '] + body);
    assert(strip_prefix(l, "*"@) == Some(seq![' '] + body));
    let base = o.name.drop_last();
    assert(body[0] == base[0] && body.last() == o.default.last());
    lemma_trim_space(body);
    let n = base.len() as int;
    assert(body[n] == ':');
    assert forall|j: int| 0 <= j < n implies body[j] != ':' by {
        assert(body[j] == base[j]);
    }
    lemma_index_of_is(body, ':', n);
    assert(body.take(n) =~= base);
    assert(body.skip(n + 1) =~= seq![' '] + o.default);
    lemma_trim_same(base);
    lemma_trim_space(o.default);
    assert(base.push(':') =~= o.name);
    assert(opened_option(seq![' '] + body) =~= (OptView {
        name: o.name,
        default: o.default,
        doc: seq![],
        notes: seq![],
    }));
}

/// A line with a dash goes to the last option: its text if it says so, else a note.
proof fn lemma_detailed(opts: Seq<OptView>, o: OptView, doc: Seq<char>, note: Seq<char>)
    requires
        says_something(doc),
        plain_note(note),
    ensures
        says_something("- doc: "@ + doc) && ("- doc: "@ + doc)[0] == '-',
        says_something("- "@ + note) && ("- "@ + note)[0] == '-',
        cheat_option_line(opts.push(o), "- doc: "@ + doc) == opts.push(OptView { doc, ..o }),
        cheat_option_line(opts.push(o), "- "@ + note) == opts.push(
            OptView { notes: o.notes.push(note), ..o },
        ),
{
    reveal_strlit("- doc: ");
    reveal_strlit("- ");
    reveal_strlit("-");
    reveal_strlit("*");
    reveal_strlit("doc:");
    let a = "- doc: "@ + doc;
    let b = "- "@ + note;
    assert(a[0] == '-' && a.last() == doc.last());
    assert(b[0] == '-' && b.last() == note.last());
    assert(a.subrange(0, 1) =~= "-"@);
    assert(b.subrange(0, 1) =~= "-"@);
    if "*"@.is_prefix_of(a) {
        assert("*"@[0] == a.subrange(0, 1)[0]);
    }
    if "*"@.is_prefix_of(b) {
        assert("*"@[0] == b.subrange(0, 1)[0]);
    }
    let said = "doc:"@ + (seq![' '] + doc);
    assert(a.skip(1) =~= seq![' '] + said);
    assert(said[0] == 'd' && said.last() == doc.last());
    lemma_trim_space(said);
    assert(said.subrange(0, 4) =~= "doc:"@);
    assert(said.skip(4) =~= seq![' '] + doc);
    lemma_trim_space(doc);
    assert(b.skip(1) =~= seq![' '] + note);
    lemma_trim_space(note);
    let os = opts.push(o);
    assert(os.drop_last() =~= opts);
    assert(os.last() == o);
    assert(detailed_option(o, a.skip(1)) =~= (OptView { doc, ..o }));
    assert(detailed_option(o, b.skip(1)) =~= (OptView { notes: o.notes.push(note), ..o }));
}

proof fn lemma_notes(st: CheatState, opts: Seq<OptView>, o: OptView, notes: Seq<Seq<char>>, kind: VocabKind)
    requires
        st.section == CheatSection::Opts,
        st.key is Some,
        st.opts == opts.push(o),
        says_something(o.doc),
        forall|i: int| 0 <= i < notes.len() ==> plain_note(#[trigger] notes[i]),
    ensures
        cheat_lines(st, note_lines(notes), kind) == (CheatState {
            opts: opts.push(OptView { notes: o.notes + notes, ..o }),
            ..st
        }),
    decreases notes.len(),
{
    if notes.len() == 0 {
        assert(o.notes + notes =~= o.notes);
        assert(note_lines(notes) =~= Seq::<Seq<char>>::empty());
        assert(cheat_lines(st, note_lines(notes), kind) =~= st);
    } else {
        let before = notes.drop_last();
        let n = notes.last();
        assert(plain_note(notes[notes.len() - 1]));
        assert forall|i: int| 0 <= i < before.len() implies plain_note(#[trigger] before[i]) by {
            assert(before[i] == notes[i]);
        }
        lemma_notes(st, opts, o, before, kind);
        assert(note_lines(notes).drop_last() =~= note_lines(before));
        assert(note_lines(notes).last() == "- "@ + n);
        let mid = cheat_lines(st, note_lines(before), kind);
        let p = OptView { notes: o.notes + before, ..o };
        lemma_detailed(opts, p, o.doc, n);
        lemma_option_part(mid, "- "@ + n, kind);
        assert(p.notes.push(n) =~= o.notes + notes);
    }
}

/// The lines of an option add that option.
proof fn lemma_option(st: CheatState, o: OptView, kind: VocabKind)
    requires
        st.section == CheatSection::Opts,
        st.key is Some,
        writable_option(o),
    ensures
        cheat_lines(st, option_lines(o), kind) == (CheatState { opts: st.opts.push(o), ..st }),
{
    let l0 = "* "@ + o.name + " "@ + o.default;
    let l1 = "- doc: "@ + o.doc;
    let none = Seq::<Seq<char>>::empty();
    let p = OptView { name: o.name, default: o.default, doc: seq![], notes: none };
    let q = OptView { doc: o.doc, ..p };
    let s1 = CheatState { opts: st.opts.push(p), ..st };
    let s2 = CheatState { opts: st.opts.push(q), ..st };
    lemma_opened(st.opts, o);
    lemma_option_part(st, l0, kind);
    lemma_one_line(st, l0, kind);
    let any = seq!['x'];
    assert(plain_note(any)) by {
        reveal_strlit("doc:");
        reveal_strlit("default:");
    }
    lemma_detailed(st.opts, p, o.doc, any);
    lemma_option_part(s1, l1, kind);
    lemma_one_line(s1, l1, kind);
    assert(seq![l0, l1] =~= seq![l0] + seq![l1]);
    lemma_lines_append(st, seq![l0], seq![l1], kind);
    lemma_lines_append(st, seq![l0, l1], note_lines(o.notes), kind);
    lemma_notes(s2, st.opts, q, o.notes, kind);
    assert(none + o.notes =~= o.notes);
    assert((OptView { notes: q.notes + o.notes, ..q }) =~= o);
}

proof fn lemma_options(st: CheatState, os: Seq<OptView>, kind: VocabKind)
    requires
        st.section == CheatSection::Opts,
        st.key is Some,
        st.opts.len() == 0,
        forall|i: int| 0 <= i < os.len() ==> writable_option(#[trigger] os[i]),
    ensures
        cheat_lines(st, options_lines(os), kind) == (CheatState { opts: os, ..st }),
    decreases os.len(),
{
    if os.len() == 0 {
        assert(st.opts =~= os);
    } else {
        let before = os.drop_last();
        assert forall|i: int| 0 <= i < before.len() implies writable_option(
            #[trigger] before[i],
        ) by {
            assert(before[i] == os[i]);
        }
        assert(writable_option(os[os.len() - 1]));
        lemma_options(st, before, kind);
        lemma_lines_append(st, options_lines(before), option_lines(os.last()), kind);
        lemma_option(CheatState { opts: before, ..st }, os.last(), kind);
        assert(before.push(os.last()) =~= os);
    }
}

proof fn lemma_head(st: CheatState, title: Seq<char>, e: EntryView, kind: VocabKind)
    requires
        says_something(title),
        writable_entry(e),
        st.key is None,
        st.doc.len() == 0,
        st.opts.len() == 0,
    ensures
        cheat_lines(
            st,
            seq!["## "@ + title, e.label, "### Doc:"@, e.doc, "### Opts:"@],
            kind,
        ) == (CheatState {
            key: Some(e.label),
            doc: e.doc,
            opts: seq![],
            section: CheatSection::Opts,
            entries: st.entries,
        }),
{
    reveal_strlit("## ");
    reveal_strlit("### Doc:");
    reveal_strlit("### Opts:");
    reveal_strlit("### ");
    reveal_strlit(":");
    let l0 = "## "@ + title;
    let ls = seq![l0, e.label, "### Doc:"@, e.doc, "### Opts:"@];
    assert(ls.drop_last() =~= seq![l0, e.label, "### Doc:"@, e.doc]);
    assert(ls.drop_last().drop_last() =~= seq![l0, e.label, "### Doc:"@]);
    assert(ls.drop_last().drop_last().drop_last() =~= seq![l0, e.label]);
    assert(ls.drop_last().drop_last().drop_last().drop_last() =~= seq![l0]);
    reveal_with_fuel(cheat_lines, 6);
    lemma_one_line(st, l0, kind);
    assert(l0.last() == title.last() && l0[0] == '#');
    lemma_trim_same(l0);
    assert(l0.subrange(0, 3) =~= "## "@);
    let s0 = cheat_line(st, l0, kind);
    assert(s0 =~= (CheatState {
        key: None,
        doc: seq![],
        opts: seq![],
        section: CheatSection::Other,
        entries: st.entries,
    }));
    lemma_trim_same(e.label);
    assert(e.label.subrange(0, 1) =~= ":"@);
    if "## "@.is_prefix_of(e.label) {
        assert("## "@[0] == e.label.subrange(0, 3)[0]);
    }
    if "### "@.is_prefix_of(e.label) {
        assert("### "@[0] == e.label.subrange(0, 4)[0]);
    }
    assert("### Doc:"@[0] == '#' && "### Opts:"@[0] == '#');
    let s1 = cheat_line(s0, e.label, kind);
    assert(s1 == (CheatState { key: Some(e.label), ..s0 }));
    lemma_trim_same("### Doc:"@);
    if "## "@.is_prefix_of("### Doc:"@) {
        assert("## "@[2] == "### Doc:"@.subrange(0, 3)[2]);
    }
    let s2 = cheat_line(s1, "### Doc:"@, kind);
    assert(s2 == (CheatState { section: CheatSection::Doc, ..s1 }));
    lemma_trim_same(e.doc);
    if "## "@.is_prefix_of(e.doc) {
        assert("## "@[0] == e.doc.subrange(0, 3)[0]);
    }
    if "### "@.is_prefix_of(e.doc) {
        assert("### "@[0] == e.doc.subrange(0, 4)[0]);
    }
    let s3 = cheat_line(s2, e.doc, kind);
    assert(s3 == (CheatState { doc: e.doc, ..s2 }));
    lemma_trim_same("### Opts:"@);
    if "## "@.is_prefix_of("### Opts:"@) {
        assert("## "@[2] == "### Opts:"@.subrange(0, 3)[2]);
    }
    assert("### Doc:"@.len() != "### Opts:"@.len());
}

/// An entry that is written into a cheatsheet is read back from it with everything
/// that was written: its label, its text, and its options in their order, each with
/// its name, its default, its text and its notes.
pub proof fn law_cheatsheet_reads_back(title: Seq<char>, e: EntryView, md: Seq<char>)
    requires
        says_something(title),
        writable_entry(e),
        md == terminated(entry_lines(title, e)),
        forall|i: int|
            0 <= i < entry_lines(title, e).len() ==> line_safe(#[trigger] entry_lines(title, e)[i]),
    ensures
        cheatsheet(md, e.kind) == seq![e],
{
    let head = seq!["## "@ + title, e.label, "### Doc:"@, e.doc, "### Opts:"@];
    law_lines_of_terminated(entry_lines(title, e));
    lemma_head(cheat_start(), title, e, e.kind);
    lemma_lines_append(cheat_start(), head, options_lines(e.opt_docs), e.kind);
    let st = cheat_lines(cheat_start(), head, e.kind);
    lemma_options(st, e.opt_docs, e.kind);
    lemma_trim_same(e.doc);
    let done = CheatState { opts: e.opt_docs, ..st };
    let r = cheat_flush(done, e.kind).entries;
    assert(r[0] =~= e);
    assert(r =~= seq![e]);
}

/// An option without a colon has no default; one that a line gives later counts
/// before the one of the star.
pub proof fn law_defaults_can_follow(opts: Seq<OptView>, o: OptView, name: Seq<char>, d: Seq<char>)
    requires
        says_something(name),
        lacks(name, ':'),
        says_something(d),
    ensures
        cheat_option_line(opts, seq!['*', ' '] + name) == opts.push(
            OptView { name, default: seq![], doc: seq![], notes: seq![] },
        ),
        cheat_option_line(opts.push(o), "- default: "@ + d) == opts.push(
            OptView { default: d, ..o },
        ),
{
    reveal_strlit("*");
    reveal_strlit("-");
    reveal_strlit("- default: ");
    reveal_strlit("default:");
    reveal_strlit("doc:");
    let a = seq!['*', ' '] + name;
    assert(a.subrange(0, 1) =~= "*"@);
    assert(a.skip(1) =~= seq![' '] + name);
    lemma_trim_space(name);
    lemma_index_of_is(name, ':', name.len() as int);
    let b = "- default: "@ + d;
    if "*"@.is_prefix_of(b) {
        assert("*"@[0] == b.subrange(0, 1)[0]);
    }
    assert(b.subrange(0, 1) =~= "-"@);
    let said = "default:"@ + (seq![' '] + d);
    assert(b.skip(1) =~= seq![' '] + said);
    assert(said[0] == 'd' && said.last() == d.last());
    lemma_trim_space(said);
    if "doc:"@.is_prefix_of(said) {
        assert("doc:"@[1] == said.subrange(0, 4)[1]);
        assert(said[1] == 'e');
    }
    assert(said.subrange(0, 8) =~= "default:"@);
    assert(said.skip(8) =~= seq![' '] + d);
    lemma_trim_space(d);
    let os = opts.push(o);
    assert(os.drop_last() =~= opts);
    assert(os.last() == o);
    assert(detailed_option(o, b.skip(1)) =~= (OptView { default: d, ..o }));
}

/// The lines of a description are joined with a space between them.
pub proof fn law_description_lines_are_joined(
    st: CheatState,
    pad: (Seq<char>, Seq<char>),
    line: Seq<char>,
    kind: VocabKind,
)
    requires
        st.section == CheatSection::Doc,
        st.key is Some,
        blank(pad.0) && blank(pad.1),
        no_outer_space(line),
        line.len() > 0 && line[0] != '#',
    ensures
        st.doc.len() == 0 ==> cheat_line(st, pad.0 + line + pad.1, kind) == (CheatState {
            doc: line,
            ..st
        }),
        st.doc.len() > 0 ==> cheat_line(st, pad.0 + line + pad.1, kind) == (CheatState {
            doc: st.doc + " "@ + line,
            ..st
        }),
{
    reveal_strlit("## ");
    reveal_strlit("### Doc:");
    reveal_strlit("### Opts:");
    reveal_strlit("### ");
    reveal_strlit(" ");
    law_trim_padded(pad.0, line, pad.1);
    assert("## "@[0] == '#' && "### "@[0] == '#');
    assert("### Doc:"@[0] == '#' && "### Opts:"@[0] == '#');
    if "## "@.is_prefix_of(line) {
        assert(line.subrange(0, 3)[0] == "## "@[0]);
    }
    if "### "@.is_prefix_of(line) {
        assert(line.subrange(0, 4)[0] == "### "@[0]);
    }
    assert(st.doc.push(' ') + line =~= st.doc + " "@ + line);
}

} // verus!
