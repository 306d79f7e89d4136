//! Synth and effect cheatsheets.

use super::{entry_views, opt_views, EntryView, OptDoc, OptView, VocabEntry, VocabKind};
use crate::text::{
    begins_with_text, chars_of, is_text, lines, lines_of, split_once, split_once_at, string_of,
    string_views, strip_prefix, trim, trimmed, views, without_prefix,
};
use vstd::prelude::*;
use vstd::string::*;

verus! {

/// The part of a cheatsheet section that a line belongs to.
#[derive(Debug, Clone, Copy, PartialEq, Eq, Structural)]
pub enum CheatSection {
    Other,
    Doc,
    Opts,
}

/// What has been read of a cheatsheet: the finished entries, and the parts of the
/// section that is being read.
#[verifier::ext_equal]
pub struct CheatState {
    pub key: Option<Seq<char>>,
    pub doc: Seq<char>,
    pub opts: Seq<OptView>,
    pub section: CheatSection,
    pub entries: Seq<EntryView>,
}

pub open spec fn cheat_start() -> CheatState {
    CheatState { key: None, doc: seq![], opts: seq![], section: CheatSection::Other, entries: seq![] }
}

/// A section ends: it becomes an entry if it had a key.
pub open spec fn cheat_flush(st: CheatState, kind: VocabKind) -> CheatState {
    CheatState {
        key: None,
        doc: seq![],
        opts: seq![],
        entries: match st.key {
            Some(k) => st.entries.push(
                EntryView {
                    label: k,
                    kind,
                    doc: trim(st.doc),
                    opt_docs: st.opts,
                    long_doc: seq![],
                },
            ),
            None => st.entries,
        },
        ..st
    }
}

/// The option that a `* name: default` or `* name` line opens; `rest` is what
/// follows the star.
pub open spec fn opened_option(rest: Seq<char>) -> OptView {
    let r = trim(rest);
    match split_once(r, ':') {
        Some((n, d)) => OptView {
            name: trim(n).push(':'),
            default: trim(d),
            doc: seq![],
            notes: seq![],
        },
        None => OptView { name: r, default: seq![], doc: seq![], notes: seq![] },
    }
}

/// Option `o` with a `- ...` line taken in; `rest` is what follows the dash.
pub open spec fn detailed_option(o: OptView, rest: Seq<char>) -> OptView {
    let r = trim(rest);
    match strip_prefix(r, "doc:"@) {
        Some(d) => OptView { doc: trim(d), ..o },
        None => match strip_prefix(r, "default:"@) {
            Some(d) => OptView { default: trim(d), ..o },
            None => OptView { notes: o.notes.push(r), ..o },
        },
    }
}

/// The options after a non-empty line of the options part.
pub open spec fn cheat_option_line(opts: Seq<OptView>, t: Seq<char>) -> Seq<OptView> {
    match strip_prefix(t, "*"@) {
        Some(rest) => opts.push(opened_option(rest)),
        None => match strip_prefix(t, "-"@) {
            Some(rest) => if opts.len() > 0 {
                opts.drop_last().push(detailed_option(opts.last(), rest))
            } else {
                opts
            },
            None => opts,
        },
    }
}

/// One more line of a cheatsheet.
pub open spec fn cheat_line(st: CheatState, line: Seq<char>, kind: VocabKind) -> CheatState {
    let t = trim(line);
    if "## "@.is_prefix_of(t) {
        CheatState { section: CheatSection::Other, ..cheat_flush(st, kind) }
    } else if t == "### Doc:"@ {
        CheatState { section: CheatSection::Doc, ..st }
    } else if t == "### Opts:"@ {
        CheatState { section: CheatSection::Opts, ..st }
    } else if "### "@.is_prefix_of(t) {
        CheatState { section: CheatSection::Other, ..st }
    } else if ":"@.is_prefix_of(t) && st.key is None {
        CheatState { key: Some(t), ..st }
    } else if st.section == CheatSection::Doc && t.len() > 0 {
        CheatState {
            doc: if st.doc.len() > 0 {
                st.doc.push(' ') + t
            } else {
                t
            },
            ..st
        }
    } else if st.section == CheatSection::Opts && t.len() > 0 {
        CheatState { opts: cheat_option_line(st.opts, t), ..st }
    } else {
        st
    }
}

/// The lines `ls` read from state `st` on.
pub open spec fn cheat_lines(st: CheatState, ls: Seq<Seq<char>>, kind: VocabKind) -> CheatState
    decreases ls.len(),
{
    if ls.len() == 0 {
        st
    } else {
        cheat_line(cheat_lines(st, ls.drop_last(), kind), ls.last(), kind)
    }
}

/// The entries of a cheatsheet.
pub open spec fn cheatsheet(md: Seq<char>, kind: VocabKind) -> Seq<EntryView> {
    cheat_flush(cheat_lines(cheat_start(), lines(md), kind), kind).entries
}

struct CheatReader {
    key: Option<String>,
    doc: String,
    opts: Vec<OptDoc>,
    section: CheatSection,
    entries: Vec<VocabEntry>,
}

impl CheatReader {
    spec fn view(&self) -> CheatState {
        CheatState {
            key: match self.key {
                Some(k) => Some(k@),
                None => None,
            },
            doc: self.doc@,
            opts: opt_views(self.opts@),
            section: self.section,
            entries: entry_views(self.entries@),
        }
    }

    fn flush(self, kind: VocabKind) -> (r: CheatReader)
        ensures
            r@ == cheat_flush(self@, kind),
    {
        let CheatReader { key, doc, opts, section, mut entries } = self;
        let ghost before = entry_views(entries@);
        match key {
            Some(k) => {
                let cs: Vec<char> = chars_of(doc.as_str());
                let e: VocabEntry = VocabEntry {
                    label: k,
                    kind,
                    doc: string_of(trimmed(cs.as_slice())),
                    opt_docs: opts,
                    long_doc: String::new(),
                };
                entries.push(e);
                assert(entry_views(entries@) =~= before.push(e@));
            },
            None => {},
        }
        let r: CheatReader = CheatReader {
            key: None,
            doc: String::new(),
            opts: Vec::new(),
            section,
            entries,
        };
        assert(r@ =~= cheat_flush(self@, kind));
        r
    }
}

fn open_option(rest: &[char]) -> (r: OptDoc)
    ensures
        r@ == opened_option(rest@),
{
    let t: &[char] = trimmed(rest);
    match split_once_at(t, ':') {
        Some((n, d)) => {
            let mut name: String = string_of(trimmed(n));
            name.push(':');
            let r: OptDoc = OptDoc {
                name,
                default: string_of(trimmed(d)),
                doc: String::new(),
                notes: Vec::new(),
            };
            assert(r@ =~= opened_option(rest@));
            r
        },
        None => {
            let r: OptDoc = OptDoc {
                name: string_of(t),
                default: String::new(),
                doc: String::new(),
                notes: Vec::new(),
            };
            assert(r@ =~= opened_option(rest@));
            r
        },
    }
}

fn detail_option(o: OptDoc, rest: &[char]) -> (r: OptDoc)
    ensures
        r@ == detailed_option(o@, rest@),
{
    let t: &[char] = trimmed(rest);
    match without_prefix(t, "doc:") {
        Some(d) => OptDoc { doc: string_of(trimmed(d)), ..o },
        None => match without_prefix(t, "default:") {
            Some(d) => OptDoc { default: string_of(trimmed(d)), ..o },
            None => {
                let OptDoc { name, default, doc, mut notes } = o;
                let ghost before = string_views(notes@);
                notes.push(string_of(t));
                assert(string_views(notes@) =~= before.push(t@));
                OptDoc { name, default, doc, notes }
            },
        },
    }
}

fn option_line(opts: &mut Vec<OptDoc>, t: &[char])
    ensures
        opt_views(final(opts)@) == cheat_option_line(opt_views(old(opts)@), t@),
{
    let ghost before = opt_views(opts@);
    match without_prefix(t, "*") {
        Some(rest) => {
            opts.push(open_option(rest));
            assert(opt_views(opts@) =~= before.push(opened_option(rest@)));
        },
        None => match without_prefix(t, "-") {
            Some(rest) => {
                match opts.pop() {
                    Some(o) => {
                        opts.push(detail_option(o, rest));
                        assert(opt_views(opts@) =~= before.drop_last().push(
                            detailed_option(before.last(), rest@),
                        ));
                    },
                    None => {},
                }
            },
            None => {},
        },
    }
}

fn read_cheat_line(st: CheatReader, line: &[char], kind: VocabKind) -> (r: CheatReader)
    ensures
        r@ == cheat_line(st@, line@, kind),
{
    let t: &[char] = trimmed(line);
    if begins_with_text(t, "## ") {
        let r: CheatReader = st.flush(kind);
        CheatReader { section: CheatSection::Other, ..r }
    } else if is_text(t, "### Doc:") {
        CheatReader { section: CheatSection::Doc, ..st }
    } else if is_text(t, "### Opts:") {
        CheatReader { section: CheatSection::Opts, ..st }
    } else if begins_with_text(t, "### ") {
        CheatReader { section: CheatSection::Other, ..st }
    } else if begins_with_text(t, ":") && st.key.is_none() {
        CheatReader { key: Some(string_of(t)), ..st }
    } else if st.section == CheatSection::Doc && t.len() > 0 {
        let CheatReader { key, mut doc, opts, section, entries } = st;
        let ghost before = doc@;
        if doc.as_str().unicode_len() > 0 {
            doc.push(' ');
        }
        doc.append(string_of(t).as_str());
        assert(doc@ =~= (if before.len() > 0 {
            before.push(' ') + t@
        } else {
            t@
        }));
        CheatReader { key, doc, opts, section, entries }
    } else if st.section == CheatSection::Opts && t.len() > 0 {
        let CheatReader { key, doc, mut opts, section, entries } = st;
        option_line(&mut opts, t);
        CheatReader { key, doc, opts, section, entries }
    } else {
        st
    }
}

/// Parses a synth or effect cheatsheet: `## Title` sections that hold a `:key`
/// line and `### Doc:` and `### Opts:` parts.
pub fn parse_cheatsheet(md: &str, kind: VocabKind) -> (r: Vec<VocabEntry>)
    ensures
        entry_views(r@) == cheatsheet(md@, kind),
{
    let cs: Vec<char> = chars_of(md);
    let ls: Vec<&[char]> = lines_of(cs.as_slice());
    let mut st: CheatReader = CheatReader {
        key: None,
        doc: String::new(),
        opts: Vec::new(),
        section: CheatSection::Other,
        entries: Vec::new(),
    };
    assert(st@ =~= cheat_start());
    let mut i: usize = 0;
    let ghost all = lines(md@);
    while i < ls.len()
        invariant
            i <= ls@.len(),
            views(ls@) == all,
            st@ == cheat_lines(cheat_start(), all.take(i as int), kind),
        decreases ls@.len() - i,
    {
        st = read_cheat_line(st, ls[i], kind);
        i = i + 1;
        assert(all.take(i as int).drop_last() =~= all.take(i - 1));
    }
    assert(all.take(i as int) =~= all);
    st.flush(kind).entries
}

} // verus!
