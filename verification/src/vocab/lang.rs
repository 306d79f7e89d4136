//! The function documentation in the language's own sources.

use super::{entry_views, plain_entry, EntryView, VocabEntry, VocabKind};
use crate::text::{
    chars_of, find_char, index_of, lines, lines_of, string_of, strip_prefix, trim, trim_start,
    trimmed, trimmed_start, unquote, unquoted, views, without_prefix,
};
use vstd::prelude::*;
use vstd::slice::slice_subrange;
use vstd::string::*;

verus! {

/// Whether a character is alphabetic or numeric in the sense of
/// `char::is_alphanumeric`.
pub uninterp spec fn alphanumeric(c: char) -> bool;

/// `char::is_alphanumeric` is a function of the character alone. Which characters
/// it holds for is left to the Unicode tables of the standard library.
pub assume_specification[ char::is_alphanumeric ](c: char) -> (r: bool)
    ensures
        r == alphanumeric(c),
;

/// Which characters of a text are alphabetic or numeric.
pub open spec fn alphanumerics(s: Seq<char>) -> Seq<bool> {
    Seq::new(s.len(), |i: int| alphanumeric(s[i]))
}

pub(crate) fn alphanumerics_of(cs: &[char]) -> (r: Vec<bool>)
    ensures
        r@ == alphanumerics(cs@),
{
    let mut out: Vec<bool> = Vec::new();
    let mut i: usize = 0;
    while i < cs.len()
        invariant
            i <= cs@.len(),
            out@.len() == i,
            forall|j: int| 0 <= j < i ==> #[trigger] out@[j] == alphanumeric(cs@[j]),
        decreases cs@.len() - i,
    {
        out.push(cs[i].is_alphanumeric());
        i = i + 1;
    }
    assert(out@ =~= alphanumerics(cs@));
    out
}

/// Whether a character can be part of a function name, `alnum` telling whether it
/// is alphabetic or numeric.
pub open spec fn name_char(c: char, alnum: bool) -> bool {
    alnum || c == '_' || c == '?' || c == '!'
}

/// The longest prefix of `s` made of name characters, `alnum` telling which
/// characters are alphabetic or numeric.
pub open spec fn name_prefix_by(s: Seq<char>, alnum: Seq<bool>) -> Seq<char>
    decreases s.len(),
{
    if s.len() > 0 && name_char(s[0], alnum[0]) {
        seq![s[0]] + name_prefix_by(s.drop_first(), alnum.drop_first())
    } else {
        seq![]
    }
}

/// The longest prefix of `s` made of name characters.
pub open spec fn name_prefix(s: Seq<char>) -> Seq<char> {
    name_prefix_by(s, alphanumerics(s))
}

/// The name at the start of a text, `alnum` telling which of its characters are
/// alphabetic or numeric.
pub fn leading_name_by(cs: &[char], alnum: &[bool]) -> (r: String)
    requires
        cs@.len() == alnum@.len(),
    ensures
        r@ == name_prefix_by(cs@, alnum@),
{
    let mut out: String = String::new();
    let mut i: usize = 0;
    assert(cs@.skip(0) =~= cs@);
    assert(alnum@.skip(0) =~= alnum@);
    assert(out@ + name_prefix_by(cs@, alnum@) =~= name_prefix_by(cs@, alnum@));
    while i < cs.len() && (alnum[i] || cs[i] == '_' || cs[i] == '?' || cs[i] == '!')
        invariant
            i <= cs@.len(),
            cs@.len() == alnum@.len(),
            out@ + name_prefix_by(cs@.skip(i as int), alnum@.skip(i as int)) == name_prefix_by(
                cs@,
                alnum@,
            ),
        decreases cs@.len() - i,
    {
        let ghost before = out@;
        let ghost rest = cs@.skip(i as int);
        let ghost flags = alnum@.skip(i as int);
        assert(rest.drop_first() =~= cs@.skip(i + 1));
        assert(flags.drop_first() =~= alnum@.skip(i + 1));
        out.push(cs[i]);
        assert(out@ + name_prefix_by(rest.drop_first(), flags.drop_first()) =~= before
            + name_prefix_by(rest, flags));
        i = i + 1;
    }
    assert(out@ =~= out@ + name_prefix_by(cs@.skip(i as int), alnum@.skip(i as int)));
    out
}

fn leading_name(cs: &[char]) -> (r: String)
    ensures
        r@ == name_prefix(cs@),
{
    let alnum: Vec<bool> = alphanumerics_of(cs);
    leading_name_by(cs, alnum.as_slice())
}

/// The index of the quote that closes a double-quoted string, of which `s` is what
/// follows the opening quote, looking from `i` on. A backslash takes the character
/// after it out of consideration.
pub open spec fn closing_quote(s: Seq<char>, i: int) -> Option<int>
    decreases s.len() + 1 - i,
{
    if i < 0 || i >= s.len() {
        None
    } else if s[i] == '\\' {
        closing_quote(s, i + 2)
    } else if s[i] == '"' {
        Some(i)
    } else {
        closing_quote(s, i + 1)
    }
}

fn closes(cs: &[char]) -> (r: Option<usize>)
    ensures
        match r {
            Some(i) => closing_quote(cs@, 0) == Some(i as int) && i < cs@.len(),
            None => closing_quote(cs@, 0) is None,
        },
{
    let mut i: usize = 0;
    while i < cs.len()
        invariant
            closing_quote(cs@, 0) == closing_quote(cs@, i as int),
        decreases cs@.len() - i,
    {
        if cs[i] == '\\' {
            if i + 1 >= cs.len() {
                assert(closing_quote(cs@, i + 2) is None);
                return None;
            }
            i = i + 2;
        } else if cs[i] == '"' {
            return Some(i);
        } else {
            i = i + 1;
        }
    }
    None
}

/// `s` with every backslash-quote pair, read from the left, made a plain quote.
pub open spec fn unescape_quotes(s: Seq<char>) -> Seq<char>
    decreases s.len(),
{
    if s.len() == 0 {
        seq![]
    } else if s.len() > 1 && s[0] == '\\' && s[1] == '"' {
        seq!['"'] + unescape_quotes(s.skip(2))
    } else {
        seq![s[0]] + unescape_quotes(s.drop_first())
    }
}

fn unescaped(cs: &[char]) -> (r: Vec<char>)
    ensures
        r@ == unescape_quotes(cs@),
{
    let mut out: Vec<char> = Vec::new();
    let mut i: usize = 0;
    assert(cs@.skip(0) =~= cs@);
    assert(out@ + unescape_quotes(cs@) =~= unescape_quotes(cs@));
    while i < cs.len()
        invariant
            i <= cs@.len(),
            out@ + unescape_quotes(cs@.skip(i as int)) == unescape_quotes(cs@),
        decreases cs@.len() - i,
    {
        let ghost before = out@;
        let ghost rest = cs@.skip(i as int);
        if cs[i] == '\\' && i + 1 < cs.len() && cs[i + 1] == '"' {
            assert(rest.skip(2) =~= cs@.skip(i + 2));
            out.push('"');
            assert(out@ + unescape_quotes(rest.skip(2)) =~= before + unescape_quotes(rest));
            i = i + 2;
        } else {
            assert(rest.drop_first() =~= cs@.skip(i + 1));
            assert(rest.len() > 1 ==> rest[1] == cs@[i + 1]);
            out.push(cs[i]);
            assert(out@ + unescape_quotes(rest.drop_first()) =~= before + unescape_quotes(rest));
            i = i + 1;
        }
    }
    assert(out@ =~= out@ + unescape_quotes(cs@.skip(i as int)));
    out
}

/// A documentation body as it is shown: quotes unescaped, white space trimmed.
pub open spec fn doc_body(s: Seq<char>) -> Seq<char> {
    trim(unescape_quotes(s))
}

fn body_of(cs: &[char]) -> (r: String)
    ensures
        r@ == doc_body(cs@),
{
    let u: Vec<char> = unescaped(cs);
    string_of(trimmed(u.as_slice()))
}

/// `s` without the quote-comma pairs at its end.
pub open spec fn drop_trailing_pairs(s: Seq<char>) -> Seq<char>
    decreases s.len(),
{
    if s.len() > 1 && s.last() == ',' && s[s.len() - 2] == '"' {
        drop_trailing_pairs(s.take(s.len() - 2))
    } else {
        s
    }
}

/// The text of a summary, from what follows `summary:`.
pub open spec fn summary_text(s: Seq<char>) -> Seq<char> {
    drop_trailing_pairs(unquote(trim(s)))
}

fn summary_of(rest: &[char]) -> (r: String)
    ensures
        r@ == summary_text(rest@),
{
    let t: &[char] = unquoted(trimmed(rest));
    let mut n: usize = t.len();
    assert(t@.take(n as int) =~= t@);
    while n > 1 && t[n - 1] == ',' && t[n - 2] == '"'
        invariant
            n <= t@.len(),
            drop_trailing_pairs(t@.take(n as int)) == drop_trailing_pairs(t@),
        decreases n,
    {
        assert(t@.take(n as int).take(n - 2) =~= t@.take(n - 2));
        n = n - 2;
    }
    string_of(slice_subrange(t, 0, n))
}

/// What has been read of a language source.
#[verifier::ext_equal]
pub struct LangState {
    pub entries: Seq<EntryView>,
    /// The name of a block whose summary has not come yet.
    pub pending: Option<Seq<char>>,
    /// The body read so far of a documentation string that is still open. It
    /// belongs to the last entry.
    pub capturing: Option<Seq<char>>,
}

pub open spec fn lang_start() -> LangState {
    LangState { entries: seq![], pending: None, capturing: None }
}

/// The entries with `doc` as the full documentation of the last one.
pub open spec fn with_long_doc(entries: Seq<EntryView>, doc: Seq<char>) -> Seq<EntryView> {
    entries.drop_last().push(EntryView { long_doc: doc, ..entries.last() })
}

/// The entries with the pending name, if any, added without a summary.
pub open spec fn flush_pending(st: LangState) -> Seq<EntryView> {
    match st.pending {
        Some(name) => st.entries.push(plain_entry(name, VocabKind::Func, ""@)),
        None => st.entries,
    }
}

/// The name in a `doc name:` line, from what follows the colon.
pub open spec fn declared_name(rest: Seq<char>) -> Seq<char> {
    match strip_prefix(trim_start(rest), ":"@) {
        Some(t) => name_prefix(t),
        None => seq![],
    }
}

/// One more line of a language source.
pub open spec fn lang_line(st: LangState, line: Seq<char>) -> LangState {
    match st.capturing {
        Some(text) => match closing_quote(line, 0) {
            Some(end) => LangState {
                entries: with_long_doc(st.entries, doc_body(text.push('\n') + line.take(end))),
                capturing: None,
                ..st
            },
            None => LangState { capturing: Some(text.push('\n') + line), ..st },
        },
        None => {
            let t = trim_start(line);
            match strip_prefix(t, "doc name:"@) {
                Some(rest) => {
                    let name = declared_name(rest);
                    if name.len() > 0 {
                        LangState { entries: flush_pending(st), pending: Some(name), ..st }
                    } else {
                        st
                    }
                },
                None => match strip_prefix(t, "summary:"@) {
                    Some(rest) => match st.pending {
                        Some(name) => LangState {
                            entries: st.entries.push(
                                plain_entry(name, VocabKind::Func, summary_text(rest)),
                            ),
                            pending: None,
                            ..st
                        },
                        None => st,
                    },
                    None => match strip_prefix(t, "doc:"@) {
                        Some(rest) => {
                            let q = index_of(rest, '"');
                            if st.entries.len() > 0 && q < rest.len() {
                                let body = rest.skip(q + 1);
                                match closing_quote(body, 0) {
                                    Some(end) => LangState {
                                        entries: with_long_doc(
                                            st.entries,
                                            doc_body(body.take(end)),
                                        ),
                                        ..st
                                    },
                                    None => LangState { capturing: Some(body), ..st },
                                }
                            } else {
                                st
                            }
                        },
                        None => st,
                    },
                },
            }
        },
    }
}

/// The lines `ls` read from state `st` on.
pub open spec fn lang_lines(st: LangState, ls: Seq<Seq<char>>) -> LangState
    decreases ls.len(),
{
    if ls.len() == 0 {
        st
    } else {
        lang_line(lang_lines(st, ls.drop_last()), ls.last())
    }
}

/// The entries that a language source documents.
pub open spec fn lang_docs(rb: Seq<char>) -> Seq<EntryView> {
    flush_pending(lang_lines(lang_start(), lines(rb)))
}

struct LangReader {
    entries: Vec<VocabEntry>,
    pending: Option<String>,
    capturing: Option<Vec<char>>,
}

impl LangReader {
    spec fn view(&self) -> LangState {
        LangState {
            entries: entry_views(self.entries@),
            pending: match self.pending {
                Some(p) => Some(p@),
                None => None,
            },
            capturing: match self.capturing {
                Some(c) => Some(c@),
                None => None,
            },
        }
    }

    spec fn wf(&self) -> bool {
        self.capturing is Some ==> self.entries@.len() > 0
    }
}

fn set_long_doc(entries: &mut Vec<VocabEntry>, doc: String)
    requires
        old(entries)@.len() > 0,
    ensures
        entry_views(final(entries)@) == with_long_doc(entry_views(old(entries)@), doc@),
        final(entries)@.len() == old(entries)@.len(),
{
    let ghost before = entry_views(entries@);
    match entries.pop() {
        Some(e) => {
            let ghost long = doc@;
            let VocabEntry { label, kind, doc: short, opt_docs, long_doc: _ } = e;
            entries.push(VocabEntry { label, kind, doc: short, opt_docs, long_doc: doc });
            assert(entry_views(entries@) =~= with_long_doc(before, long));
        },
        None => {},
    }
}

fn add_function(entries: &mut Vec<VocabEntry>, name: String, doc: &str)
    ensures
        entry_views(final(entries)@) == entry_views(old(entries)@).push(
            plain_entry(name@, VocabKind::Func, doc@),
        ),
        final(entries)@.len() == old(entries)@.len() + 1,
{
    let ghost before = entry_views(entries@);
    let e: VocabEntry = VocabEntry::new(name.as_str(), VocabKind::Func, doc);
    entries.push(e);
    assert(entry_views(entries@) =~= before.push(e@));
}

fn read_lang_line(st: LangReader, line: &[char]) -> (r: LangReader)
    requires
        st.wf(),
    ensures
        r.wf(),
        r@ == lang_line(st@, line@),
{
    let LangReader { mut entries, pending, capturing } = st;
    match capturing {
        Some(mut text) => {
            text.push('\n');
            match closes(line) {
                Some(end) => {
                    let mut part: Vec<char> = chars_of(string_of(slice_subrange(line, 0, end)).as_str());
                    assert(part@ =~= line@.take(end as int));
                    text.append(&mut part);
                    let doc: String = body_of(text.as_slice());
                    set_long_doc(&mut entries, doc);
                    LangReader { entries, pending, capturing: None }
                },
                None => {
                    let mut part: Vec<char> = chars_of(string_of(line).as_str());
                    text.append(&mut part);
                    LangReader { entries, pending, capturing: Some(text) }
                },
            }
        },
        None => {
            let t: &[char] = trimmed_start(line);
            match without_prefix(t, "doc name:") {
                Some(rest) => {
                    let name: String = match without_prefix(trimmed_start(rest), ":") {
                        Some(n) => leading_name(n),
                        None => String::new(),
                    };
                    if name.as_str().unicode_len() > 0 {
                        match pending {
                            Some(prev) => {
                                add_function(&mut entries, prev, "");
                            },
                            None => {},
                        }
                        LangReader { entries, pending: Some(name), capturing: None }
                    } else {
                        LangReader { entries, pending, capturing: None }
                    }
                },
                None => match without_prefix(t, "summary:") {
                    Some(rest) => match pending {
                        Some(name) => {
                            let doc: String = summary_of(rest);
                            add_function(&mut entries, name, doc.as_str());
                            LangReader { entries, pending: None, capturing: None }
                        },
                        None => LangReader { entries, pending: None, capturing: None },
                    },
                    None => match without_prefix(t, "doc:") {
                        Some(rest) => {
                            let q: usize = find_char(rest, '"');
                            if entries.len() > 0 && q < rest.len() {
                                let body: &[char] = slice_subrange(rest, q + 1, rest.len());
                                assert(body@ =~= rest@.skip(q + 1));
                                match closes(body) {
                                    Some(end) => {
                                        let inner: &[char] = slice_subrange(body, 0, end);
                                        assert(inner@ =~= body@.take(end as int));
                                        let doc: String = body_of(inner);
                                        set_long_doc(&mut entries, doc);
                                        LangReader { entries, pending, capturing: None }
                                    },
                                    None => {
                                        let text: Vec<char> = chars_of(string_of(body).as_str());
                                        LangReader { entries, pending, capturing: Some(text) }
                                    },
                                }
                            } else {
                                LangReader { entries, pending, capturing: None }
                            }
                        },
                        None => LangReader { entries, pending, capturing: None },
                    },
                },
            }
        },
    }
}

/// Extracts the `doc name:`, `summary:` and `doc:` blocks of a language source.
/// A block whose summary never comes is an entry with an empty one; a
/// documentation string may span lines.
pub fn parse_lang_docs(rb: &str) -> (r: Vec<VocabEntry>)
    ensures
        entry_views(r@) == lang_docs(rb@),
{
    let cs: Vec<char> = chars_of(rb);
    let ls: Vec<&[char]> = lines_of(cs.as_slice());
    let mut st: LangReader = LangReader { entries: Vec::new(), pending: None, capturing: None };
    assert(st@ =~= lang_start());
    let mut i: usize = 0;
    let ghost all = lines(rb@);
    while i < ls.len()
        invariant
            i <= ls@.len(),
            views(ls@) == all,
            st.wf(),
            st@ == lang_lines(lang_start(), all.take(i as int)),
        decreases ls@.len() - i,
    {
        st = read_lang_line(st, ls[i]);
        i = i + 1;
        assert(all.take(i as int).drop_last() =~= all.take(i - 1));
    }
    assert(all.take(i as int) =~= all);
    let LangReader { mut entries, pending, capturing: _ } = st;
    match pending {
        Some(name) => {
            add_function(&mut entries, name, "");
        },
        None => {},
    }
    entries
}

} // verus!
