//! A buffer as runs of text for assistive technology: one run a line, with the
//! length of each character and the places where words start.

use crate::text::{
    chars_of, index_of, is_white_space, join, last_index_of, law_join_of_split, lemma_index_of,
    lemma_index_of_is, split, split_at_char, string_of, views, white_space,
};
use crate::utf8::{
    byte_len, char_bytes, char_width, chars_in_bytes, chars_within, lemma_byte_len_push,
    lemma_char_bytes,
};
use crate::vocab::lang::{alphanumeric, alphanumerics, alphanumerics_of};
use std::ops::Range;
use vstd::prelude::*;
use vstd::string::*;
use vstd::utf8::{encode_utf8, is_char_boundary};

verus! {

/// The kinds of character that words are made of.
#[derive(Clone, Copy, PartialEq, Eq, Structural, Debug)]
pub enum CharClass {
    Space,
    Ident,
    Punct,
}

/// The kind of a character, `alnum` telling whether it is alphabetic or numeric.
pub open spec fn class_by(c: char, alnum: bool) -> CharClass {
    if is_white_space(c) {
        CharClass::Space
    } else if alnum || c == '_' {
        CharClass::Ident
    } else {
        CharClass::Punct
    }
}

/// The kind of a character.
pub open spec fn class_of(c: char) -> CharClass {
    class_by(c, alphanumeric(c))
}

fn char_class(c: char, alnum: bool) -> (r: CharClass)
    ensures
        r == class_by(c, alnum),
{
    if white_space(c) {
        CharClass::Space
    } else if alnum || c == '_' {
        CharClass::Ident
    } else {
        CharClass::Punct
    }
}

/// Whether a word starts at index `i` of `s`: at the very start, and where a run
/// of identifier characters or of punctuation begins. White space belongs to the
/// word before it. `alnum` tells which characters are alphabetic or numeric.
pub open spec fn starts_word_by(s: Seq<char>, alnum: Seq<bool>, i: int) -> bool {
    i == 0 || (class_by(s[i], alnum[i]) != CharClass::Space && class_by(s[i], alnum[i])
        != class_by(s[i - 1], alnum[i - 1]))
}

/// Whether a word starts at index `i` of `s`.
pub open spec fn starts_word(s: Seq<char>, i: int) -> bool {
    i == 0 || (class_of(s[i]) != CharClass::Space && class_of(s[i]) != class_of(s[i - 1]))
}

/// The word starts among the first `n` characters of `s`.
pub open spec fn starts_before(s: Seq<char>, alnum: Seq<bool>, n: int) -> Seq<u8>
    decreases n,
{
    if n <= 0 {
        seq![]
    } else if starts_word_by(s, alnum, n - 1) {
        starts_before(s, alnum, n - 1).push((n - 1) as u8)
    } else {
        starts_before(s, alnum, n - 1)
    }
}

/// The word starts of `s`, as far as a byte can count, `alnum` telling which
/// characters are alphabetic or numeric.
pub open spec fn word_starts_given(s: Seq<char>, alnum: Seq<bool>) -> Seq<u8> {
    starts_before(
        s,
        alnum,
        if s.len() < 256 {
            s.len() as int
        } else {
            256
        },
    )
}

/// The word starts of `s`, as far as a byte can count.
pub open spec fn word_starts_of(s: Seq<char>) -> Seq<u8> {
    word_starts_given(s, alphanumerics(s))
}

/// The indices among the first 256 characters of a text at which a word starts, in
/// order, `alnum` telling which characters are alphabetic or numeric.
pub fn word_starts_by(cs: &[char], alnum: &[bool]) -> (r: Vec<u8>)
    requires
        cs@.len() == alnum@.len(),
    ensures
        r@ == word_starts_given(cs@, alnum@),
{
    let mut starts: Vec<u8> = Vec::new();
    let mut i: usize = 0;
    let n: usize = if cs.len() < 256 {
        cs.len()
    } else {
        256
    };
    while i < n
        invariant
            i <= n <= cs@.len(),
            cs@.len() == alnum@.len(),
            n <= 256,
            starts@ == starts_before(cs@, alnum@, i as int),
        decreases n - i,
    {
        let class: CharClass = char_class(cs[i], alnum[i]);
        let is_start: bool = i == 0 || (class != CharClass::Space && class != char_class(
            cs[i - 1],
            alnum[i - 1],
        ));
        if is_start {
            starts.push(i as u8);
        }
        i = i + 1;
    }
    starts
}

/// The indices among the first 256 characters of `value` at which a word starts,
/// in order.
pub fn word_starts(value: &str) -> (r: Vec<u8>)
    ensures
        r@ == word_starts_of(value@),
{
    let cs: Vec<char> = chars_of(value);
    let alnum: Vec<bool> = alphanumerics_of(cs.as_slice());
    word_starts_by(cs.as_slice(), alnum.as_slice())
}

/// The word starts are the indices of a byte's range at which a word starts, each
/// once and in order.
pub proof fn law_word_starts_are_exact(s: Seq<char>)
    ensures
        forall|i: int, j: int|
            0 <= i < j < word_starts_of(s).len() ==> word_starts_of(s)[i] < word_starts_of(s)[j],
        forall|k: u8|
            #[trigger] word_starts_of(s).contains(k) <==> k < s.len() && starts_word(s, k as int),
{
    let n = if s.len() < 256 {
        s.len() as int
    } else {
        256
    };
    let alnum = alphanumerics(s);
    lemma_starts_before(s, alnum, n);
    assert forall|k: u8|
        #[trigger] word_starts_of(s).contains(k) <==> k < s.len() && starts_word(s, k as int) by {
        if k < s.len() {
            assert(starts_word_by(s, alnum, k as int) == starts_word(s, k as int));
        }
    }
}

proof fn lemma_starts_before(s: Seq<char>, alnum: Seq<bool>, n: int)
    requires
        0 <= n <= 256,
    ensures
        forall|i: int, j: int|
            0 <= i < j < starts_before(s, alnum, n).len() ==> starts_before(s, alnum, n)[i]
                < starts_before(s, alnum, n)[j],
        forall|k: u8|
            #[trigger] starts_before(s, alnum, n).contains(k) <==> k < n && starts_word_by(
                s,
                alnum,
                k as int,
            ),
    decreases n,
{
    if n > 0 {
        let a = starts_before(s, alnum, n - 1);
        lemma_starts_before(s, alnum, n - 1);
        let b = starts_before(s, alnum, n);
        assert forall|i: int| 0 <= i < a.len() implies #[trigger] a[i] < n - 1 by {
            assert(a.contains(a[i]));
        }
        assert forall|k: u8| #[trigger]
            b.contains(k) <==> k < n && starts_word_by(s, alnum, k as int) by {
            if starts_word_by(s, alnum, n - 1) {
                if k == n - 1 {
                    assert(b[b.len() - 1] == k);
                } else if a.contains(k) {
                    let i = choose|i: int| 0 <= i < a.len() && a[i] == k;
                    assert(b[i] == k);
                } else if b.contains(k) {
                    let i = choose|i: int| 0 <= i < b.len() && b[i] == k;
                    assert(a[i] == k);
                }
            }
            assert(a.contains(k) <==> k < n - 1 && starts_word_by(s, alnum, k as int));
        }
    }
}

/// One line of a buffer as a run of text.
pub struct LineRun {
    /// The line with its break; the last line has none.
    pub value: String,
    /// The number of bytes of each character.
    pub char_lengths: Vec<u8>,
    /// The indices of the characters at which a word starts, up to 255.
    pub word_starts: Vec<u8>,
}

#[verifier::ext_equal]
pub struct RunView {
    pub value: Seq<char>,
    pub char_lengths: Seq<u8>,
    pub word_starts: Seq<u8>,
}

impl View for LineRun {
    type V = RunView;

    open spec fn view(&self) -> RunView {
        RunView {
            value: self.value@,
            char_lengths: self.char_lengths@,
            word_starts: self.word_starts@,
        }
    }
}

pub open spec fn run_views(v: Seq<LineRun>) -> Seq<RunView> {
    Seq::new(v.len(), |i: int| v[i]@)
}

/// The number of bytes of each character of `s`.
pub open spec fn lengths(s: Seq<char>) -> Seq<u8> {
    Seq::new(s.len(), |i: int| char_bytes(s[i]) as u8)
}

/// The run of the text `value`.
pub open spec fn run_of(value: Seq<char>) -> RunView {
    RunView { value, char_lengths: lengths(value), word_starts: word_starts_of(value) }
}

/// The lines of `s`, each with its break, which the last line lacks.
pub open spec fn run_values(s: Seq<char>) -> Seq<Seq<char>> {
    let ls = split(s, '\n');
    Seq::new(
        ls.len(),
        |i: int|
            if i == ls.len() - 1 {
                ls[i]
            } else {
                ls[i].push('\n')
            },
    )
}

/// The runs of the text `s`.
pub open spec fn runs_of(s: Seq<char>) -> Seq<RunView> {
    run_values(s).map_values(|v: Seq<char>| run_of(v))
}

fn line_run(value: String) -> (r: LineRun)
    ensures
        r@ == run_of(value@),
{
    let cs: Vec<char> = chars_of(value.as_str());
    let mut char_lengths: Vec<u8> = Vec::new();
    let mut i: usize = 0;
    while i < cs.len()
        invariant
            i <= cs@.len(),
            char_lengths@ == lengths(cs@).take(i as int),
        decreases cs@.len() - i,
    {
        let w: usize = char_width(cs[i]);
        char_lengths.push(w as u8);
        i = i + 1;
        assert(char_lengths@ =~= lengths(cs@).take(i as int));
    }
    assert(lengths(cs@).take(i as int) =~= lengths(cs@));
    let word_starts: Vec<u8> = word_starts(value.as_str());
    LineRun { value, char_lengths, word_starts }
}

/// Splits a buffer into one run a line.
pub fn line_runs(text: &str) -> (r: Vec<LineRun>)
    ensures
        run_views(r@) == runs_of(text@),
{
    let cs: Vec<char> = chars_of(text);
    let ls: Vec<&[char]> = split_at_char(cs.as_slice(), '\n');
    let ghost all = views(ls@);
    let mut out: Vec<LineRun> = Vec::new();
    let mut i: usize = 0;
    while i < ls.len()
        invariant
            i <= ls@.len(),
            all == views(ls@),
            all == split(text@, '\n'),
            run_views(out@) == runs_of(text@).take(i as int),
        decreases ls@.len() - i,
    {
        let ghost before = run_views(out@);
        assert(all[i as int] == ls@[i as int]@);
        let mut value: String = string_of(ls[i]);
        if i < ls.len() - 1 {
            value.push('\n');
        }
        assert(value@ == run_values(text@)[i as int]);
        let run: LineRun = line_run(value);
        out.push(run);
        i = i + 1;
        assert(run_views(out@) =~= before.push(run@));
        assert(run_views(out@) =~= runs_of(text@).take(i as int));
    }
    assert(runs_of(text@).take(i as int) =~= runs_of(text@));
    out
}

/// The texts put one after the other.
pub open spec fn concat(parts: Seq<Seq<char>>) -> Seq<char>
    decreases parts.len(),
{
    if parts.len() == 0 {
        seq![]
    } else {
        concat(parts.drop_last()) + parts.last()
    }
}

proof fn lemma_concat_of_broken(ls: Seq<Seq<char>>)
    requires
        ls.len() > 0,
    ensures
        concat(
            Seq::new(
                ls.len(),
                |i: int|
                    if i == ls.len() - 1 {
                        ls[i]
                    } else {
                        ls[i].push('\n')
                    },
            ),
        ) == join(ls, seq!['\n']),
    decreases ls.len(),
{
    let f = |n: int| Seq::new(n as nat, |i: int| ls[i].push('\n'));
    lemma_concat_breaks(ls, ls.len() - 1);
    let vs = Seq::new(
        ls.len(),
        |i: int|
            if i == ls.len() - 1 {
                ls[i]
            } else {
                ls[i].push('\n')
            },
    );
    assert(vs.drop_last() =~= f(ls.len() - 1));
    assert(ls.take(ls.len() as int) =~= ls);
    if ls.len() == 1 {
        assert(concat(vs.drop_last()) =~= seq![]);
        assert(concat(vs) =~= ls[0]);
    } else {
        assert(ls.drop_last() =~= ls.take(ls.len() - 1));
        assert(concat(vs) =~= join(ls, seq!['\n']));
    }
}

proof fn lemma_concat_breaks(ls: Seq<Seq<char>>, n: int)
    requires
        0 <= n <= ls.len(),
    ensures
        n > 0 ==> concat(Seq::new(n as nat, |i: int| ls[i].push('\n'))) == join(
            ls.take(n),
            seq!['\n'],
        ) + seq!['\n'],
    decreases n,
{
    if n > 0 {
        let vs = Seq::new(n as nat, |i: int| ls[i].push('\n'));
        let us = Seq::new((n - 1) as nat, |i: int| ls[i].push('\n'));
        assert(vs.drop_last() =~= us);
        lemma_concat_breaks(ls, n - 1);
        assert(ls.take(n).drop_last() =~= ls.take(n - 1));
        if n == 1 {
            assert(concat(us) =~= seq![]);
            assert(concat(vs) =~= join(ls.take(n), seq!['\n']) + seq!['\n']);
        } else {
            assert(concat(vs) =~= join(ls.take(n), seq!['\n']) + seq!['\n']);
        }
    }
}

/// The runs of a text, one after the other, are the text.
pub proof fn law_runs_cover_the_text(s: Seq<char>)
    ensures
        concat(run_values(s)) == s,
{
    law_join_of_split(s, '\n');
    lemma_concat_of_broken(split(s, '\n'));
}

pub open spec fn sum(ns: Seq<u8>) -> int
    decreases ns.len(),
{
    if ns.len() == 0 {
        0
    } else {
        sum(ns.drop_last()) + ns.last()
    }
}

/// The character lengths of a run add up to the bytes of its text.
pub proof fn law_lengths_add_up(s: Seq<char>)
    ensures
        sum(lengths(s)) == byte_len(s),
    decreases s.len(),
{
    if s.len() > 0 {
        law_lengths_add_up(s.drop_last());
        assert(lengths(s).drop_last() =~= lengths(s.drop_last()));
        lemma_byte_len_push(s.drop_last(), s.last());
        lemma_char_bytes(s.last());
        assert(s.drop_last().push(s.last()) =~= s);
    }
}

/// How often `c` stands in `s`.
pub open spec fn occurrences(s: Seq<char>, c: char) -> int
    decreases s.len(),
{
    if s.len() == 0 {
        0
    } else if s.last() == c {
        1 + occurrences(s.drop_last(), c)
    } else {
        occurrences(s.drop_last(), c)
    }
}

/// The line of the character at index `k` of `s`, and its place in that line. A
/// line break belongs to the line it ends.
pub open spec fn position_of(s: Seq<char>, k: int) -> (int, int) {
    (occurrences(s.take(k), '\n'), k - 1 - last_index_of(s.take(k), '\n'))
}

fn char_position(cs: &[char], k: usize) -> (r: (usize, usize))
    requires
        k <= cs@.len(),
    ensures
        (r.0 as int, r.1 as int) == position_of(cs@, k as int),
{
    let mut line: usize = 0;
    let mut col: usize = 0;
    let mut i: usize = 0;
    assert(cs@.take(0) =~= seq![]);
    while i < k
        invariant
            i <= k <= cs@.len(),
            line <= i,
            col <= i,
            (line as int, col as int) == position_of(cs@, i as int),
        decreases k - i,
    {
        assert(cs@.take(i + 1).drop_last() =~= cs@.take(i as int));
        if cs[i] == '\n' {
            line = line + 1;
            col = 0;
        } else {
            col = col + 1;
        }
        i = i + 1;
    }
    (line, col)
}

proof fn lemma_concat_first(parts: Seq<Seq<char>>)
    requires
        parts.len() > 0,
    ensures
        concat(parts) == parts[0] + concat(parts.drop_first()),
    decreases parts.len(),
{
    if parts.len() == 1 {
        assert(concat(parts.drop_last()) =~= seq![]);
        assert(concat(parts) =~= parts[0] + concat(parts.drop_first()));
    } else {
        lemma_concat_first(parts.drop_last());
        assert(parts.drop_last().drop_first() =~= parts.drop_first().drop_last());
        assert(concat(parts) =~= parts[0] + concat(parts.drop_first()));
    }
}

proof fn lemma_after_break(a: Seq<char>, b: Seq<char>)
    requires
        a.len() > 0,
        a.last() == '\n',
    ensures
        occurrences(a + b, '\n') == occurrences(a, '\n') + occurrences(b, '\n'),
        last_index_of(a + b, '\n') == a.len() + last_index_of(b, '\n'),
    decreases b.len(),
{
    if b.len() == 0 {
        assert(a + b =~= a);
    } else {
        assert((a + b).drop_last() =~= a + b.drop_last());
        lemma_after_break(a, b.drop_last());
    }
}

proof fn lemma_without_break(s: Seq<char>)
    requires
        forall|j: int| 0 <= j < s.len() ==> s[j] != '\n',
    ensures
        occurrences(s, '\n') == 0,
        last_index_of(s, '\n') == -1,
    decreases s.len(),
{
    if s.len() > 0 {
        lemma_without_break(s.drop_last());
    }
}

/// A position names a run that is there and a place in it, and tells how far into
/// the text it is: past the runs before it, and the characters before it in its
/// own.
pub proof fn law_position_lies_in_its_run(s: Seq<char>, k: int)
    requires
        0 <= k <= s.len(),
    ensures
        ({
            let (line, at) = position_of(s, k);
            &&& 0 <= line < run_values(s).len()
            &&& 0 <= at <= split(s, '\n')[line].len()
            &&& concat(run_values(s).take(line)).len() + at == k
        }),
    decreases s.len(),
{
    lemma_index_of(s, '\n');
    let i = index_of(s, '\n');
    let rs = run_values(s);
    if k <= i {
        lemma_without_break(s.take(k));
        assert(rs.take(0) =~= seq![]);
    } else {
        let t = s.skip(i + 1);
        let m = k - i - 1;
        law_position_lies_in_its_run(t, m);
        let a = s.take(i + 1);
        assert(s.take(k) =~= a + t.take(m));
        lemma_after_break(a, t.take(m));
        assert(a.drop_last() =~= s.take(i));
        lemma_without_break(s.take(i));
        let (line, at) = position_of(s, k);
        let ts = run_values(t);
        assert(split(s, '\n') == seq![s.take(i)] + split(t, '\n'));
        assert(split(t, '\n').len() > 0) by {
            law_join_of_split(t, '\n');
        }
        assert(rs =~= seq![a] + ts) by {
            assert(s.take(i).push('\n') =~= a);
        }
        lemma_concat_first(rs.take(line));
        assert(rs.take(line).drop_first() =~= ts.take(line - 1));
    }
}

/// Where byte `byte` of `text` stands: the index of its line, and the index of its
/// character in that line's run. An offset past the end counts as the end.
pub fn byte_to_text_position(text: &str, byte: usize) -> (r: (usize, usize))
    requires
        byte < byte_len(text@) ==> is_char_boundary(encode_utf8(text@), byte as int),
    ensures
        (r.0 as int, r.1 as int) == position_of(text@, chars_within(text@, byte as int)),
{
    let cs: Vec<char> = chars_of(text);
    let k: usize = chars_in_bytes(cs.as_slice(), byte);
    char_position(cs.as_slice(), k)
}

/// The end of a selection that is not the caret.
pub open spec fn anchor_of(start: int, end: int, cursor: int) -> int {
    if cursor == end {
        start
    } else {
        end
    }
}

/// A selection in runs: the fixed end and the caret, each as a run and a character
/// in it. `None` where one of them lies on a run that is not known yet.
pub fn text_selection(
    text: &str,
    selection: Range<usize>,
    cursor: usize,
    known_runs: usize,
) -> (r: Option<((usize, usize), (usize, usize))>)
    requires
        forall|b: int|
            (b == selection.start || b == selection.end || b == cursor) && b < byte_len(text@)
                ==> #[trigger] is_char_boundary(encode_utf8(text@), b),
    ensures
        ({
            let anchor = position_of(
                text@,
                chars_within(
                    text@,
                    anchor_of(selection.start as int, selection.end as int, cursor as int),
                ),
            );
            let focus = position_of(text@, chars_within(text@, cursor as int));
            match r {
                Some((a, f)) => {
                    &&& (a.0 as int, a.1 as int) == anchor
                    &&& (f.0 as int, f.1 as int) == focus
                    &&& anchor.0 < known_runs
                    &&& focus.0 < known_runs
                },
                None => anchor.0 >= known_runs || focus.0 >= known_runs,
            }
        }),
{
    let fixed: usize = if cursor == selection.end {
        selection.start
    } else {
        selection.end
    };
    let anchor: (usize, usize) = byte_to_text_position(text, fixed);
    let focus: (usize, usize) = byte_to_text_position(text, cursor);
    if anchor.0 < known_runs && focus.0 < known_runs {
        Some((anchor, focus))
    } else {
        None
    }
}

/// White space is space, letters, digits and underscores make identifiers, and all
/// else is punctuation.
pub proof fn law_characters_have_their_class(c: char, alnum: bool)
    ensures
        is_white_space(c) <==> class_by(c, alnum) == CharClass::Space,
        !is_white_space(c) && alnum ==> class_by(c, alnum) == CharClass::Ident,
        class_by('_', false) == CharClass::Ident,
        !is_white_space(c) && !alnum && c != '_' ==> class_by(c, alnum) == CharClass::Punct,
{
}

/// A word starts at the start of the text, and where identifier characters or
/// punctuation follow something else. No word starts at white space further on, nor
/// inside a run of one class.
pub proof fn law_words_start_where_the_class_changes(s: Seq<char>, i: int)
    requires
        0 < i < s.len(),
    ensures
        starts_word(s, 0),
        is_white_space(s[i]) ==> !starts_word(s, i),
        is_white_space(s[i - 1]) && !is_white_space(s[i]) ==> starts_word(s, i),
        class_of(s[i - 1]) == class_of(s[i]) ==> !starts_word(s, i),
        class_of(s[i - 1]) == CharClass::Ident && class_of(s[i]) == CharClass::Punct ==> starts_word(
            s,
            i,
        ),
        class_of(s[i - 1]) == CharClass::Punct && class_of(s[i]) == CharClass::Ident ==> starts_word(
            s,
            i,
        ),
{
}

/// A text of two lines and more has a run for its first line, with the break, and
/// then the runs of the rest; one line alone is one run.
pub proof fn law_runs_are_lines_with_their_breaks(line: Seq<char>, rest: Seq<char>)
    requires
        forall|j: int| 0 <= j < line.len() ==> line[j] != '\n',
    ensures
        run_values(line) == seq![line],
        run_values(line + "\n"@ + rest) == seq![line + "\n"@] + run_values(rest),
{
    reveal_strlit("\n");
    lemma_index_of_is(line, '\n', line.len() as int);
    assert(split(line, '\n') =~= seq![line]);
    assert(run_values(line) =~= seq![line]);
    let s = line + "\n"@ + rest;
    lemma_index_of_is(s, '\n', line.len() as int);
    assert(s.take(line.len() as int) =~= line);
    assert(s.skip(line.len() as int + 1) =~= rest);
    law_join_of_split(rest, '\n');
    assert(line.push('\n') =~= line + "\n"@);
    assert(run_values(s) =~= seq![line + "\n"@] + run_values(rest));
}

/// Each run holds its line, the bytes of each of its characters and its word starts.
pub proof fn law_runs_describe_their_line(s: Seq<char>, k: int, i: int)
    requires
        0 <= k < run_values(s).len(),
        0 <= i < run_values(s)[k].len(),
    ensures
        runs_of(s).len() == run_values(s).len(),
        runs_of(s)[k].value == run_values(s)[k],
        runs_of(s)[k].char_lengths.len() == run_values(s)[k].len(),
        runs_of(s)[k].char_lengths[i] == char_bytes(run_values(s)[k][i]),
        runs_of(s)[k].word_starts == word_starts_of(run_values(s)[k]),
{
    lemma_char_bytes(run_values(s)[k][i]);
}

/// A position counts the breaks before it, and the characters since the last one.
pub proof fn law_positions_count_lines_and_characters(line: Seq<char>, rest: Seq<char>, k: int)
    requires
        forall|j: int| 0 <= j < line.len() ==> line[j] != '\n',
        0 <= k <= rest.len(),
    ensures
        ({
            let s = line + "\n"@ + rest;
            &&& position_of(s, line.len() as int) == (0int, line.len() as int)
            &&& position_of(s, line.len() + 1 + k) == (position_of(rest, k).0 + 1, position_of(
                rest,
                k,
            ).1)
        }),
{
    reveal_strlit("\n");
    let s = line + "\n"@ + rest;
    lemma_without_break(line);
    assert(s.take(line.len() as int) =~= line);
    let a = line + "\n"@;
    assert(s.take(line.len() + 1 + k) =~= a + rest.take(k));
    lemma_after_break(a, rest.take(k));
    assert(a.drop_last() =~= line);
}

/// The fixed end of a selection is the one that the caret is not at.
pub proof fn law_anchor_is_across_from_the_caret(start: int, end: int)
    ensures
        anchor_of(start, end, end) == start,
        start != end ==> anchor_of(start, end, start) == end,
{
}

} // verus!
