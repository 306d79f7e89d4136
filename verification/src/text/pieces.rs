//! How texts come apart and together: white space, lines, words, quotes and places.

use super::{
    blank, contains, drop_leading_quotes, drop_trailing_quotes, find, is_white_space, join, lacks,
    lemma_index_of_is, lemma_trim_start_padded, lines, occurs_at, split_once, strip_cr,
    strip_prefix, trim_start, unquote, words,
};
use vstd::prelude::*;
use vstd::string::*;

verus! {

/// Spaces, tabs and line breaks are white space, and so are the wide and the
/// non-breaking ones; what can be seen is not, nor is a joiner without width.
pub proof fn law_what_white_space_is(c: char)
    ensures
        is_white_space(' ') && is_white_space('\t') && is_white_space('\n') && is_white_space('\r'),
        c as u32 == 0x0b || c as u32 == 0x0c || c as u32 == 0x85 || c as u32 == 0xa0
            ==> is_white_space(c),
        c as u32 == 0x1680 || 0x2000 <= c as u32 <= 0x200a || c as u32 == 0x3000
            ==> is_white_space(c),
        c as u32 == 0x2028 || c as u32 == 0x2029 || c as u32 == 0x202f || c as u32 == 0x205f
            ==> is_white_space(c),
        0x21 <= c as u32 <= 0x7e ==> !is_white_space(c),
        c as u32 <= 0x08 || 0x0e <= c as u32 <= 0x1f ==> !is_white_space(c),
        c as u32 == 0x200b || c as u32 == 0x2060 || c as u32 == 0xfeff ==> !is_white_space(c),
        0x3001 <= c as u32 ==> !is_white_space(c),
{
}

/// A line ends at its line feed, with or without a carriage return before it. What
/// follows the last line feed is a line if there is anything.
pub proof fn law_lines_end_at_line_feeds(a: Seq<char>, rest: Seq<char>)
    requires
        lacks(a, '\n'),
        a.len() > 0 ==> a.last() != '\r',
    ensures
        lines(a + "\n"@ + rest) == seq![a] + lines(rest),
        lines(a + "\r\n"@ + rest) == seq![a] + lines(rest),
        a.len() > 0 ==> lines(a) == seq![a],
        lines(""@).len() == 0,
{
    reveal_strlit("\n");
    reveal_strlit("\r\n");
    reveal_strlit("");
    let n = a.len() as int;
    let s = a + "\n"@ + rest;
    lemma_index_of_is(s, '\n', n);
    assert(s.take(n) =~= a);
    assert(s.skip(n + 1) =~= rest);
    let t = a + "\r\n"@ + rest;
    lemma_index_of_is(t, '\n', n + 1);
    assert(t.take(n + 1) =~= a.push('\r'));
    assert(a.push('\r').drop_last() =~= a);
    assert(strip_cr(t.take(n + 1)) == a);
    assert(t.skip(n + 2) =~= rest);
    lemma_index_of_is(a, '\n', n);
}

/// A text is cut at the first of a character, and only where it is.
pub proof fn law_texts_are_cut_at_the_first(a: Seq<char>, c: char, b: Seq<char>)
    requires
        lacks(a, c),
    ensures
        split_once(a + seq![c] + b, c) == Some((a, b)),
        split_once(a, c) is None,
{
    let s = a + seq![c] + b;
    let n = a.len() as int;
    lemma_index_of_is(s, c, n);
    assert(s.take(n) =~= a);
    assert(s.skip(n + 1) =~= b);
    lemma_index_of_is(a, c, n);
}

/// What is found is the first occurrence, and one is found whenever there is any.
pub proof fn law_first_occurrence_is_found(s: Seq<char>, p: Seq<char>, j: int)
    requires
        occurs_at(s, p, j),
    ensures
        contains(s, p),
        find(s, p) matches Some(i) && 0 <= i <= j && occurs_at(s, p, i),
    decreases s.len(),
{
    super::lemma_find(s, p);
    if !p.is_prefix_of(s) {
        if j == 0 {
            assert(s.subrange(0, p.len() as int) =~= s.take(p.len() as int));
            assert(p.is_prefix_of(s));
        } else {
            let t = s.drop_first();
            assert(t.subrange(j - 1, j - 1 + p.len()) =~= s.subrange(j, j + p.len()));
            law_first_occurrence_is_found(t, p, j - 1);
        }
    }
}

/// What stands behind a prefix is left when it is taken off; without the prefix
/// nothing is.
pub proof fn law_prefix_comes_off(p: Seq<char>, s: Seq<char>)
    ensures
        strip_prefix(p + s, p) == Some(s),
        strip_prefix(s, p) matches Some(t) ==> s == p + t,
        s.len() < p.len() ==> strip_prefix(s, p) is None,
{
    assert((p + s).take(p.len() as int) =~= p);
    assert(p.is_prefix_of(p + s));
    assert((p + s).skip(p.len() as int) =~= s);
    if p.is_prefix_of(s) {
        assert(s =~= p + s.skip(p.len() as int));
    }
}

/// White space in front adds no word.
pub proof fn law_words_ignore_white_space_in_front(pad: Seq<char>, s: Seq<char>)
    requires
        blank(pad),
    ensures
        words(pad + s) == words(s),
        words(pad).len() == 0,
{
    lemma_trim_start_padded(pad, s);
    let none = Seq::<char>::empty();
    lemma_trim_start_padded(pad, none);
    assert(pad + none =~= pad);
    assert(trim_start(none) == none);
}

/// Quotes around a text come off, and a text without them stays.
pub proof fn law_quotes_come_off(s: Seq<char>)
    requires
        s.len() > 0 ==> s[0] != '"' && s.last() != '"',
    ensures
        unquote(s) == s,
        unquote("\""@ + s + "\""@) == s,
{
    reveal_strlit("\"");
    reveal_with_fuel(drop_leading_quotes, 3);
    reveal_with_fuel(drop_trailing_quotes, 3);
    let q = "\""@ + s + "\""@;
    let open = s + "\""@;
    assert(q.drop_first() =~= open);
    if s.len() > 0 {
        assert(open[0] == s[0]);
        assert(drop_leading_quotes(q) == open);
        assert(open.drop_last() =~= s);
    } else {
        assert(open.drop_first() =~= s);
        assert(drop_leading_quotes(q) =~= s);
    }
}

/// Pieces are joined in their order with the separator between neighbours.
pub proof fn law_separator_stands_between(pieces: Seq<Seq<char>>, p: Seq<char>, sep: Seq<char>)
    ensures
        join(Seq::empty(), sep) == ""@,
        join(seq![p], sep) == p,
        pieces.len() > 0 ==> join(pieces.push(p), sep) == join(pieces, sep) + sep + p,
{
    reveal_strlit("");
    assert(join(Seq::empty(), sep) =~= ""@);
    assert(pieces.push(p).drop_last() =~= pieces);
}

} // verus!
