//! Indentation by block structure: two spaces a level.

use crate::text::{
    blank, chars_of, contains, ends_with_text, find_white_space, has_chars, is_text, is_white_space,
    join, joined, lacks, law_join_of_split, law_split_of_join, law_trim_padded, lemma_trim_lacks,
    lemma_trim_result, split, split_at_char, string_of, string_views, trim, trim_start, trimmed,
    trimmed_start, views, begins_with_text, white_space, white_space_index,
};
use vstd::prelude::*;
use vstd::slice::slice_subrange;
use vstd::string::*;

verus! {

/// The first word of `t`; empty when it has none.
pub open spec fn first_word(t: Seq<char>) -> Seq<char> {
    let u = trim_start(t);
    u.take(white_space_index(u))
}

/// Where the first white space, full stop or semicolon of `t` stands, or its
/// length.
pub open spec fn keyword_end(t: Seq<char>) -> int
    decreases t.len(),
{
    if t.len() == 0 || is_white_space(t[0]) || t[0] == '.' || t[0] == ';' {
        0
    } else {
        1 + keyword_end(t.drop_first())
    }
}

/// Whether a statement that begins with the word `w` opens a block.
pub open spec fn opener(w: Seq<char>) -> bool {
    w == "def"@ || w == "if"@ || w == "unless"@ || w == "while"@ || w == "until"@ || w == "case"@
        || w == "begin"@
}

/// Whether a line that begins with the keyword `w` stands one level out.
pub open spec fn outdented(w: Seq<char>) -> bool {
    w == "end"@ || w == "else"@ || w == "elsif"@ || w == "when"@ || w == "rescue"@ || w
        == "ensure"@
}

/// Whether the trimmed line `t` opens a block: it ends in `do`, with or without
/// block arguments, or begins with an opening word. A word in the middle of a
/// line, as in `play 60 if x`, opens none, and neither does a comment.
pub open spec fn opens_block(t: Seq<char>) -> bool {
    &&& !(t.len() > 0 && t[0] == '#')
    &&& {
        ||| " do"@.is_suffix_of(t)
        ||| t == "do"@
        ||| contains(t, " do |"@) && "|"@.is_suffix_of(t)
        ||| opener(first_word(t))
    }
}

/// Whether the trimmed line `t` stands one level out of the block it is in.
pub open spec fn dedents_self(t: Seq<char>) -> bool {
    outdented(t.take(keyword_end(t)))
}

/// Whether the trimmed line `t` closes a block.
pub open spec fn closes_block(t: Seq<char>) -> bool {
    t == "end"@ || "end."@.is_prefix_of(t) || "end "@.is_prefix_of(t)
}

/// One less than `d`, but not below zero.
pub open spec fn out_one(d: int) -> int {
    if d > 0 {
        d - 1
    } else {
        0
    }
}

/// The depth after the trimmed line `t`, when it is `d` before it.
pub open spec fn depth_after(d: int, t: Seq<char>) -> int {
    if t.len() == 0 {
        d
    } else if closes_block(t) {
        out_one(d)
    } else if opens_block(t) {
        d + 1
    } else {
        d
    }
}

/// The depth of blocks after the lines `ls`.
pub open spec fn block_depth(ls: Seq<Seq<char>>) -> int
    decreases ls.len(),
{
    if ls.len() == 0 {
        0
    } else {
        depth_after(block_depth(ls.drop_last()), trim(ls.last()))
    }
}

/// `n` spaces.
pub open spec fn spaces(n: nat) -> Seq<char> {
    Seq::new(n, |i: int| ' ')
}

/// The line `l` as it stands at depth `d`. A blank line is left empty.
pub open spec fn indented(l: Seq<char>, d: int) -> Seq<char> {
    let t = trim(l);
    if t.len() == 0 {
        seq![]
    } else {
        spaces((2 * if dedents_self(t) {
            out_one(d)
        } else {
            d
        }) as nat) + t
    }
}

/// Each line at the depth that the lines before it lead to.
pub open spec fn indented_lines(ls: Seq<Seq<char>>) -> Seq<Seq<char>> {
    Seq::new(ls.len(), |i: int| indented(ls[i], block_depth(ls.take(i))))
}

/// A text with each line at its depth.
pub open spec fn reindented(s: Seq<char>) -> Seq<char> {
    join(indented_lines(split(s, '\n')), "\n"@)
}

proof fn lemma_block_depth(ls: Seq<Seq<char>>)
    ensures
        0 <= block_depth(ls) <= ls.len(),
    decreases ls.len(),
{
    if ls.len() > 0 {
        lemma_block_depth(ls.drop_last());
    }
}

fn is_opener(w: &[char]) -> (r: bool)
    ensures
        r == opener(w@),
{
    is_text(w, "def") || is_text(w, "if") || is_text(w, "unless") || is_text(w, "while")
        || is_text(w, "until") || is_text(w, "case") || is_text(w, "begin")
}

fn is_outdented(w: &[char]) -> (r: bool)
    ensures
        r == outdented(w@),
{
    is_text(w, "end") || is_text(w, "else") || is_text(w, "elsif") || is_text(w, "when")
        || is_text(w, "rescue") || is_text(w, "ensure")
}

fn line_opens_block(t: &[char]) -> (r: bool)
    ensures
        r == opens_block(t@),
{
    if t.len() > 0 && t[0] == '#' {
        return false;
    }
    if ends_with_text(t, " do") || is_text(t, "do") {
        return true;
    }
    let args: Vec<char> = chars_of(" do |");
    if has_chars(t, args.as_slice()) && ends_with_text(t, "|") {
        return true;
    }
    let u: &[char] = trimmed_start(t);
    let w: usize = find_white_space(u);
    let first: &[char] = slice_subrange(u, 0, w);
    assert(first@ =~= first_word(t@));
    is_opener(first)
}

fn line_dedents_self(t: &[char]) -> (r: bool)
    ensures
        r == dedents_self(t@),
{
    let mut i: usize = 0;
    assert(t@.skip(0) =~= t@);
    while i < t.len() && !white_space(t[i]) && t[i] != '.' && t[i] != ';'
        invariant
            i <= t@.len(),
            keyword_end(t@) == i + keyword_end(t@.skip(i as int)),
        decreases t@.len() - i,
    {
        assert(t@.skip(i as int).drop_first() =~= t@.skip(i + 1));
        i = i + 1;
    }
    let word: &[char] = slice_subrange(t, 0, i);
    assert(word@ =~= t@.take(keyword_end(t@)));
    is_outdented(word)
}

fn line_closes_block(t: &[char]) -> (r: bool)
    ensures
        r == closes_block(t@),
{
    is_text(t, "end") || begins_with_text(t, "end.") || begins_with_text(t, "end ")
}

fn indent_line(t: &[char], depth: usize) -> (r: String)
    ensures
        r@ == spaces(2 * depth as nat) + t@,
{
    let mut out: String = String::new();
    let mut k: usize = 0;
    assert(out@ =~= spaces(0));
    while k < depth
        invariant
            k <= depth,
            out@ == spaces(2 * k as nat),
        decreases depth - k,
    {
        out.push(' ');
        out.push(' ');
        k = k + 1;
        assert(out@ =~= spaces(2 * k as nat));
    }
    let rest: String = string_of(t);
    out.append(rest.as_str());
    out
}

/// Indents a whole buffer anew by its block structure, two spaces a level.
pub fn reindent(text: &str) -> (r: String)
    ensures
        r@ == reindented(text@),
{
    let cs: Vec<char> = chars_of(text);
    let ls: Vec<&[char]> = split_at_char(cs.as_slice(), '\n');
    let ghost all = views(ls@);
    let mut depth: usize = 0;
    let mut out: Vec<String> = Vec::new();
    let mut i: usize = 0;
    assert(all.take(0) =~= seq![]);
    while i < ls.len()
        invariant
            i <= ls@.len(),
            all == views(ls@),
            depth == block_depth(all.take(i as int)),
            string_views(out@) == indented_lines(all).take(i as int),
        decreases ls@.len() - i,
    {
        let ghost before = string_views(out@);
        assert(all[i as int] == ls@[i as int]@);
        assert(all.take(i + 1).drop_last() =~= all.take(i as int));
        let t: &[char] = trimmed(ls[i]);
        let n: usize = ls.len();
        proof {
            lemma_block_depth(all.take(i as int));
        }
        let line: String;
        if t.len() == 0 {
            line = String::new();
        } else {
            let outer: usize = if depth > 0 {
                depth - 1
            } else {
                0
            };
            line = indent_line(
                t,
                if line_dedents_self(t) {
                    outer
                } else {
                    depth
                },
            );
            if line_closes_block(t) {
                depth = outer;
            } else if line_opens_block(t) {
                depth = depth + 1;
            }
        }
        assert(line@ =~= indented(all[i as int], block_depth(all.take(i as int))));
        out.push(line);
        i = i + 1;
        assert(string_views(out@) =~= before.push(line@));
        assert(string_views(out@) =~= indented_lines(all).take(i as int));
    }
    assert(indented_lines(all).take(i as int) =~= indented_lines(all));
    joined(&out, "\n")
}

proof fn lemma_indented_trims_back(l: Seq<char>, d: int)
    requires
        d >= 0,
    ensures
        trim(indented(l, d)) == trim(l),
{
    let t = trim(l);
    lemma_trim_result(l);
    if t.len() == 0 {
        assert(indented(l, d) =~= t);
        assert(trim(indented(l, d)) =~= t);
    } else {
        let n = (2 * if dedents_self(t) {
            out_one(d)
        } else {
            d
        }) as nat;
        assert(blank(spaces(n)));
        assert(spaces(n) + t + Seq::<char>::empty() =~= spaces(n) + t);
        law_trim_padded(spaces(n), t, Seq::<char>::empty());
    }
}

proof fn lemma_same_depth(ls: Seq<Seq<char>>, ms: Seq<Seq<char>>)
    requires
        ls.len() == ms.len(),
        forall|i: int| 0 <= i < ls.len() ==> trim(#[trigger] ms[i]) == trim(ls[i]),
    ensures
        block_depth(ls) == block_depth(ms),
    decreases ls.len(),
{
    if ls.len() > 0 {
        let a = ls.drop_last();
        let b = ms.drop_last();
        assert forall|i: int| 0 <= i < a.len() implies trim(#[trigger] b[i]) == trim(a[i]) by {
            assert(b[i] == ms[i]);
        }
        lemma_same_depth(a, b);
        assert(trim(ms[ls.len() - 1]) == trim(ls[ls.len() - 1]));
    }
}

/// Indenting keeps the lines of a text, white space at their ends aside.
pub proof fn law_reindent_keeps_the_lines(s: Seq<char>)
    ensures
        ({
            let ls = split(s, '\n');
            let ms = split(reindented(s), '\n');
            &&& ms == indented_lines(ls)
            &&& ms.len() == ls.len()
            &&& forall|i: int| 0 <= i < ls.len() ==> trim(#[trigger] ms[i]) == trim(ls[i])
        }),
{
    reveal_strlit("\n");
    let ls = split(s, '\n');
    law_join_of_split(s, '\n');
    let ms = indented_lines(ls);
    assert forall|i: int| 0 <= i < ls.len() implies trim(#[trigger] ms[i]) == trim(ls[i])
        && lacks(ms[i], '\n') by {
        lemma_block_depth(ls.take(i));
        lemma_indented_trims_back(ls[i], block_depth(ls.take(i)));
        assert(lacks(ls[i], '\n'));
        lemma_trim_lacks(ls[i], '\n');
    }
    assert("\n"@ =~= seq!['\n']);
    law_split_of_join(ms, '\n');
}

/// Indenting a text that is indented changes nothing.
pub proof fn law_reindent_is_idempotent(s: Seq<char>)
    ensures
        reindented(reindented(s)) == reindented(s),
{
    law_reindent_keeps_the_lines(s);
    let ls = split(s, '\n');
    let ms = split(reindented(s), '\n');
    assert forall|i: int| 0 <= i < ms.len() implies #[trigger] indented_lines(ms)[i] == ms[i] by {
        assert(trim(ms[i]) == trim(ls[i]));
        let a = ls.take(i);
        let b = ms.take(i);
        assert forall|j: int| 0 <= j < a.len() implies trim(#[trigger] b[j]) == trim(a[j]) by {
            assert(b[j] == ms[j]);
        }
        lemma_same_depth(a, b);
    }
    assert(indented_lines(ms) =~= ms);
}

} // verus!
