//! How blocks stand in an indented text: what opens one, what closes one, and where
//! the lines of a block come to stand.

use super::indent::{
    block_depth, closes_block, dedents_self, first_word, indented, keyword_end,
    law_reindent_keeps_the_lines, opens_block, out_one, reindented,
};
use crate::text::{
    is_white_space, lemma_contains_at, lemma_trim_result, split, trim, trim_start,
    white_space_index,
};
use vstd::prelude::*;

verus! {

/// How far in the text of a line starts.
pub open spec fn margin(l: Seq<char>) -> int {
    l.len() - trim(l).len()
}

/// What a line does to the depth of the lines behind it: one more behind a line that
/// opens a block, one less behind a line that closes one.
pub open spec fn turn(l: Seq<char>) -> int {
    let t = trim(l);
    if t.len() > 0 && closes_block(t) {
        -1
    } else if t.len() > 0 && opens_block(t) {
        1
    } else {
        0
    }
}

/// How many more blocks the lines from `i` up to `j` open than they close.
pub open spec fn nesting(ls: Seq<Seq<char>>, i: int, j: int) -> int
    decreases j - i,
{
    if j <= i {
        0
    } else {
        nesting(ls, i, j - 1) + turn(ls[j - 1])
    }
}

/// Whether no line from `i` up to `j` closes a block that was open before line `i`.
pub open spec fn stays_inside(ls: Seq<Seq<char>>, i: int, j: int) -> bool {
    forall|k: int| i <= k <= j ==> #[trigger] nesting(ls, i, k) >= 0
}

proof fn lemma_depth_between(ls: Seq<Seq<char>>, i: int, j: int)
    requires
        0 <= i <= j <= ls.len(),
        forall|k: int| i <= k <= j ==> block_depth(ls.take(i)) + #[trigger] nesting(ls, i, k) >= 0,
    ensures
        block_depth(ls.take(j)) == block_depth(ls.take(i)) + nesting(ls, i, j),
    decreases j - i,
{
    if i < j {
        lemma_depth_between(ls, i, j - 1);
        assert(ls.take(j).drop_last() =~= ls.take(j - 1));
        assert(ls.take(j).last() == ls[j - 1]);
        assert(nesting(ls, i, j) >= -block_depth(ls.take(i)));
    }
}

proof fn lemma_depth_is_natural(ls: Seq<Seq<char>>)
    ensures
        block_depth(ls) >= 0,
    decreases ls.len(),
{
    if ls.len() > 0 {
        lemma_depth_is_natural(ls.drop_last());
    }
}

/// A line that is not blank comes out as spaces and its own text; a blank one comes
/// out empty.
pub proof fn law_lines_are_moved_by_spaces(s: Seq<char>, i: int)
    requires
        0 <= i < split(s, '\n').len(),
    ensures
        ({
            let l = split(s, '\n')[i];
            let m = split(reindented(s), '\n')[i];
            &&& split(reindented(s), '\n').len() == split(s, '\n').len()
            &&& trim(l).len() == 0 ==> m.len() == 0
            &&& trim(l).len() > 0 ==> m == Seq::new(margin(m) as nat, |k: int| ' ') + trim(l)
            &&& margin(m) >= 0 && margin(m) % 2 == 0
        }),
{
    law_reindent_keeps_the_lines(s);
    lemma_margin(s, i);
    let m = split(reindented(s), '\n')[i];
    let l = split(s, '\n')[i];
    if trim(l).len() > 0 {
        assert(m =~= Seq::new(margin(m) as nat, |k: int| ' ') + trim(l));
    }
}

proof fn lemma_margin(s: Seq<char>, i: int)
    requires
        0 <= i < split(s, '\n').len(),
    ensures
        ({
            let ls = split(s, '\n');
            let m = split(reindented(s), '\n')[i];
            let d = block_depth(ls.take(i));
            let t = trim(ls[i]);
            &&& d >= 0
            &&& trim(m) == t
            &&& m == indented(ls[i], d)
            &&& t.len() > 0 && dedents_self(t) ==> margin(m) == 2 * out_one(d)
            &&& t.len() > 0 && !dedents_self(t) ==> margin(m) == 2 * d
            &&& t.len() == 0 ==> margin(m) == 0
        }),
{
    law_reindent_keeps_the_lines(s);
    let ls = split(s, '\n');
    lemma_depth_is_natural(ls.take(i));
    lemma_trim_result(ls[i]);
}

/// A line stands two spaces in for every block that is open above it; a line that
/// stands out of its block, two fewer.
pub proof fn law_margin_counts_the_open_blocks(s: Seq<char>, j: int)
    requires
        0 <= j < split(s, '\n').len(),
        stays_inside(split(s, '\n'), 0, j),
        trim(split(s, '\n')[j]).len() > 0,
    ensures
        ({
            let ls = split(s, '\n');
            let n = nesting(ls, 0, j);
            let m = margin(split(reindented(s), '\n')[j]);
            if dedents_self(trim(ls[j])) && n > 0 {
                m == 2 * (n - 1)
            } else {
                m == 2 * n
            }
        }),
{
    let ls = split(s, '\n');
    assert(ls.take(0) =~= Seq::<Seq<char>>::empty());
    lemma_depth_between(ls, 0, j);
    lemma_margin(s, j);
}

/// Behind a line that opens a block, at whatever depth it stands, and behind any
/// blocks that were opened and closed since, a line of the block stands two spaces
/// further in than the line that opened it. A line that stands out of the block, as
/// its `end` does, stands right under that line.
pub proof fn law_block_stands_under_its_opener(s: Seq<char>, i: int, j: int)
    requires
        0 <= i < j < split(s, '\n').len(),
        ({
            let ls = split(s, '\n');
            let t = trim(ls[i]);
            &&& t.len() > 0 && opens_block(t) && !closes_block(t) && !dedents_self(t)
            &&& trim(ls[j]).len() > 0
            &&& stays_inside(ls, i + 1, j)
            &&& nesting(ls, i + 1, j) == 0
        }),
    ensures
        ({
            let ms = split(reindented(s), '\n');
            &&& !dedents_self(trim(split(s, '\n')[j])) ==> margin(ms[j]) == margin(ms[i]) + 2
            &&& dedents_self(trim(split(s, '\n')[j])) ==> margin(ms[j]) == margin(ms[i])
        }),
{
    let ls = split(s, '\n');
    lemma_margin(s, i);
    lemma_margin(s, j);
    let d = block_depth(ls.take(i));
    assert(ls.take(i + 1).drop_last() =~= ls.take(i));
    assert(ls.take(i + 1).last() == ls[i]);
    assert(block_depth(ls.take(i + 1)) == d + 1);
    assert forall|k: int| i + 1 <= k <= j implies block_depth(ls.take(i + 1)) + #[trigger] nesting(
        ls,
        i + 1,
        k,
    ) >= 0 by {}
    lemma_depth_between(ls, i + 1, j);
}

/// Behind a line that neither opens nor closes a block, and behind any blocks that
/// were opened and closed since, a line stands where that line stands; one that
/// stands out of the block, two spaces further out.
pub proof fn law_plain_lines_stand_together(s: Seq<char>, i: int, j: int)
    requires
        0 <= i < j < split(s, '\n').len(),
        ({
            let ls = split(s, '\n');
            let t = trim(ls[i]);
            &&& t.len() > 0 && !opens_block(t) && !closes_block(t) && !dedents_self(t)
            &&& trim(ls[j]).len() > 0
            &&& stays_inside(ls, i + 1, j)
            &&& nesting(ls, i + 1, j) == 0
        }),
    ensures
        ({
            let ms = split(reindented(s), '\n');
            let m = margin(ms[i]);
            &&& !dedents_self(trim(split(s, '\n')[j])) ==> margin(ms[j]) == m
            &&& dedents_self(trim(split(s, '\n')[j])) ==> margin(ms[j]) == if m >= 2 {
                m - 2
            } else {
                0
            }
        }),
{
    let ls = split(s, '\n');
    lemma_margin(s, i);
    lemma_margin(s, j);
    let d = block_depth(ls.take(i));
    assert(ls.take(i + 1).drop_last() =~= ls.take(i));
    assert(ls.take(i + 1).last() == ls[i]);
    assert(block_depth(ls.take(i + 1)) == d);
    assert forall|k: int| i + 1 <= k <= j implies block_depth(ls.take(i + 1)) + #[trigger] nesting(
        ls,
        i + 1,
        k,
    ) >= 0 by {}
    lemma_depth_between(ls, i + 1, j);
}

/// Behind the `end` of a block the lines stand where the `end` stands.
pub proof fn law_lines_behind_an_end_stand_with_it(s: Seq<char>, i: int, j: int)
    requires
        0 <= i < j < split(s, '\n').len(),
        ({
            let ls = split(s, '\n');
            let t = trim(ls[i]);
            &&& t.len() > 0 && closes_block(t)
            &&& trim(ls[j]).len() > 0 && !dedents_self(trim(ls[j]))
            &&& stays_inside(ls, i + 1, j)
            &&& nesting(ls, i + 1, j) == 0
        }),
    ensures
        margin(split(reindented(s), '\n')[j]) == margin(split(reindented(s), '\n')[i]),
{
    let ls = split(s, '\n');
    lemma_margin(s, i);
    lemma_margin(s, j);
    law_end_closes_and_stands_out(trim(ls[i]));
    assert(ls.take(i + 1).drop_last() =~= ls.take(i));
    assert(ls.take(i + 1).last() == ls[i]);
    lemma_depth_is_natural(ls.take(i + 1));
    assert forall|k: int| i + 1 <= k <= j implies block_depth(ls.take(i + 1)) + #[trigger] nesting(
        ls,
        i + 1,
        k,
    ) >= 0 by {}
    lemma_depth_between(ls, i + 1, j);
}

/// A line that ends in `do`, with or without block arguments, opens a block, unless it
/// is a comment.
pub proof fn law_do_opens_a_block(x: Seq<char>, args: Seq<char>)
    requires
        x.len() > 0 && x[0] != '#',
    ensures
        opens_block("do"@),
        opens_block(x + " do"@),
        opens_block(x + " do |"@ + args + "|"@),
{
    reveal_strlit("do");
    reveal_strlit(" do");
    reveal_strlit(" do |");
    reveal_strlit("|");
    assert("do"@[0] == 'd');
    let a = x + " do"@;
    assert(a[0] == x[0]);
    assert(a.subrange(a.len() - 3, a.len() as int) =~= " do"@);
    let b = x + " do |"@ + args + "|"@;
    assert(b[0] == x[0]);
    assert(b.subrange(x.len() as int, x.len() as int + 5) =~= " do |"@);
    lemma_contains_at(b, " do |"@, x.len() as int);
    assert(b.subrange(b.len() - 1, b.len() as int) =~= "|"@);
}

proof fn lemma_white_space_index_is(s: Seq<char>, n: int)
    requires
        0 <= n <= s.len(),
        forall|j: int| 0 <= j < n ==> !is_white_space(#[trigger] s[j]),
        n < s.len() ==> is_white_space(s[n]),
    ensures
        white_space_index(s) == n,
    decreases n,
{
    if n > 0 {
        let t = s.drop_first();
        assert(!is_white_space(s[0]));
        assert forall|j: int| 0 <= j < n - 1 implies !is_white_space(#[trigger] t[j]) by {
            assert(!is_white_space(s[j + 1]));
        }
        lemma_white_space_index_is(t, n - 1);
    }
}

/// The first word of a line is what stands before its first white space.
pub proof fn law_first_word_ends_at_white_space(w: Seq<char>, rest: Seq<char>)
    requires
        w.len() > 0,
        forall|j: int| 0 <= j < w.len() ==> !is_white_space(#[trigger] w[j]),
        rest.len() > 0 ==> is_white_space(rest[0]),
    ensures
        first_word(w + rest) == w,
{
    let t = w + rest;
    assert(!is_white_space(w[0]));
    assert(t[0] == w[0]);
    assert(trim_start(t) == t);
    assert forall|j: int| 0 <= j < w.len() implies !is_white_space(#[trigger] t[j]) by {
        assert(!is_white_space(w[j]));
    }
    lemma_white_space_index_is(t, w.len() as int);
    assert(t.take(w.len() as int) =~= w);
}

/// A line that begins with one of the words that start a statement opens a block.
pub proof fn law_statement_words_open_a_block(w: Seq<char>, rest: Seq<char>)
    requires
        w == "def"@ || w == "if"@ || w == "unless"@ || w == "while"@ || w == "until"@ || w == "case"@ || w == "begin"@,
        rest.len() > 0 ==> is_white_space(rest[0]),
    ensures
        opens_block(w + rest),
        !closes_block(w + rest),
        !dedents_self(w + rest),
{
    reveal_strlit("def");
    reveal_strlit("if");
    reveal_strlit("unless");
    reveal_strlit("while");
    reveal_strlit("until");
    reveal_strlit("case");
    reveal_strlit("begin");
    reveal_strlit("end");
    reveal_strlit("else");
    reveal_strlit("elsif");
    reveal_strlit("when");
    reveal_strlit("rescue");
    reveal_strlit("ensure");
    reveal_strlit("end.");
    reveal_strlit("end ");
    let t = w + rest;
    assert(t[0] == w[0] && t[1] == w[1]);
    law_first_word_ends_at_white_space(w, rest);
    lemma_keyword_end(w, rest);
    assert(t.take(w.len() as int) =~= w);
    if "end."@.is_prefix_of(t) {
        assert("end."@[0] == t.subrange(0, 4)[0]);
        assert("end."@[1] == t.subrange(0, 4)[1]);
    }
    if "end "@.is_prefix_of(t) {
        assert("end "@[0] == t.subrange(0, 4)[0]);
        assert("end "@[1] == t.subrange(0, 4)[1]);
    }
    assert("end"@[0] == 'e');
    assert("else"@[0] == 'e');
    assert("elsif"@[0] == 'e');
    assert("when"@[1] == 'h' && "when"@[2] == 'e');
    assert("rescue"@[0] == 'r');
    assert("ensure"@[0] == 'e');
    assert("while"@[1] == 'h' && "while"@[2] == 'i');
    assert("def"@[0] == 'd' && "if"@[0] == 'i' && "unless"@[0] == 'u' && "until"@[0] == 'u'
        && "case"@[0] == 'c' && "begin"@[0] == 'b' && "while"@[0] == 'w');
}

/// Nothing else opens a block: not a comment, and not a line that begins with any
/// other word and ends neither in `do` nor with a bar, such as one with a condition
/// at its end.
pub proof fn law_other_lines_open_nothing(w: Seq<char>, rest: Seq<char>)
    requires
        w.len() > 0,
        forall|j: int| 0 <= j < w.len() ==> !is_white_space(#[trigger] w[j]),
        rest.len() > 0 ==> is_white_space(rest[0]),
        w[0] == '#' || (w != "def"@ && w != "if"@ && w != "unless"@ && w != "while"@ && w != "until"@ && w != "case"@ && w != "begin"@ && w + rest
            != "do"@ && (w + rest).last() != '|' && ((w + rest).len() < 3 || (w + rest).skip(
            (w + rest).len() - 3,
        ) != " do"@)),
    ensures
        !opens_block(w + rest),
{
    reveal_strlit("|");
    reveal_strlit(" do");
    let t = w + rest;
    assert(t[0] == w[0]);
    law_first_word_ends_at_white_space(w, rest);
    if "|"@.is_suffix_of(t) {
        assert("|"@[0] == t.subrange(t.len() - 1, t.len() as int)[0]);
    }
    if " do"@.is_suffix_of(t) {
        assert(t.skip(t.len() - 3) =~= t.subrange(t.len() - 3, t.len() as int));
    }
}

proof fn lemma_keyword_end(w: Seq<char>, rest: Seq<char>)
    requires
        forall|j: int|
            0 <= j < w.len() ==> !is_white_space(#[trigger] w[j]) && w[j] != '.' && w[j] != ';',
        rest.len() > 0 ==> is_white_space(rest[0]) || rest[0] == '.' || rest[0] == ';',
    ensures
        keyword_end(w + rest) == w.len(),
    decreases w.len(),
{
    let t = w + rest;
    if w.len() > 0 {
        let v = w.drop_first();
        assert(t[0] == w[0]);
        assert(!is_white_space(w[0]));
        assert forall|j: int| 0 <= j < v.len() implies !is_white_space(#[trigger] v[j]) && v[j]
            != '.' && v[j] != ';' by {
            assert(v[j] == w[j + 1]);
        }
        assert(t.drop_first() =~= v + rest);
        lemma_keyword_end(v, rest);
    } else {
        assert(t =~= rest);
    }
}

/// A line that begins with one of the words that divide or end a block stands one
/// level out; a line that begins with another word does not.
pub proof fn law_dividing_words_stand_out(w: Seq<char>, rest: Seq<char>)
    requires
        forall|j: int|
            0 <= j < w.len() ==> !is_white_space(#[trigger] w[j]) && w[j] != '.' && w[j] != ';',
        rest.len() > 0 ==> is_white_space(rest[0]) || rest[0] == '.' || rest[0] == ';',
    ensures
        dedents_self(w + rest) <==> (w == "end"@ || w == "else"@ || w == "elsif"@ || w == "when"@ || w == "rescue"@ || w == "ensure"@),
{
    lemma_keyword_end(w, rest);
    assert((w + rest).take(w.len() as int) =~= w);
}

/// A block is closed by a line that is `end`, or begins with it and goes on with a
/// full stop or a space; and by no other.
pub proof fn law_end_closes_a_block(t: Seq<char>)
    ensures
        closes_block(t) <==> t.len() >= 3 && t[0] == 'e' && t[1] == 'n' && t[2] == 'd' && (t.len()
            == 3 || t[3] == '.' || t[3] == ' '),
{
    reveal_strlit("end");
    reveal_strlit("end.");
    reveal_strlit("end ");
    if closes_block(t) {
        if "end."@.is_prefix_of(t) {
            let h = t.subrange(0, 4);
            assert(h[0] == t[0] && h[1] == t[1] && h[2] == t[2] && h[3] == t[3]);
        } else if "end "@.is_prefix_of(t) {
            let h = t.subrange(0, 4);
            assert(h[0] == t[0] && h[1] == t[1] && h[2] == t[2] && h[3] == t[3]);
        }
    }
    if t.len() >= 3 && t[0] == 'e' && t[1] == 'n' && t[2] == 'd' {
        if t.len() == 3 {
            assert(t =~= "end"@);
        } else if t[3] == '.' {
            assert(t.subrange(0, 4) =~= "end."@);
        } else if t[3] == ' ' {
            assert(t.subrange(0, 4) =~= "end "@);
        }
    }
}

/// A line that closes a block stands one level out.
pub proof fn law_end_closes_and_stands_out(t: Seq<char>)
    requires
        closes_block(t),
    ensures
        dedents_self(t),
{
    reveal_strlit("end");
    law_end_closes_a_block(t);
    let w = t.take(3);
    let rest = t.skip(3);
    assert(w =~= "end"@);
    assert(w + rest =~= t);
    law_dividing_words_stand_out(w, rest);
}

} // verus!
