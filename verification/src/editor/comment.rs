//! Commenting lines in and out.

use crate::text::{
    after_last, blank, chars_of, find_char, index_of, is_white_space, join, joined, lacks,
    last_index_of, law_join_of_split, law_split_of_join, lemma_index_of, lemma_index_of_is,
    lemma_join_blank, lemma_join_has_plain_breaks, lemma_last_index_of,
    lemma_lines_are_closed_pieces, lemma_lines_are_pieces,
    lemma_pieces_have_plain_ends, lemma_split_blank, lemma_trim_blank, lemma_trim_start_padded, lines, lines_of,
    plain_breaks, split, string_of, string_views, trim_start, trimmed, trimmed_start, views,
};
use crate::utf8::{chars_in_bytes, chars_within, lemma_chars_within_monotone};
use std::ops::Range;
use vstd::prelude::*;
use vstd::slice::slice_subrange;
use vstd::string::*;

verus! {

/// Whether the first character of `l` that is not white space opens a comment.
pub open spec fn commented(l: Seq<char>) -> bool {
    trim_start(l).len() > 0 && trim_start(l)[0] == '#'
}

/// Whether every line that is not blank is a comment.
pub open spec fn all_commented(ls: Seq<Seq<char>>) -> bool {
    forall|i: int| 0 <= i < ls.len() && !blank(#[trigger] ls[i]) ==> commented(ls[i])
}

/// `l` without its first `#` and one space after that.
pub open spec fn uncommented(l: Seq<char>) -> Seq<char> {
    let i = index_of(l, '#');
    let rest = l.skip(i + 1);
    l.take(i) + if rest.len() > 0 && rest[0] == ' ' {
        rest.skip(1)
    } else {
        rest
    }
}

/// What toggling makes of a line. Blank lines stay as they are.
pub open spec fn toggled_line(l: Seq<char>, uncomment: bool) -> Seq<char> {
    if blank(l) {
        l
    } else if uncomment {
        uncommented(l)
    } else {
        "# "@ + l
    }
}

/// What toggling makes of each of some lines.
pub open spec fn toggled_lines(ls: Seq<Seq<char>>) -> Seq<Seq<char>> {
    ls.map_values(|l: Seq<char>| toggled_line(l, all_commented(ls)))
}

/// What toggling makes of a block of lines. A blank line at its end is a line like
/// any other, though nothing follows its line break.
pub open spec fn toggled_block(block: Seq<char>) -> Seq<char> {
    join(toggled_lines(lines(block)), "\n"@) + if block.len() > 0 && block.last() == '\n' {
        "\n"@
    } else {
        seq![]
    }
}

/// Where the line that holds the position `a` starts.
pub open spec fn line_start(s: Seq<char>, a: int) -> int {
    last_index_of(s.take(a), '\n') + 1
}

/// Where the line that holds the position `b` ends.
pub open spec fn line_end(s: Seq<char>, b: int) -> int {
    b + index_of(s.skip(b), '\n')
}

/// `s` with the lines from that of position `a` to that of position `b` toggled,
/// unless they are all blank.
pub open spec fn toggled(s: Seq<char>, a: int, b: int) -> Option<Seq<char>> {
    let start = line_start(s, a);
    let end = line_end(s, b);
    let block = s.subrange(start, end);
    if blank(block) {
        None
    } else {
        Some(s.take(start) + toggled_block(block) + s.skip(end))
    }
}

proof fn lemma_commented_has_hash(l: Seq<char>)
    requires
        commented(l),
    ensures
        0 <= index_of(l, '#') < l.len(),
    decreases l.len(),
{
    lemma_index_of(l, '#');
    if is_white_space(l[0]) {
        lemma_commented_has_hash(l.drop_first());
    }
}

fn is_blank(cs: &[char]) -> (r: bool)
    ensures
        r == blank(cs@),
{
    proof {
        lemma_trim_blank(cs@);
    }
    trimmed(cs).len() == 0
}

fn are_all_commented(ls: &Vec<&[char]>) -> (r: bool)
    ensures
        r == all_commented(views(ls@)),
{
    let ghost all = views(ls@);
    let mut i: usize = 0;
    while i < ls.len()
        invariant
            i <= ls@.len(),
            all == views(ls@),
            forall|j: int| 0 <= j < i && !blank(#[trigger] all[j]) ==> commented(all[j]),
        decreases ls@.len() - i,
    {
        assert(all[i as int] == ls@[i as int]@);
        if !is_blank(ls[i]) {
            let t: &[char] = trimmed_start(ls[i]);
            if t.len() == 0 || t[0] != '#' {
                return false;
            }
        }
        i = i + 1;
    }
    true
}

fn toggle_line(l: &[char], uncomment: bool) -> (r: String)
    requires
        uncomment && !blank(l@) ==> commented(l@),
    ensures
        r@ == toggled_line(l@, uncomment),
{
    if is_blank(l) {
        string_of(l)
    } else if uncomment {
        proof {
            lemma_commented_has_hash(l@);
        }
        let n: usize = l.len();
        let i: usize = find_char(l, '#');
        let after: usize = if i + 1 < n && l[i + 1] == ' ' {
            i + 2
        } else {
            i + 1
        };
        let out: String = string_of(slice_subrange(l, 0, i));
        let rest: String = string_of(slice_subrange(l, after, l.len()));
        assert(out@ + rest@ =~= uncommented(l@));
        out.concat(rest.as_str())
    } else {
        let text: String = string_of(l);
        String::from_str("# ").concat(text.as_str())
    }
}

fn toggle_block(block: &[char]) -> (r: String)
    ensures
        r@ == toggled_block(block@),
{
    let ls: Vec<&[char]> = lines_of(block);
    let ghost all = views(ls@);
    let uncomment: bool = are_all_commented(&ls);
    let mut out: Vec<String> = Vec::new();
    let mut i: usize = 0;
    while i < ls.len()
        invariant
            i <= ls@.len(),
            all == views(ls@),
            uncomment == all_commented(all),
            string_views(out@) == toggled_lines(all).take(i as int),
        decreases ls@.len() - i,
    {
        assert(all[i as int] == ls@[i as int]@);
        let ghost before = string_views(out@);
        let l: String = toggle_line(ls[i], uncomment);
        out.push(l);
        i = i + 1;
        assert(string_views(out@) =~= before.push(l@));
        assert(string_views(out@) =~= toggled_lines(all).take(i as int));
    }
    assert(toggled_lines(all).take(i as int) =~= toggled_lines(all));
    let text: String = joined(&out, "\n");
    if block.len() > 0 && block[block.len() - 1] == '\n' {
        text.concat("\n")
    } else {
        assert(text@ =~= toggled_block(block@));
        text
    }
}

/// Toggles `# ` comments on the lines that the bytes `sel` of `text` touch: if all
/// that are not blank are comments they lose the mark, else each gets one. An
/// offset past the end counts as the end, one inside a character as the start of
/// it, and a range that ends before it starts as an empty one. The breaks between
/// the lines become plain line feeds. `None` when there is nothing to toggle.
pub fn toggle_comment(text: &str, sel: Range<usize>) -> (r: Option<String>)
    ensures
        ({
            let a = chars_within(text@, sel.start as int);
            let b = chars_within(
                text@,
                if sel.end < sel.start {
                    sel.start as int
                } else {
                    sel.end as int
                },
            );
            match r {
                Some(t) => toggled(text@, a, b) == Some(t@),
                None => toggled(text@, a, b) is None,
            }
        }),
{
    let cs: Vec<char> = chars_of(text);
    let all: &[char] = cs.as_slice();
    let stop: usize = if sel.end < sel.start {
        sel.start
    } else {
        sel.end
    };
    let a: usize = chars_in_bytes(all, sel.start);
    let b: usize = chars_in_bytes(all, stop);
    let head: &[char] = slice_subrange(all, 0, a);
    let tail: &[char] = slice_subrange(all, b, all.len());
    assert(head@ =~= text@.take(a as int));
    assert(tail@ =~= text@.skip(b as int));
    let start: usize = after_last(head, '\n');
    let end: usize = b + find_char(tail, '\n');
    proof {
        lemma_chars_within_monotone(text@, sel.start as int, stop as int);
    }
    let block: &[char] = slice_subrange(all, start, end);
    if is_blank(block) {
        return None;
    }
    let mut out: String = string_of(slice_subrange(all, 0, start));
    let middle: String = toggle_block(block);
    let rest: String = string_of(slice_subrange(all, end, all.len()));
    out.append(middle.as_str());
    out.append(rest.as_str());
    assert(rest@ =~= text@.skip(end as int));
    Some(out)
}

proof fn lemma_comment_line(l: Seq<char>)
    ensures
        !blank(l) ==> !blank("# "@ + l) && commented("# "@ + l) && uncommented("# "@ + l) == l,
{
    reveal_strlit("# ");
    let m = "# "@ + l;
    assert(m[0] == '#');
    assert(m[1] == ' ');
    lemma_index_of_is(m, '#', 0);
    assert(m.skip(1).skip(1) =~= l);
    assert(m.take(0) + l =~= l);
    assert(!is_white_space(m[0]));
}

proof fn lemma_comment_lines(ls: Seq<Seq<char>>)
    requires
        !all_commented(ls),
    ensures
        all_commented(toggled_lines(ls)),
        toggled_lines(toggled_lines(ls)) == ls,
{
    let ms = toggled_lines(ls);
    assert forall|i: int| 0 <= i < ms.len() && !blank(#[trigger] ms[i]) implies commented(
        ms[i],
    ) by {
        lemma_comment_line(ls[i]);
    }
    assert forall|i: int| 0 <= i < ls.len() implies #[trigger] toggled_lines(ms)[i] == ls[i] by {
        lemma_comment_line(ls[i]);
    }
    assert(toggled_lines(ms) =~= ls);
}

/// Toggling a block with plain line breaks toggles each piece between them: a last
/// piece that is empty is blank, and stays.
proof fn lemma_toggled_pieces(block: Seq<char>)
    requires
        block.len() > 0,
        plain_breaks(block),
    ensures
        toggled_block(block) == join(toggled_lines(split(block, '\n')), seq!['\n']),
        all_commented(lines(block)) == all_commented(split(block, '\n')),
{
    reveal_strlit("\n");
    assert("\n"@ =~= seq!['\n']);
    let ls = lines(block);
    let ps = split(block, '\n');
    if block.last() == '\n' {
        lemma_lines_are_closed_pieces(block);
        assert(all_commented(ls) == all_commented(ps)) by {
            assert forall|i: int| 0 <= i < ls.len() implies #[trigger] ls[i] == ps[i] by {}
            assert forall|i: int|
                all_commented(ls) && 0 <= i < ps.len() && !blank(#[trigger] ps[i]) implies
                commented(ps[i]) by {
                assert(i < ls.len());
                assert(commented(ls[i]));
            }
        }
        assert(toggled_lines(ps) =~= toggled_lines(ls).push(seq![]));
        assert(toggled_lines(ps).drop_last() =~= toggled_lines(ls));
    } else {
        lemma_lines_are_pieces(block);
    }
    assert(toggled_block(block) =~= join(toggled_lines(ps), seq!['\n']));
}

/// Toggling a block that is not all comments, and then toggling what came out,
/// gives the block back, unless it has carriage returns before line breaks: those
/// do not come back.
pub proof fn law_toggling_a_block_twice(block: Seq<char>)
    requires
        plain_breaks(block),
        !all_commented(lines(block)),
    ensures
        toggled_block(toggled_block(block)) == block,
{
    let ps = split(block, '\n');
    let ms = toggled_lines(ps);
    let new_block = toggled_block(block);
    lemma_toggled_pieces(block);
    law_join_of_split(block, '\n');
    lemma_comment_lines(ps);
    assert forall|i: int| 0 <= i < ms.len() implies lacks(#[trigger] ms[i], '\n') by {
        reveal_strlit("# ");
        assert(lacks(ps[i], '\n'));
    }
    law_split_of_join(ms, '\n');
    lemma_pieces_have_plain_ends(block);
    assert forall|k: int| 0 <= k < ms.len() - 1 && (#[trigger] ms[k]).len() > 0 implies ms[k].last()
        != '\r' by {
        reveal_strlit("# ");
        assert(ps[k].len() > 0 ==> ps[k].last() != '\r');
    }
    lemma_join_has_plain_breaks(ms);
    lemma_toggled_is_not_blank(block);
    lemma_toggled_pieces(new_block);
}

/// A block with a line that is neither blank nor a comment is not blank, and
/// stays so when it is toggled.
proof fn lemma_toggled_is_not_blank(block: Seq<char>)
    requires
        plain_breaks(block),
        !all_commented(lines(block)),
    ensures
        !blank(block),
        !blank(toggled_block(block)),
{
    let ps = split(block, '\n');
    let ms = toggled_lines(ps);
    lemma_toggled_pieces(block);
    let i = choose|i: int| 0 <= i < ps.len() && !blank(#[trigger] ps[i]) && !commented(ps[i]);
    if blank(block) {
        lemma_split_blank(block, '\n', i);
    }
    lemma_comment_line(ps[i]);
    assert(ms[i] == "# "@ + ps[i]);
    if blank(toggled_block(block)) {
        lemma_join_blank(ms, seq!['\n'], i);
    }
}

/// Where a line starts in `s`, one starts in every text that has the same
/// characters before that place.
proof fn lemma_line_start_stays(s: Seq<char>, a: int, t: Seq<char>)
    requires
        0 <= a <= s.len(),
        line_start(s, a) <= t.len(),
        t.take(line_start(s, a)) == s.take(line_start(s, a)),
    ensures
        0 <= line_start(s, a) <= a,
        line_start(t, line_start(s, a)) == line_start(s, a),
{
    let start = line_start(s, a);
    lemma_last_index_of(s.take(a), '\n');
    lemma_last_index_of(s.take(start), '\n');
    if start > 0 {
        assert(s.take(start).last() == s.take(a)[start - 1]);
    }
}

/// Where a line ends in `s`, one ends in every text that goes on in the same way
/// from some place.
proof fn lemma_line_end_stays(s: Seq<char>, b: int, t: Seq<char>, at: int)
    requires
        0 <= b <= s.len(),
        0 <= at <= t.len(),
        t.skip(at) == s.skip(line_end(s, b)),
    ensures
        b <= line_end(s, b) <= s.len(),
        line_end(t, at) == at,
{
    let end = line_end(s, b);
    lemma_index_of(s.skip(b), '\n');
    if end < s.len() {
        assert(s.skip(end)[0] == s.skip(b)[end - b]);
    }
    lemma_index_of_is(s.skip(end), '\n', 0);
}

/// A text with its middle replaced has the same head and tail around the new
/// middle.
proof fn lemma_replace_middle(s: Seq<char>, start: int, end: int, middle: Seq<char>)
    requires
        0 <= start <= end <= s.len(),
    ensures
        ({
            let t = s.take(start) + middle + s.skip(end);
            let at = start + middle.len();
            &&& t.len() == at + (s.len() - end)
            &&& t.take(start) == s.take(start)
            &&& t.subrange(start, at) == middle
            &&& t.skip(at) == s.skip(end)
        }),
{
    let t = s.take(start) + middle + s.skip(end);
    let at = start + middle.len();
    assert(t.take(start) =~= s.take(start));
    assert(t.subrange(start, at) =~= middle);
    assert(t.skip(at) =~= s.skip(end));
}

/// A text in which the lines from that of `a` to that of `b` were replaced: the new
/// lines are whole lines of it, and putting the old ones back gives the text back.
proof fn lemma_replaced_lines(s: Seq<char>, a: int, b: int, middle: Seq<char>)
    requires
        0 <= a <= b <= s.len(),
    ensures
        ({
            let start = line_start(s, a);
            let end = line_end(s, b);
            let t = s.take(start) + middle + s.skip(end);
            let at = start + middle.len();
            &&& at == t.len() - (s.len() - end)
            &&& line_start(t, start) == start
            &&& line_end(t, at) == at
            &&& t.subrange(start, at) == middle
            &&& t.take(start) + s.subrange(start, end) + t.skip(at) == s
        }),
{
    let start = line_start(s, a);
    let end = line_end(s, b);
    lemma_last_index_of(s.take(a), '\n');
    lemma_index_of(s.skip(b), '\n');
    let t = s.take(start) + middle + s.skip(end);
    lemma_replace_middle(s, start, end, middle);
    lemma_line_start_stays(s, a, t);
    lemma_line_end_stays(s, b, t, start + middle.len());
    assert(s.take(start) + s.subrange(start, end) + s.skip(end) =~= s);
}

/// Toggling lines that are not all comments, and then toggling the same lines
/// again, gives the text back, unless there are carriage returns before the line
/// breaks between them.
pub proof fn law_toggling_twice(s: Seq<char>, a: int, b: int)
    requires
        0 <= a <= b <= s.len(),
        plain_breaks(s.subrange(line_start(s, a), line_end(s, b))),
        !all_commented(lines(s.subrange(line_start(s, a), line_end(s, b)))),
    ensures
        ({
            let start = line_start(s, a);
            let end = line_end(s, b);
            let t = toggled(s, a, b);
            &&& t is Some
            &&& toggled(t->0, start, t->0.len() - (s.len() - end)) == Some(s)
        }),
{
    let block = s.subrange(line_start(s, a), line_end(s, b));
    law_toggling_a_block_twice(block);
    lemma_toggled_is_not_blank(block);
    lemma_replaced_lines(s, a, b, toggled_block(block));
}

/// Commenting puts the mark in front of a line; taking it off drops the first mark
/// and one space behind it, wherever the line starts. Blank lines have no mark.
pub proof fn law_mark_goes_on_and_off(pad: Seq<char>, rest: Seq<char>)
    requires
        blank(pad),
        rest.len() > 0 && rest[0] != ' ' && !is_white_space(rest[0]),
    ensures
        toggled_line(pad + rest, false) == "# "@ + pad + rest,
        toggled_line(pad + "# "@ + rest, true) == pad + rest,
        toggled_line(pad + "#"@ + rest, true) == pad + rest,
        toggled_line(pad + "#  "@ + rest, true) == pad + " "@ + rest,
        toggled_line(pad, false) == pad,
        toggled_line(pad, true) == pad,
{
    reveal_strlit("# ");
    reveal_strlit("#");
    reveal_strlit("#  ");
    reveal_strlit(" ");
    assert forall|i: int| 0 <= i < pad.len() implies #[trigger] pad[i] != '#' by {
        assert(is_white_space(pad[i]));
    }
    let n = pad.len() as int;
    let plain = pad + rest;
    assert(plain[n] == rest[0]);
    assert(!blank(plain));
    assert("# "@ + plain =~= "# "@ + pad + rest);
    let a = pad + "# "@ + rest;
    assert(a[n] == '#');
    assert(!blank(a));
    lemma_index_of_is(a, '#', n);
    assert(a.skip(n + 1) =~= " "@ + rest);
    assert(a.skip(n + 1).skip(1) =~= rest);
    assert(a.take(n) =~= pad);
    let b = pad + "#"@ + rest;
    assert(b[n] == '#');
    assert(!blank(b));
    lemma_index_of_is(b, '#', n);
    assert(b.skip(n + 1) =~= rest);
    assert(b.take(n) =~= pad);
    let c = pad + "#  "@ + rest;
    assert(c[n] == '#');
    assert(!blank(c));
    lemma_index_of_is(c, '#', n);
    assert(c.skip(n + 1) =~= "  "@ + rest) by {
        reveal_strlit("  ");
    }
    assert(c.skip(n + 1).skip(1) =~= " "@ + rest);
    assert(c.take(n) =~= pad);
    assert(pad + (" "@ + rest) =~= pad + " "@ + rest);
}

/// A line is a comment when a mark is the first thing in it.
pub proof fn law_comments_start_with_the_mark(pad: Seq<char>, c: char, rest: Seq<char>)
    requires
        blank(pad),
        !is_white_space(c),
    ensures
        commented(pad + seq![c] + rest) <==> c == '#',
        !commented(pad),
{
    let s = seq![c] + rest;
    assert(pad + seq![c] + rest =~= pad + s);
    lemma_trim_start_padded(pad, s);
    assert(s[0] == c);
    assert(trim_start(s) == s);
    let none = Seq::<char>::empty();
    lemma_trim_start_padded(pad, none);
    assert(pad + none =~= pad);
}

/// One line that is no comment turns all of them into comments; when all are
/// comments, all lose the mark.
pub proof fn law_lines_are_toggled_together(ls: Seq<Seq<char>>, i: int, j: int)
    requires
        0 <= i < ls.len(),
        0 <= j < ls.len(),
        !blank(ls[i]),
    ensures
        toggled_lines(ls).len() == ls.len(),
        !blank(ls[j]) && !commented(ls[j]) ==> toggled_lines(ls)[i] == "# "@ + ls[i],
        all_commented(ls) ==> toggled_lines(ls)[i].len() < ls[i].len(),
{
    if all_commented(ls) {
        lemma_commented_has_hash(ls[i]);
        let at = index_of(ls[i], '#');
        let rest = ls[i].skip(at + 1);
        assert(toggled_lines(ls)[i] == uncommented(ls[i]));
    }
}

/// A caret or a selection within one line toggles that line and no other.
pub proof fn law_line_of_the_caret_is_toggled(
    before: Seq<char>,
    line: Seq<char>,
    after: Seq<char>,
    a: int,
    b: int,
)
    requires
        lacks(line, '\n'),
        line.len() > 0,
        !is_white_space(line[0]) && !is_white_space(line.last()),
        line[0] != '#',
        before.len() + 1 <= a <= b <= before.len() + 1 + line.len(),
    ensures
        toggled(before + "\n"@ + line + "\n"@ + after, a, b) == Some(
            before + "\n"@ + "# "@ + line + "\n"@ + after,
        ),
{
    reveal_strlit("\n");
    reveal_strlit("# ");
    let s = before + "\n"@ + line + "\n"@ + after;
    let start = before.len() as int + 1;
    let end = start + line.len();
    let head = s.take(a);
    lemma_last_index_of(head, '\n');
    assert(head[start - 1] == '\n');
    if last_index_of(head, '\n') > start - 1 {
        let k = last_index_of(head, '\n');
        assert(head[k] == line[k - start]);
    }
    assert(line_start(s, a) == start);
    let tail = s.skip(b);
    assert forall|j: int| 0 <= j < end - b implies tail[j] != '\n' by {
        assert(tail[j] == line[b + j - start]);
    }
    assert(tail[end - b] == '\n');
    lemma_index_of_is(tail, '\n', end - b);
    assert(line_end(s, b) == end);
    let block = s.subrange(start, end);
    assert(block =~= line);
    assert(!blank(line)) by {
        assert(!is_white_space(line[0]));
    }
    lemma_index_of_is(line, '\n', line.len() as int);
    assert(lines(line) =~= seq![line]);
    let none = Seq::<char>::empty();
    law_comments_start_with_the_mark(none, line[0], line.drop_first());
    assert(none + seq![line[0]] + line.drop_first() =~= line);
    assert(!all_commented(seq![line])) by {
        assert(seq![line][0] == line);
    }
    assert(toggled_lines(seq![line]) =~= seq!["# "@ + line]);
    assert(toggled_block(line) =~= "# "@ + line);
    assert(s.take(start) =~= before + "\n"@);
    assert(s.skip(end) =~= "\n"@ + after);
    assert(s.take(start) + ("# "@ + line) + s.skip(end) =~= before + "\n"@ + "# "@ + line + "\n"@
        + after);
}

} // verus!
