//! The cues pane.

use crate::client::{CueInfo, CueView};
use crate::table::{law_lines_of_terminated, line_safe, lemma_joined_is_terminated, terminated};
use crate::text::{
    chars_of, join, joined, lacks, lemma_index_of_is, lines, lines_of, split_once, split_once_at,
    string_of, string_views, trim, trimmed, views,
};
use crate::ui::files::optional_str;
use vstd::prelude::*;
use vstd::string::*;

verus! {

/// How many lines of cues are kept.
pub const CUE_LINES: usize = 200;

/// The numerator and the denominator of a rational time stamp.
pub open spec fn time_parts(t: Seq<char>) -> Option<(Seq<char>, Seq<char>)> {
    match split_once(t, '/') {
        Some((n, d)) => Some((trim(n), trim(d))),
        None => None,
    }
}

/// The two numbers of a rational time stamp, as they are written; `None` when it
/// is no such stamp.
pub fn cue_time_parts(t: &str) -> (r: Option<(String, String)>)
    ensures
        match r {
            Some((n, d)) => time_parts(t@) == Some((n@, d@)),
            None => time_parts(t@) is None,
        },
{
    let cs: Vec<char> = chars_of(t);
    match split_once_at(cs.as_slice(), '/') {
        Some((n, d)) => Some((string_of(trimmed(n)), string_of(trimmed(d)))),
        None => None,
    }
}

/// The line of a cue. `stamp` is its time since the first cue, if that is known.
pub open spec fn cue_text(c: CueView, stamp: Option<Seq<char>>) -> Seq<char> {
    (match stamp {
        Some(s) => s,
        None => c.time,
    }) + "  "@ + c.address + "  "@ + c.args
}

/// The line of a cue: its time since the first cue, or its own time stamp when
/// that is no number, then its address and its arguments.
pub fn cue_line(c: &CueInfo, stamp: Option<&str>) -> (r: String)
    ensures
        r@ == cue_text(c@, optional_str(stamp)),
{
    let mut out: String = match stamp {
        Some(s) => String::from_str(s),
        None => c.time.clone(),
    };
    out.append("  ");
    out.append(c.address.as_str());
    out.append("  ");
    out.append(c.args.as_str());
    out
}

/// The text of the pane with some lines more, before any are dropped.
pub open spec fn with_cues(text: Seq<char>, was_live: bool, fresh: Seq<Seq<char>>) -> Seq<char> {
    (if was_live {
        text
    } else {
        seq![]
    }) + terminated(fresh)
}

/// A text cut down to its newest lines.
pub open spec fn newest_lines(text: Seq<char>) -> Seq<char> {
    let n = lines(text).len() - CUE_LINES;
    if n > 0 {
        join(lines(text).skip(n), "\n"@) + "\n"@
    } else {
        text
    }
}

/// The text of the pane after some cues came in: the first ones take the place of
/// the example text, later ones are added, and only the newest lines are kept.
pub fn add_cues(text: &str, was_live: bool, fresh: &Vec<String>) -> (r: String)
    ensures
        r@ == newest_lines(with_cues(text@, was_live, string_views(fresh@))),
{
    let mut out: String = if was_live {
        String::from_str(text)
    } else {
        String::new()
    };
    let ghost start = out@;
    assert(start =~= if was_live {
        text@
    } else {
        seq![]
    });
    let ghost all = string_views(fresh@);
    let mut i: usize = 0;
    assert(out@ =~= start + terminated(all.take(0)));
    while i < fresh.len()
        invariant
            i <= fresh@.len(),
            all == string_views(fresh@),
            out@ == start + terminated(all.take(i as int)),
        decreases fresh@.len() - i,
    {
        assert(all[i as int] == fresh@[i as int]@);
        out.append(fresh[i].as_str());
        out.append("\n");
        i = i + 1;
        assert(all.take(i as int).drop_last() =~= all.take(i - 1));
        assert(out@ =~= start + terminated(all.take(i as int)));
    }
    assert(all.take(i as int) =~= all);
    let cs: Vec<char> = chars_of(out.as_str());
    let ls: Vec<&[char]> = lines_of(cs.as_slice());
    let ghost found = lines(out@);
    if ls.len() > CUE_LINES {
        let n: usize = ls.len() - CUE_LINES;
        let mut kept: Vec<String> = Vec::new();
        let mut k: usize = n;
        while k < ls.len()
            invariant
                n <= k <= ls@.len(),
                found == views(ls@),
                string_views(kept@) == found.subrange(n as int, k as int),
            decreases ls@.len() - k,
        {
            let ghost before = string_views(kept@);
            let s: String = string_of(ls[k]);
            assert(s@ == found[k as int]);
            kept.push(s);
            k = k + 1;
            assert(string_views(kept@) =~= before.push(s@));
            assert(string_views(kept@) =~= found.subrange(n as int, k as int));
        }
        assert(found.subrange(n as int, k as int) =~= found.skip(n as int));
        let text: String = joined(&kept, "\n");
        text.concat("\n")
    } else {
        out
    }
}

/// The pane holds no more than its newest lines, and those unchanged. Where older
/// lines have to go, no line that stays may end in a carriage return: it would be
/// taken for a part of the line break.
pub proof fn law_only_the_newest_cues_are_kept(text: Seq<char>)
    requires
        forall|i: int|
            0 < lines(text).len() - CUE_LINES <= i < lines(text).len() ==> line_safe(
                #[trigger] lines(text)[i],
            ),
    ensures
        lines(newest_lines(text)).len() <= CUE_LINES,
        lines(newest_lines(text)) == (if lines(text).len() > CUE_LINES {
            lines(text).skip(lines(text).len() - CUE_LINES)
        } else {
            lines(text)
        }),
{
    let n = lines(text).len() - CUE_LINES;
    if n > 0 {
        let kept = lines(text).skip(n);
        assert forall|i: int| 0 <= i < kept.len() implies line_safe(#[trigger] kept[i]) by {
            assert(kept[i] == lines(text)[n + i]);
        }
        lemma_joined_is_terminated(kept);
        law_lines_of_terminated(kept);
    }
}

/// A rational time stamp is told apart at its first slash, and white space around its
/// two numbers is not read; a stamp without a slash is none.
pub proof fn law_stamps_are_told_apart_at_the_slash(n: Seq<char>, d: Seq<char>)
    requires
        lacks(n, '/'),
    ensures
        time_parts(n + seq!['/'] + d) == Some((trim(n), trim(d))),
        time_parts(n) is None,
{
    let t = n + seq!['/'] + d;
    assert(t[n.len() as int] == '/');
    assert forall|j: int| 0 <= j < n.len() implies t[j] != '/' by {
        assert(t[j] == n[j]);
    }
    lemma_index_of_is(t, '/', n.len() as int);
    assert(t.take(n.len() as int) =~= n);
    assert(t.skip(n.len() as int + 1) =~= d);
    lemma_index_of_is(n, '/', n.len() as int);
}

/// A cue is shown by its time, its address and its arguments, in that order, with two
/// spaces between; its time is the one since the first cue where that is known.
pub proof fn law_cues_are_shown_in_columns(c: CueView, stamp: Seq<char>)
    ensures
        cue_text(c, Some(stamp)) == stamp + seq![' ', ' '] + c.address + seq![' ', ' '] + c.args,
        cue_text(c, None) == c.time + seq![' ', ' '] + c.address + seq![' ', ' '] + c.args,
{
    reveal_strlit("  ");
    assert("  "@ =~= seq![' ', ' ']);
}

/// The first cues take the place of what was shown before; later ones stand behind
/// the earlier ones, each on a line of its own.
pub proof fn law_fresh_cues_stand_at_the_end(text: Seq<char>, fresh: Seq<Seq<char>>, c: Seq<char>)
    ensures
        with_cues(text, true, seq![]) == text,
        with_cues(text, false, seq![]).len() == 0,
        with_cues(text, true, fresh.push(c)) == with_cues(text, true, fresh) + c + seq!['\n'],
        with_cues(text, false, fresh.push(c)) == with_cues(text, false, fresh) + c + seq!['\n'],
        CUE_LINES == 200,
{
    reveal_strlit("\n");
    assert("\n"@ =~= seq!['\n']);
    assert(fresh.push(c).drop_last() =~= fresh);
    assert(with_cues(text, true, seq![]) =~= text);
    assert(with_cues(text, true, fresh.push(c)) =~= with_cues(text, true, fresh) + c + seq!['\n']);
    assert(with_cues(text, false, fresh.push(c)) =~= with_cues(text, false, fresh) + c + seq![
        '\n',
    ]);
}

} // verus!
