//! What goes with a run: the preamble that carries the run settings, and the
//! stepping of the default MIDI channel.

use crate::number::{decimal, law_nat_round_trip, nat_from, nat_text, parse_nat};
use crate::table::{law_lines_of_terminated, line_safe, terminated};
use crate::text::{chars_of, contains, lacks, lemma_contains_at, lines};
use vstd::prelude::*;
use vstd::string::*;

verus! {

/// What ends each line of the preamble. The runtime leaves lines with this mark
/// out of saved buffers and of the line numbers of errors.
pub const NOSAVE: &'static str = " #__nosave__ set by Sonic Oxide user preferences.\n";

/// The preamble of a run: the default MIDI channel, then a line for each setting
/// that is on.
pub open spec fn preamble(
    safe: bool,
    external_synths: bool,
    timing: bool,
    midi_channel: Seq<char>,
) -> Seq<char> {
    let a = "use_midi_defaults channel: \""@ + midi_channel + "\""@ + NOSAVE@;
    let b = if timing {
        a + ("use_timing_guarantees true"@ + NOSAVE@)
    } else {
        a
    };
    let c = if external_synths {
        b + ("use_external_synths true"@ + NOSAVE@)
    } else {
        b
    };
    if safe {
        c + ("use_arg_checks true"@ + NOSAVE@)
    } else {
        c
    }
}

/// The lines that go before the code of a run. `midi_channel` is `*` for all
/// channels, or one of `1` to `16`.
pub fn run_preamble(safe: bool, external_synths: bool, timing: bool, midi_channel: &str) -> (r:
    String)
    ensures
        r@ == preamble(safe, external_synths, timing, midi_channel@),
{
    let mut p: String = String::from_str("use_midi_defaults channel: \"");
    p.append(midi_channel);
    p.append("\"");
    p.append(NOSAVE);
    if timing {
        let line: String = String::from_str("use_timing_guarantees true").concat(NOSAVE);
        p.append(line.as_str());
    }
    if external_synths {
        let line: String = String::from_str("use_external_synths true").concat(NOSAVE);
        p.append(line.as_str());
    }
    if safe {
        let line: String = String::from_str("use_arg_checks true").concat(NOSAVE);
        p.append(line.as_str());
    }
    p
}

/// The mark of a preamble line, without its line break.
pub open spec fn mark() -> Seq<char> {
    " #__nosave__ set by Sonic Oxide user preferences."@
}

/// The lines of the preamble.
pub open spec fn preamble_lines(
    safe: bool,
    external_synths: bool,
    timing: bool,
    midi_channel: Seq<char>,
) -> Seq<Seq<char>> {
    let a = seq!["use_midi_defaults channel: \""@ + midi_channel + "\""@ + mark()];
    let b = if timing {
        a.push("use_timing_guarantees true"@ + mark())
    } else {
        a
    };
    let c = if external_synths {
        b.push("use_external_synths true"@ + mark())
    } else {
        b
    };
    if safe {
        c.push("use_arg_checks true"@ + mark())
    } else {
        c
    }
}

proof fn lemma_marked(a: Seq<char>)
    requires
        lacks(a, '\n'),
    ensures
        line_safe(a + mark()),
        contains(a + mark(), "#__nosave__"@),
{
    reveal_strlit(" #__nosave__ set by Sonic Oxide user preferences.");
    reveal_strlit("#__nosave__");
    let l = a + mark();
    assert(l.last() == '.');
    assert(l.subrange(a.len() as int + 1, a.len() as int + 12) =~= "#__nosave__"@);
    lemma_contains_at(l, "#__nosave__"@, a.len() as int + 1);
}

proof fn lemma_terminated_push(ls: Seq<Seq<char>>, a: Seq<char>)
    ensures
        terminated(ls.push(a + mark())) == terminated(ls) + (a + NOSAVE@),
{
    reveal_strlit("\n");
    reveal_strlit(" #__nosave__ set by Sonic Oxide user preferences.");
    reveal_strlit(" #__nosave__ set by Sonic Oxide user preferences.\n");
    assert(mark() + "\n"@ =~= NOSAVE@);
    assert(ls.push(a + mark()).drop_last() =~= ls);
    assert(terminated(ls.push(a + mark())) =~= terminated(ls) + (a + NOSAVE@));
}

/// The preamble is whole lines, one for the channel and one for each setting that
/// is on, and every one of them carries the mark, so that it can be taken off
/// again.
pub proof fn law_every_preamble_line_is_marked(
    safe: bool,
    external_synths: bool,
    timing: bool,
    midi_channel: Seq<char>,
)
    requires
        lacks(midi_channel, '\n'),
    ensures
        ({
            let ls = preamble_lines(safe, external_synths, timing, midi_channel);
            &&& terminated(ls) == preamble(safe, external_synths, timing, midi_channel)
            &&& lines(preamble(safe, external_synths, timing, midi_channel)) == ls
            &&& ls.len() == 1 + (if timing {
                1int
            } else {
                0
            }) + (if external_synths {
                1int
            } else {
                0
            }) + (if safe {
                1int
            } else {
                0
            })
            &&& forall|i: int|
                0 <= i < ls.len() ==> contains(#[trigger] ls[i], "#__nosave__"@)
        }),
{
    reveal_strlit("use_midi_defaults channel: \"");
    reveal_strlit("\"");
    reveal_strlit("use_timing_guarantees true");
    reveal_strlit("use_external_synths true");
    reveal_strlit("use_arg_checks true");
    let head = "use_midi_defaults channel: \""@ + midi_channel + "\""@;
    assert(lacks(head, '\n'));
    lemma_marked(head);
    lemma_marked("use_timing_guarantees true"@);
    lemma_marked("use_external_synths true"@);
    lemma_marked("use_arg_checks true"@);
    let none = Seq::<Seq<char>>::empty();
    lemma_terminated_push(none, head);
    assert(none.push(head + mark()) =~= seq![head + mark()]);
    assert(terminated(none) =~= seq![]);
    assert(terminated(seq![head + mark()]) =~= head + NOSAVE@);
    let a = seq![head + mark()];
    lemma_terminated_push(a, "use_timing_guarantees true"@);
    let b = if timing {
        a.push("use_timing_guarantees true"@ + mark())
    } else {
        a
    };
    lemma_terminated_push(b, "use_external_synths true"@);
    let c = if external_synths {
        b.push("use_external_synths true"@ + mark())
    } else {
        b
    };
    lemma_terminated_push(c, "use_arg_checks true"@);
    let ls = preamble_lines(safe, external_synths, timing, midi_channel);
    law_lines_of_terminated(ls);
}

/// The channel after `ch`: `*`, then `1` to `16`, then `*` again. Any other text
/// counts as `*`.
pub open spec fn channel_after(ch: Seq<char>) -> Seq<char> {
    match parse_nat(ch, 255) {
        Some(n) => if n >= 16 {
            "*"@
        } else {
            decimal(n + 1)
        },
        None => "1"@,
    }
}

/// The channel before `ch`.
pub open spec fn channel_before(ch: Seq<char>) -> Seq<char> {
    match parse_nat(ch, 255) {
        Some(n) => if n <= 1 {
            "*"@
        } else {
            decimal((n - 1) as nat)
        },
        None => "16"@,
    }
}

/// Steps the default MIDI channel up.
pub fn next_midi_channel(ch: &str) -> (r: String)
    ensures
        r@ == channel_after(ch@),
{
    let cs: Vec<char> = chars_of(ch);
    match nat_from(cs.as_slice(), 255) {
        Some(n) => if n >= 16 {
            String::from_str("*")
        } else {
            nat_text(n + 1)
        },
        None => String::from_str("1"),
    }
}

/// Steps the default MIDI channel down.
pub fn prev_midi_channel(ch: &str) -> (r: String)
    ensures
        r@ == channel_before(ch@),
{
    let cs: Vec<char> = chars_of(ch);
    match nat_from(cs.as_slice(), 255) {
        Some(n) => if n <= 1 {
            String::from_str("*")
        } else {
            nat_text(n - 1)
        },
        None => String::from_str("16"),
    }
}

/// Whether `ch` is a default channel: `*`, or a number from 1 to 16.
pub open spec fn is_channel(ch: Seq<char>) -> bool {
    ch == "*"@ || exists|n: nat| 1 <= n <= 16 && ch == #[trigger] decimal(n)
}

proof fn lemma_star_is_no_number()
    ensures
        parse_nat("*"@, 255) is None,
{
    reveal_strlit("*");
    assert(!crate::number::is_digit("*"@[0]));
}

/// The channels form a cycle: stepping up and stepping down undo each other and
/// lead from channel to channel.
pub proof fn law_channel_steps_undo_each_other(ch: Seq<char>)
    requires
        is_channel(ch),
    ensures
        is_channel(channel_after(ch)),
        is_channel(channel_before(ch)),
        channel_before(channel_after(ch)) == ch,
        channel_after(channel_before(ch)) == ch,
{
    lemma_star_is_no_number();
    reveal_with_fuel(decimal, 3);
    reveal_strlit("1");
    reveal_strlit("16");
    assert("1"@ =~= decimal(1));
    assert("16"@ =~= decimal(16));
    law_nat_round_trip(1, 255);
    law_nat_round_trip(16, 255);
    if ch != "*"@ {
        let n = choose|n: nat| 1 <= n <= 16 && ch == #[trigger] decimal(n);
        law_nat_round_trip(n, 255);
        if n < 16 {
            law_nat_round_trip(n + 1, 255);
        }
        if n > 1 {
            law_nat_round_trip((n - 1) as nat, 255);
        }
    }
}

/// The channels follow each other as their numbers do: behind all channels comes the
/// first, and behind the sixteenth all of them again.
pub proof fn law_channels_follow_their_numbers(n: nat)
    requires
        1 <= n < 16,
    ensures
        channel_after("*"@) == decimal(1),
        channel_after(decimal(n)) == decimal(n + 1),
        channel_after(decimal(16)) == "*"@,
        channel_before("*"@) == decimal(16),
        channel_before(decimal(n + 1)) == decimal(n),
        channel_before(decimal(1)) == "*"@,
{
    lemma_star_is_no_number();
    reveal_with_fuel(decimal, 3);
    reveal_strlit("1");
    reveal_strlit("16");
    assert("1"@ =~= decimal(1));
    assert("16"@ =~= decimal(16));
    law_nat_round_trip(1, 255);
    law_nat_round_trip(16, 255);
    law_nat_round_trip(n, 255);
    law_nat_round_trip(n + 1, 255);
}

} // verus!
