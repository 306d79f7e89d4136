//! The workspace: the buffers as they are when the program starts.

use crate::number::{nat_from, parse_nat};
use crate::text::{chars_of, string_views};
use crate::ui::files::BUFFER_COUNT;
use vstd::prelude::*;
use vstd::string::*;

verus! {

/// What a buffer holds that nothing was stored for: an example in the first ones,
/// nothing in the others.
pub open spec fn seed_of(i: int) -> Seq<char> {
    if i == 0 {
        "# Buffer 1 — drums\nlive_loop :drums do\n  sample :bd_haus, amp: 2\n  sleep 0.5\nend\n"@
    } else if i == 1 {
        "# Buffer 2 — bass\nlive_loop :bass do\n  use_synth :tb303\n  play :e1, release: 0.2, cutoff: 90\n  sleep 0.25\nend\n"@
    } else if i == 2 {
        "# Buffer 3 — sketch\nplay_chord [:c4, :e4, :g4]\n"@
    } else {
        seq![]
    }
}

fn buffer_seed(i: usize) -> (r: String)
    ensures
        r@ == seed_of(i as int),
{
    if i == 0 {
        String::from_str(
            "# Buffer 1 — drums\nlive_loop :drums do\n  sample :bd_haus, amp: 2\n  sleep 0.5\nend\n",
        )
    } else if i == 1 {
        String::from_str(
            "# Buffer 2 — bass\nlive_loop :bass do\n  use_synth :tb303\n  play :e1, release: 0.2, cutoff: 90\n  sleep 0.25\nend\n",
        )
    } else if i == 2 {
        String::from_str("# Buffer 3 — sketch\nplay_chord [:c4, :e4, :g4]\n")
    } else {
        String::new()
    }
}

/// What buffer `i` starts with, from what was stored of it.
pub open spec fn first_text(stored: Option<String>, i: int) -> Seq<char> {
    match stored {
        Some(t) => t@,
        None => seed_of(i),
    }
}

/// What the buffers start with: stored text wins, even if it is empty; a buffer
/// that was never stored has its example, if there is one.
pub fn initial_buffers(stored: Vec<Option<String>>) -> (r: Vec<String>)
    requires
        stored@.len() >= BUFFER_COUNT,
    ensures
        string_views(r@) == Seq::new(
            BUFFER_COUNT as nat,
            |i: int| first_text(stored@[i], i),
        ),
{
    let mut out: Vec<String> = Vec::new();
    let mut i: usize = 0;
    let ghost all = Seq::new(BUFFER_COUNT as nat, |i: int| first_text(stored@[i], i));
    while i < BUFFER_COUNT
        invariant
            i <= BUFFER_COUNT <= stored@.len(),
            all == Seq::new(BUFFER_COUNT as nat, |i: int| first_text(stored@[i], i)),
            string_views(out@) == all.take(i as int),
        decreases BUFFER_COUNT - i,
    {
        let ghost before = string_views(out@);
        let t: String = match &stored[i] {
            Some(t) => t.clone(),
            None => buffer_seed(i),
        };
        out.push(t);
        assert(string_views(out@) =~= before.push(all[i as int]));
        i = i + 1;
        assert(string_views(out@) =~= all.take(i as int));
    }
    assert(all.take(i as int) =~= all);
    out
}

/// What the cue pane shows until the first cue comes.
pub open spec fn example_cues() -> Seq<char> {
    "/beat        [t=12.500]  16\n/midi/note   [t=12.512]  60 100\n/link/tempo  [t=12.600]  120.0\n/beat        [t=13.000]  17\n"@
}

pub fn cues_example() -> (r: &'static str)
    ensures
        r@ == example_cues(),
{
    "/beat        [t=12.500]  16\n/midi/note   [t=12.512]  60 100\n/link/tempo  [t=12.600]  120.0\n/beat        [t=13.000]  17\n"
}

/// After how many seconds the program ends by itself, from the setting in the
/// environment.
pub fn autoquit_secs(setting: Option<&str>) -> (r: Option<u64>)
    ensures
        match (setting, r) {
            (Some(t), Some(n)) => parse_nat(t@, u64::MAX as nat) == Some(n as nat),
            (Some(t), None) => parse_nat(t@, u64::MAX as nat) is None,
            (None, r) => r is None,
        },
{
    match setting {
        Some(t) => {
            let cs: Vec<char> = chars_of(t);
            nat_from(cs.as_slice(), u64::MAX)
        },
        None => None,
    }
}

} // verus!
