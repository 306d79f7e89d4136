//! The user's audio settings as arguments of the engine.

use crate::text::{
    begins_with_text, blank, chars_of, drop_leading_quotes, drop_trailing_quotes, find_char,
    index_of, is_text, is_white_space, lacks, law_trim_padded, lemma_index_of_is,
    lemma_lines_append, lines, lines_of, no_outer_space, split_once, split_once_at, string_of, trim, trimmed, unquote,
    unquoted, views,
};
use crate::table::pair_views;
use vstd::prelude::*;
use vstd::slice::slice_subrange;
use vstd::string::*;

verus! {

/// The engine flag for a settings key.
pub open spec fn flag_of(key: Seq<char>) -> Option<Seq<char>> {
    if key == "sound_card_name"@ {
        Some("-H"@)
    } else if key == "sound_card_sample_rate"@ {
        Some("-S"@)
    } else if key == "sound_card_buffer_size"@ {
        Some("-Z"@)
    } else if key == "num_inputs"@ {
        Some("-i"@)
    } else if key == "num_outputs"@ {
        Some("-o"@)
    } else if key == "block_size"@ {
        Some("-z"@)
    } else if key == "enable_inputs"@ {
        Some("-I"@)
    } else if key == "enable_outputs"@ {
        Some("-O"@)
    } else if key == "num_control_bus_channels"@ {
        Some("-c"@)
    } else if key == "num_audio_bus_channels"@ {
        Some("-a"@)
    } else if key == "num_sample_buffers"@ {
        Some("-b"@)
    } else if key == "max_num_nodes"@ {
        Some("-n"@)
    } else if key == "max_num_synthdefs"@ {
        Some("-d"@)
    } else if key == "real_time_memory_size"@ {
        Some("-m"@)
    } else if key == "num_wire_buffers"@ {
        Some("-w"@)
    } else if key == "num_random_seeds"@ {
        Some("-r"@)
    } else if key == "audio_driver"@ {
        Some("--audio-driver"@)
    } else {
        None
    }
}

/// A settings value as it is written on the command line: without a comment, white
/// space and quotes.
pub open spec fn bare_value(v: Seq<char>) -> Seq<char> {
    unquote(trim(v.take(index_of(v, '#'))))
}

/// Truth values travel as one and zero.
pub open spec fn flag_value(v: Seq<char>) -> Seq<char> {
    if v == "true"@ {
        "1"@
    } else if v == "false"@ {
        "0"@
    } else {
        v
    }
}

/// The flag and value that a line of the settings file stands for. Comments,
/// section headers, empty values and unknown keys stand for none.
pub open spec fn setting_of_line(line: Seq<char>) -> Option<(Seq<char>, Seq<char>)> {
    let t = trim(line);
    if t.len() == 0 || "#"@.is_prefix_of(t) || "["@.is_prefix_of(t) {
        None
    } else {
        match split_once(t, '=') {
            Some((k, v)) => match flag_of(trim(k)) {
                Some(flag) => if bare_value(v).len() > 0 {
                    Some((flag, flag_value(bare_value(v))))
                } else {
                    None
                },
                None => None,
            },
            None => None,
        }
    }
}

/// The flags and values of a settings file, in the order of its lines.
pub open spec fn settings_of_text(text: Seq<char>) -> Seq<(Seq<char>, Seq<char>)> {
    lines(text).filter_map(|line: Seq<char>| setting_of_line(line))
}

/// Whether a flag is one that some settings key stands for.
pub open spec fn known_flag(flag: Seq<char>) -> bool {
    exists|key: Seq<char>| flag_of(key) == Some(flag)
}

proof fn lemma_settings_among(ls: Seq<Seq<char>>, i: int)
    requires
        0 <= i < ls.filter_map(|line: Seq<char>| setting_of_line(line)).len(),
    ensures
        ({
            let s = ls.filter_map(|line: Seq<char>| setting_of_line(line))[i];
            known_flag(s.0) && s.1.len() > 0 && s.1 != "true"@ && s.1 != "false"@
        }),
    decreases ls.len(),
{
    let f = |line: Seq<char>| setting_of_line(line);
    let before = ls.drop_last().filter_map(f);
    if ls.len() > 0 {
        if i < before.len() {
            lemma_settings_among(ls.drop_last(), i);
        } else {
            let t = trim(ls.last());
            let (k, v) = split_once(t, '=')->0;
            assert(flag_of(trim(k)) is Some);
            reveal_strlit("true");
            reveal_strlit("false");
            reveal_strlit("1");
            reveal_strlit("0");
        }
    }
}

/// Every setting that reaches the engine is a flag the engine knows with a value
/// that is not empty, and a truth value reaches it as a number.
pub proof fn law_settings_are_known_flags(text: Seq<char>, i: int)
    requires
        0 <= i < settings_of_text(text).len(),
    ensures
        known_flag(settings_of_text(text)[i].0),
        settings_of_text(text)[i].1.len() > 0,
        settings_of_text(text)[i].1 != "true"@,
        settings_of_text(text)[i].1 != "false"@,
{
    lemma_settings_among(lines(text), i);
}

fn flag_for(key: &[char]) -> (r: Option<&'static str>)
    ensures
        match r {
            Some(f) => flag_of(key@) == Some(f@),
            None => flag_of(key@) is None,
        },
{
    if is_text(key, "sound_card_name") {
        Some("-H")
    } else if is_text(key, "sound_card_sample_rate") {
        Some("-S")
    } else if is_text(key, "sound_card_buffer_size") {
        Some("-Z")
    } else if is_text(key, "num_inputs") {
        Some("-i")
    } else if is_text(key, "num_outputs") {
        Some("-o")
    } else if is_text(key, "block_size") {
        Some("-z")
    } else if is_text(key, "enable_inputs") {
        Some("-I")
    } else if is_text(key, "enable_outputs") {
        Some("-O")
    } else if is_text(key, "num_control_bus_channels") {
        Some("-c")
    } else if is_text(key, "num_audio_bus_channels") {
        Some("-a")
    } else if is_text(key, "num_sample_buffers") {
        Some("-b")
    } else if is_text(key, "max_num_nodes") {
        Some("-n")
    } else if is_text(key, "max_num_synthdefs") {
        Some("-d")
    } else if is_text(key, "real_time_memory_size") {
        Some("-m")
    } else if is_text(key, "num_wire_buffers") {
        Some("-w")
    } else if is_text(key, "num_random_seeds") {
        Some("-r")
    } else if is_text(key, "audio_driver") {
        Some("--audio-driver")
    } else {
        None
    }
}

fn setting_in(line: &[char]) -> (r: Option<(String, String)>)
    ensures
        match r {
            Some((f, v)) => setting_of_line(line@) == Some((f@, v@)),
            None => setting_of_line(line@) is None,
        },
{
    let t: &[char] = trimmed(line);
    if t.len() == 0 || begins_with_text(t, "#") || begins_with_text(t, "[") {
        return None;
    }
    match split_once_at(t, '=') {
        Some((k, v)) => {
            let uncommented: &[char] = slice_subrange(v, 0, find_char(v, '#'));
            assert(uncommented@ =~= v@.take(index_of(v@, '#')));
            let value: &[char] = unquoted(trimmed(uncommented));
            match flag_for(trimmed(k)) {
                Some(flag) => {
                    if value.len() == 0 {
                        return None;
                    }
                    let text: String = if is_text(value, "true") {
                        String::from_str("1")
                    } else if is_text(value, "false") {
                        String::from_str("0")
                    } else {
                        string_of(value)
                    };
                    Some((String::from_str(flag), text))
                },
                None => None,
            }
        },
        None => None,
    }
}

/// Reads the audio settings file (flat `key = value` lines) into arguments of the
/// engine.
pub fn audio_settings_args(toml_text: &str) -> (r: Vec<(String, String)>)
    ensures
        pair_views(r@) == settings_of_text(toml_text@),
{
    let cs: Vec<char> = chars_of(toml_text);
    let ls: Vec<&[char]> = lines_of(cs.as_slice());
    let ghost all = lines(toml_text@);
    let ghost f = |line: Seq<char>| setting_of_line(line);
    let mut out: Vec<(String, String)> = Vec::new();
    let mut i: usize = 0;
    assert(pair_views(out@) =~= all.take(0).filter_map(f));
    while i < ls.len()
        invariant
            i <= ls@.len(),
            views(ls@) == all,
            f == (|line: Seq<char>| setting_of_line(line)),
            pair_views(out@) == all.take(i as int).filter_map(f),
        decreases ls@.len() - i,
    {
        let ghost before = pair_views(out@);
        proof {
            all.lemma_filter_map_take_succ(f, i as int);
        }
        match setting_in(ls[i]) {
            Some(x) => {
                out.push(x);
                assert(pair_views(out@) =~= before + seq![(x.0@, x.1@)]);
            },
            None => {
                assert(pair_views(out@) =~= before + seq![]);
            },
        }
        i = i + 1;
    }
    assert(all.take(i as int) =~= all);
    out
}

proof fn lemma_filter_map_append<A, B>(s: Seq<A>, t: Seq<A>, f: spec_fn(A) -> Option<B>)
    ensures
        (s + t).filter_map(f) == s.filter_map(f) + t.filter_map(f),
    decreases t.len(),
{
    if t.len() == 0 {
        assert(s + t =~= s);
        assert(s.filter_map(f) + t.filter_map(f) =~= s.filter_map(f));
    } else {
        assert((s + t).drop_last() =~= s + t.drop_last());
        lemma_filter_map_append(s, t.drop_last(), f);
        assert((s + t).filter_map(f) =~= s.filter_map(f) + t.filter_map(f));
    }
}

/// Settings put behind others that end with a line break come behind those.
pub proof fn law_settings_add_up(a: Seq<char>, b: Seq<char>)
    requires
        a.len() > 0 ==> a.last() == '\n',
    ensures
        settings_of_text(a + b) == settings_of_text(a) + settings_of_text(b),
{
    lemma_lines_append(a, b);
    lemma_filter_map_append(lines(a), lines(b), |line: Seq<char>| setting_of_line(line));
}

/// Whether a text can be a settings value as it stands: no quotes, comment or line
/// break in it, and no white space at its ends.
pub open spec fn plain_value(w: Seq<char>) -> bool {
    &&& w.len() > 0
    &&& no_outer_space(w)
    &&& lacks(w, '#') && lacks(w, '"') && lacks(w, '\n')
}

/// Each settings key stands for one flag of the engine.
pub proof fn law_keys_have_their_flags(key: Seq<char>, flag: Seq<char>)
    requires
        (key == "sound_card_name"@ && flag == "-H"@)
            || (key == "sound_card_sample_rate"@ && flag == "-S"@)
            || (key == "sound_card_buffer_size"@ && flag == "-Z"@)
            || (key == "num_inputs"@ && flag == "-i"@)
            || (key == "num_outputs"@ && flag == "-o"@)
            || (key == "block_size"@ && flag == "-z"@)
            || (key == "enable_inputs"@ && flag == "-I"@)
            || (key == "enable_outputs"@ && flag == "-O"@)
            || (key == "num_control_bus_channels"@ && flag == "-c"@)
            || (key == "num_audio_bus_channels"@ && flag == "-a"@)
            || (key == "num_sample_buffers"@ && flag == "-b"@)
            || (key == "max_num_nodes"@ && flag == "-n"@)
            || (key == "max_num_synthdefs"@ && flag == "-d"@)
            || (key == "real_time_memory_size"@ && flag == "-m"@)
            || (key == "num_wire_buffers"@ && flag == "-w"@)
            || (key == "num_random_seeds"@ && flag == "-r"@)
            || (key == "audio_driver"@ && flag == "--audio-driver"@),
    ensures
        flag_of(key) == Some(flag),
        key.len() > 0,
        no_outer_space(key),
        lacks(key, '=') && lacks(key, '\n') && lacks(key, '"'),
        key[0] != '#' && key[0] != '[',
{
    reveal_strlit("sound_card_name");
    reveal_strlit("sound_card_sample_rate");
    reveal_strlit("sound_card_buffer_size");
    reveal_strlit("num_inputs");
    reveal_strlit("num_outputs");
    reveal_strlit("block_size");
    reveal_strlit("enable_inputs");
    reveal_strlit("enable_outputs");
    reveal_strlit("num_control_bus_channels");
    reveal_strlit("num_audio_bus_channels");
    reveal_strlit("num_sample_buffers");
    reveal_strlit("max_num_nodes");
    reveal_strlit("max_num_synthdefs");
    reveal_strlit("real_time_memory_size");
    reveal_strlit("num_wire_buffers");
    reveal_strlit("num_random_seeds");
    reveal_strlit("audio_driver");
    assert("sound_card_buffer_size"@[11] != "sound_card_sample_rate"@[11]);
    assert("block_size"@[0] != "num_inputs"@[0]);
    assert("num_audio_bus_channels"@[0] != "sound_card_sample_rate"@[0]);
    assert("num_audio_bus_channels"@[0] != "sound_card_buffer_size"@[0]);
    assert("max_num_nodes"@[0] != "enable_inputs"@[0]);
    assert("num_random_seeds"@[4] != "num_wire_buffers"@[4]);
    assert("sound_card_name"@.len() == 15);
    assert("sound_card_sample_rate"@.len() == 22);
    assert("sound_card_buffer_size"@.len() == 22);
    assert("num_inputs"@.len() == 10);
    assert("num_outputs"@.len() == 11);
    assert("block_size"@.len() == 10);
    assert("enable_inputs"@.len() == 13);
    assert("enable_outputs"@.len() == 14);
    assert("num_control_bus_channels"@.len() == 24);
    assert("num_audio_bus_channels"@.len() == 22);
    assert("num_sample_buffers"@.len() == 18);
    assert("max_num_nodes"@.len() == 13);
    assert("max_num_synthdefs"@.len() == 17);
    assert("real_time_memory_size"@.len() == 21);
    assert("num_wire_buffers"@.len() == 16);
    assert("num_random_seeds"@.len() == 16);
    assert("audio_driver"@.len() == 12);
}

proof fn lemma_unquote(w: Seq<char>, q: Seq<char>)
    requires
        w.len() > 0,
        lacks(w, '"'),
        q.len() == 0 || q == seq!['"'],
    ensures
        unquote(q + w + q) == w,
{
    let v = q + w + q;
    if q.len() == 0 {
        assert(v =~= w);
        assert(w[0] != '"' && w[w.len() - 1] != '"');
    } else {
        reveal_with_fuel(drop_leading_quotes, 2);
        reveal_with_fuel(drop_trailing_quotes, 2);
        assert(v[0] == '"');
        assert(v.drop_first() =~= w + q);
        assert((w + q)[0] == w[0]);
        assert((w + q).last() == '"');
        assert((w + q).drop_last() =~= w);
        assert(w[0] != '"' && w[w.len() - 1] != '"');
    }
}

/// What follows the equals sign of a setting: the value, in quotes or bare, with
/// white space around it and a comment behind it.
proof fn lemma_bare_value(
    before: Seq<char>,
    quote: Seq<char>,
    w: Seq<char>,
    after: Seq<char>,
    comment: Seq<char>,
)
    requires
        blank(before),
        blank(after),
        quote.len() == 0 || quote == seq!['"'],
        plain_value(w),
        comment.len() > 0 ==> comment[0] == '#',
    ensures
        bare_value(before + (quote + w + quote) + after + comment) == w,
        no_outer_space(quote + w + quote),
{
    let value = quote + w + quote;
    let v = before + value + after + comment;
    let n = (before.len() + value.len() + after.len()) as int;
    if quote.len() == 0 {
        assert(value =~= w);
    } else {
        assert(value[0] == '"' && value.last() == '"');
    }
    assert forall|j: int| 0 <= j < n implies v[j] != '#' by {
        let h = before.len() as int;
        if j < h {
            assert(v[j] == before[j]);
            assert(is_white_space(before[j]));
        } else if j < h + value.len() {
            assert(v[j] == value[j - h]);
            let k = j - h - quote.len();
            if 0 <= k < w.len() {
                assert(value[j - h] == w[k]);
            }
        } else {
            assert(v[j] == after[j - h - value.len()]);
            assert(is_white_space(after[j - h - value.len()]));
        }
    }
    lemma_index_of_is(v, '#', n);
    assert(v.take(n) =~= before + value + after);
    law_trim_padded(before, value, after);
    lemma_unquote(w, quote);
}

/// A trimmed line that holds a known key, white space, an equals sign and a value.
proof fn lemma_setting_of_trimmed(
    line: Seq<char>,
    key: Seq<char>,
    flag: Seq<char>,
    gap: Seq<char>,
    rest: Seq<char>,
)
    requires
        trim(line) == key + gap + seq!['='] + rest,
        flag_of(key) == Some(flag),
        key.len() > 0,
        no_outer_space(key),
        lacks(key, '='),
        key[0] != '#',
        key[0] != '[',
        blank(gap),
        bare_value(rest).len() > 0,
    ensures
        setting_of_line(line) == Some((flag, flag_value(bare_value(rest)))),
{
    let kept = key + gap + seq!['='] + rest;
    let e = (key.len() + gap.len()) as int;
    assert(kept[e] == '=');
    assert forall|j: int| 0 <= j < e implies kept[j] != '=' by {
        if j < key.len() {
            assert(kept[j] == key[j]);
        } else {
            assert(kept[j] == gap[j - key.len()]);
            assert(is_white_space(gap[j - key.len()]));
        }
    }
    lemma_index_of_is(kept, '=', e);
    let none = Seq::<char>::empty();
    assert(kept.take(e) =~= none + key + gap);
    law_trim_padded(none, key, gap);
    assert(kept.skip(e + 1) =~= rest);
    reveal_strlit("#");
    reveal_strlit("[");
    assert(kept[0] == key[0]);
    assert(!"#"@.is_prefix_of(kept)) by {
        if "#"@.is_prefix_of(kept) {
            assert("#"@[0] == kept.subrange(0, 1)[0]);
        }
    }
    assert(!"["@.is_prefix_of(kept)) by {
        if "["@.is_prefix_of(kept) {
            assert("["@[0] == kept.subrange(0, 1)[0]);
        }
    }
}

/// A text of one line holds the setting of that line.
proof fn lemma_settings_of_line(line: Seq<char>)
    requires
        line.len() > 0,
        lacks(line, '\n'),
        setting_of_line(line) is Some,
    ensures
        settings_of_text(line) == seq![setting_of_line(line)->0],
{
    lemma_index_of_is(line, '\n', line.len() as int);
    assert(lines(line) =~= seq![line]);
    let f = |l: Seq<char>| setting_of_line(l);
    reveal_with_fuel(Seq::filter_map, 2);
    assert(seq![line].drop_last() =~= Seq::<Seq<char>>::empty());
    assert(seq![line].last() == line);
    assert(seq![line].filter_map(f) =~= seq![setting_of_line(line)->0]);
}

proof fn lemma_setting_is_read(
    key: Seq<char>,
    flag: Seq<char>,
    gaps: (Seq<char>, Seq<char>, Seq<char>, Seq<char>),
    quote: Seq<char>,
    w: Seq<char>,
    comment: Seq<char>,
)
    requires
        flag_of(key) == Some(flag),
        key.len() > 0,
        no_outer_space(key),
        lacks(key, '='),
        lacks(key, '\n'),
        key[0] != '#',
        key[0] != '[',
        blank(gaps.0) && blank(gaps.1) && blank(gaps.2) && blank(gaps.3),
        lacks(gaps.0, '\n') && lacks(gaps.1, '\n') && lacks(gaps.2, '\n') && lacks(gaps.3, '\n'),
        quote.len() == 0 || quote == seq!['"'],
        plain_value(w),
        comment.len() > 0 ==> comment[0] == '#' && no_outer_space(comment) && lacks(comment, '\n'),
    ensures
        settings_of_text(
            gaps.0 + key + gaps.1 + seq!['='] + gaps.2 + quote + w + quote + gaps.3 + comment,
        ) == seq![(flag, flag_value(w))],
{
    let value = quote + w + quote;
    let line = gaps.0 + key + gaps.1 + seq!['='] + gaps.2 + quote + w + quote + gaps.3 + comment;
    let none = Seq::<char>::empty();
    lemma_bare_value(gaps.2, quote, w, gaps.3, comment);
    lemma_bare_value(gaps.2, quote, w, none, none);
    let (rest, end) = if comment.len() == 0 {
        (gaps.2 + value + none + none, gaps.3)
    } else {
        (gaps.2 + value + gaps.3 + comment, none)
    };
    let kept = key + gaps.1 + seq!['='] + rest;
    assert(kept[0] == key[0]);
    assert(kept.last() == if comment.len() == 0 {
        value.last()
    } else {
        comment.last()
    });
    assert(line =~= gaps.0 + kept + end);
    law_trim_padded(gaps.0, kept, end);
    lemma_setting_of_trimmed(line, key, flag, gaps.1, rest);
    assert forall|j: int| 0 <= j < line.len() implies line[j] != '\n' by {
        lemma_no_break(line, gaps, key, quote, w, comment, j);
    }
    lemma_settings_of_line(line);
}

/// A line `key = value` of the settings file reaches the engine as the flag of the
/// key and the value, whatever white space, quotes and comment stand around them;
/// but the value `true` reaches it as `1`, and `false` as `0`.
pub proof fn law_setting_is_read(
    key: Seq<char>,
    flag: Seq<char>,
    gaps: (Seq<char>, Seq<char>, Seq<char>, Seq<char>),
    quote: Seq<char>,
    w: Seq<char>,
    comment: Seq<char>,
)
    requires
        (key == "sound_card_name"@ && flag == "-H"@)
            || (key == "sound_card_sample_rate"@ && flag == "-S"@)
            || (key == "sound_card_buffer_size"@ && flag == "-Z"@)
            || (key == "num_inputs"@ && flag == "-i"@)
            || (key == "num_outputs"@ && flag == "-o"@)
            || (key == "block_size"@ && flag == "-z"@)
            || (key == "enable_inputs"@ && flag == "-I"@)
            || (key == "enable_outputs"@ && flag == "-O"@)
            || (key == "num_control_bus_channels"@ && flag == "-c"@)
            || (key == "num_audio_bus_channels"@ && flag == "-a"@)
            || (key == "num_sample_buffers"@ && flag == "-b"@)
            || (key == "max_num_nodes"@ && flag == "-n"@)
            || (key == "max_num_synthdefs"@ && flag == "-d"@)
            || (key == "real_time_memory_size"@ && flag == "-m"@)
            || (key == "num_wire_buffers"@ && flag == "-w"@)
            || (key == "num_random_seeds"@ && flag == "-r"@)
            || (key == "audio_driver"@ && flag == "--audio-driver"@),
        blank(gaps.0) && blank(gaps.1) && blank(gaps.2) && blank(gaps.3),
        lacks(gaps.0, '\n') && lacks(gaps.1, '\n') && lacks(gaps.2, '\n') && lacks(gaps.3, '\n'),
        quote.len() == 0 || quote == seq!['"'],
        plain_value(w),
        comment.len() > 0 ==> comment[0] == '#' && no_outer_space(comment) && lacks(comment, '\n'),
    ensures
        settings_of_text(
            gaps.0 + key + gaps.1 + seq!['='] + gaps.2 + quote + w + quote + gaps.3 + comment,
        ) == seq![
            (
                flag,
                if w == "true"@ {
                    "1"@
                } else if w == "false"@ {
                    "0"@
                } else {
                    w
                },
            ),
        ],
{
    law_keys_have_their_flags(key, flag);
    lemma_setting_is_read(key, flag, gaps, quote, w, comment);
}

proof fn lemma_no_break(
    line: Seq<char>,
    gaps: (Seq<char>, Seq<char>, Seq<char>, Seq<char>),
    key: Seq<char>,
    quote: Seq<char>,
    w: Seq<char>,
    comment: Seq<char>,
    j: int,
)
    requires
        line == gaps.0 + key + gaps.1 + seq!['='] + gaps.2 + quote + w + quote + gaps.3 + comment,
        lacks(gaps.0, '\n') && lacks(gaps.1, '\n') && lacks(gaps.2, '\n') && lacks(gaps.3, '\n'),
        lacks(key, '\n') && lacks(w, '\n') && lacks(comment, '\n'),
        quote.len() == 0 || quote == seq!['"'],
        0 <= j < line.len(),
    ensures
        line[j] != '\n',
{
    let a = gaps.0 + key;
    let b = a + gaps.1 + seq!['='];
    let c = b + gaps.2 + quote;
    let d = c + w + quote;
    assert(line =~= d + gaps.3 + comment);
    assert(lacks(a, '\n'));
    assert(lacks(b, '\n'));
    assert(lacks(quote, '\n'));
    assert(lacks(c, '\n'));
    assert(lacks(d, '\n'));
    assert(lacks(d + gaps.3, '\n'));
    assert(lacks(line, '\n'));
}

/// Switching something on and switching it off are different arguments.
pub proof fn law_on_and_off_differ(key: Seq<char>)
    requires
        flag_of(key) is Some,
    ensures
        settings_of_text(key + " = true"@).len() == 1,
        settings_of_text(key + " = false"@).len() == 1,
        settings_of_text(key + " = true"@)[0].0 == settings_of_text(key + " = false"@)[0].0,
        settings_of_text(key + " = true"@)[0].1 == "1"@,
        settings_of_text(key + " = false"@)[0].1 == "0"@,
        settings_of_text(key + " = true"@) != settings_of_text(key + " = false"@),
{
    reveal_strlit(" = true");
    reveal_strlit(" = false");
    reveal_strlit("true");
    reveal_strlit("false");
    reveal_strlit("1");
    reveal_strlit("0");
    let flag = flag_of(key)->0;
    let sp = seq![' '];
    let none = Seq::<char>::empty();
    let gaps = (none, sp, sp, none);
    assert(key + " = true"@ =~= none + key + sp + seq!['='] + sp + none + "true"@ + none + none
        + none);
    assert(key + " = false"@ =~= none + key + sp + seq!['='] + sp + none + "false"@ + none + none
        + none);
    law_setting_is_read(key, flag, gaps, none, "true"@, none);
    law_setting_is_read(key, flag, gaps, none, "false"@, none);
    assert("true"@.len() != "false"@.len());
    assert("1"@[0] != "0"@[0]);
}

/// Only the keys of the settings file that are known stand for a flag.
pub proof fn law_unknown_keys_have_no_flag(key: Seq<char>)
    requires
        key != "sound_card_name"@,
        key != "sound_card_sample_rate"@,
        key != "sound_card_buffer_size"@,
        key != "num_inputs"@,
        key != "num_outputs"@,
        key != "block_size"@,
        key != "enable_inputs"@,
        key != "enable_outputs"@,
        key != "num_control_bus_channels"@,
        key != "num_audio_bus_channels"@,
        key != "num_sample_buffers"@,
        key != "max_num_nodes"@,
        key != "max_num_synthdefs"@,
        key != "real_time_memory_size"@,
        key != "num_wire_buffers"@,
        key != "num_random_seeds"@,
        key != "audio_driver"@,
    ensures
        flag_of(key) is None,
{
}

/// A comment, a section header and a line without an equals sign set nothing.
pub proof fn law_other_lines_set_nothing(line: Seq<char>)
    requires
        lacks(line, '\n'),
        trim(line).len() == 0 || trim(line)[0] == '#' || trim(line)[0] == '[' || lacks(
            trim(line),
            '=',
        ),
    ensures
        settings_of_text(line).len() == 0,
{
    reveal_strlit("#");
    reveal_strlit("[");
    let t = trim(line);
    if t.len() > 0 && t[0] == '#' {
        assert(t.subrange(0, 1) =~= "#"@);
    }
    if t.len() > 0 && t[0] == '[' {
        assert(t.subrange(0, 1) =~= "["@);
    }
    if lacks(t, '=') {
        lemma_index_of_is(t, '=', t.len() as int);
    }
    assert(setting_of_line(line) is None);
    let f = |l: Seq<char>| setting_of_line(l);
    reveal_with_fuel(Seq::filter_map, 2);
    lemma_index_of_is(line, '\n', line.len() as int);
    if line.len() == 0 {
        assert(lines(line) =~= Seq::<Seq<char>>::empty());
    } else {
        assert(lines(line) =~= seq![line]);
        assert(seq![line].drop_last() =~= Seq::<Seq<char>>::empty());
        assert(seq![line].last() == line);
    }
}

} // verus!
