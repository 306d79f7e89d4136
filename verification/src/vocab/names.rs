//! Notes, scales, chords and samples.

use super::{entry_views, plain_entry, EntryView, VocabEntry, VocabKind};
use crate::order::{
    lemma_sort_keeps, lemma_sort_map, stable_sort, stable_sorted, text_le, Keyed, Ranked,
};
use crate::pathname::{extension, has_extension, stem, stem_of};
use crate::text::{
    begins_with_text, chars_of, find, find_chars, find_white_space, lemma_find, lines, lines_of,
    split_once, split_once_at, string_of, string_views, strip_prefix, trim, trim_start, trimmed,
    trimmed_start, views, white_space_index, without_prefix,
};
use vstd::prelude::*;
use vstd::slice::slice_subrange;
use vstd::string::*;

verus! {

/// The pitch names, sharps as `s` and flats as `b`.
pub open spec fn pitch_names() -> Seq<Seq<char>> {
    seq![
        "c"@, "cs"@, "db"@, "d"@, "ds"@, "eb"@, "e"@, "f"@, "fs"@,
        "gb"@, "g"@, "gs"@, "ab"@, "a"@, "as"@, "bb"@, "b"@,
    ]
}

/// The octaves that have notes, as they are written.
pub open spec fn octave_names() -> Seq<Seq<char>> {
    seq!["0"@, "1"@, "2"@, "3"@, "4"@, "5"@, "6"@, "7"@, "8"@]
}

/// The symbol of pitch `p` in octave `o`.
pub open spec fn note_symbol(o: int, p: int) -> Seq<char> {
    ":"@ + pitch_names()[p] + octave_names()[o]
}

/// Every pitch of every octave, octave by octave.
pub open spec fn all_notes() -> Seq<EntryView> {
    Seq::new(153, |i: int| plain_entry(note_symbol(i / 17, i % 17), VocabKind::Note, ""@))
}

fn pitch_name(p: usize) -> (r: &'static str)
    requires
        p < 17,
    ensures
        r@ == pitch_names()[p as int],
{
    match p {
        0 => "c",
        1 => "cs",
        2 => "db",
        3 => "d",
        4 => "ds",
        5 => "eb",
        6 => "e",
        7 => "f",
        8 => "fs",
        9 => "gb",
        10 => "g",
        11 => "gs",
        12 => "ab",
        13 => "a",
        14 => "as",
        15 => "bb",
        _ => "b",
    }
}

fn octave_name(o: usize) -> (r: &'static str)
    requires
        o < 9,
    ensures
        r@ == octave_names()[o as int],
{
    match o {
        0 => "0",
        1 => "1",
        2 => "2",
        3 => "3",
        4 => "4",
        5 => "5",
        6 => "6",
        7 => "7",
        _ => "8",
    }
}

/// All note symbols: `:c0` up to `:b8`.
pub fn note_names() -> (r: Vec<VocabEntry>)
    ensures
        entry_views(r@) == all_notes(),
{
    let mut out: Vec<VocabEntry> = Vec::new();
    let mut i: usize = 0;
    while i < 153
        invariant
            i <= 153,
            entry_views(out@) == all_notes().take(i as int),
        decreases 153 - i,
    {
        let ghost before = entry_views(out@);
        let mut label: String = String::from_str(":");
        label.append(pitch_name(i % 17));
        label.append(octave_name(i / 17));
        let e: VocabEntry = VocabEntry::new(label.as_str(), VocabKind::Note, "");
        out.push(e);
        assert(entry_views(out@) =~= before.push(e@));
        assert(all_notes().take(i + 1) =~= all_notes().take(i as int).push(all_notes()[i as int]));
        i = i + 1;
    }
    assert(all_notes().take(153) =~= all_notes());
    out
}

/// An entry named by a colon and `key`.
pub open spec fn symbol_entry(key: Seq<char>, kind: VocabKind) -> EntryView {
    plain_entry(":"@ + key, kind, ""@)
}

fn symbol(key: &[char], kind: VocabKind) -> (r: VocabEntry)
    ensures
        r@ == symbol_entry(key@, kind),
{
    let mut label: String = String::from_str(":");
    label.append(string_of(key).as_str());
    VocabEntry::new(label.as_str(), kind, "")
}

pub open spec fn ascii_digit(c: char) -> bool {
    '0' <= c && c <= '9'
}

pub open spec fn ascii_lower(c: char) -> bool {
    'a' <= c && c <= 'z'
}

pub open spec fn ascii_upper(c: char) -> bool {
    'A' <= c && c <= 'Z'
}

/// Whether `s` can name a scale.
pub open spec fn scale_key(s: Seq<char>) -> bool {
    s.len() > 0 && forall|i: int|
        0 <= i < s.len() ==> ascii_lower(#[trigger] s[i]) || ascii_digit(s[i]) || s[i] == '_'
}

/// Whether `s` can name a chord.
pub open spec fn chord_key(s: Seq<char>) -> bool {
    forall|i: int|
        0 <= i < s.len() ==> ascii_lower(#[trigger] s[i]) || ascii_upper(s[i]) || ascii_digit(s[i])
            || s[i] == '_'
}

fn is_digit(c: char) -> (r: bool)
    ensures
        r == ascii_digit(c),
{
    '0' <= c && c <= '9'
}

fn is_scale_key(cs: &[char]) -> (r: bool)
    ensures
        r == scale_key(cs@),
{
    if cs.len() == 0 {
        return false;
    }
    let mut i: usize = 0;
    while i < cs.len()
        invariant
            i <= cs@.len(),
            forall|j: int|
                0 <= j < i ==> ascii_lower(#[trigger] cs@[j]) || ascii_digit(cs@[j]) || cs@[j]
                    == '_',
        decreases cs@.len() - i,
    {
        let c: char = cs[i];
        if !(('a' <= c && c <= 'z') || is_digit(c) || c == '_') {
            assert(!(ascii_lower(cs@[i as int]) || ascii_digit(cs@[i as int]) || cs@[i as int]
                == '_'));
            return false;
        }
        i = i + 1;
    }
    true
}

fn is_chord_key(cs: &[char]) -> (r: bool)
    ensures
        r == chord_key(cs@),
{
    let mut i: usize = 0;
    while i < cs.len()
        invariant
            i <= cs@.len(),
            forall|j: int|
                0 <= j < i ==> ascii_lower(#[trigger] cs@[j]) || ascii_upper(cs@[j])
                    || ascii_digit(cs@[j]) || cs@[j] == '_',
        decreases cs@.len() - i,
    {
        let c: char = cs[i];
        if !(('a' <= c && c <= 'z') || ('A' <= c && c <= 'Z') || is_digit(c) || c == '_') {
            assert(!(ascii_lower(cs@[i as int]) || ascii_upper(cs@[i as int]) || ascii_digit(
                cs@[i as int],
            ) || cs@[i as int] == '_'));
            return false;
        }
        i = i + 1;
    }
    true
}

/// The scale that a line of the scale table names.
pub open spec fn scale_of_line(line: Seq<char>) -> Option<EntryView> {
    match split_once(trim(line), ':') {
        Some((key, _)) => if scale_key(trim(key)) {
            Some(symbol_entry(trim(key), VocabKind::Scale))
        } else {
            None
        },
        None => None,
    }
}

/// The scales named by the lines up to the one that closes the table.
pub open spec fn scale_table(ls: Seq<Seq<char>>) -> Seq<EntryView>
    decreases ls.len(),
{
    if ls.len() == 0 || "}"@.is_prefix_of(trim(ls[0])) {
        seq![]
    } else {
        match scale_of_line(ls[0]) {
            Some(e) => seq![e] + scale_table(ls.drop_first()),
            None => scale_table(ls.drop_first()),
        }
    }
}

/// The scales of the scale source: those of the first table after
/// `SCALE = lambda`.
pub open spec fn scale_names(rb: Seq<char>) -> Seq<EntryView> {
    match find(rb, "SCALE = lambda"@) {
        Some(a) => match find(rb.skip(a), "\n      {"@) {
            Some(b) => scale_table(lines(rb.skip(a).skip(b)).drop_first()),
            None => seq![],
        },
        None => seq![],
    }
}

/// Scale names from the scale source.
pub fn parse_scale_names(rb: &str) -> (r: Vec<VocabEntry>)
    ensures
        entry_views(r@) == scale_names(rb@),
{
    let mut out: Vec<VocabEntry> = Vec::new();
    assert(entry_views(out@) =~= seq![]);
    let cs: Vec<char> = chars_of(rb);
    let lambda: Vec<char> = chars_of("SCALE = lambda");
    let brace: Vec<char> = chars_of("\n      {");
    let start: usize = match find_chars(cs.as_slice(), lambda.as_slice()) {
        Some(a) => a,
        None => {
            return out;
        },
    };
    let tail: &[char] = slice_subrange(cs.as_slice(), start, cs.len());
    assert(tail@ =~= rb@.skip(start as int));
    let open: usize = match find_chars(tail, brace.as_slice()) {
        Some(b) => b,
        None => {
            return out;
        },
    };
    let table: &[char] = slice_subrange(tail, open, tail.len());
    assert(table@ =~= tail@.skip(open as int));
    let ls: Vec<&[char]> = lines_of(table);
    let ghost all = lines(table@);
    let ghost wanted = scale_table(all.drop_first());
    let mut i: usize = 1;
    proof {
        assert(brace@.len() > 0) by {
            reveal_strlit("\n      {");
        }
        assert(table@.len() > 0) by {
            lemma_find(tail@, brace@);
        }
        assert(all.len() > 0);
        assert(all.skip(1) =~= all.drop_first());
        assert(entry_views(out@) + scale_table(all.skip(1)) =~= wanted);
    }
    while i < ls.len()
        invariant
            1 <= i <= ls@.len(),
            views(ls@) == all,
            entry_views(out@) + scale_table(all.skip(i as int)) == wanted,
        ensures
            entry_views(out@) == wanted,
        decreases ls@.len() - i,
    {
        let t: &[char] = trimmed(ls[i]);
        let ghost rest = all.skip(i as int);
        assert(rest[0] == ls@[i as int]@);
        if begins_with_text(t, "}") {
            assert(scale_table(rest) =~= seq![]);
            assert(entry_views(out@) =~= wanted);
            break;
        }
        assert(rest.drop_first() =~= all.skip(i + 1));
        let ghost before = entry_views(out@);
        match split_once_at(t, ':') {
            Some((key, _)) => {
                let k: &[char] = trimmed(key);
                if is_scale_key(k) {
                    let e: VocabEntry = symbol(k, VocabKind::Scale);
                    out.push(e);
                    assert(entry_views(out@) =~= before.push(e@));
                    assert(entry_views(out@) + scale_table(rest.drop_first()) =~= before
                        + scale_table(rest));
                }
            },
            None => {},
        }
        i = i + 1;
        if i >= ls.len() {
            assert(scale_table(all.skip(i as int)) =~= seq![]);
            assert(entry_views(out@) =~= wanted);
        }
    }
    out
}

/// The chord that a `:name =>` line names.
pub open spec fn chord_of_line(line: Seq<char>) -> Option<EntryView> {
    match strip_prefix(trim(line), ":"@) {
        Some(rest) => {
            let w = white_space_index(rest);
            if w < rest.len() && "=>"@.is_prefix_of(trim_start(rest.skip(w + 1))) && chord_key(
                rest.take(w),
            ) {
                Some(symbol_entry(rest.take(w), VocabKind::Chord))
            } else {
                None
            }
        },
        None => None,
    }
}

fn chord_in(line: &[char]) -> (r: Option<VocabEntry>)
    ensures
        match r {
            Some(e) => chord_of_line(line@) == Some(e@),
            None => chord_of_line(line@) is None,
        },
{
    match without_prefix(trimmed(line), ":") {
        Some(rest) => {
            let w: usize = find_white_space(rest);
            if w < rest.len() {
                let key: &[char] = slice_subrange(rest, 0, w);
                let tail: &[char] = slice_subrange(rest, w + 1, rest.len());
                assert(key@ =~= rest@.take(w as int));
                assert(tail@ =~= rest@.skip(w + 1));
                if begins_with_text(trimmed_start(tail), "=>") && is_chord_key(key) {
                    return Some(symbol(key, VocabKind::Chord));
                }
            }
            None
        },
        None => None,
    }
}

/// The chords of the chord source.
pub open spec fn chord_names(rb: Seq<char>) -> Seq<EntryView> {
    lines(rb).filter_map(|line: Seq<char>| chord_of_line(line))
}

/// Chord names from the chord source (`:name =>` keys).
pub fn parse_chord_names(rb: &str) -> (r: Vec<VocabEntry>)
    ensures
        entry_views(r@) == chord_names(rb@),
{
    let mut out: Vec<VocabEntry> = Vec::new();
    let cs: Vec<char> = chars_of(rb);
    let ls: Vec<&[char]> = lines_of(cs.as_slice());
    let ghost all = lines(rb@);
    let ghost f = |line: Seq<char>| chord_of_line(line);
    let mut i: usize = 0;
    assert(entry_views(out@) =~= all.take(0).filter_map(f));
    while i < ls.len()
        invariant
            i <= ls@.len(),
            views(ls@) == all,
            f == (|line: Seq<char>| chord_of_line(line)),
            entry_views(out@) == all.take(i as int).filter_map(f),
        decreases ls@.len() - i,
    {
        let ghost before = entry_views(out@);
        proof {
            all.lemma_filter_map_take_succ(f, i as int);
        }
        match chord_in(ls[i]) {
            Some(e) => {
                out.push(e);
                assert(entry_views(out@) =~= before + seq![e@]);
            },
            None => {
                assert(entry_views(out@) =~= before + seq![]);
            },
        }
        i = i + 1;
    }
    assert(all.take(i as int) =~= all);
    out
}

/// Whether `s` is the extension of an audio file.
pub open spec fn audio_extension(s: Seq<char>) -> bool {
    s == "flac"@ || s == "wav"@ || s == "wave"@ || s == "aif"@ || s == "aiff"@
}

/// The sample that a file of this name holds.
pub open spec fn sample_of_file(name: Seq<char>) -> Option<EntryView> {
    match extension(name) {
        Some(e) => if audio_extension(e) {
            Some(symbol_entry(stem(name), VocabKind::Sample))
        } else {
            None
        },
        None => None,
    }
}

fn sample_in(name: &str) -> (r: Option<VocabEntry>)
    ensures
        match r {
            Some(e) => sample_of_file(name@) == Some(e@),
            None => sample_of_file(name@) is None,
        },
{
    if has_extension(name, "flac") || has_extension(name, "wav") || has_extension(name, "wave")
        || has_extension(name, "aif") || has_extension(name, "aiff") {
        let s: Vec<char> = chars_of(stem_of(name).as_str());
        Some(symbol(s.as_slice(), VocabKind::Sample))
    } else {
        None
    }
}

/// Entries compared by their labels.
pub open spec fn label_le() -> spec_fn(EntryView, EntryView) -> bool {
    |a: EntryView, b: EntryView| text_le(a.label, b.label)
}

/// The entries in label order, those with one label in the order they had.
pub open spec fn sort_by_label(entries: Seq<EntryView>) -> Seq<EntryView> {
    stable_sort(entries, label_le())
}

pub(crate) fn sorted_by_label(entries: Vec<VocabEntry>) -> (r: Vec<VocabEntry>)
    ensures
        entry_views(r@) == sort_by_label(entry_views(entries@)),
{
    let ghost given = entry_views(entries@);
    let mut rest: Vec<VocabEntry> = entries;
    let mut keyed: Vec<Keyed<VocabEntry>> = Vec::new();
    let ghost mut n: int = 0;
    while rest.len() > 0
        invariant
            0 <= n,
            n + rest@.len() == given.len(),
            entry_views(rest@) == given.skip(n),
            keyed@.len() == n,
            forall|i: int| 0 <= i < n ==> (#[trigger] keyed@[i]).item@ == given[i],
            forall|i: int| 0 <= i < n ==> (#[trigger] keyed@[i]).key@ == given[i].label,
        decreases rest@.len(),
    {
        let ghost before = rest@;
        let e: VocabEntry = rest.remove(0);
        assert(e@ == entry_views(before)[0]);
        let key: Vec<char> = chars_of(e.label.as_str());
        keyed.push(Keyed { key, item: e });
        proof {
            assert(entry_views(rest@) =~= given.skip(n + 1)) by {
                assert forall|i: int| 0 <= i < rest@.len() implies #[trigger] entry_views(rest@)[i]
                    == given.skip(n + 1)[i] by {
                    assert(rest@[i] == before[i + 1]);
                    assert(entry_views(before)[i + 1] == given.skip(n)[i + 1]);
                }
            }
            n = n + 1;
        }
    }
    let ghost ks = keyed@;
    let sorted: Vec<Keyed<VocabEntry>> = stable_sorted(keyed);
    let ghost f = |k: Keyed<VocabEntry>| (EntryView { label: k.key@, ..k.item@ });
    let ghost le = |a: Keyed<VocabEntry>, b: Keyed<VocabEntry>| a.rank_le(b);
    proof {
        lemma_sort_map(ks, f, le, label_le());
        assert(ks.map_values(f) =~= given);
        lemma_sort_keeps(ks, le);
    }
    let ghost out_keyed = sorted@;
    let mut left: Vec<Keyed<VocabEntry>> = sorted;
    let mut out: Vec<VocabEntry> = Vec::new();
    proof {
        n = 0;
    }
    while left.len() > 0
        invariant
            0 <= n,
            n + left@.len() == out_keyed.len(),
            left@ == out_keyed.skip(n),
            out@.len() == n,
            forall|i: int| 0 <= i < n ==> #[trigger] out@[i] == out_keyed[i].item,
        decreases left@.len(),
    {
        let k: Keyed<VocabEntry> = left.remove(0);
        out.push(k.item);
        proof {
            assert(out_keyed.skip(n).remove(0) =~= out_keyed.skip(n + 1));
            n = n + 1;
        }
    }
    proof {
        assert forall|i: int| 0 <= i < out@.len() implies #[trigger] entry_views(out@)[i]
            == out_keyed.map_values(f)[i] by {
            let k = out_keyed[i];
            assert(ks.contains(k));
            let j = choose|j: int| 0 <= j < ks.len() && ks[j] == k;
            assert(ks[j].item@ == given[j]);
            assert(out@[i] == k.item);
            assert(f(k) =~= k.item@);
        }
        assert(entry_views(out@) =~= out_keyed.map_values(f));
    }
    out
}

/// The samples among the files of a directory, in label order.
pub open spec fn samples(files: Seq<Seq<char>>) -> Seq<EntryView> {
    sort_by_label(files.filter_map(|name: Seq<char>| sample_of_file(name)))
}

/// Sample names from the names of the files in the samples directory: one symbol
/// for the stem of each audio file.
pub fn samples_from_dir(files: &Vec<String>) -> (r: Vec<VocabEntry>)
    ensures
        entry_views(r@) == samples(string_views(files@)),
{
    let mut out: Vec<VocabEntry> = Vec::new();
    let ghost all = string_views(files@);
    let ghost f = |name: Seq<char>| sample_of_file(name);
    let mut i: usize = 0;
    assert(entry_views(out@) =~= all.take(0).filter_map(f));
    while i < files.len()
        invariant
            i <= files@.len(),
            all == string_views(files@),
            f == (|name: Seq<char>| sample_of_file(name)),
            entry_views(out@) == all.take(i as int).filter_map(f),
        decreases files@.len() - i,
    {
        let ghost before = entry_views(out@);
        proof {
            all.lemma_filter_map_take_succ(f, i as int);
        }
        match sample_in(files[i].as_str()) {
            Some(e) => {
                out.push(e);
                assert(entry_views(out@) =~= before + seq![e@]);
            },
            None => {
                assert(entry_views(out@) =~= before + seq![]);
            },
        }
        i = i + 1;
    }
    assert(all.take(i as int) =~= all);
    sorted_by_label(out)
}

} // verus!
