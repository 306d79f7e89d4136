//! What completion and help find in the vocabulary.

use super::index::{all_sliceable, at_most, ref_views, sliceable, Vocab};
use super::lang::{alphanumerics, alphanumerics_of};
use super::names::{label_le, sort_by_label};
use super::{entry_views, opt_views, EntryView, OptView, VocabEntry, VocabKind};
use crate::order::{
    lemma_sort_keeps, lemma_sort_map, stable_sort, stable_sorted, Keyed, Ranked,
};
use crate::table::pair_views;
use crate::text::{
    begins_with, begins_with_text, chars_of, contains, find, find_chars, has_chars, lemma_find,
    same_text, string_of, string_views, strip_prefix, trim, trimmed, views, without_prefix,
};
use crate::utf8::{byte_len, prefix_bytes, text_bytes};
use vstd::prelude::*;
use vstd::slice::slice_subrange;
use vstd::string::*;
use vstd::utf8::{
    encode_utf8, encode_utf8_valid_utf8, is_char_boundary, is_char_boundary_start_end_of_seq,
    valid_utf8,
};

verus! {

/// A symbol whose name, less its first character, starts with `body`.
pub open spec fn symbol_matches(e: EntryView, body: Seq<char>) -> bool {
    e.kind != VocabKind::Func && body.is_prefix_of(e.label.skip(1))
}

/// A function whose name starts with `prefix`.
pub open spec fn function_matches(e: EntryView, prefix: Seq<char>) -> bool {
    e.kind == VocabKind::Func && prefix.is_prefix_of(e.label)
}

/// The entries offered for `prefix`: symbols alone after a colon; functions and
/// then symbols for a bare word; nothing for less than two bytes.
pub open spec fn completions(entries: Seq<EntryView>, prefix: Seq<char>, limit: nat) -> Seq<
    EntryView,
> {
    if byte_len(prefix) < 2 {
        seq![]
    } else {
        match strip_prefix(prefix, ":"@) {
            Some(body) => at_most(entries.filter(|e: EntryView| symbol_matches(e, body)), limit),
            None => at_most(
                entries.filter(|e: EntryView| function_matches(e, prefix)) + entries.filter(
                    |e: EntryView| symbol_matches(e, prefix),
                ),
                limit,
            ),
        }
    }
}

fn push_symbols<'a>(entries: &'a Vec<VocabEntry>, body: &[char], out: &mut Vec<&'a VocabEntry>)
    requires
        all_sliceable(entry_views(entries@)),
    ensures
        ref_views(final(out)@) == ref_views(old(out)@) + entry_views(entries@).filter(
            |e: EntryView| symbol_matches(e, body@),
        ),
{
    let ghost start = ref_views(out@);
    let ghost all = entry_views(entries@);
    let ghost p = |e: EntryView| symbol_matches(e, body@);
    let mut i: usize = 0;
    proof {
        reveal(Seq::filter);
        assert(ref_views(out@) =~= start + all.take(0).filter(p));
    }
    while i < entries.len()
        invariant
            i <= entries@.len(),
            all == entry_views(entries@),
            all_sliceable(all),
            p == (|e: EntryView| symbol_matches(e, body@)),
            ref_views(out@) == start + all.take(i as int).filter(p),
        decreases entries@.len() - i,
    {
        let ghost before = ref_views(out@);
        let e: &'a VocabEntry = &entries[i];
        proof {
            assert(sliceable(all[i as int]));
            assert(all.take(i + 1) =~= all.take(i as int).push(all[i as int]));
            all.take(i as int).lemma_filter_push(all[i as int], p);
        }
        if e.kind != VocabKind::Func {
            let label: Vec<char> = chars_of(e.label.as_str());
            let rest: &[char] = slice_subrange(label.as_slice(), 1, label.len());
            assert(rest@ =~= e.label@.skip(1));
            if begins_with(rest, body) {
                out.push(e);
                assert(ref_views(out@) =~= before.push(e@));
            }
        }
        i = i + 1;
        assert(ref_views(out@) =~= start + all.take(i as int).filter(p));
    }
    assert(all.take(i as int) =~= all);
}

fn push_functions<'a>(
    entries: &'a Vec<VocabEntry>,
    prefix: &[char],
    out: &mut Vec<&'a VocabEntry>,
)
    ensures
        ref_views(final(out)@) == ref_views(old(out)@) + entry_views(entries@).filter(
            |e: EntryView| function_matches(e, prefix@),
        ),
{
    let ghost start = ref_views(out@);
    let ghost all = entry_views(entries@);
    let ghost p = |e: EntryView| function_matches(e, prefix@);
    let mut i: usize = 0;
    proof {
        reveal(Seq::filter);
        assert(ref_views(out@) =~= start + all.take(0).filter(p));
    }
    while i < entries.len()
        invariant
            i <= entries@.len(),
            all == entry_views(entries@),
            p == (|e: EntryView| function_matches(e, prefix@)),
            ref_views(out@) == start + all.take(i as int).filter(p),
        decreases entries@.len() - i,
    {
        let ghost before = ref_views(out@);
        let e: &'a VocabEntry = &entries[i];
        proof {
            assert(all.take(i + 1) =~= all.take(i as int).push(all[i as int]));
            all.take(i as int).lemma_filter_push(all[i as int], p);
        }
        if e.kind == VocabKind::Func {
            let label: Vec<char> = chars_of(e.label.as_str());
            if begins_with(label.as_slice(), prefix) {
                out.push(e);
                assert(ref_views(out@) =~= before.push(e@));
            }
        }
        i = i + 1;
        assert(ref_views(out@) =~= start + all.take(i as int).filter(p));
    }
    assert(all.take(i as int) =~= all);
}

fn truncated<'a>(v: Vec<&'a VocabEntry>, limit: usize) -> (r: Vec<&'a VocabEntry>)
    ensures
        ref_views(r@) == at_most(ref_views(v@), limit as nat),
{
    let ghost all = ref_views(v@);
    let mut r: Vec<&'a VocabEntry> = v;
    r.truncate(limit);
    assert(ref_views(r@) =~= at_most(all, limit as nat));
    r
}

/// The first entry with this label.
pub open spec fn lookup(entries: Seq<EntryView>, label: Seq<char>) -> Option<EntryView>
    decreases entries.len(),
{
    if entries.len() == 0 {
        None
    } else if entries[0].label == label {
        Some(entries[0])
    } else {
        lookup(entries.drop_first(), label)
    }
}

/// Whether a character can be part of a symbol, `alnum` telling whether it is
/// alphabetic or numeric.
pub open spec fn symbol_char(c: char, alnum: bool) -> bool {
    alnum || c == '_' || c == ':'
}

/// The pieces of `s` between characters that no symbol has, `alnum` telling which
/// characters are alphabetic or numeric.
pub open spec fn symbol_words_by(s: Seq<char>, alnum: Seq<bool>) -> Seq<Seq<char>>
    decreases s.len(),
{
    if s.len() == 0 {
        seq![seq![]]
    } else {
        let w = symbol_words_by(s.drop_last(), alnum.drop_last());
        if symbol_char(s.last(), alnum.last()) {
            w.drop_last().push(w.last().push(s.last()))
        } else {
            w.push(seq![])
        }
    }
}

/// The pieces of `s` between characters that no symbol has.
pub open spec fn symbol_words(s: Seq<char>) -> Seq<Seq<char>> {
    symbol_words_by(s, alphanumerics(s))
}

/// Whether a word is written as a symbol: a colon and more, and no `::` in it.
pub open spec fn symbol_word(w: Seq<char>) -> bool {
    ":"@.is_prefix_of(w) && w.len() > 1 && !contains(w, "::"@)
}

/// The entry that the last symbol among `words` refers to, of those that are known
/// and have options.
pub open spec fn nearest_with_options(entries: Seq<EntryView>, words: Seq<Seq<char>>) -> Option<
    EntryView,
>
    decreases words.len(),
{
    if words.len() == 0 {
        None
    } else {
        match lookup(entries, words.last()) {
            Some(e) => if symbol_word(words.last()) && e.opt_docs.len() > 0 {
                Some(e)
            } else {
                nearest_with_options(entries, words.drop_last())
            },
            None => nearest_with_options(entries, words.drop_last()),
        }
    }
}

/// `s` without the colons at its end.
pub open spec fn drop_trailing_colons(s: Seq<char>) -> Seq<char>
    decreases s.len(),
{
    if s.len() > 0 && s.last() == ':' {
        drop_trailing_colons(s.drop_last())
    } else {
        s
    }
}

pub open spec fn option_matches(o: OptView, prefix: Seq<char>) -> bool {
    prefix.is_prefix_of(drop_trailing_colons(o.name))
}

/// The option names offered for `prefix` after `words`, with their defaults.
pub open spec fn options_after(
    entries: Seq<EntryView>,
    words: Seq<Seq<char>>,
    prefix: Seq<char>,
    limit: nat,
) -> Seq<(Seq<char>, Seq<char>)> {
    if prefix.len() == 0 || ":"@.is_prefix_of(prefix) {
        seq![]
    } else {
        match nearest_with_options(entries, words) {
            Some(e) => at_most(
                e.opt_docs.filter(|o: OptView| option_matches(o, prefix)).map_values(
                    |o: OptView| (o.name, o.default),
                ),
                limit,
            ),
            None => seq![],
        }
    }
}

/// The option names offered for `prefix` after `text`, with their defaults.
pub open spec fn offered_options(
    entries: Seq<EntryView>,
    text: Seq<char>,
    prefix: Seq<char>,
    limit: nat,
) -> Seq<(Seq<char>, Seq<char>)> {
    options_after(entries, symbol_words(text), prefix, limit)
}

/// The entries of one kind, in label order.
pub open spec fn kind_entries(entries: Seq<EntryView>, kind: VocabKind) -> Seq<EntryView> {
    sort_by_label(entries.filter(|e: EntryView| e.kind == kind))
}

/// What `str::to_lowercase` makes of a text.
pub uninterp spec fn lowercase(s: Seq<char>) -> Seq<char>;

/// `str::to_lowercase` is a function of the text alone. The mapping itself is left
/// to the Unicode tables of the standard library.
pub assume_specification[ str::to_lowercase ](s: &str) -> (r: std::string::String)
    ensures
        r@ == lowercase(s@),
;

/// An entry that a search found: where its label matched, in bytes, and how many
/// bytes the label has.
#[verifier::ext_equal]
pub struct HitView {
    pub entry: EntryView,
    pub pos: int,
    pub len: int,
}

/// Earlier matches first, and shorter labels first among those.
pub open spec fn hit_le() -> spec_fn(HitView, HitView) -> bool {
    |a: HitView, b: HitView| a.pos < b.pos || (a.pos == b.pos && a.len <= b.len)
}

/// The hits among the entries, `lowered[i]` being the label of entry `i` as it is
/// searched.
pub open spec fn hits(
    entries: Seq<EntryView>,
    lowered: Seq<Seq<char>>,
    q: Seq<char>,
) -> Seq<HitView>
    decreases entries.len(),
{
    if entries.len() == 0 || lowered.len() == 0 {
        seq![]
    } else {
        let before = hits(entries.drop_last(), lowered.drop_last(), q);
        match find(lowered.last(), q) {
            Some(i) => before.push(
                HitView {
                    entry: entries.last(),
                    pos: byte_len(lowered.last().take(i)),
                    len: byte_len(entries.last().label),
                },
            ),
            None => before,
        }
    }
}

pub open spec fn hit_entries(h: Seq<HitView>) -> Seq<EntryView> {
    h.map_values(|x: HitView| x.entry)
}

/// The best `limit` hits, best first; none for an empty query.
pub open spec fn best_hits(
    entries: Seq<EntryView>,
    lowered: Seq<Seq<char>>,
    q: Seq<char>,
    limit: nat,
) -> Seq<EntryView> {
    if q.len() == 0 {
        seq![]
    } else {
        at_most(hit_entries(stable_sort(hits(entries, lowered, q), hit_le())), limit)
    }
}

pub open spec fn lowered_labels(entries: Seq<EntryView>) -> Seq<Seq<char>> {
    entries.map_values(|e: EntryView| lowercase(e.label))
}

struct SearchHit<'a> {
    entry: &'a VocabEntry,
    pos: usize,
    len: usize,
}

impl<'a> SearchHit<'a> {
    spec fn view(&self) -> HitView {
        HitView { entry: self.entry@, pos: self.pos as int, len: self.len as int }
    }
}

impl<'a> Ranked for SearchHit<'a> {
    closed spec fn rank_le(self, other: Self) -> bool {
        self.pos < other.pos || (self.pos == other.pos && self.len <= other.len)
    }

    fn at_most(&self, other: &Self) -> (r: bool) {
        self.pos < other.pos || (self.pos == other.pos && self.len <= other.len)
    }
}

impl Vocab {
    /// Prefix match against the word being typed.
    pub fn complete(&self, prefix: &str, limit: usize) -> (r: Vec<&VocabEntry>)
        requires
            byte_len(prefix@) >= 2 ==> all_sliceable(entry_views(self.entries@)),
        ensures
            ref_views(r@) == completions(entry_views(self.entries@), prefix@, limit as nat),
    {
        let mut out: Vec<&VocabEntry> = Vec::new();
        assert(ref_views(out@) =~= seq![]);
        if text_bytes(prefix) < 2 {
            return out;
        }
        let cs: Vec<char> = chars_of(prefix);
        match without_prefix(cs.as_slice(), ":") {
            Some(body) => {
                push_symbols(&self.entries, body, &mut out);
                assert(ref_views(out@) =~= entry_views(self.entries@).filter(
                    |e: EntryView| symbol_matches(e, body@),
                ));
            },
            None => {
                push_functions(&self.entries, cs.as_slice(), &mut out);
                push_symbols(&self.entries, cs.as_slice(), &mut out);
                assert(ref_views(out@) =~= entry_views(self.entries@).filter(
                    |e: EntryView| function_matches(e, prefix@),
                ) + entry_views(self.entries@).filter(|e: EntryView| symbol_matches(e, prefix@)));
            },
        }
        truncated(out, limit)
    }

    /// The first entry with this label.
    pub fn get(&self, label: &str) -> (r: Option<&VocabEntry>)
        ensures
            match r {
                Some(e) => lookup(entry_views(self.entries@), label@) == Some(e@),
                None => lookup(entry_views(self.entries@), label@) is None,
            },
    {
        let ghost all = entry_views(self.entries@);
        let mut i: usize = 0;
        assert(all.skip(0) =~= all);
        while i < self.entries.len()
            invariant
                i <= self.entries@.len(),
                all == entry_views(self.entries@),
                lookup(all, label@) == lookup(all.skip(i as int), label@),
            decreases self.entries@.len() - i,
        {
            assert(all.skip(i as int).drop_first() =~= all.skip(i + 1));
            assert(all.skip(i as int)[0] == self.entries@[i as int]@);
            if same_text(self.entries[i].label.as_str(), label) {
                return Some(&self.entries[i]);
            }
            i = i + 1;
        }
        None
    }

    /// Every entry of one kind, in label order, for the category browser.
    pub fn by_kind(&self, kind: VocabKind) -> (r: Vec<&VocabEntry>)
        ensures
            ref_views(r@) == kind_entries(entry_views(self.entries@), kind),
    {
        let ghost all = entry_views(self.entries@);
        let ghost p = |e: EntryView| e.kind == kind;
        let ghost f = |k: Keyed<&VocabEntry>| (EntryView { label: k.key@, ..k.item@ });
        let mut keyed: Vec<Keyed<&VocabEntry>> = Vec::new();
        let mut i: usize = 0;
        proof {
            reveal(Seq::filter);
            assert(keyed@.map_values(f) =~= all.take(0).filter(p));
        }
        while i < self.entries.len()
            invariant
                i <= self.entries@.len(),
                all == entry_views(self.entries@),
                p == (|e: EntryView| e.kind == kind),
                f == (|k: Keyed<&VocabEntry>| (EntryView { label: k.key@, ..k.item@ })),
                keyed@.map_values(f) == all.take(i as int).filter(p),
                forall|j: int|
                    0 <= j < keyed@.len() ==> (#[trigger] keyed@[j]).key@ == keyed@[j].item.label@,
            decreases self.entries@.len() - i,
        {
            let ghost before = keyed@;
            let e: &VocabEntry = &self.entries[i];
            proof {
                assert(all.take(i + 1) =~= all.take(i as int).push(all[i as int]));
                all.take(i as int).lemma_filter_push(all[i as int], p);
            }
            if e.kind == kind {
                let k: Keyed<&VocabEntry> = Keyed { key: chars_of(e.label.as_str()), item: e };
                keyed.push(k);
                assert(f(k) =~= e@);
                assert(keyed@.map_values(f) =~= before.map_values(f).push(e@));
            }
            i = i + 1;
        }
        assert(all.take(i as int) =~= all);
        let ghost ks = keyed@;
        let sorted: Vec<Keyed<&VocabEntry>> = stable_sorted(keyed);
        let ghost le = |a: Keyed<&VocabEntry>, b: Keyed<&VocabEntry>| a.rank_le(b);
        proof {
            lemma_sort_map(ks, f, le, label_le());
            lemma_sort_keeps(ks, le);
        }
        let mut out: Vec<&VocabEntry> = Vec::new();
        let mut j: usize = 0;
        while j < sorted.len()
            invariant
                j <= sorted@.len(),
                out@.len() == j,
                forall|m: int| 0 <= m < j ==> #[trigger] out@[m] == sorted@[m].item,
            decreases sorted@.len() - j,
        {
            out.push(sorted[j].item);
            j = j + 1;
        }
        proof {
            assert forall|m: int| 0 <= m < out@.len() implies #[trigger] ref_views(out@)[m]
                == sorted@.map_values(f)[m] by {
                let k = sorted@[m];
                assert(ks.contains(k));
                assert(out@[m] == k.item);
                assert(f(k) =~= k.item@);
            }
            assert(ref_views(out@) =~= sorted@.map_values(f));
        }
        out
    }

    /// The best hits for `q` among the entries, `lowered` holding the label of each
    /// as it is searched.
    pub fn search_lowered(&self, lowered: &Vec<String>, q: &str, limit: usize) -> (r: Vec<
        &VocabEntry,
    >)
        requires
            lowered@.len() == self.entries@.len(),
        ensures
            ref_views(r@) == best_hits(
                entry_views(self.entries@),
                string_views(lowered@),
                q@,
                limit as nat,
            ),
    {
        let mut out: Vec<&VocabEntry> = Vec::new();
        assert(ref_views(out@) =~= seq![]);
        if q.is_empty() {
            return out;
        }
        let ghost all = entry_views(self.entries@);
        let ghost low = string_views(lowered@);
        let ghost f = |h: SearchHit| h@;
        let needle: Vec<char> = chars_of(q);
        let mut found: Vec<SearchHit> = Vec::new();
        let mut i: usize = 0;
        assert(found@.map_values(f) =~= hits(all.take(0), low.take(0), q@));
        while i < self.entries.len()
            invariant
                i <= self.entries@.len(),
                lowered@.len() == self.entries@.len(),
                all == entry_views(self.entries@),
                low == string_views(lowered@),
                needle@ == q@,
                f == (|h: SearchHit| h@),
                found@.map_values(f) == hits(all.take(i as int), low.take(i as int), q@),
            decreases self.entries@.len() - i,
        {
            let ghost before = found@;
            let e: &VocabEntry = &self.entries[i];
            let hay: Vec<char> = chars_of(lowered[i].as_str());
            proof {
                assert(all.take(i + 1).drop_last() =~= all.take(i as int));
                assert(low.take(i + 1).drop_last() =~= low.take(i as int));
                assert(low.take(i + 1).last() == hay@);
                assert(all.take(i + 1).last() == e@);
                lemma_find(hay@, q@);
            }
            match find_chars(hay.as_slice(), needle.as_slice()) {
                Some(at) => {
                    let total: usize = text_bytes(lowered[i].as_str());
                    let h: SearchHit = SearchHit {
                        entry: e,
                        pos: prefix_bytes(hay.as_slice(), at, total),
                        len: text_bytes(e.label.as_str()),
                    };
                    found.push(h);
                    assert(found@.map_values(f) =~= before.map_values(f).push(h@));
                },
                None => {},
            }
            i = i + 1;
        }
        assert(all.take(i as int) =~= all);
        assert(low.take(i as int) =~= low);
        let ghost given = found@;
        let sorted: Vec<SearchHit> = stable_sorted(found);
        let ghost le = |a: SearchHit, b: SearchHit| a.rank_le(b);
        proof {
            lemma_sort_map(given, f, le, hit_le());
        }
        let mut j: usize = 0;
        while j < sorted.len()
            invariant
                j <= sorted@.len(),
                out@.len() == j,
                forall|m: int| 0 <= m < j ==> #[trigger] out@[m] == sorted@[m].entry,
            decreases sorted@.len() - j,
        {
            out.push(sorted[j].entry);
            j = j + 1;
        }
        assert(ref_views(out@) =~= hit_entries(sorted@.map_values(f)));
        truncated(out, limit)
    }

    /// Substring search over the labels, letter case aside, for the help pane.
    pub fn search(&self, query: &str, limit: usize) -> (r: Vec<&VocabEntry>)
        ensures
            ref_views(r@) == best_hits(
                entry_views(self.entries@),
                lowered_labels(entry_views(self.entries@)),
                lowercase(trim(query@)),
                limit as nat,
            ),
    {
        let cs: Vec<char> = chars_of(query);
        let q: String = string_of(trimmed(cs.as_slice())).as_str().to_lowercase();
        let mut lowered: Vec<String> = Vec::new();
        let mut i: usize = 0;
        while i < self.entries.len()
            invariant
                i <= self.entries@.len(),
                lowered@.len() == i,
                forall|j: int|
                    0 <= j < i ==> (#[trigger] lowered@[j])@ == lowercase(self.entries@[j].label@),
            decreases self.entries@.len() - i,
        {
            lowered.push(self.entries[i].label.as_str().to_lowercase());
            i = i + 1;
        }
        assert(string_views(lowered@) =~= lowered_labels(entry_views(self.entries@)));
        self.search_lowered(&lowered, q.as_str(), limit)
    }

    /// The entry that the last known symbol with options among `words` refers to.
    fn nearest(&self, words: &Vec<&[char]>) -> (r: Option<&VocabEntry>)
        ensures
            match r {
                Some(e) => nearest_with_options(entry_views(self.entries@), views(words@)) == Some(
                    e@,
                ),
                None => nearest_with_options(entry_views(self.entries@), views(words@)) is None,
            },
    {
        let ghost all = entry_views(self.entries@);
        let ghost ws = views(words@);
        let scope: Vec<char> = chars_of("::");
        let mut n: usize = words.len();
        assert(ws.take(n as int) =~= ws);
        while n > 0
            invariant
                n <= words@.len(),
                all == entry_views(self.entries@),
                ws == views(words@),
                scope@ == "::"@,
                nearest_with_options(all, ws) == nearest_with_options(all, ws.take(n as int)),
            decreases n,
        {
            let w: &[char] = words[n - 1];
            assert(ws.take(n as int).drop_last() =~= ws.take(n - 1));
            assert(ws.take(n as int).last() == w@);
            if begins_with_text(w, ":") && w.len() > 1 && !has_chars(w, scope.as_slice()) {
                match self.get(string_of(w).as_str()) {
                    Some(e) => {
                        if e.opt_docs.len() > 0 {
                            return Some(e);
                        }
                    },
                    None => {},
                }
            }
            n = n - 1;
        }
        None
    }

    /// The options of the synth or effect that the text before the caret last
    /// refers to, as far as they match `prefix`: what to insert, and the default.
    pub fn opt_completions(&self, text_before_caret: &str, prefix: &str, limit: usize) -> (r: Vec<
        (String, String),
    >)
        ensures
            pair_views(r@) == offered_options(
                entry_views(self.entries@),
                text_before_caret@,
                prefix@,
                limit as nat,
            ),
    {
        let text: Vec<char> = chars_of(text_before_caret);
        let alnum: Vec<bool> = alphanumerics_of(text.as_slice());
        let words: Vec<&[char]> = words_by(text.as_slice(), alnum.as_slice());
        self.options_among(&words, prefix, limit)
    }

    /// The options of the synth or effect that the last of `words` to name one refers
    /// to, as far as they match `prefix`: what to insert, and the default.
    pub fn options_among(&self, words: &Vec<&[char]>, prefix: &str, limit: usize) -> (r: Vec<
        (String, String),
    >)
        ensures
            pair_views(r@) == options_after(
                entry_views(self.entries@),
                views(words@),
                prefix@,
                limit as nat,
            ),
    {
        let mut out: Vec<(String, String)> = Vec::new();
        assert(pair_views(out@) =~= seq![]);
        let p: Vec<char> = chars_of(prefix);
        if p.len() == 0 || begins_with_text(p.as_slice(), ":") {
            return out;
        }
        let e: &VocabEntry = match self.nearest(words) {
            Some(e) => e,
            None => {
                return out;
            },
        };
        let ghost all = opt_views(e.opt_docs@);
        let ghost keep = |o: OptView| option_matches(o, prefix@);
        let ghost pair = |o: OptView| (o.name, o.default);
        let mut i: usize = 0;
        proof {
            reveal(Seq::filter);
            assert(pair_views(out@) =~= all.take(0).filter(keep).map_values(pair));
        }
        while i < e.opt_docs.len()
            invariant
                i <= e.opt_docs@.len(),
                p@ == prefix@,
                all == opt_views(e.opt_docs@),
                keep == (|o: OptView| option_matches(o, prefix@)),
                pair == (|o: OptView| (o.name, o.default)),
                pair_views(out@) == all.take(i as int).filter(keep).map_values(pair),
            decreases e.opt_docs@.len() - i,
        {
            let ghost before = pair_views(out@);
            let ghost kept = all.take(i as int).filter(keep);
            let name: Vec<char> = chars_of(e.opt_docs[i].name.as_str());
            proof {
                assert(all.take(i + 1) =~= all.take(i as int).push(all[i as int]));
                all.take(i as int).lemma_filter_push(all[i as int], keep);
            }
            if begins_with(without_colons(name.as_slice()), p.as_slice()) {
                let x: (String, String) = (
                    e.opt_docs[i].name.clone(),
                    e.opt_docs[i].default.clone(),
                );
                out.push(x);
                assert(pair_views(out@) =~= before.push((x.0@, x.1@)));
                assert(kept.push(all[i as int]).map_values(pair) =~= before.push((x.0@, x.1@)));
            }
            i = i + 1;
        }
        assert(all.take(i as int) =~= all);
        let ghost full = pair_views(out@);
        out.truncate(limit);
        assert(pair_views(out@) =~= at_most(full, limit as nat));
        out
    }
}

fn without_colons(cs: &[char]) -> (r: &[char])
    ensures
        r@ == drop_trailing_colons(cs@),
{
    let mut n: usize = cs.len();
    assert(cs@.take(n as int) =~= cs@);
    while n > 0 && cs[n - 1] == ':'
        invariant
            n <= cs@.len(),
            drop_trailing_colons(cs@) == drop_trailing_colons(cs@.take(n as int)),
        decreases n,
    {
        assert(cs@.take(n as int).drop_last() =~= cs@.take(n - 1));
        n = n - 1;
    }
    slice_subrange(cs, 0, n)
}

/// The pieces of a text between characters that no symbol has, `alnum` telling which
/// of its characters are alphabetic or numeric.
pub fn words_by<'a>(cs: &'a [char], alnum: &[bool]) -> (r: Vec<&'a [char]>)
    requires
        cs@.len() == alnum@.len(),
    ensures
        views(r@) == symbol_words_by(cs@, alnum@),
{
    let mut out: Vec<&'a [char]> = Vec::new();
    let mut start: usize = 0;
    let mut i: usize = 0;
    assert(cs@.subrange(0, 0) =~= seq![]);
    assert(views(out@).push(cs@.subrange(0, 0)) =~= symbol_words_by(cs@.take(0), alnum@.take(0)));
    while i < cs.len()
        invariant
            start <= i <= cs@.len(),
            cs@.len() == alnum@.len(),
            views(out@).push(cs@.subrange(start as int, i as int)) == symbol_words_by(
                cs@.take(i as int),
                alnum@.take(i as int),
            ),
        decreases cs@.len() - i,
    {
        let ghost before = views(out@);
        let ghost word = cs@.subrange(start as int, i as int);
        proof {
            assert(cs@.take(i + 1).drop_last() =~= cs@.take(i as int));
            assert(alnum@.take(i + 1).drop_last() =~= alnum@.take(i as int));
            assert(before.push(word).drop_last() =~= before);
        }
        let c: char = cs[i];
        if alnum[i] || c == '_' || c == ':' {
            assert(cs@.subrange(start as int, i + 1) =~= word.push(c));
            i = i + 1;
        } else {
            let w: &'a [char] = slice_subrange(cs, start, i);
            out.push(w);
            i = i + 1;
            start = i;
            assert(views(out@) =~= before.push(word));
            assert(cs@.subrange(i as int, i as int) =~= seq![]);
        }
    }
    let ghost before = views(out@);
    let last: &'a [char] = slice_subrange(cs, start, cs.len());
    out.push(last);
    assert(views(out@) =~= before.push(last@));
    assert(cs@.take(i as int) =~= cs@);
    assert(alnum@.take(i as int) =~= alnum@);
    out
}

/// Whether a byte is an ASCII letter, digit or underscore.
pub open spec fn word_byte(b: u8) -> bool {
    (0x30 <= b <= 0x39) || (0x41 <= b <= 0x5a) || (0x61 <= b <= 0x7a) || b == 0x5f
}

/// The last character boundary at or before `offset`.
pub open spec fn boundary_at(bytes: Seq<u8>, offset: int) -> int
    decreases offset,
{
    if offset <= 0 || is_char_boundary(bytes, offset) {
        offset
    } else {
        boundary_at(bytes, offset - 1)
    }
}

/// Where the word that ends at `end` starts, symbol colon aside.
pub open spec fn word_start(bytes: Seq<u8>, end: int) -> int
    decreases end,
{
    if end > 0 && word_byte(bytes[end - 1]) {
        word_start(bytes, end - 1)
    } else {
        end
    }
}

/// Where the word that ends at `end` starts: one colon before it counts, but not
/// the second colon of a scope operator.
pub open spec fn prefix_start(bytes: Seq<u8>, end: int) -> int {
    let s = word_start(bytes, end);
    if s > 0 && bytes[s - 1] == 0x3a && !(s > 1 && bytes[s - 2] == 0x3a) {
        s - 1
    } else {
        s
    }
}

proof fn lemma_boundary_after_ascii(bytes: Seq<u8>, i: int)
    requires
        valid_utf8(bytes),
        0 <= i < bytes.len(),
        bytes[i] <= 0x7f,
    ensures
        is_char_boundary(bytes, i),
{
    vstd::utf8::is_char_boundary_iff_is_leading_byte(bytes, i);
}

/// The word being typed at byte `offset`: where it starts, in bytes, and the text
/// from there to the offset. An offset past the end counts as the end, one inside
/// a character as the start of that character.
pub fn word_prefix_at(text: &str, offset: usize) -> (r: (usize, &str))
    ensures
        ({
            let bytes = encode_utf8(text@);
            let end = boundary_at(
                bytes,
                if offset < bytes.len() {
                    offset as int
                } else {
                    bytes.len() as int
                },
            );
            &&& r.0 == prefix_start(bytes, end)
            &&& encode_utf8(r.1@) == bytes.subrange(prefix_start(bytes, end), end)
        }),
{
    let bytes: &[u8] = text.as_bytes();
    let ghost bs = encode_utf8(text@);
    proof {
        encode_utf8_valid_utf8(text@);
        is_char_boundary_start_end_of_seq(bs);
    }
    let first: usize = if offset < bytes.len() {
        offset
    } else {
        bytes.len()
    };
    let mut end: usize = first;
    while end > 0 && !text.is_char_boundary(end)
        invariant
            end <= first <= bs.len(),
            bs == encode_utf8(text@),
            boundary_at(bs, first as int) == boundary_at(bs, end as int),
        decreases end,
    {
        end = end - 1;
    }
    assert(is_char_boundary(bs, end as int));
    let mut start: usize = end;
    while start > 0 && ((0x30 <= bytes[start - 1] && bytes[start - 1] <= 0x39) || (0x41
        <= bytes[start - 1] && bytes[start - 1] <= 0x5a) || (0x61 <= bytes[start - 1]
        && bytes[start - 1] <= 0x7a) || bytes[start - 1] == 0x5f)
        invariant
            start <= end <= bs.len(),
            bytes@ == bs,
            valid_utf8(bs),
            is_char_boundary(bs, start as int),
            word_start(bs, end as int) == word_start(bs, start as int),
        decreases start,
    {
        proof {
            lemma_boundary_after_ascii(bs, start - 1);
        }
        start = start - 1;
    }
    if start > 0 && bytes[start - 1] == 0x3a && !(start > 1 && bytes[start - 2] == 0x3a) {
        proof {
            lemma_boundary_after_ascii(bs, start - 1);
        }
        start = start - 1;
    }
    let (head, _) = text.split_at(end);
    proof {
        assert(encode_utf8(head@) =~= bs.subrange(0, end as int));
        encode_utf8_valid_utf8(head@);
        if start < end {
            vstd::utf8::is_char_boundary_iff_not_is_continuation_byte(bs, start as int);
            vstd::utf8::is_char_boundary_iff_not_is_continuation_byte(
                encode_utf8(head@),
                start as int,
            );
        } else {
            is_char_boundary_start_end_of_seq(encode_utf8(head@));
        }
    }
    let (_, word) = head.split_at(start);
    assert(encode_utf8(word@) =~= bs.subrange(start as int, end as int));
    (start, word)
}

} // verus!
