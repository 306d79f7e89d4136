//! What the editor's completion menu offers.

use super::index::{all_sliceable, ref_views, Vocab};
use super::matching::{
    boundary_at, completions, offered_options, prefix_start, word_prefix_at,
};
use super::{entry_views, EntryView, VocabEntry, VocabKind};
use crate::table::pair_views;
use crate::text::{chars_of, string_of};
use crate::ui::files::optional_text;
use crate::utf8::{chars_in_bytes, chars_within};
use vstd::prelude::*;
use vstd::slice::slice_subrange;
use vstd::string::*;
use vstd::utf8::{decode_utf8, encode_utf8, encode_utf8_decode_utf8};

verus! {

/// How many options the menu offers.
pub const MAX_OPTIONS: usize = 20;

/// How many vocabulary entries the menu offers.
pub const MAX_ENTRIES: usize = 50;

/// The picture beside an item of the menu.
#[derive(Debug, Clone, Copy, PartialEq, Eq, Structural)]
pub enum ItemKind {
    Field,
    Function,
    File,
    Value,
}

/// An item of the menu.
#[derive(Debug, Clone)]
pub struct CompletionItem {
    pub label: String,
    pub detail: String,
    pub documentation: Option<String>,
    pub insert_text: String,
    pub kind: ItemKind,
}

#[verifier::ext_equal]
pub struct ItemView {
    pub label: Seq<char>,
    pub detail: Seq<char>,
    pub documentation: Option<Seq<char>>,
    pub insert_text: Seq<char>,
    pub kind: ItemKind,
}

impl View for CompletionItem {
    type V = ItemView;

    open spec fn view(&self) -> ItemView {
        ItemView {
            label: self.label@,
            detail: self.detail@,
            documentation: optional_text(self.documentation),
            insert_text: self.insert_text@,
            kind: self.kind,
        }
    }
}

pub open spec fn item_views(v: Seq<CompletionItem>) -> Seq<ItemView> {
    Seq::new(v.len(), |i: int| v[i]@)
}

/// The item of an option and its default.
pub open spec fn option_item(o: (Seq<char>, Seq<char>)) -> ItemView {
    ItemView {
        label: o.0,
        detail: "opt · default "@ + o.1,
        documentation: None,
        insert_text: o.0 + " "@,
        kind: ItemKind::Field,
    }
}

/// The picture of a kind of entry.
pub open spec fn item_kind(k: VocabKind) -> ItemKind {
    match k {
        VocabKind::Func => ItemKind::Function,
        VocabKind::Sample => ItemKind::File,
        _ => ItemKind::Value,
    }
}

/// The item of a vocabulary entry.
pub open spec fn entry_item(e: EntryView) -> ItemView {
    ItemView {
        label: e.label,
        detail: e.kind.short_name(),
        documentation: if e.doc.len() > 0 {
            Some(e.doc)
        } else {
            None
        },
        insert_text: e.label,
        kind: item_kind(e.kind),
    }
}

/// Where the word at byte `offset` ends: at the offset, or at the start of the
/// character it falls into.
pub open spec fn typed_end(text: Seq<char>, offset: int) -> int {
    let bytes = encode_utf8(text);
    boundary_at(
        bytes,
        if offset < bytes.len() {
            offset
        } else {
            bytes.len() as int
        },
    )
}

/// Where the word at byte `offset` starts.
pub open spec fn typed_start(text: Seq<char>, offset: int) -> int {
    prefix_start(encode_utf8(text), typed_end(text, offset))
}

/// The word that is being typed at byte `offset`.
pub open spec fn typed_word(text: Seq<char>, offset: int) -> Seq<char> {
    decode_utf8(
        encode_utf8(text).subrange(typed_start(text, offset), typed_end(text, offset)),
    )
}

/// The text before the word that is being typed.
pub open spec fn text_before(text: Seq<char>, offset: int) -> Seq<char> {
    text.take(chars_within(text, typed_start(text, offset)))
}

/// What the menu offers at byte `offset`: the options of the synth or effect that
/// is being used, then the vocabulary.
pub open spec fn offered_items(
    entries: Seq<EntryView>,
    text: Seq<char>,
    offset: int,
) -> Seq<ItemView> {
    let word = typed_word(text, offset);
    offered_options(entries, text_before(text, offset), word, MAX_OPTIONS as nat).map_values(
        |o: (Seq<char>, Seq<char>)| option_item(o),
    ) + completions(entries, word, MAX_ENTRIES as nat).map_values(|e: EntryView| entry_item(e))
}

fn push_options(out: &mut Vec<CompletionItem>, options: &Vec<(String, String)>)
    ensures
        item_views(final(out)@) == item_views(old(out)@) + pair_views(options@).map_values(
            |o: (Seq<char>, Seq<char>)| option_item(o),
        ),
{
    let ghost start = item_views(out@);
    let ghost all = pair_views(options@).map_values(|o: (Seq<char>, Seq<char>)| option_item(o));
    let mut i: usize = 0;
    assert(start + all.take(0) =~= start);
    while i < options.len()
        invariant
            i <= options@.len(),
            all == pair_views(options@).map_values(
                |o: (Seq<char>, Seq<char>)| option_item(o),
            ),
            item_views(out@) == start + all.take(i as int),
        decreases options@.len() - i,
    {
        let ghost before = item_views(out@);
        let item: CompletionItem = CompletionItem {
            label: options[i].0.clone(),
            detail: String::from_str("opt · default ").concat(options[i].1.as_str()),
            documentation: None,
            insert_text: options[i].0.clone().concat(" "),
            kind: ItemKind::Field,
        };
        assert(pair_views(options@)[i as int] == (options@[i as int].0@, options@[i as int].1@));
        assert(item@ =~= all[i as int]);
        out.push(item);
        i = i + 1;
        assert(item_views(out@) =~= before.push(item@));
        assert(item_views(out@) =~= start + all.take(i as int));
    }
    assert(all.take(i as int) =~= all);
}

fn push_entries(out: &mut Vec<CompletionItem>, entries: &Vec<&VocabEntry>)
    ensures
        item_views(final(out)@) == item_views(old(out)@) + ref_views(entries@).map_values(
            |e: EntryView| entry_item(e),
        ),
{
    let ghost start = item_views(out@);
    let ghost all = ref_views(entries@).map_values(|e: EntryView| entry_item(e));
    let mut i: usize = 0;
    assert(start + all.take(0) =~= start);
    while i < entries.len()
        invariant
            i <= entries@.len(),
            all == ref_views(entries@).map_values(|e: EntryView| entry_item(e)),
            item_views(out@) == start + all.take(i as int),
        decreases entries@.len() - i,
    {
        let ghost before = item_views(out@);
        let e: &VocabEntry = entries[i];
        assert(ref_views(entries@)[i as int] == e@);
        let documentation: Option<String> = if e.doc.as_str().is_empty() {
            None
        } else {
            Some(e.doc.clone())
        };
        let kind: ItemKind = match e.kind {
            VocabKind::Func => ItemKind::Function,
            VocabKind::Sample => ItemKind::File,
            _ => ItemKind::Value,
        };
        let item: CompletionItem = CompletionItem {
            label: e.label.clone(),
            detail: String::from_str(e.kind.label()),
            documentation,
            insert_text: e.label.clone(),
            kind,
        };
        assert(item@ =~= all[i as int]);
        out.push(item);
        i = i + 1;
        assert(item_views(out@) =~= before.push(item@));
        assert(item_views(out@) =~= start + all.take(i as int));
    }
    assert(all.take(i as int) =~= all);
}

impl Vocab {
    /// What the completion menu offers for `text` with the caret at byte `offset`.
    pub fn completion_items(&self, text: &str, offset: usize) -> (r: Vec<CompletionItem>)
        requires
            all_sliceable(entry_views(self.entries@)),
        ensures
            item_views(r@) == offered_items(entry_views(self.entries@), text@, offset as int),
    {
        let (start, word): (usize, &str) = word_prefix_at(text, offset);
        proof {
            encode_utf8_decode_utf8(word@);
        }
        assert(word@ == typed_word(text@, offset as int));
        let cs: Vec<char> = chars_of(text);
        let k: usize = chars_in_bytes(cs.as_slice(), start);
        let before: String = string_of(slice_subrange(cs.as_slice(), 0, k));
        assert(before@ =~= text_before(text@, offset as int));
        let options: Vec<(String, String)> = self.opt_completions(
            before.as_str(),
            word,
            MAX_OPTIONS,
        );
        let entries: Vec<&VocabEntry> = self.complete(word, MAX_ENTRIES);
        let mut out: Vec<CompletionItem> = Vec::new();
        assert(item_views(out@) =~= seq![]);
        push_options(&mut out, &options);
        push_entries(&mut out, &entries);
        assert(item_views(out@) =~= offered_items(
            entry_views(self.entries@),
            text@,
            offset as int,
        ));
        out
    }
}

/// Whether a character that was typed opens the menu.
pub open spec fn opens_menu(c: char) -> bool {
    ('0' <= c && c <= '9') || ('a' <= c && c <= 'z') || ('A' <= c && c <= 'Z') || c == '_' || c
        == ':'
}

/// Whether text that was typed opens the menu: its last character decides.
pub fn is_completion_trigger(new_text: &str) -> (r: bool)
    ensures
        r == (new_text@.len() > 0 && opens_menu(new_text@.last())),
{
    let cs: Vec<char> = chars_of(new_text);
    if cs.len() == 0 {
        return false;
    }
    let c: char = cs[cs.len() - 1];
    ('0' <= c && c <= '9') || ('a' <= c && c <= 'z') || ('A' <= c && c <= 'Z') || c == '_' || c
        == ':'
}

} // verus!
