//! The panes to read in: help on the vocabulary, and the tutorial with its
//! examples.

use crate::i18n::{translated, I18n};
use crate::text::{
    chars_of, join, joined, lemma_trim_blank, blank, string_of, string_views, trimmed,
};
use crate::tutorial::{chapter_views, example_views, Chapter, ChapterView, Example, ExampleView};
use crate::ui::files::optional_str;
use crate::ui::widgets::{
    button, button_views, chosen, chosen_style, pane_views, push_button, push_row, push_text,
    text_row, Action, Button, ButtonView, Emphasis, PaneRow, PaneRowView,
};
use crate::vocab::index::{ref_views, Vocab};
use crate::vocab::matching::{best_hits, lookup, lowercase, lowered_labels};
use crate::vocab::{entry_views, EntryView, OptView, VocabEntry};
use vstd::prelude::*;
use vstd::slice::slice_subrange;
use vstd::string::*;

verus! {

/// How many hits the help pane shows.
pub const HELP_HITS: usize = 10;

/// How many characters of a long document the help pane shows.
pub const HELP_CHARS: usize = 1200;

/// The button of a hit.
pub open spec fn hit_button(e: EntryView, i: int, selected: Option<Seq<char>>) -> ButtonView {
    button(
        e.label + " ("@ + e.kind.short_name() + ")"@,
        chosen(selected == Some(e.label)),
        Action::ShowEntry(i as usize),
    )
}

/// The buttons of some hits.
pub open spec fn hit_buttons(hits: Seq<EntryView>, selected: Option<Seq<char>>) -> Seq<ButtonView> {
    Seq::new(hits.len(), |i: int| hit_button(hits[i], i, selected))
}

/// A long document cut to what the pane shows.
pub open spec fn excerpt(long_doc: Seq<char>) -> Seq<char> {
    if long_doc.len() > HELP_CHARS {
        long_doc.take(HELP_CHARS as int).push('…')
    } else {
        long_doc
    }
}

/// An option and its default.
pub open spec fn option_text(o: OptView) -> Seq<char> {
    o.name + " "@ + o.default
}

/// The options of an entry in one line.
pub open spec fn options_text(opts: Seq<OptView>) -> Seq<char> {
    join(opts.map_values(|o: OptView| option_text(o)), "   "@)
}

/// A row with a text, unless it is empty.
pub open spec fn some_text(text: Seq<char>) -> Seq<PaneRowView> {
    if text.len() > 0 {
        seq![text_row(text)]
    } else {
        seq![]
    }
}

/// What the pane says of an entry: its name and kind, its summary, its document and
/// its options, as far as it has them.
pub open spec fn entry_rows(e: EntryView) -> Seq<PaneRowView> {
    seq![text_row(e.label + " — "@ + e.kind.short_name())] + some_text(e.doc) + some_text(
        excerpt(e.long_doc),
    ) + (if e.opt_docs.len() > 0 {
        seq![text_row(options_text(e.opt_docs))]
    } else {
        seq![]
    })
}

/// The rows of the hits: their buttons, or that there are none for a query that
/// says something.
pub open spec fn hit_rows(
    hits: Seq<EntryView>,
    query: Seq<char>,
    selected: Option<Seq<char>>,
    t: Map<Seq<char>, Seq<char>>,
) -> Seq<PaneRowView> {
    if hits.len() > 0 {
        seq![PaneRowView { text: ""@, buttons: hit_buttons(hits, selected) }]
    } else if !blank(query) {
        seq![text_row(translated(t, "No matches."@))]
    } else {
        seq![]
    }
}

/// The rows of the help pane for some hits and the entry that is shown.
pub open spec fn help_rows(
    hits: Seq<EntryView>,
    shown: Option<EntryView>,
    query: Seq<char>,
    selected: Option<Seq<char>>,
    t: Map<Seq<char>, Seq<char>>,
) -> Seq<PaneRowView> {
    hit_rows(hits, query, selected, t) + (match shown {
        Some(e) => entry_rows(e),
        None => seq![],
    })
}

fn push_some(rows: &mut Vec<PaneRow>, text: &str)
    ensures
        pane_views(final(rows)@) == pane_views(old(rows)@) + some_text(text@),
{
    let ghost before = pane_views(rows@);
    if !text.is_empty() {
        push_text(rows, String::from_str(text));
    }
    assert(pane_views(rows@) =~= before + some_text(text@));
}

fn cut(long_doc: &str) -> (r: String)
    ensures
        r@ == excerpt(long_doc@),
{
    let cs: Vec<char> = chars_of(long_doc);
    if cs.len() > HELP_CHARS {
        let head: &[char] = slice_subrange(cs.as_slice(), 0, HELP_CHARS);
        assert(head@ =~= long_doc@.take(HELP_CHARS as int));
        let mut t: String = string_of(head);
        t.push('…');
        t
    } else {
        String::from_str(long_doc)
    }
}

fn options_line(e: &VocabEntry) -> (r: String)
    ensures
        r@ == options_text(e@.opt_docs),
{
    let ghost all = e@.opt_docs.map_values(|o: OptView| option_text(o));
    let mut out: Vec<String> = Vec::new();
    let mut i: usize = 0;
    assert(string_views(out@) =~= all.take(0));
    while i < e.opt_docs.len()
        invariant
            i <= e.opt_docs@.len(),
            all == e@.opt_docs.map_values(|o: OptView| option_text(o)),
            string_views(out@) == all.take(i as int),
        decreases e.opt_docs@.len() - i,
    {
        let ghost before = string_views(out@);
        let mut t: String = e.opt_docs[i].name.clone();
        t.append(" ");
        t.append(e.opt_docs[i].default.as_str());
        assert(e@.opt_docs[i as int] == e.opt_docs@[i as int]@);
        assert(t@ == all[i as int]);
        out.push(t);
        i = i + 1;
        assert(string_views(out@) =~= before.push(t@));
        assert(string_views(out@) =~= all.take(i as int));
    }
    assert(all.take(i as int) =~= all);
    joined(&out, "   ")
}

fn push_entry(rows: &mut Vec<PaneRow>, e: &VocabEntry)
    ensures
        pane_views(final(rows)@) == pane_views(old(rows)@) + entry_rows(e@),
{
    let ghost before = pane_views(rows@);
    let mut title: String = e.label.clone();
    title.append(" — ");
    title.append(e.kind.label());
    push_text(rows, title);
    push_some(rows, e.doc.as_str());
    let body: String = cut(e.long_doc.as_str());
    push_some(rows, body.as_str());
    if e.opt_docs.len() > 0 {
        push_text(rows, options_line(e));
    }
    assert(pane_views(rows@) =~= before + entry_rows(e@));
}

fn is_selected(label: &str, selected: Option<&str>) -> (r: bool)
    ensures
        r == (optional_str(selected) == Some(label@)),
{
    match selected {
        Some(s) => crate::text::same_text(s, label),
        None => false,
    }
}

/// The rows of the help pane for the hits of a search and the entry that is shown.
pub fn help_of(
    hits: &Vec<&VocabEntry>,
    shown: Option<&VocabEntry>,
    query: &str,
    selected: Option<&str>,
    i18n: &I18n,
) -> (r: Vec<PaneRow>)
    ensures
        pane_views(r@) == help_rows(
            ref_views(hits@),
            match shown {
                Some(e) => Some(e@),
                None => None,
            },
            query@,
            optional_str(selected),
            i18n.table@,
        ),
{
    let mut rows: Vec<PaneRow> = Vec::new();
    let ghost none = pane_views(rows@);
    assert(none =~= seq![]);
    let ghost all = hit_buttons(ref_views(hits@), optional_str(selected));
    if hits.len() > 0 {
        let mut buttons: Vec<Button> = Vec::new();
        let mut i: usize = 0;
        assert(button_views(buttons@) =~= all.take(0));
        while i < hits.len()
            invariant
                i <= hits@.len(),
                all == hit_buttons(ref_views(hits@), optional_str(selected)),
                button_views(buttons@) == all.take(i as int),
            decreases hits@.len() - i,
        {
            let e: &VocabEntry = hits[i];
            assert(ref_views(hits@)[i as int] == e@);
            let mut label: String = e.label.clone();
            label.append(" (");
            label.append(e.kind.label());
            label.append(")");
            let on: bool = is_selected(e.label.as_str(), selected);
            push_button(&mut buttons, label, "", chosen_style(on), Action::ShowEntry(i));
            i = i + 1;
            assert(button_views(buttons@) =~= all.take(i as int));
        }
        assert(all.take(i as int) =~= all);
        push_row(&mut rows, String::from_str(""), buttons);
    } else {
        let q: Vec<char> = chars_of(query);
        proof {
            lemma_trim_blank(query@);
        }
        if trimmed(q.as_slice()).len() > 0 {
            push_text(&mut rows, String::from_str(i18n.tr("No matches.")));
        }
    }
    let ghost top = pane_views(rows@);
    assert(top =~= hit_rows(ref_views(hits@), query@, optional_str(selected), i18n.table@));
    match shown {
        Some(e) => push_entry(&mut rows, e),
        None => {
            assert(top + Seq::<PaneRowView>::empty() =~= top);
        },
    }
    rows
}

/// The rows of the help pane: what the query finds in the vocabulary, and what is
/// known of the selected entry.
pub fn help(vocab: &Vocab, query: &str, selected: Option<&str>, i18n: &I18n) -> (r: Vec<PaneRow>)
    ensures
        pane_views(r@) == help_rows(
            best_hits(
                entry_views(vocab.entries@),
                lowered_labels(entry_views(vocab.entries@)),
                lowercase(crate::text::trim(query@)),
                HELP_HITS as nat,
            ),
            match selected {
                Some(l) => lookup(entry_views(vocab.entries@), l@),
                None => None,
            },
            query@,
            optional_str(selected),
            i18n.table@,
        ),
{
    let hits: Vec<&VocabEntry> = vocab.search(query, HELP_HITS);
    let shown: Option<&VocabEntry> = match selected {
        Some(l) => vocab.get(l),
        None => None,
    };
    help_of(&hits, shown, query, selected, i18n)
}

/// The row of a chapter.
pub open spec fn chapter_row(c: ChapterView, i: int, selected: Option<usize>) -> PaneRowView {
    PaneRowView {
        text: ""@,
        buttons: seq![
            button(
                c.title,
                if selected == Some(i as usize) {
                    Emphasis::Primary
                } else {
                    Emphasis::Faint
                },
                Action::ShowChapter(i as usize),
            ),
        ],
    }
}

/// The row of an example.
pub open spec fn example_row(e: ExampleView, i: int) -> PaneRowView {
    PaneRowView {
        text: ""@,
        buttons: seq![button("♪ "@ + e.name, Emphasis::Faint, Action::LoadExample(i as usize))],
    }
}

/// The category of the last of some examples; empty before the first.
pub open spec fn last_category(es: Seq<ExampleView>) -> Seq<char> {
    if es.len() > 0 {
        es.last().category
    } else {
        ""@
    }
}

/// The rows of the examples, each category under its name.
pub open spec fn example_rows(es: Seq<ExampleView>) -> Seq<PaneRowView>
    decreases es.len(),
{
    if es.len() == 0 {
        seq![]
    } else {
        let before = example_rows(es.drop_last());
        let headed = if es.last().category != last_category(es.drop_last()) {
            before.push(text_row(es.last().category))
        } else {
            before
        };
        headed.push(example_row(es.last(), es.len() - 1))
    }
}

/// The rows to choose from in the tutorial pane: the chapters in order, then the
/// examples.
pub open spec fn tutorial_rows(
    chapters: Seq<ChapterView>,
    examples: Seq<ExampleView>,
    selected: Option<usize>,
    t: Map<Seq<char>, Seq<char>>,
) -> Seq<PaneRowView> {
    Seq::new(chapters.len(), |i: int| chapter_row(chapters[i], i, selected)).push(
        text_row(translated(t, "Examples"@)),
    ) + example_rows(examples)
}

fn push_one(rows: &mut Vec<PaneRow>, label: String, style: Emphasis, action: Action)
    ensures
        pane_views(final(rows)@) == pane_views(old(rows)@).push(
            (PaneRowView { text: ""@, buttons: seq![button(label@, style, action)] }),
        ),
{
    let mut buttons: Vec<Button> = Vec::new();
    assert(button_views(buttons@) =~= seq![]);
    push_button(&mut buttons, label, "", style, action);
    assert(button_views(buttons@) =~= seq![button(label@, style, action)]);
    push_row(rows, String::from_str(""), buttons);
}

/// The rows to choose from in the tutorial pane.
pub fn tutorial_nav(
    chapters: &Vec<Chapter>,
    examples: &Vec<Example>,
    selected: Option<usize>,
    i18n: &I18n,
) -> (r: Vec<PaneRow>)
    ensures
        pane_views(r@) == tutorial_rows(
            chapter_views(chapters@),
            example_views(examples@),
            selected,
            i18n.table@,
        ),
{
    let ghost cs = chapter_views(chapters@);
    let ghost es = example_views(examples@);
    let ghost top = Seq::new(cs.len(), |i: int| chapter_row(cs[i], i, selected));
    let mut rows: Vec<PaneRow> = Vec::new();
    let mut i: usize = 0;
    assert(pane_views(rows@) =~= top.take(0));
    while i < chapters.len()
        invariant
            i <= chapters@.len(),
            cs == chapter_views(chapters@),
            top == Seq::new(cs.len(), |k: int| chapter_row(cs[k], k, selected)),
            pane_views(rows@) == top.take(i as int),
        decreases chapters@.len() - i,
    {
        assert(cs[i as int] == chapters@[i as int]@);
        let on: bool = match selected {
            Some(k) => k == i,
            None => false,
        };
        let style: Emphasis = if on {
            Emphasis::Primary
        } else {
            Emphasis::Faint
        };
        push_one(&mut rows, chapters[i].title.clone(), style, Action::ShowChapter(i));
        i = i + 1;
        assert(pane_views(rows@) =~= top.take(i as int));
    }
    assert(top.take(i as int) =~= top);
    push_text(&mut rows, String::from_str(i18n.tr("Examples")));
    let ghost start = pane_views(rows@);
    let mut k: usize = 0;
    assert(start + example_rows(es.take(0)) =~= start);
    while k < examples.len()
        invariant
            k <= examples@.len(),
            es == example_views(examples@),
            pane_views(rows@) == start + example_rows(es.take(k as int)),
        decreases examples@.len() - k,
    {
        assert(es[k as int] == examples@[k as int]@);
        assert(es.take(k + 1).drop_last() =~= es.take(k as int));
        let fresh: bool = if k > 0 {
            assert(es[k - 1] == examples@[k - 1]@);
            assert(es.take(k as int).last() == es[k - 1]);
            !crate::text::same_text(
                examples[k].category.as_str(),
                examples[k - 1].category.as_str(),
            )
        } else {
            !crate::text::same_text(examples[k].category.as_str(), "")
        };
        if fresh {
            push_text(&mut rows, examples[k].category.clone());
        }
        let label: String = String::from_str("♪ ").concat(examples[k].name.as_str());
        push_one(&mut rows, label, Emphasis::Faint, Action::LoadExample(k));
        k = k + 1;
        assert(pane_views(rows@) =~= start + example_rows(es.take(k as int)));
    }
    assert(es.take(k as int) =~= es);
    rows
}

/// What the tutorial pane says while no chapter is shown.
pub fn tutorial_hint<'a>(i18n: &'a I18n) -> (r: &'a str)
    ensures
        r@ == translated(
            i18n.table@,
            "Pick a chapter — or load an example into the buffer."@,
        ),
{
    i18n.tr("Pick a chapter — or load an example into the buffer.")
}

} // verus!
