//! The completion vocabulary: synths, effects, samples, functions, notes, scales
//! and chords, parsed from the sources that document them, and the matching that
//! completion and help run over it.

pub mod cheatsheet;
pub mod completion;
pub mod documents;
pub mod index;
pub mod lang;
pub mod laws;
pub mod matching;
pub mod menu;
pub mod names;
pub mod sheets;
pub mod sources;

pub use self::cheatsheet::parse_cheatsheet;
pub use self::index::Vocab;
pub use self::lang::parse_lang_docs;
pub use self::matching::word_prefix_at;
pub use self::names::{note_names, parse_chord_names, parse_scale_names, samples_from_dir};
use crate::text::{join, joined, string_views};
use vstd::prelude::*;
use vstd::string::*;

verus! {

/// What a vocabulary entry names.
#[derive(Debug, Clone, Copy, PartialEq, Eq, Structural)]
pub enum VocabKind {
    Synth,
    Fx,
    Sample,
    Func,
    Note,
    Scale,
    Chord,
}

/// One option of a synth or effect.
#[derive(Debug, Clone, PartialEq)]
pub struct OptDoc {
    /// Insertable name, colon at the end: `cutoff:`.
    pub name: String,
    pub default: String,
    pub doc: String,
    /// Constraint and modulation notes.
    pub notes: Vec<String>,
}

/// What an `OptDoc` says.
#[verifier::ext_equal]
pub struct OptView {
    pub name: Seq<char>,
    pub default: Seq<char>,
    pub doc: Seq<char>,
    pub notes: Seq<Seq<char>>,
}

impl View for OptDoc {
    type V = OptView;

    open spec fn view(&self) -> OptView {
        OptView {
            name: self.name@,
            default: self.default@,
            doc: self.doc@,
            notes: string_views(self.notes@),
        }
    }
}

impl Default for OptDoc {
    fn default() -> (r: OptDoc)
        ensures
            r@ == (OptView { name: seq![], default: seq![], doc: seq![], notes: seq![] }),
    {
        OptDoc {
            name: String::new(),
            default: String::new(),
            doc: String::new(),
            notes: Vec::new(),
        }
    }
}

pub open spec fn opt_views(v: Seq<OptDoc>) -> Seq<OptView> {
    Seq::new(v.len(), |i: int| v[i]@)
}

/// One entry of the vocabulary.
#[derive(Debug, Clone)]
pub struct VocabEntry {
    /// What completion inserts: `:tb303`, `:bd_haus`, `play`.
    pub label: String,
    pub kind: VocabKind,
    /// One-line summary.
    pub doc: String,
    /// Documented options; empty for samples and functions.
    pub opt_docs: Vec<OptDoc>,
    /// Full documentation body; empty when the source has none.
    pub long_doc: String,
}

/// What a `VocabEntry` says.
#[verifier::ext_equal]
pub struct EntryView {
    pub label: Seq<char>,
    pub kind: VocabKind,
    pub doc: Seq<char>,
    pub opt_docs: Seq<OptView>,
    pub long_doc: Seq<char>,
}

impl View for VocabEntry {
    type V = EntryView;

    open spec fn view(&self) -> EntryView {
        EntryView {
            label: self.label@,
            kind: self.kind,
            doc: self.doc@,
            opt_docs: opt_views(self.opt_docs@),
            long_doc: self.long_doc@,
        }
    }
}

pub open spec fn entry_views(v: Seq<VocabEntry>) -> Seq<EntryView> {
    Seq::new(v.len(), |i: int| v[i]@)
}

/// An entry with a summary and nothing else.
pub open spec fn plain_entry(label: Seq<char>, kind: VocabKind, doc: Seq<char>) -> EntryView {
    EntryView { label, kind, doc, opt_docs: seq![], long_doc: seq![] }
}

impl VocabKind {
    /// Every kind, in the order of the help browser's categories.
    pub const ALL: [VocabKind; 7] = [
        VocabKind::Synth,
        VocabKind::Fx,
        VocabKind::Sample,
        VocabKind::Func,
        VocabKind::Note,
        VocabKind::Scale,
        VocabKind::Chord,
    ];

    pub open spec fn plural_name(self) -> Seq<char> {
        match self {
            VocabKind::Synth => "Synths"@,
            VocabKind::Fx => "FX"@,
            VocabKind::Sample => "Samples"@,
            VocabKind::Func => "Functions"@,
            VocabKind::Note => "Notes"@,
            VocabKind::Scale => "Scales"@,
            VocabKind::Chord => "Chords"@,
        }
    }

    /// The label of the category in the help browser.
    pub fn plural(&self) -> (r: &'static str)
        ensures
            r@ == self.plural_name(),
    {
        match self {
            VocabKind::Synth => "Synths",
            VocabKind::Fx => "FX",
            VocabKind::Sample => "Samples",
            VocabKind::Func => "Functions",
            VocabKind::Note => "Notes",
            VocabKind::Scale => "Scales",
            VocabKind::Chord => "Chords",
        }
    }

    pub open spec fn short_name(self) -> Seq<char> {
        match self {
            VocabKind::Synth => "synth"@,
            VocabKind::Fx => "fx"@,
            VocabKind::Sample => "sample"@,
            VocabKind::Func => "fn"@,
            VocabKind::Note => "note"@,
            VocabKind::Scale => "scale"@,
            VocabKind::Chord => "chord"@,
        }
    }

    /// The tag shown beside an entry of this kind.
    pub fn label(&self) -> (r: &'static str)
        ensures
            r@ == self.short_name(),
    {
        match self {
            VocabKind::Synth => "synth",
            VocabKind::Fx => "fx",
            VocabKind::Sample => "sample",
            VocabKind::Func => "fn",
            VocabKind::Note => "note",
            VocabKind::Scale => "scale",
            VocabKind::Chord => "chord",
        }
    }
}

/// `body` between `before` and `after`, or nothing when it is empty.
pub open spec fn wrapped_if_any(before: Seq<char>, body: Seq<char>, after: Seq<char>) -> Seq<char> {
    if body.len() > 0 {
        before + body + after
    } else {
        seq![]
    }
}

/// An option in the reference part of an entry's document.
pub open spec fn option_markdown(o: OptView) -> Seq<char> {
    "**`"@ + o.name + "`**"@ + wrapped_if_any(" *(default "@, o.default, ")*"@) + wrapped_if_any(
        " — "@,
        o.doc,
        ""@,
    ) + "\n"@ + (if o.notes.len() > 0 {
        "\n  _"@ + join(o.notes, "; "@) + "_\n"@
    } else {
        seq![]
    }) + "\n"@
}

pub open spec fn options_markdown(opts: Seq<OptView>) -> Seq<char>
    decreases opts.len(),
{
    if opts.len() == 0 {
        seq![]
    } else {
        options_markdown(opts.drop_last()) + option_markdown(opts.last())
    }
}

/// The entry as a markdown document: title, summary, full documentation, options.
pub open spec fn entry_markdown(e: EntryView) -> Seq<char> {
    "## `"@ + e.label + "` — "@ + e.kind.short_name() + "\n\n"@ + wrapped_if_any(
        ""@,
        e.doc,
        "\n\n"@,
    ) + wrapped_if_any(""@, e.long_doc, "\n\n"@) + (if e.opt_docs.len() > 0 {
        "### Options\n\n"@ + options_markdown(e.opt_docs)
    } else {
        seq![]
    })
}

fn append_wrapped(out: &mut String, before: &str, body: &str, after: &str)
    ensures
        final(out)@ == old(out)@ + wrapped_if_any(before@, body@, after@),
{
    let ghost start = out@;
    if !body.is_empty() {
        out.append(before);
        out.append(body);
        out.append(after);
    }
    assert(out@ =~= start + wrapped_if_any(before@, body@, after@));
}

fn append_option(out: &mut String, o: &OptDoc)
    ensures
        final(out)@ == old(out)@ + option_markdown(o@),
{
    let ghost start = out@;
    out.append("**`");
    out.append(o.name.as_str());
    out.append("`**");
    append_wrapped(out, " *(default ", o.default.as_str(), ")*");
    append_wrapped(out, " — ", o.doc.as_str(), "");
    out.append("\n");
    if o.notes.len() > 0 {
        out.append("\n  _");
        let notes: String = joined(&o.notes, "; ");
        out.append(notes.as_str());
        out.append("_\n");
    }
    out.append("\n");
    assert(out@ =~= start + option_markdown(o@));
}

impl VocabEntry {
    /// The entry as a markdown document, for the help pane's detail view.
    pub fn doc_markdown(&self) -> (r: String)
        ensures
            r@ == entry_markdown(self@),
    {
        let mut md: String = String::from_str("## `");
        md.append(self.label.as_str());
        md.append("` — ");
        md.append(self.kind.label());
        md.append("\n\n");
        append_wrapped(&mut md, "", self.doc.as_str(), "\n\n");
        append_wrapped(&mut md, "", self.long_doc.as_str(), "\n\n");
        if self.opt_docs.len() > 0 {
            md.append("### Options\n\n");
            let ghost start = md@;
            let ghost opts = opt_views(self.opt_docs@);
            let mut i: usize = 0;
            assert(md@ =~= start + options_markdown(opts.take(0)));
            while i < self.opt_docs.len()
                invariant
                    i <= self.opt_docs@.len(),
                    opts == opt_views(self.opt_docs@),
                    md@ == start + options_markdown(opts.take(i as int)),
                decreases self.opt_docs@.len() - i,
            {
                let ghost before = md@;
                append_option(&mut md, &self.opt_docs[i]);
                i = i + 1;
                assert(opts.take(i as int).drop_last() =~= opts.take(i - 1));
                assert(md@ =~= start + options_markdown(opts.take(i as int)));
            }
            assert(opts.take(i as int) =~= opts);
        }
        assert(md@ =~= entry_markdown(self@));
        md
    }

    pub fn new(label: &str, kind: VocabKind, doc: &str) -> (r: VocabEntry)
        ensures
            r@ == plain_entry(label@, kind, doc@),
    {
        VocabEntry {
            label: String::from_str(label),
            kind,
            doc: String::from_str(doc),
            opt_docs: Vec::new(),
            long_doc: String::new(),
        }
    }
}

} // verus!
