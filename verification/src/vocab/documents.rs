//! What the vocabulary is made of, and how its entries read as documents.

use super::cheatsheet::cheatsheet;
use super::index::{all_lang_docs, file_docs, gathered, optional_chords, optional_scales, VocabSources};
use super::lang::lang_docs;
use super::names::{all_notes, chord_names, samples, scale_names};
use super::{
    entry_markdown, option_markdown, options_markdown, plain_entry, EntryView, OptView, VocabKind,
};
use crate::pathname::law_stem_and_extension;
use crate::text::{join, lacks, string_views};
use crate::tutorial::{file_views, FileView};
use vstd::prelude::*;
use vstd::string::*;

verus! {

/// Every kind has its tag, and no two share one.
pub proof fn law_kinds_have_their_tags(a: VocabKind, b: VocabKind)
    ensures
        VocabKind::Synth.short_name() == "synth"@,
        VocabKind::Fx.short_name() == "fx"@,
        VocabKind::Sample.short_name() == "sample"@,
        VocabKind::Func.short_name() == "fn"@,
        VocabKind::Note.short_name() == "note"@,
        VocabKind::Scale.short_name() == "scale"@,
        VocabKind::Chord.short_name() == "chord"@,
        a.short_name() == b.short_name() ==> a == b,
{
    reveal_strlit("synth");
    reveal_strlit("fx");
    reveal_strlit("sample");
    reveal_strlit("fn");
    reveal_strlit("note");
    reveal_strlit("scale");
    reveal_strlit("chord");
    assert("synth"@.len() == 5 && "synth"@[1] == 'y');
    assert("fx"@.len() == 2 && "fx"@[1] == 'x');
    assert("sample"@.len() == 6);
    assert("fn"@.len() == 2 && "fn"@[1] == 'n');
    assert("note"@.len() == 4);
    assert("scale"@.len() == 5 && "scale"@[1] == 'c');
    assert("chord"@.len() == 5 && "chord"@[1] == 'h');
}

/// Every kind has its category in the help browser, and no two share one.
pub proof fn law_kinds_have_their_categories(a: VocabKind, b: VocabKind)
    ensures
        VocabKind::Synth.plural_name() == "Synths"@,
        VocabKind::Fx.plural_name() == "FX"@,
        VocabKind::Sample.plural_name() == "Samples"@,
        VocabKind::Func.plural_name() == "Functions"@,
        VocabKind::Note.plural_name() == "Notes"@,
        VocabKind::Scale.plural_name() == "Scales"@,
        VocabKind::Chord.plural_name() == "Chords"@,
        a.plural_name() == b.plural_name() ==> a == b,
{
    reveal_strlit("Synths");
    reveal_strlit("FX");
    reveal_strlit("Samples");
    reveal_strlit("Functions");
    reveal_strlit("Notes");
    reveal_strlit("Scales");
    reveal_strlit("Chords");
    assert("Synths"@.len() == 6 && "Synths"@[1] == 'y');
    assert("FX"@.len() == 2);
    assert("Samples"@.len() == 7);
    assert("Functions"@.len() == 9);
    assert("Notes"@.len() == 5);
    assert("Scales"@.len() == 6 && "Scales"@[1] == 'c');
    assert("Chords"@.len() == 6 && "Chords"@[1] == 'h');
}

proof fn lemma_part_is_contained(a: Seq<EntryView>, part: Seq<EntryView>, b: Seq<EntryView>, i: int)
    requires
        0 <= i < part.len(),
    ensures
        (a + part + b).contains(part[i]),
{
    assert((a + part + b)[a.len() + i] == part[i]);
}

/// Everything that any of the sources gives is gathered: both cheatsheets, the
/// samples, the language, the notes, the scales and the chords; and nothing else.
#[verifier::rlimit(30)]
pub proof fn law_every_source_is_gathered(src: VocabSources)
    ensures
        forall|i: int|
            0 <= i < cheatsheet(src.synths@, VocabKind::Synth).len() ==> gathered(src).contains(
                #[trigger] cheatsheet(src.synths@, VocabKind::Synth)[i],
            ),
        forall|i: int|
            0 <= i < cheatsheet(src.fx@, VocabKind::Fx).len() ==> gathered(src).contains(
                #[trigger] cheatsheet(src.fx@, VocabKind::Fx)[i],
            ),
        forall|i: int|
            0 <= i < samples(string_views(src.sample_files@)).len() ==> gathered(src).contains(
                #[trigger] samples(string_views(src.sample_files@))[i],
            ),
        forall|i: int|
            0 <= i < all_lang_docs(file_views(src.lang@)).len() ==> gathered(src).contains(
                #[trigger] all_lang_docs(file_views(src.lang@))[i],
            ),
        forall|i: int|
            0 <= i < all_notes().len() ==> gathered(src).contains(#[trigger] all_notes()[i]),
        forall|i: int|
            src.scales matches Some(t) ==> 0 <= i < scale_names(t@).len() ==> gathered(
                src,
            ).contains(#[trigger] scale_names(src.scales->0@)[i]),
        forall|i: int|
            src.chords matches Some(t) ==> 0 <= i < chord_names(t@).len() ==> gathered(
                src,
            ).contains(#[trigger] chord_names(src.chords->0@)[i]),
        gathered(src).len() == cheatsheet(src.synths@, VocabKind::Synth).len() + cheatsheet(
            src.fx@,
            VocabKind::Fx,
        ).len() + samples(string_views(src.sample_files@)).len() + all_lang_docs(
            file_views(src.lang@),
        ).len() + all_notes().len() + optional_scales(src.scales).len() + optional_chords(
            src.chords,
        ).len(),
{
    let g = gathered(src);
    let s0 = cheatsheet(src.synths@, VocabKind::Synth);
    let s1 = cheatsheet(src.fx@, VocabKind::Fx);
    let s2 = samples(string_views(src.sample_files@));
    let s3 = all_lang_docs(file_views(src.lang@));
    let s4 = all_notes();
    let s5 = optional_scales(src.scales);
    let s6 = optional_chords(src.chords);
    let none = Seq::<EntryView>::empty();
    assert forall|i: int| 0 <= i < s0.len() implies g.contains(#[trigger] s0[i]) by {
        assert(g =~= none + s0 + (s1 + s2 + s3 + s4 + s5 + s6));
        lemma_part_is_contained(none, s0, s1 + s2 + s3 + s4 + s5 + s6, i);
    }
    assert forall|i: int| 0 <= i < s1.len() implies g.contains(#[trigger] s1[i]) by {
        assert(g =~= s0 + s1 + (s2 + s3 + s4 + s5 + s6));
        lemma_part_is_contained(s0, s1, s2 + s3 + s4 + s5 + s6, i);
    }
    assert forall|i: int| 0 <= i < s2.len() implies g.contains(#[trigger] s2[i]) by {
        assert(g =~= (s0 + s1) + s2 + (s3 + s4 + s5 + s6));
        lemma_part_is_contained(s0 + s1, s2, s3 + s4 + s5 + s6, i);
    }
    assert forall|i: int| 0 <= i < s3.len() implies g.contains(#[trigger] s3[i]) by {
        assert(g =~= (s0 + s1 + s2) + s3 + (s4 + s5 + s6));
        lemma_part_is_contained(s0 + s1 + s2, s3, s4 + s5 + s6, i);
    }
    assert forall|i: int| 0 <= i < s4.len() implies g.contains(#[trigger] s4[i]) by {
        assert(g =~= (s0 + s1 + s2 + s3) + s4 + (s5 + s6));
        lemma_part_is_contained(s0 + s1 + s2 + s3, s4, s5 + s6, i);
    }
    assert forall|i: int| 0 <= i < s5.len() implies g.contains(#[trigger] s5[i]) by {
        assert(g =~= (s0 + s1 + s2 + s3 + s4) + s5 + s6);
        lemma_part_is_contained(s0 + s1 + s2 + s3 + s4, s5, s6, i);
    }
    assert forall|i: int| 0 <= i < s6.len() implies g.contains(#[trigger] s6[i]) by {
        assert(g =~= (s0 + s1 + s2 + s3 + s4 + s5) + s6 + none);
        lemma_part_is_contained(s0 + s1 + s2 + s3 + s4 + s5, s6, none, i);
    }
}

/// Every Ruby file of the language that could be read is read, and no other file.
pub proof fn law_ruby_files_are_read(
    before: Seq<FileView>,
    front: Seq<char>,
    ext: Seq<char>,
    text: Seq<char>,
    after: Seq<FileView>,
)
    requires
        front.len() > 0,
        lacks(ext, '.'),
    ensures
        ({
            let f = FileView { name: front + "."@ + ext, text: Some(text) };
            let all = all_lang_docs(before.push(f) + after);
            &&& ext == "rb"@ ==> all == all_lang_docs(before) + lang_docs(text) + all_lang_docs(
                after,
            )
            &&& ext != "rb"@ ==> all == all_lang_docs(before + after)
        }),
        all_lang_docs(before.push((FileView { name: front + "."@ + ext, text: None })) + after)
            == all_lang_docs(before + after),
{
    law_stem_and_extension(front, ext);
    let f = FileView { name: front + "."@ + ext, text: Some(text) };
    let g = FileView { name: front + "."@ + ext, text: None };
    lemma_lang_docs_add(before.push(f), after);
    lemma_lang_docs_add(before.push(g), after);
    lemma_lang_docs_add(before, after);
    assert(before.push(f).drop_last() =~= before);
    assert(before.push(g).drop_last() =~= before);
    assert(file_docs(g) =~= seq![]);
    assert(all_lang_docs(before.push(g)) =~= all_lang_docs(before));
    if ext != "rb"@ {
        assert(file_docs(f) =~= seq![]);
        assert(all_lang_docs(before.push(f)) =~= all_lang_docs(before));
    }
}

proof fn lemma_lang_docs_add(a: Seq<FileView>, b: Seq<FileView>)
    ensures
        all_lang_docs(a + b) == all_lang_docs(a) + all_lang_docs(b),
    decreases b.len(),
{
    if b.len() == 0 {
        assert(a + b =~= a);
        assert(all_lang_docs(a) + all_lang_docs(b) =~= all_lang_docs(a));
    } else {
        lemma_lang_docs_add(a, b.drop_last());
        assert((a + b).drop_last() =~= a + b.drop_last());
        assert((a + b).last() == b.last());
        assert(all_lang_docs(a + b) =~= all_lang_docs(a) + all_lang_docs(b));
    }
}

/// A plain entry says its label, kind and summary, and nothing more.
pub proof fn law_plain_entries_hold_what_they_are_made_of(
    label: Seq<char>,
    kind: VocabKind,
    doc: Seq<char>,
)
    ensures
        plain_entry(label, kind, doc) == (EntryView {
            label,
            kind,
            doc,
            opt_docs: Seq::empty(),
            long_doc: ""@,
        }),
{
    reveal_strlit("");
    assert(""@ =~= seq![]);
}

/// The document of an entry without options: its label and kind as the title, then
/// the summary and the body, each with an empty line behind it.
pub proof fn law_document_says_what_the_entry_says(
    label: Seq<char>,
    kind: VocabKind,
    doc: Seq<char>,
    body: Seq<char>,
)
    requires
        doc.len() > 0,
        body.len() > 0,
    ensures
        ({
            let e = EntryView { label, kind, doc, opt_docs: Seq::empty(), long_doc: body };
            let bare = EntryView { long_doc: Seq::empty(), ..e };
            let title = "## `"@ + label + "` — "@ + kind.short_name() + "\n\n"@;
            &&& entry_markdown(e) == title + doc + "\n\n"@ + body + "\n\n"@
            &&& entry_markdown(bare) == title + doc + "\n\n"@
            &&& entry_markdown((EntryView { doc: Seq::empty(), ..bare })) == title
        }),
{
    reveal_strlit("");
    assert(""@ =~= seq![]);
    let e = EntryView { label, kind, doc, opt_docs: Seq::empty(), long_doc: body };
    let bare = EntryView { long_doc: Seq::empty(), ..e };
    let title = "## `"@ + label + "` — "@ + kind.short_name() + "\n\n"@;
    assert(entry_markdown(e) =~= title + doc + "\n\n"@ + body + "\n\n"@);
    assert(entry_markdown(bare) =~= title + doc + "\n\n"@);
    assert(entry_markdown((EntryView { doc: Seq::empty(), ..bare })) =~= title);
}

/// Options stand behind the rest of the document under one heading, in their order.
pub proof fn law_options_stand_under_their_heading(e: EntryView, opts: Seq<OptView>, o: OptView)
    ensures
        ({
            let none = EntryView { opt_docs: Seq::empty(), ..e };
            let one = EntryView { opt_docs: seq![o], ..e };
            let some = EntryView { opt_docs: opts, ..e };
            let more = EntryView { opt_docs: opts.push(o), ..e };
            &&& entry_markdown(one) == entry_markdown(none) + "### Options\n\n"@ + option_markdown(
                o,
            )
            &&& opts.len() > 0 ==> entry_markdown(more) == entry_markdown(some) + option_markdown(o)
        }),
{
    reveal_with_fuel(options_markdown, 2);
    let none = EntryView { opt_docs: Seq::empty(), ..e };
    let one = EntryView { opt_docs: seq![o], ..e };
    let some = EntryView { opt_docs: opts, ..e };
    let more = EntryView { opt_docs: opts.push(o), ..e };
    assert(seq![o].drop_last() =~= seq![]);
    assert(options_markdown(seq![o]) =~= option_markdown(o));
    assert(entry_markdown(one) =~= entry_markdown(none) + "### Options\n\n"@ + option_markdown(o));
    assert(opts.push(o).drop_last() =~= opts);
    if opts.len() > 0 {
        assert(entry_markdown(more) =~= entry_markdown(some) + option_markdown(o));
    }
}

/// An option reads as its name, its default and its text, with its notes on a line of
/// their own; what it lacks is left out.
pub proof fn law_option_reads_as_it_is_documented(
    name: Seq<char>,
    default: Seq<char>,
    doc: Seq<char>,
    a: Seq<char>,
    b: Seq<char>,
)
    requires
        default.len() > 0,
        doc.len() > 0,
    ensures
        ({
            let o = OptView { name, default, doc, notes: seq![a, b] };
            let bare = OptView { notes: Seq::empty(), ..o };
            let none = Seq::<char>::empty();
            &&& option_markdown(o) == "**`"@ + name + "`** *(default "@ + default + ")* — "@ + doc
                + "\n\n  _"@ + a + "; "@ + b + "_\n\n"@
            &&& option_markdown(bare) == "**`"@ + name + "`** *(default "@ + default + ")* — "@
                + doc + "\n\n"@
            &&& option_markdown((OptView { default: none, ..bare })) == "**`"@ + name + "`** — "@
                + doc + "\n\n"@
            &&& option_markdown((OptView { doc: none, ..bare })) == "**`"@ + name
                + "`** *(default "@ + default + ")*\n\n"@
        }),
{
    reveal_strlit("");
    reveal_strlit("**`");
    reveal_strlit("`**");
    reveal_strlit(" *(default ");
    reveal_strlit(")*");
    reveal_strlit(" — ");
    reveal_strlit("\n");
    reveal_strlit("\n\n");
    reveal_strlit("\n  _");
    reveal_strlit("_\n");
    reveal_strlit("; ");
    reveal_strlit("`** *(default ");
    reveal_strlit(")* — ");
    reveal_strlit("\n\n  _");
    reveal_strlit("_\n\n");
    reveal_strlit("`** — ");
    reveal_strlit(")*\n\n");
    let none = Seq::<char>::empty();
    let o = OptView { name, default, doc, notes: seq![a, b] };
    let bare = OptView { notes: Seq::empty(), ..o };
    assert("`**"@ + " *(default "@ =~= "`** *(default "@);
    assert(")*"@ + " — "@ =~= ")* — "@);
    assert("\n"@ + "\n  _"@ =~= "\n\n  _"@);
    assert("_\n"@ + "\n"@ =~= "_\n\n"@);
    assert("`**"@ + " — "@ =~= "`** — "@);
    assert(")*"@ + "\n"@ + "\n"@ =~= ")*\n\n"@);
    assert("\n"@ + "\n"@ =~= "\n\n"@);
    assert(seq![a, b].drop_last() =~= seq![a]);
    assert(join(seq![a], "; "@) == a);
    assert(join(o.notes, "; "@) =~= a + "; "@ + b);
    assert(option_markdown(o) =~= "**`"@ + name + ("`**"@ + " *(default "@) + default + (")*"@
        + " — "@) + doc + ("\n"@ + "\n  _"@) + a + "; "@ + b + ("_\n"@ + "\n"@));
    assert(option_markdown(bare) =~= "**`"@ + name + ("`**"@ + " *(default "@) + default + (")*"@
        + " — "@) + doc + ("\n"@ + "\n"@));
    assert(option_markdown((OptView { default: none, ..bare })) =~= "**`"@ + name + ("`**"@
        + " — "@) + doc + ("\n"@ + "\n"@));
    assert(option_markdown((OptView { doc: none, ..bare })) =~= "**`"@ + name + ("`**"@
        + " *(default "@) + default + (")*"@ + "\n"@ + "\n"@));
}

} // verus!
