//! The vocabulary as a whole: how it is put together.

use super::cheatsheet::{cheatsheet, parse_cheatsheet};
use super::lang::{lang_docs, parse_lang_docs};
use super::laws::{
    law_cheatsheet_gives_symbols_of_its_kind, law_language_source_gives_functions,
};
use super::names::{
    all_notes, chord_names, chord_of_line, label_le, note_names, parse_chord_names,
    parse_scale_names, sample_of_file, samples, samples_from_dir, scale_names, scale_table,
    sort_by_label, sorted_by_label,
};
use super::{entry_views, EntryView, VocabEntry, VocabKind};
use crate::order::lemma_sort_keeps;
use crate::pathname::{extension, has_extension, join_path, path_join, stem};
use crate::text::{
    find, lines, same_text, split_once, string_views, strip_prefix, trim, white_space_index,
};
use crate::tutorial::{file_views, FileView, SourceFile};
use vstd::prelude::*;
use vstd::string::*;

verus! {

/// The completion vocabulary.
pub struct Vocab {
    pub entries: Vec<VocabEntry>,
}

/// The texts that the vocabulary is loaded from. A file that is missing leaves its
/// text empty or absent: completion then knows less.
pub struct VocabSources {
    /// The synth cheatsheet.
    pub synths: String,
    /// The effect cheatsheet.
    pub fx: String,
    /// The names of the files in the samples directory.
    pub sample_files: Vec<String>,
    /// The files in the directory of the language sources, in the order in which
    /// they were found.
    pub lang: Vec<SourceFile>,
    pub scales: Option<String>,
    pub chords: Option<String>,
}

/// Where the sources of the vocabulary are: four files, and the directories of the
/// samples and of the language.
pub struct VocabPaths {
    pub synths: String,
    pub fx: String,
    pub samples: String,
    pub lang: String,
    pub scales: String,
    pub chords: String,
}

/// The directory above the application directory.
pub open spec fn repository(app_root: Seq<char>) -> Seq<char> {
    path_join(app_root, ".."@)
}

/// Where the sources of the vocabulary are, for an application directory.
pub fn vocab_paths(app_root: &str) -> (r: VocabPaths)
    ensures
        r.synths@ == path_join(
            path_join(repository(app_root@), "etc/doc/cheatsheets"@),
            "synths.md"@,
        ),
        r.fx@ == path_join(path_join(repository(app_root@), "etc/doc/cheatsheets"@), "fx.md"@),
        r.samples@ == path_join(repository(app_root@), "etc/samples"@),
        r.lang@ == path_join(app_root@, "server/ruby/lib/sonicpi/lang"@),
        r.scales@ == path_join(path_join(app_root@, "server/ruby/lib/sonicpi"@), "scale.rb"@),
        r.chords@ == path_join(path_join(app_root@, "server/ruby/lib/sonicpi"@), "chord.rb"@),
{
    let repo: String = join_path(app_root, "..");
    let sheets: String = join_path(repo.as_str(), "etc/doc/cheatsheets");
    let ruby: String = join_path(app_root, "server/ruby/lib/sonicpi");
    VocabPaths {
        synths: join_path(sheets.as_str(), "synths.md"),
        fx: join_path(sheets.as_str(), "fx.md"),
        samples: join_path(repo.as_str(), "etc/samples"),
        lang: join_path(app_root, "server/ruby/lib/sonicpi/lang"),
        scales: join_path(ruby.as_str(), "scale.rb"),
        chords: join_path(ruby.as_str(), "chord.rb"),
    }
}

pub open spec fn ref_views(v: Seq<&VocabEntry>) -> Seq<EntryView> {
    Seq::new(v.len(), |i: int| v[i]@)
}

/// The first `limit` elements of `s`.
pub open spec fn at_most<A>(s: Seq<A>, limit: nat) -> Seq<A> {
    if s.len() > limit {
        s.take(limit as int)
    } else {
        s
    }
}

/// `s` without an entry whose label and kind are those of the entry kept before it.
pub open spec fn dedup(s: Seq<EntryView>) -> Seq<EntryView>
    decreases s.len(),
{
    if s.len() == 0 {
        s
    } else {
        let d = dedup(s.drop_last());
        let x = s.last();
        if d.len() > 0 && d.last().label == x.label && d.last().kind == x.kind {
            d
        } else {
            d.push(x)
        }
    }
}

/// The entries of a file among the language sources: those of Ruby files that
/// could be read.
pub open spec fn file_docs(f: FileView) -> Seq<EntryView> {
    match f.text {
        Some(t) => if extension(f.name) == Some("rb"@) {
            lang_docs(t)
        } else {
            seq![]
        },
        None => seq![],
    }
}

/// The entries of all language sources, one after the other.
pub open spec fn all_lang_docs(files: Seq<FileView>) -> Seq<EntryView>
    decreases files.len(),
{
    if files.len() == 0 {
        seq![]
    } else {
        all_lang_docs(files.drop_last()) + file_docs(files.last())
    }
}

pub open spec fn optional_scales(text: Option<String>) -> Seq<EntryView> {
    match text {
        Some(t) => scale_names(t@),
        None => seq![],
    }
}

pub open spec fn optional_chords(text: Option<String>) -> Seq<EntryView> {
    match text {
        Some(t) => chord_names(t@),
        None => seq![],
    }
}

/// Every entry that the sources give, before sorting.
pub open spec fn gathered(src: VocabSources) -> Seq<EntryView> {
    cheatsheet(src.synths@, VocabKind::Synth) + cheatsheet(src.fx@, VocabKind::Fx) + samples(
        string_views(src.sample_files@),
    ) + all_lang_docs(file_views(src.lang@)) + all_notes() + optional_scales(src.scales)
        + optional_chords(src.chords)
}

/// Whether an entry is a function or a symbol that starts with a one-byte
/// character, as every label that starts with a colon does.
pub open spec fn sliceable(e: EntryView) -> bool {
    e.kind == VocabKind::Func || (e.label.len() > 0 && e.label[0] as u32 <= 0x7f)
}

pub open spec fn all_sliceable(s: Seq<EntryView>) -> bool {
    forall|i: int| 0 <= i < s.len() ==> sliceable(#[trigger] s[i])
}

fn append_entries(out: &mut Vec<VocabEntry>, more: Vec<VocabEntry>)
    ensures
        entry_views(final(out)@) == entry_views(old(out)@) + entry_views(more@),
{
    let ghost before = entry_views(out@);
    let ghost added = entry_views(more@);
    let mut m: Vec<VocabEntry> = more;
    out.append(&mut m);
    assert(entry_views(out@) =~= before + added);
}

fn deduped(entries: Vec<VocabEntry>) -> (r: Vec<VocabEntry>)
    ensures
        entry_views(r@) == dedup(entry_views(entries@)),
{
    let ghost given = entry_views(entries@);
    let mut rest: Vec<VocabEntry> = entries;
    let mut out: Vec<VocabEntry> = Vec::new();
    let ghost mut n: int = 0;
    assert(entry_views(out@) =~= dedup(given.take(0)));
    while rest.len() > 0
        invariant
            0 <= n,
            n + rest@.len() == given.len(),
            entry_views(rest@) == given.skip(n),
            entry_views(out@) == dedup(given.take(n)),
        decreases rest@.len(),
    {
        let ghost before = rest@;
        let ghost kept = entry_views(out@);
        let e: VocabEntry = rest.remove(0);
        assert(e@ == entry_views(before)[0]);
        let dup: bool = out.len() > 0 && same_text(
            out[out.len() - 1].label.as_str(),
            e.label.as_str(),
        ) && out[out.len() - 1].kind == e.kind;
        proof {
            assert(given.take(n + 1).drop_last() =~= given.take(n));
            assert(given.take(n + 1).last() == e@);
            if out@.len() > 0 {
                assert(kept.last() == out@[out@.len() - 1]@);
            }
        }
        if !dup {
            out.push(e);
            assert(entry_views(out@) =~= kept.push(e@));
        }
        proof {
            assert(entry_views(rest@) =~= given.skip(n + 1)) by {
                assert forall|i: int| 0 <= i < rest@.len() implies #[trigger] entry_views(rest@)[i]
                    == given.skip(n + 1)[i] by {
                    assert(rest@[i] == before[i + 1]);
                    assert(entry_views(before)[i + 1] == given.skip(n)[i + 1]);
                }
            }
            n = n + 1;
        }
    }
    assert(given.take(n) =~= given);
    out
}

impl Vocab {
    /// Puts the vocabulary together: everything that the sources document, in
    /// label order, each label and kind once.
    pub fn load(src: &VocabSources) -> (r: Vocab)
        ensures
            entry_views(r.entries@) == dedup(sort_by_label(gathered(*src))),
            all_sliceable(entry_views(r.entries@)),
    {
        let mut entries: Vec<VocabEntry> = parse_cheatsheet(src.synths.as_str(), VocabKind::Synth);
        append_entries(&mut entries, parse_cheatsheet(src.fx.as_str(), VocabKind::Fx));
        append_entries(&mut entries, samples_from_dir(&src.sample_files));
        let ghost start = entry_views(entries@);
        let ghost files = file_views(src.lang@);
        let mut i: usize = 0;
        assert(entry_views(entries@) =~= start + all_lang_docs(files.take(0)));
        while i < src.lang.len()
            invariant
                i <= src.lang@.len(),
                files == file_views(src.lang@),
                entry_views(entries@) == start + all_lang_docs(files.take(i as int)),
            decreases src.lang@.len() - i,
        {
            let f: &SourceFile = &src.lang[i];
            match &f.text {
                Some(t) => {
                    if has_extension(f.name.as_str(), "rb") {
                        append_entries(&mut entries, parse_lang_docs(t.as_str()));
                    }
                },
                None => {},
            }
            i = i + 1;
            assert(files.take(i as int).last() == f@);
            assert(files.take(i as int).drop_last() =~= files.take(i - 1));
            assert(entry_views(entries@) =~= start + all_lang_docs(files.take(i as int)));
        }
        assert(files.take(i as int) =~= files);
        append_entries(&mut entries, note_names());
        match &src.scales {
            Some(t) => {
                append_entries(&mut entries, parse_scale_names(t.as_str()));
            },
            None => {},
        }
        let ghost with_scales = entry_views(entries@);
        assert(with_scales =~= start + all_lang_docs(files) + all_notes() + optional_scales(
            src.scales,
        ));
        match &src.chords {
            Some(t) => {
                append_entries(&mut entries, parse_chord_names(t.as_str()));
            },
            None => {},
        }
        assert(entry_views(entries@) =~= gathered(*src));
        proof {
            lemma_gathered_sliceable(*src);
            lemma_sorted_sliceable(gathered(*src));
            lemma_dedup_sliceable(sort_by_label(gathered(*src)));
        }
        Vocab { entries: deduped(sorted_by_label(entries)) }
    }
}

proof fn lemma_lang_docs_sliceable(files: Seq<FileView>)
    ensures
        all_sliceable(all_lang_docs(files)),
    decreases files.len(),
{
    if files.len() > 0 {
        lemma_lang_docs_sliceable(files.drop_last());
        match files.last().text {
            Some(t) => law_language_source_gives_functions(t),
            None => {},
        }
    }
}

proof fn lemma_colon_first(key: Seq<char>)
    ensures
        (":"@ + key).len() > 0,
        (":"@ + key)[0] as u32 <= 0x7f,
{
    reveal_strlit(":");
}

proof fn lemma_scale_table_sliceable(ls: Seq<Seq<char>>)
    ensures
        all_sliceable(scale_table(ls)),
    decreases ls.len(),
{
    if ls.len() > 0 {
        lemma_scale_table_sliceable(ls.drop_first());
        match split_once(trim(ls[0]), ':') {
            Some((key, _)) => {
                lemma_colon_first(trim(key));
            },
            None => {},
        }
    }
}

proof fn lemma_filter_map_sliceable(s: Seq<Seq<char>>, f: spec_fn(Seq<char>) -> Option<EntryView>)
    requires
        forall|t: Seq<char>| (#[trigger] f(t)) matches Some(e) ==> sliceable(e),
    ensures
        all_sliceable(s.filter_map(f)),
    decreases s.len(),
{
    if s.len() > 0 {
        lemma_filter_map_sliceable(s.drop_last(), f);
        assert(f(s.last()) matches Some(e) ==> sliceable(e));
    }
}

proof fn lemma_sorted_sliceable(s: Seq<EntryView>)
    requires
        all_sliceable(s),
    ensures
        all_sliceable(sort_by_label(s)),
{
    lemma_sort_keeps(s, label_le());
}

proof fn lemma_dedup_sliceable(s: Seq<EntryView>)
    requires
        all_sliceable(s),
    ensures
        all_sliceable(dedup(s)),
    decreases s.len(),
{
    if s.len() > 0 {
        lemma_dedup_sliceable(s.drop_last());
        assert(sliceable(s[s.len() - 1]));
    }
}

proof fn lemma_gathered_sliceable(src: VocabSources)
    ensures
        all_sliceable(gathered(src)),
{
    law_cheatsheet_gives_symbols_of_its_kind(src.synths@, VocabKind::Synth);
    law_cheatsheet_gives_symbols_of_its_kind(src.fx@, VocabKind::Fx);
    assert(all_sliceable(cheatsheet(src.synths@, VocabKind::Synth)));
    assert(all_sliceable(cheatsheet(src.fx@, VocabKind::Fx)));
    let files = string_views(src.sample_files@);
    let f = |name: Seq<char>| sample_of_file(name);
    assert forall|t: Seq<char>| (#[trigger] f(t)) matches Some(e) ==> sliceable(e) by {
        lemma_colon_first(stem(t));
    }
    lemma_filter_map_sliceable(files, f);
    lemma_sorted_sliceable(files.filter_map(f));
    lemma_lang_docs_sliceable(file_views(src.lang@));
    assert(all_sliceable(all_notes())) by {
        assert forall|i: int| 0 <= i < all_notes().len() implies sliceable(
            #[trigger] all_notes()[i],
        ) by {
            reveal_strlit(":");
        }
    }
    match src.scales {
        Some(t) => {
            match find(t@, "SCALE = lambda"@) {
                Some(a) => match find(t@.skip(a), "\n      {"@) {
                    Some(b) => {
                        lemma_scale_table_sliceable(lines(t@.skip(a).skip(b)).drop_first());
                    },
                    None => {},
                },
                None => {},
            }
        },
        None => {},
    }
    match src.chords {
        Some(t) => {
            let g = |line: Seq<char>| chord_of_line(line);
            assert forall|l: Seq<char>| (#[trigger] g(l)) matches Some(e) ==> sliceable(e) by {
                match strip_prefix(trim(l), ":"@) {
                    Some(rest) => {
                        lemma_colon_first(rest.take(white_space_index(rest)));
                    },
                    None => {},
                }
            }
            lemma_filter_map_sliceable(lines(t@), g);
        },
        None => {},
    }
}

} // verus!
