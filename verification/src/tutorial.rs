//! The tutorial's chapters and the examples.

use crate::order::{
    key_views, lemma_sort_items, law_sort_is_ranked, lemma_text_le_total, lemma_text_le_transitive,
    ranked, sorted_order, stable_sort, text_le,
};
use crate::pathname::{
    extension, has_extension, is_absolute, join_path, lemma_parent_of_absolute, parent, path_join,
    path_parent, stem, stem_of,
};
use crate::text::{
    chars_of, contains, find, find_char, find_chars, has_chars, index_of, is_text, lacks,
    lemma_find, lemma_find_in_prefix, lemma_index_of, lemma_index_of_is, lemma_pieces_lack, lines,
    lines_of, split, split_at_char, string_of, string_views, trim, trimmed, views,
};
use vstd::prelude::*;
use vstd::slice::slice_subrange;
use vstd::string::*;

pub mod pages;

verus! {

/// A file as it was found: its name and, if it could be read, its text.
#[derive(Debug, Clone)]
pub struct SourceFile {
    pub name: String,
    pub text: Option<String>,
}

#[verifier::ext_equal]
pub struct FileView {
    pub name: Seq<char>,
    pub text: Option<Seq<char>>,
}

impl View for SourceFile {
    type V = FileView;

    open spec fn view(&self) -> FileView {
        FileView {
            name: self.name@,
            text: match self.text {
                Some(t) => Some(t@),
                None => None,
            },
        }
    }
}

pub open spec fn file_views(v: Seq<SourceFile>) -> Seq<FileView> {
    Seq::new(v.len(), |i: int| v[i]@)
}

/// A chapter of the tutorial.
pub struct Chapter {
    pub path: String,
    pub title: String,
}

#[verifier::ext_equal]
pub struct ChapterView {
    pub path: Seq<char>,
    pub title: Seq<char>,
}

impl View for Chapter {
    type V = ChapterView;

    open spec fn view(&self) -> ChapterView {
        ChapterView { path: self.path@, title: self.title@ }
    }
}

pub open spec fn chapter_views(v: Seq<Chapter>) -> Seq<ChapterView> {
    Seq::new(v.len(), |i: int| v[i]@)
}

/// The first line that is not blank, trimmed.
pub open spec fn first_text(ls: Seq<Seq<char>>) -> Option<Seq<char>>
    decreases ls.len(),
{
    if ls.len() == 0 {
        None
    } else if trim(ls[0]).len() > 0 {
        Some(trim(ls[0]))
    } else {
        first_text(ls.drop_first())
    }
}

/// The title of a chapter: the first line of its text that is not blank, else the
/// name of its file.
pub open spec fn chapter_title(f: FileView) -> Seq<char> {
    match f.text {
        Some(t) => match first_text(lines(t)) {
            Some(l) => l,
            None => stem(f.name),
        },
        None => stem(f.name),
    }
}

pub open spec fn file_name_le() -> spec_fn(FileView, FileView) -> bool {
    |a: FileView, b: FileView| text_le(a.name, b.name)
}

pub open spec fn chapter_of(dir: Seq<char>, f: FileView) -> ChapterView {
    ChapterView { path: path_join(dir, f.name), title: chapter_title(f) }
}

/// The chapters in a directory: its markdown files, in the order of their names.
pub open spec fn chapters(dir: Seq<char>, files: Seq<FileView>) -> Seq<ChapterView> {
    stable_sort(
        files.filter(|f: FileView| extension(f.name) == Some("md"@)),
        file_name_le(),
    ).map_values(|f: FileView| chapter_of(dir, f))
}

fn title_in(text: &str) -> (r: Option<String>)
    ensures
        match r {
            Some(l) => first_text(lines(text@)) == Some(l@),
            None => first_text(lines(text@)) is None,
        },
{
    let cs: Vec<char> = chars_of(text);
    let ls: Vec<&[char]> = lines_of(cs.as_slice());
    let ghost all = lines(text@);
    let mut i: usize = 0;
    assert(all.skip(0) =~= all);
    while i < ls.len()
        invariant
            i <= ls@.len(),
            views(ls@) == all,
            all == lines(text@),
            first_text(all) == first_text(all.skip(i as int)),
        decreases ls@.len() - i,
    {
        assert(all.skip(i as int).drop_first() =~= all.skip(i + 1));
        assert(all.skip(i as int)[0] == ls@[i as int]@);
        let t: &[char] = trimmed(ls[i]);
        if t.len() > 0 {
            return Some(string_of(t));
        }
        i = i + 1;
    }
    None
}

fn title_of(f: &SourceFile) -> (r: String)
    ensures
        r@ == chapter_title(f@),
{
    match &f.text {
        Some(t) => match title_in(t.as_str()) {
            Some(l) => l,
            None => stem_of(f.name.as_str()),
        },
        None => stem_of(f.name.as_str()),
    }
}

/// All chapters, in file name order, which is that of the curriculum.
pub fn load_chapters(tutorial_dir: &str, files: &Vec<SourceFile>) -> (r: Vec<Chapter>)
    ensures
        chapter_views(r@) == chapters(tutorial_dir@, file_views(files@)),
{
    let ghost all = file_views(files@);
    let ghost p = |f: FileView| extension(f.name) == Some("md"@);
    let mut kept: Vec<&SourceFile> = Vec::new();
    let mut keys: Vec<Vec<char>> = Vec::new();
    let ghost mut items: Seq<FileView> = seq![];
    let mut i: usize = 0;
    proof {
        reveal(Seq::filter);
        assert(items =~= all.take(0).filter(p));
    }
    while i < files.len()
        invariant
            i <= files@.len(),
            all == file_views(files@),
            p == (|f: FileView| extension(f.name) == Some("md"@)),
            items == all.take(i as int).filter(p),
            kept@.len() == items.len(),
            keys@.len() == items.len(),
            forall|j: int| 0 <= j < items.len() ==> (#[trigger] kept@[j])@ == items[j],
            forall|j: int| 0 <= j < items.len() ==> (#[trigger] keys@[j])@ == items[j].name,
        decreases files@.len() - i,
    {
        let f: &SourceFile = &files[i];
        proof {
            assert(all.take(i + 1) =~= all.take(i as int).push(all[i as int]));
            all.take(i as int).lemma_filter_push(all[i as int], p);
        }
        if has_extension(f.name.as_str(), "md") {
            kept.push(f);
            keys.push(chars_of(f.name.as_str()));
            proof {
                items = items.push(f@);
            }
        }
        i = i + 1;
    }
    assert(all.take(i as int) =~= all);
    let order: Vec<usize> = sorted_order(&keys);
    proof {
        assert(key_views(keys@).len() == items.len());
        lemma_sort_items(key_views(keys@), items, file_name_le());
    }
    let ghost sorted = stable_sort(items, file_name_le());
    let ghost pick = |i: usize| items[i as int];
    let mut out: Vec<Chapter> = Vec::new();
    let mut m: usize = 0;
    while m < order.len()
        invariant
            m <= order@.len(),
            order@.len() == items.len(),
            kept@.len() == items.len(),
            pick == (|i: usize| items[i as int]),
            sorted == order@.map_values(pick),
            forall|j: int| 0 <= j < items.len() ==> (#[trigger] kept@[j])@ == items[j],
            forall|j: int| 0 <= j < items.len() ==> #[trigger] order@[j] < items.len(),
            out@.len() == m,
            forall|j: int|
                0 <= j < m ==> (#[trigger] out@[j])@ == chapter_of(tutorial_dir@, sorted[j]),
        decreases order@.len() - m,
    {
        assert(order@[m as int] < items.len());
        let f: &SourceFile = kept[order[m]];
        assert(sorted[m as int] == f@);
        out.push(
            Chapter {
                path: join_path(tutorial_dir, f.name.as_str()),
                title: title_of(f),
            },
        );
        m = m + 1;
    }
    assert(chapter_views(out@) =~= chapters(tutorial_dir@, all));
    out
}

/// A directory after one more part of a relative path.
pub open spec fn path_step(abs: Seq<char>, part: Seq<char>) -> Seq<char> {
    if part.len() == 0 || part == "."@ {
        abs
    } else if part == ".."@ {
        match path_parent(abs) {
            Some(p) => p,
            None => abs,
        }
    } else {
        path_join(abs, part)
    }
}

pub open spec fn path_walk(abs: Seq<char>, parts: Seq<Seq<char>>) -> Seq<char>
    decreases parts.len(),
{
    if parts.len() == 0 {
        abs
    } else {
        path_step(path_walk(abs, parts.drop_last()), parts.last())
    }
}

/// Where an image reference points: a web address or an absolute path stands for
/// itself, and a relative path is resolved against the directory.
pub open spec fn image_url(url: Seq<char>, dir: Seq<char>) -> Seq<char> {
    if contains(url, "://"@) || is_absolute(url) {
        url
    } else {
        path_walk(dir, split(url, '/'))
    }
}

/// An image reference in a text: where it starts, and where its address starts and
/// ends.
pub struct ImageRef {
    pub start: int,
    pub url_start: int,
    pub url_end: int,
}

/// The first `![..](..)` of a text. `None` when there is none, or when the one that
/// starts first is never finished.
pub open spec fn first_image(s: Seq<char>) -> Option<ImageRef> {
    match find(s, "!["@) {
        Some(start) => match find(s.skip(start), "]("@) {
            Some(c) => {
                let e = index_of(s.skip(start).skip(c), ')');
                if e < s.skip(start).skip(c).len() {
                    Some(
                        ImageRef {
                            start,
                            url_start: start + c + 2,
                            url_end: start + c + e,
                        },
                    )
                } else {
                    None
                }
            },
            None => None,
        },
        None => None,
    }
}

/// `md` with its image references resolved against `dir`.
pub open spec fn absolutized(md: Seq<char>, dir: Seq<char>) -> Seq<char>
    decreases md.len(),
    via absolutized_decreases
{
    match first_image(md) {
        Some(i) => md.take(i.url_start) + image_url(md.subrange(i.url_start, i.url_end), dir)
            + absolutized(md.skip(i.url_end), dir),
        None => md,
    }
}

#[via_fn]
proof fn absolutized_decreases(md: Seq<char>, dir: Seq<char>) {
    lemma_first_image(md);
}

proof fn lemma_first_image(s: Seq<char>)
    ensures
        first_image(s) matches Some(i) ==> 0 <= i.start < i.url_start <= i.url_end < s.len(),
{
    reveal_strlit("![");
    reveal_strlit("](");
    lemma_find(s, "!["@);
    match find(s, "!["@) {
        Some(start) => {
            let at = s.skip(start);
            lemma_find(at, "]("@);
            match find(at, "]("@) {
                Some(c) => {
                    let t = at.skip(c);
                    lemma_index_of(t, ')');
                    assert(t[0] == ']' && t[1] == '(') by {
                        assert(at.subrange(c, c + 2)[0] == "]("@[0]);
                        assert(at.subrange(c, c + 2)[1] == "]("@[1]);
                    }
                },
                None => {},
            }
        },
        None => {},
    }
}

fn step_path(abs: String, part: &[char]) -> (r: String)
    ensures
        r@ == path_step(abs@, part@),
{
    if part.len() == 0 || is_text(part, ".") {
        abs
    } else if is_text(part, "..") {
        match parent(abs.as_str()) {
            Some(p) => p,
            None => abs,
        }
    } else {
        join_path(abs.as_str(), string_of(part).as_str())
    }
}

fn resolve_image(url: &[char], dir: &str) -> (r: String)
    ensures
        r@ == image_url(url@, dir@),
{
    let scheme: Vec<char> = chars_of("://");
    if has_chars(url, scheme.as_slice()) || (url.len() > 0 && url[0] == '/') {
        return string_of(url);
    }
    let parts: Vec<&[char]> = split_at_char(url, '/');
    let ghost all = split(url@, '/');
    let mut abs: String = String::from_str(dir);
    let mut i: usize = 0;
    while i < parts.len()
        invariant
            i <= parts@.len(),
            views(parts@) == all,
            abs@ == path_walk(dir@, all.take(i as int)),
        decreases parts@.len() - i,
    {
        abs = step_path(abs, parts[i]);
        i = i + 1;
        assert(all.take(i as int).drop_last() =~= all.take(i - 1));
    }
    assert(all.take(i as int) =~= all);
    abs
}

/// Rewrites the relative image references of a chapter to absolute paths, resolved
/// against the chapter's directory.
pub fn absolutize_image_paths(md: &str, md_dir: &str) -> (r: String)
    ensures
        r@ == absolutized(md@, md_dir@),
{
    let cs: Vec<char> = chars_of(md);
    let bang: Vec<char> = chars_of("![");
    let mid: Vec<char> = chars_of("](");
    let mut out: String = String::new();
    let mut rest: &[char] = cs.as_slice();
    let mut more: bool = true;
    assert(out@ + absolutized(rest@, md_dir@) =~= absolutized(md@, md_dir@));
    while more
        invariant
            bang@ == "!["@,
            mid@ == "]("@,
            more ==> out@ + absolutized(rest@, md_dir@) == absolutized(md@, md_dir@),
            !more ==> out@ == absolutized(md@, md_dir@),
        decreases (if more { 1int } else { 0int }), rest@.len(),
    {
        let ghost before = out@;
        let ghost old_rest = rest@;
        proof {
            lemma_first_image(rest@);
            lemma_find(rest@, "!["@);
        }
        let found: Option<(usize, usize)> = match find_chars(rest, bang.as_slice()) {
            Some(start) => {
                let at: &[char] = slice_subrange(rest, start, rest.len());
                assert(at@ =~= old_rest.skip(start as int));
                proof {
                    lemma_find(at@, "]("@);
                    reveal_strlit("](");
                }
                match find_chars(at, mid.as_slice()) {
                    Some(c) => {
                        let tail: &[char] = slice_subrange(at, c, at.len());
                        assert(tail@ =~= at@.skip(c as int));
                        let e: usize = find_char(tail, ')');
                        if e < tail.len() {
                            Some((start + c + 2, start + c + e))
                        } else {
                            None
                        }
                    },
                    None => None,
                }
            },
            None => None,
        };
        match found {
            Some((url_start, url_end)) => {
                let head: &[char] = slice_subrange(rest, 0, url_start);
                let url: &[char] = slice_subrange(rest, url_start, url_end);
                assert(head@ =~= old_rest.take(url_start as int));
                out.append(string_of(head).as_str());
                let target: String = resolve_image(url, md_dir);
                out.append(target.as_str());
                rest = slice_subrange(rest, url_end, rest.len());
                assert(rest@ =~= old_rest.skip(url_end as int));
                assert(out@ + absolutized(rest@, md_dir@) =~= before + absolutized(
                    old_rest,
                    md_dir@,
                ));
            },
            None => {
                out.append(string_of(rest).as_str());
                more = false;
            },
        }
    }
    out
}

/// An example program.
pub struct Example {
    pub category: String,
    pub name: String,
    pub path: String,
}

#[verifier::ext_equal]
pub struct ExampleView {
    pub category: Seq<char>,
    pub name: Seq<char>,
    pub path: Seq<char>,
}

impl View for Example {
    type V = ExampleView;

    open spec fn view(&self) -> ExampleView {
        ExampleView { category: self.category@, name: self.name@, path: self.path@ }
    }
}

pub open spec fn example_views(v: Seq<Example>) -> Seq<ExampleView> {
    Seq::new(v.len(), |i: int| v[i]@)
}

/// A directory of examples: its name and those of its files.
pub struct ExampleDir {
    pub name: String,
    pub files: Vec<String>,
}

#[verifier::ext_equal]
pub struct ExampleDirView {
    pub name: Seq<char>,
    pub files: Seq<Seq<char>>,
}

impl View for ExampleDir {
    type V = ExampleDirView;

    open spec fn view(&self) -> ExampleDirView {
        ExampleDirView { name: self.name@, files: string_views(self.files@) }
    }
}

pub open spec fn dir_views(v: Seq<ExampleDir>) -> Seq<ExampleDirView> {
    Seq::new(v.len(), |i: int| v[i]@)
}

pub open spec fn name_le() -> spec_fn(Seq<char>, Seq<char>) -> bool {
    |a: Seq<char>, b: Seq<char>| text_le(a, b)
}

pub open spec fn dir_le() -> spec_fn(ExampleDirView, ExampleDirView) -> bool {
    |a: ExampleDirView, b: ExampleDirView| text_le(a.name, b.name)
}

pub open spec fn example_of(dir: Seq<char>, category: Seq<char>, file: Seq<char>) -> ExampleView {
    ExampleView {
        category,
        name: stem(file),
        path: path_join(path_join(dir, category), file),
    }
}

/// The examples of one category: its Ruby files, in name order.
pub open spec fn category_examples(dir: Seq<char>, c: ExampleDirView) -> Seq<ExampleView> {
    stable_sort(
        c.files.filter(|f: Seq<char>| extension(f) == Some("rb"@)),
        name_le(),
    ).map_values(|f: Seq<char>| example_of(dir, c.name, f))
}

/// The examples of categories, one category after the other.
pub open spec fn examples_of_all(dir: Seq<char>, cs: Seq<ExampleDirView>) -> Seq<ExampleView>
    decreases cs.len(),
{
    if cs.len() == 0 {
        seq![]
    } else {
        examples_of_all(dir, cs.drop_last()) + category_examples(dir, cs.last())
    }
}

/// All examples, the categories in name order.
pub open spec fn examples(dir: Seq<char>, cs: Seq<ExampleDirView>) -> Seq<ExampleView> {
    examples_of_all(dir, stable_sort(cs, dir_le()))
}

fn examples_in(dir: &str, c: &ExampleDir) -> (r: Vec<Example>)
    ensures
        example_views(r@) == category_examples(dir@, c@),
{
    let ghost all = string_views(c.files@);
    let ghost p = |f: Seq<char>| extension(f) == Some("rb"@);
    let mut kept: Vec<&String> = Vec::new();
    let mut keys: Vec<Vec<char>> = Vec::new();
    let ghost mut items: Seq<Seq<char>> = seq![];
    let mut i: usize = 0;
    proof {
        reveal(Seq::filter);
        assert(items =~= all.take(0).filter(p));
    }
    while i < c.files.len()
        invariant
            i <= c.files@.len(),
            all == string_views(c.files@),
            p == (|f: Seq<char>| extension(f) == Some("rb"@)),
            items == all.take(i as int).filter(p),
            kept@.len() == items.len(),
            keys@.len() == items.len(),
            forall|j: int| 0 <= j < items.len() ==> (#[trigger] kept@[j])@ == items[j],
            forall|j: int| 0 <= j < items.len() ==> (#[trigger] keys@[j])@ == items[j],
        decreases c.files@.len() - i,
    {
        let f: &String = &c.files[i];
        proof {
            assert(all.take(i + 1) =~= all.take(i as int).push(all[i as int]));
            all.take(i as int).lemma_filter_push(all[i as int], p);
        }
        if has_extension(f.as_str(), "rb") {
            kept.push(f);
            keys.push(chars_of(f.as_str()));
            proof {
                items = items.push(f@);
            }
        }
        i = i + 1;
    }
    assert(all.take(i as int) =~= all);
    let order: Vec<usize> = sorted_order(&keys);
    proof {
        assert(key_views(keys@).len() == items.len());
        lemma_sort_items(key_views(keys@), items, name_le());
    }
    let ghost sorted = stable_sort(items, name_le());
    let ghost pick = |i: usize| items[i as int];
    let base: String = join_path(dir, c.name.as_str());
    let mut out: Vec<Example> = Vec::new();
    let mut m: usize = 0;
    while m < order.len()
        invariant
            m <= order@.len(),
            base@ == path_join(dir@, c.name@),
            order@.len() == items.len(),
            kept@.len() == items.len(),
            pick == (|i: usize| items[i as int]),
            sorted == order@.map_values(pick),
            forall|j: int| 0 <= j < items.len() ==> (#[trigger] kept@[j])@ == items[j],
            forall|j: int| 0 <= j < items.len() ==> #[trigger] order@[j] < items.len(),
            out@.len() == m,
            forall|j: int|
                0 <= j < m ==> (#[trigger] out@[j])@ == example_of(dir@, c.name@, sorted[j]),
        decreases order@.len() - m,
    {
        assert(order@[m as int] < items.len());
        let f: &String = kept[order[m]];
        assert(sorted[m as int] == f@);
        out.push(
            Example {
                category: c.name.clone(),
                name: stem_of(f.as_str()),
                path: join_path(base.as_str(), f.as_str()),
            },
        );
        m = m + 1;
    }
    assert(example_views(out@) =~= category_examples(dir@, c@));
    out
}

/// All examples, grouped by category.
pub fn load_examples(examples_dir: &str, cats: &Vec<ExampleDir>) -> (r: Vec<Example>)
    ensures
        example_views(r@) == examples(examples_dir@, dir_views(cats@)),
{
    let ghost items = dir_views(cats@);
    let mut keys: Vec<Vec<char>> = Vec::new();
    let mut i: usize = 0;
    while i < cats.len()
        invariant
            i <= cats@.len(),
            keys@.len() == i,
            forall|j: int| 0 <= j < i ==> (#[trigger] keys@[j])@ == cats@[j].name@,
        decreases cats@.len() - i,
    {
        keys.push(chars_of(cats[i].name.as_str()));
        i = i + 1;
    }
    let order: Vec<usize> = sorted_order(&keys);
    proof {
        assert(key_views(keys@).len() == items.len());
        lemma_sort_items(key_views(keys@), items, dir_le());
    }
    let ghost sorted = stable_sort(items, dir_le());
    let ghost pick = |i: usize| items[i as int];
    let mut out: Vec<Example> = Vec::new();
    let mut m: usize = 0;
    assert(example_views(out@) =~= examples_of_all(examples_dir@, sorted.take(0)));
    while m < order.len()
        invariant
            m <= order@.len(),
            items == dir_views(cats@),
            order@.len() == items.len(),
            pick == (|i: usize| items[i as int]),
            sorted == order@.map_values(pick),
            forall|j: int| 0 <= j < items.len() ==> #[trigger] order@[j] < items.len(),
            example_views(out@) == examples_of_all(examples_dir@, sorted.take(m as int)),
        decreases order@.len() - m,
    {
        assert(order@[m as int] < items.len());
        let c: &ExampleDir = &cats[order[m]];
        assert(sorted[m as int] == c@);
        let ghost before = example_views(out@);
        let mut more: Vec<Example> = examples_in(examples_dir, c);
        let ghost added = example_views(more@);
        out.append(&mut more);
        assert(example_views(out@) =~= before + added);
        m = m + 1;
        assert(sorted.take(m as int).drop_last() =~= sorted.take(m - 1));
    }
    assert(sorted.take(m as int) =~= sorted);
    out
}

proof fn lemma_categories_within(dir: Seq<char>, cs: Seq<ExampleDirView>)
    ensures
        forall|i: int|
            0 <= i < examples_of_all(dir, cs).len() ==> exists|k: int|
                0 <= k < cs.len() && (#[trigger] examples_of_all(dir, cs)[i]).category
                    == cs[k].name,
    decreases cs.len(),
{
    if cs.len() > 0 {
        let t = cs.drop_last();
        lemma_categories_within(dir, t);
        let all = examples_of_all(dir, cs);
        let first = examples_of_all(dir, t);
        assert forall|i: int| 0 <= i < all.len() implies exists|k: int|
            0 <= k < cs.len() && (#[trigger] all[i]).category == cs[k].name by {
            if i < first.len() {
                assert(all[i] == first[i]);
                let k = choose|k: int| 0 <= k < t.len() && first[i].category == t[k].name;
                assert(all[i].category == cs[k].name);
            } else {
                assert(all[i].category == cs[cs.len() - 1].name);
            }
        }
    }
}

proof fn lemma_categories_ordered(dir: Seq<char>, cs: Seq<ExampleDirView>)
    requires
        ranked(cs, dir_le()),
    ensures
        forall|i: int, j: int|
            0 <= i < j < examples_of_all(dir, cs).len() ==> text_le(
                (#[trigger] examples_of_all(dir, cs)[i]).category,
                (#[trigger] examples_of_all(dir, cs)[j]).category,
            ),
    decreases cs.len(),
{
    if cs.len() > 0 {
        let t = cs.drop_last();
        assert forall|i: int, j: int| 0 <= i < j < t.len() implies dir_le()(
            #[trigger] t[i],
            #[trigger] t[j],
        ) by {
            assert(dir_le()(cs[i], cs[j]));
        }
        lemma_categories_ordered(dir, t);
        lemma_categories_within(dir, t);
        let all = examples_of_all(dir, cs);
        let first = examples_of_all(dir, t);
        assert forall|i: int, j: int| 0 <= i < j < all.len() implies text_le(
            (#[trigger] all[i]).category,
            (#[trigger] all[j]).category,
        ) by {
            if j < first.len() {
                assert(all[i] == first[i] && all[j] == first[j]);
            } else {
                assert(all[j].category == cs.last().name);
                if i < first.len() {
                    assert(all[i] == first[i]);
                    let k = choose|k: int| 0 <= k < t.len() && first[i].category == t[k].name;
                    assert(dir_le()(cs[k], cs[cs.len() - 1]));
                } else {
                    assert(all[i].category == cs.last().name);
                    lemma_text_le_total(cs.last().name, cs.last().name);
                }
            }
        }
    }
}

/// Whether every image reference of a text is a web address or an absolute path.
pub open spec fn images_are_resolved(md: Seq<char>) -> bool
    decreases md.len(),
    via images_are_resolved_decreases
{
    match first_image(md) {
        Some(i) => {
            let url = md.subrange(i.url_start, i.url_end);
            (contains(url, "://"@) || is_absolute(url)) && images_are_resolved(md.skip(i.url_end))
        },
        None => true,
    }
}

#[via_fn]
proof fn images_are_resolved_decreases(md: Seq<char>) {
    lemma_first_image(md);
}

/// A text without relative image references stays as it is: web addresses and
/// absolute paths pass through.
pub proof fn law_resolved_images_pass_through(md: Seq<char>, dir: Seq<char>)
    requires
        images_are_resolved(md),
    ensures
        absolutized(md, dir) == md,
    decreases md.len(),
{
    lemma_first_image(md);
    match first_image(md) {
        Some(i) => {
            law_resolved_images_pass_through(md.skip(i.url_end), dir);
            assert(md.take(i.url_start) + md.subrange(i.url_start, i.url_end) + md.skip(i.url_end)
                =~= md);
        },
        None => {},
    }
}

/// A text without an image stays as it is.
pub proof fn law_no_image_no_change(md: Seq<char>, dir: Seq<char>)
    requires
        !contains(md, "!["@),
    ensures
        absolutized(md, dir) == md,
{
}

/// Walking from an absolute directory leads to an absolute path, and what no
/// character of the directory or of the steps is, none of the path is.
proof fn lemma_walk_from_absolute(dir: Seq<char>, parts: Seq<Seq<char>>)
    requires
        is_absolute(dir),
        lacks(dir, ')'),
        forall|i: int| 0 <= i < parts.len() ==> lacks(#[trigger] parts[i], ')'),
    ensures
        is_absolute(path_walk(dir, parts)),
        lacks(path_walk(dir, parts), ')'),
    decreases parts.len(),
{
    if parts.len() > 0 {
        lemma_walk_from_absolute(dir, parts.drop_last());
        let abs = path_walk(dir, parts.drop_last());
        let part = parts[parts.len() - 1];
        assert(lacks(part, ')'));
        lemma_parent_of_absolute(abs);
        let next = path_step(abs, part);
        assert forall|k: int| 0 <= k < next.len() implies #[trigger] next[k] != ')' by {
            if part.len() == 0 || part == "."@ {
            } else if part == ".."@ {
                assert(next[k] == abs[k]);
            } else if is_absolute(part) {
                assert(next[k] == part[k]);
            } else if k < abs.len() {
                assert(next[k] == abs[k]);
            } else if abs.last() == '/' {
                assert(next[k] == part[k - abs.len()]);
            } else if k > abs.len() {
                assert(next[k] == part[k - abs.len() - 1]);
            }
        }
    }
}

/// The address that an image reference is given is resolved, and no bracket in it
/// closes the reference before its end.
proof fn lemma_image_url(url: Seq<char>, dir: Seq<char>)
    requires
        is_absolute(dir),
        lacks(dir, ')'),
        lacks(url, ')'),
    ensures
        contains(image_url(url, dir), "://"@) || is_absolute(image_url(url, dir)),
        lacks(image_url(url, dir), ')'),
{
    if !contains(url, "://"@) && !is_absolute(url) {
        let parts = split(url, '/');
        assert forall|i: int| 0 <= i < parts.len() implies lacks(#[trigger] parts[i], ')') by {
            lemma_pieces_lack(url, '/', ')', i);
        }
        lemma_walk_from_absolute(dir, parts);
    }
}

/// The first image of a text whose first image got another address is the same
/// reference, with that address.
proof fn lemma_image_replaced(md: Seq<char>, url: Seq<char>, rest: Seq<char>)
    requires
        first_image(md) is Some,
        lacks(url, ')'),
        rest.len() > 0,
        rest[0] == ')',
    ensures
        ({
            let i = first_image(md)->0;
            let out = md.take(i.url_start) + url + rest;
            &&& first_image(out) == Some(
                ImageRef { start: i.start, url_start: i.url_start, url_end: i.url_start + url.len() },
            )
            &&& out.subrange(i.url_start, i.url_start + url.len()) == url
            &&& out.skip(i.url_start + url.len()) == rest
        }),
{
    reveal_strlit("![");
    reveal_strlit("](");
    let i = first_image(md)->0;
    let out = md.take(i.url_start) + url + rest;
    lemma_first_image(md);
    lemma_find(md, "!["@);
    let at = md.skip(i.start);
    lemma_find(at, "]("@);
    let c = find(at, "]("@)->0;
    assert(i.url_start == i.start + c + 2);
    assert(at.subrange(0, 2) =~= "!["@) by {
        assert(md.subrange(i.start, i.start + 2) =~= at.subrange(0, 2));
    }
    assert(c >= 2) by {
        assert(at.subrange(0, 2)[0] == '!' && at.subrange(0, 2)[1] == '[');
        assert(at.subrange(c, c + 2)[0] == ']' && at.subrange(c, c + 2)[1] == '(');
    }
    assert(out.take(i.start + 2) =~= md.take(i.start + 2));
    lemma_find_in_prefix(md, out, "!["@);
    let new_at = out.skip(i.start);
    assert(new_at.take(c + 2) =~= at.take(c + 2));
    lemma_find_in_prefix(at, new_at, "]("@);
    let tail = new_at.skip(c);
    assert(tail[0] == ']' && tail[1] == '(') by {
        assert(at.subrange(c, c + 2)[0] == ']' && at.subrange(c, c + 2)[1] == '(');
        assert(tail[0] == new_at.take(c + 2)[c] && tail[1] == new_at.take(c + 2)[c + 1]);
    }
    assert forall|k: int| 0 <= k < 2 + url.len() implies #[trigger] tail[k] != ')' by {
        if k >= 2 {
            assert(tail[k] == url[k - 2]);
        }
    }
    assert(tail[2 + url.len() as int] == rest[0]);
    lemma_index_of_is(tail, ')', 2 + url.len() as int);
    assert(out.subrange(i.url_start, i.url_start + url.len()) =~= url);
    assert(out.skip(i.url_start + url.len()) =~= rest);
}

/// What comes out has only resolved images, as long as the directory is absolute
/// and has no closing bracket in its name: that would close a reference early.
pub proof fn law_images_come_out_resolved(md: Seq<char>, dir: Seq<char>)
    requires
        is_absolute(dir),
        lacks(dir, ')'),
    ensures
        images_are_resolved(absolutized(md, dir)),
    decreases md.len(),
{
    lemma_first_image(md);
    match first_image(md) {
        Some(i) => {
            let url = md.subrange(i.url_start, i.url_end);
            let more = md.skip(i.url_end);
            law_images_come_out_resolved(more, dir);
            lemma_first_address(md);
            lemma_image_url(url, dir);
            lemma_head_is_kept(more, dir);
            lemma_image_replaced(md, image_url(url, dir), absolutized(more, dir));
        },
        None => {},
    }
}

/// The address of the first image has no closing bracket in it, and one follows it.
proof fn lemma_first_address(md: Seq<char>)
    ensures
        first_image(md) matches Some(i) ==> lacks(md.subrange(i.url_start, i.url_end), ')')
            && md[i.url_end] == ')',
{
    lemma_first_image(md);
    if let Some(i) = first_image(md) {
        let at = md.skip(i.start);
        lemma_find(md, "!["@);
        lemma_find(at, "]("@);
        let c = find(at, "]("@)->0;
        let tail = at.skip(c);
        lemma_index_of(tail, ')');
        let url = md.subrange(i.url_start, i.url_end);
        assert forall|k: int| 0 <= k < url.len() implies #[trigger] url[k] != ')' by {
            assert(url[k] == tail[k + 2]);
        }
        assert(md[i.url_end] == tail[i.url_end - i.start - c]);
    }
}

/// What stands before the first image stays.
proof fn lemma_head_is_kept(md: Seq<char>, dir: Seq<char>)
    requires
        md.len() > 0,
    ensures
        absolutized(md, dir).len() > 0,
        absolutized(md, dir)[0] == md[0],
{
    lemma_first_image(md);
}

/// Resolving image references twice is resolving them once.
pub proof fn law_resolving_twice_is_resolving_once(md: Seq<char>, dir: Seq<char>)
    requires
        is_absolute(dir),
        lacks(dir, ')'),
    ensures
        absolutized(absolutized(md, dir), dir) == absolutized(md, dir),
{
    law_images_come_out_resolved(md, dir);
    law_resolved_images_pass_through(absolutized(md, dir), dir);
}

/// Examples come out grouped: their categories are in name order.
pub proof fn law_examples_are_grouped(dir: Seq<char>, cs: Seq<ExampleDirView>)
    ensures
        forall|i: int, j: int|
            0 <= i < j < examples(dir, cs).len() ==> text_le(
                (#[trigger] examples(dir, cs)[i]).category,
                (#[trigger] examples(dir, cs)[j]).category,
            ),
{
    let le = dir_le();
    assert forall|a: ExampleDirView, b: ExampleDirView| #[trigger] le(a, b) || le(b, a) by {
        lemma_text_le_total(a.name, b.name);
    }
    assert forall|a: ExampleDirView, b: ExampleDirView, c: ExampleDirView| #[trigger]
        le(a, b) && #[trigger] le(b, c) implies le(a, c) by {
        lemma_text_le_transitive(a.name, b.name, c.name);
    }
    law_sort_is_ranked(cs, le);
    lemma_categories_ordered(dir, stable_sort(cs, le));
}

} // verus!
