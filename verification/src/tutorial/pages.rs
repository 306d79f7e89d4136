//! What the tutorial shows: which files are chapters and examples, what they are
//! called and where their images are.

use super::{
    absolutized, category_examples, chapter_of, chapters, dir_le, example_of, examples,
    examples_of_all, file_name_le, first_image, first_text, image_url, name_le,
    path_walk, ChapterView, ExampleDirView, ExampleView, FileView, ImageRef,
};
use crate::order::{
    law_sort_is_permutation, law_sort_is_ranked, lemma_sort_keeps, lemma_text_le_total,
    lemma_text_le_transitive, stable_sort, text_le,
};
use crate::pathname::{
    ends_in_a_name, extension, law_file_lies_in_its_directory, law_one_slash_joins,
    law_stem_and_extension, path_join, plain_name,
};
use crate::text::{
    contains, find, lacks, lemma_find, lemma_index_of_is, lines,
    no_outer_space, split, strip_cr, trim,
};
use vstd::prelude::*;
use vstd::string::*;

verus! {

/// Whether a text is one line with something in it and no white space around it.
pub open spec fn title_line(l: Seq<char>) -> bool {
    l.len() > 0 && no_outer_space(l) && lacks(l, '\n')
}

proof fn lemma_trim_of_plain(l: Seq<char>)
    requires
        no_outer_space(l),
    ensures
        trim(l) == l,
{
    let none = Seq::<char>::empty();
    crate::text::law_trim_padded(none, l, none);
    assert(none + l + none =~= l);
}

/// A chapter is called by the first line of its text, and lies under its file's name
/// in the tutorial's directory.
pub proof fn law_chapter_is_called_by_its_first_line(
    dir: Seq<char>,
    name: Seq<char>,
    title: Seq<char>,
    rest: Seq<char>,
)
    requires
        ends_in_a_name(dir),
        plain_name(name),
        title_line(title),
    ensures
        chapter_of(dir, (FileView { name, text: Some(title + "\n"@ + rest) })) == (ChapterView {
            path: dir + "/"@ + name,
            title,
        }),
        chapter_of(dir, (FileView { name, text: Some("\n"@ + (title + "\n"@ + rest)) }))
            == (ChapterView { path: dir + "/"@ + name, title }),
{
    reveal_strlit("\n");
    reveal_with_fuel(first_text, 3);
    let t = title + "\n"@ + rest;
    assert(name[0] != '/');
    law_one_slash_joins(dir, name);
    lemma_index_of_is(t, '\n', title.len() as int);
    assert(t.take(title.len() as int) =~= title);
    assert(!crate::text::is_white_space(title.last()));
    assert(strip_cr(title) == title);
    lemma_trim_of_plain(title);
    assert(lines(t)[0] == title);
    let u = "\n"@ + t;
    lemma_index_of_is(u, '\n', 0);
    assert(u.skip(1) =~= t);
    assert(u.take(0) =~= seq![]);
    assert(lines(u)[0] == Seq::<char>::empty());
    assert(lines(u).drop_first() =~= lines(t));
    lemma_trim_of_plain(Seq::<char>::empty());
}

/// A chapter that cannot be read, or has no text, is called by its file's name
/// without the ending.
pub proof fn law_chapter_without_text_is_called_by_its_file(dir: Seq<char>, front: Seq<char>)
    requires
        front.len() > 0,
    ensures
        chapter_of(dir, (FileView { name: front + "."@ + "md"@, text: None })).title == front,
        chapter_of(dir, (FileView { name: front + "."@ + "md"@, text: Some(""@) })).title == front,
{
    reveal_strlit("");
    reveal_strlit("md");
    law_stem_and_extension(front, "md"@);
    lemma_index_of_is(""@, '\n', 0);
    assert(lines(""@) =~= seq![]);
}

proof fn lemma_name_rankings()
    ensures
        crate::order::ranking(file_name_le()),
        crate::order::ranking(name_le()),
        crate::order::ranking(dir_le()),
{
    let le = file_name_le();
    assert forall|a: FileView, b: FileView| #[trigger] le(a, b) || le(b, a) by {
        lemma_text_le_total(a.name, b.name);
    }
    assert forall|a: FileView, b: FileView, c: FileView| #[trigger]
        le(a, b) && #[trigger] le(b, c) implies le(a, c) by {
        lemma_text_le_transitive(a.name, b.name, c.name);
    }
    let le = name_le();
    assert forall|a: Seq<char>, b: Seq<char>| #[trigger] le(a, b) || le(b, a) by {
        lemma_text_le_total(a, b);
    }
    assert forall|a: Seq<char>, b: Seq<char>, c: Seq<char>| #[trigger]
        le(a, b) && #[trigger] le(b, c) implies le(a, c) by {
        lemma_text_le_transitive(a, b, c);
    }
    let le = dir_le();
    assert forall|a: ExampleDirView, b: ExampleDirView| #[trigger] le(a, b) || le(b, a) by {
        lemma_text_le_total(a.name, b.name);
    }
    assert forall|a: ExampleDirView, b: ExampleDirView, c: ExampleDirView| #[trigger]
        le(a, b) && #[trigger] le(b, c) implies le(a, c) by {
        lemma_text_le_transitive(a.name, b.name, c.name);
    }
}

proof fn lemma_sort_contains<A>(s: Seq<A>, le: spec_fn(A, A) -> bool, x: A)
    ensures
        stable_sort(s, le).contains(x) == s.contains(x),
{
    broadcast use vstd::seq_lib::group_to_multiset_ensures;

    law_sort_is_permutation(s, le);
    assert(s.to_multiset().count(x) == stable_sort(s, le).to_multiset().count(x));
}

/// Every markdown file of the directory is a chapter.
pub proof fn law_every_markdown_file_is_a_chapter(
    dir: Seq<char>,
    files: Seq<FileView>,
    i: int,
    front: Seq<char>,
    title: Seq<char>,
    rest: Seq<char>,
)
    requires
        ends_in_a_name(dir),
        0 <= i < files.len(),
        files[i].name == front + "."@ + "md"@,
        files[i].text == Some(title + "\n"@ + rest),
        front.len() > 0 && lacks(front, '/'),
        title_line(title),
    ensures
        chapters(dir, files).contains(
            (ChapterView { path: dir + "/"@ + (front + "."@ + "md"@), title }),
        ),
{
    reveal_strlit("md");
    reveal_strlit(".");
    reveal_strlit("..");
    broadcast use Seq::lemma_filter_contains;

    law_stem_and_extension(front, "md"@);
    let f = files[i];
    let name = front + "."@ + "md"@;
    assert(name.last() == 'd');
    assert(plain_name(name));
    law_chapter_is_called_by_its_first_line(dir, name, title, rest);
    let p = |f: FileView| extension(f.name) == Some("md"@);
    let kept = files.filter(p);
    assert(kept.contains(f)) by {
        files.lemma_filter_contains(p, i);
    }
    lemma_sort_contains(kept, file_name_le(), f);
    let sorted = stable_sort(kept, file_name_le());
    let k = choose|k: int| 0 <= k < sorted.len() && sorted[k] == f;
    assert(chapters(dir, files)[k] == chapter_of(dir, f));
    assert(f == (FileView { name, text: Some(title + "\n"@ + rest) }));
}

/// Only markdown files are chapters, each under its file's name: this is the file of
/// chapter `k`.
pub proof fn law_chapters_are_markdown_files(dir: Seq<char>, files: Seq<FileView>, k: int) -> (i:
    int)
    requires
        0 <= k < chapters(dir, files).len(),
    ensures
        0 <= i < files.len(),
        extension(files[i].name) == Some("md"@),
        chapters(dir, files)[k].path == path_join(dir, files[i].name),
        chapters(dir, files).len() <= files.len(),
{
    lemma_file_of_chapter(dir, files, k)
}

proof fn lemma_file_of_chapter(dir: Seq<char>, files: Seq<FileView>, k: int) -> (i: int)
    requires
        0 <= k < chapters(dir, files).len(),
    ensures
        0 <= i < files.len(),
        files[i] == stable_sort(
            files.filter(|f: FileView| extension(f.name) == Some("md"@)),
            file_name_le(),
        )[k],
        extension(files[i].name) == Some("md"@),
        chapters(dir, files)[k].path == path_join(dir, files[i].name),
        chapters(dir, files).len() <= files.len(),
{
    let p = |f: FileView| extension(f.name) == Some("md"@);
    let kept = files.filter(p);
    let sorted = stable_sort(kept, file_name_le());
    lemma_sort_keeps(kept, file_name_le());
    files.lemma_filter_len(p);
    assert(kept.contains(sorted[k]));
    files.lemma_filter_contains_rev(p, sorted[k]);
    let m = choose|m: int| 0 <= m < kept.len() && kept[m] == sorted[k];
    files.lemma_filter_pred(p, m);
    let i = choose|i: int| 0 <= i < files.len() && files[i] == sorted[k];
    assert(chapters(dir, files)[k] == chapter_of(dir, sorted[k]));
    i
}

/// Chapters come in the order of their files' names: these are the files of chapters
/// `k` and `l`.
pub proof fn law_chapters_come_in_name_order(
    dir: Seq<char>,
    files: Seq<FileView>,
    k: int,
    l: int,
) -> (r: (int, int))
    requires
        0 <= k < l < chapters(dir, files).len(),
    ensures
        0 <= r.0 < files.len() && 0 <= r.1 < files.len(),
        chapters(dir, files)[k].path == path_join(dir, files[r.0].name),
        chapters(dir, files)[l].path == path_join(dir, files[r.1].name),
        text_le(files[r.0].name, files[r.1].name),
{
    let kept = files.filter(|f: FileView| extension(f.name) == Some("md"@));
    let sorted = stable_sort(kept, file_name_le());
    lemma_name_rankings();
    law_sort_is_ranked(kept, file_name_le());
    let i = lemma_file_of_chapter(dir, files, k);
    let j = lemma_file_of_chapter(dir, files, l);
    assert(file_name_le()(sorted[k], sorted[l]));
    (i, j)
}

/// An image named without a directory lies beside the chapter, one behind a dot too,
/// and one behind two dots beside the chapter's directory.
pub proof fn law_images_lie_beside_the_chapter(
    above: Seq<char>,
    folder: Seq<char>,
    name: Seq<char>,
)
    requires
        ends_in_a_name(above),
        plain_name(folder),
        ends_in_a_name(folder),
        plain_name(name),
        lacks(name, ':'),
    ensures
        ({
            let dir = above + "/"@ + folder;
            &&& image_url(name, dir) == dir + "/"@ + name
            &&& image_url("."@ + "/"@ + name, dir) == dir + "/"@ + name
            &&& image_url(".."@ + "/"@ + name, dir) == above + "/"@ + name
        }),
{
    reveal_strlit("/");
    reveal_strlit(".");
    reveal_strlit("..");
    reveal_strlit("://");
    reveal_with_fuel(path_walk, 3);
    let dir = above + "/"@ + folder;
    assert(dir.last() == folder.last());
    assert(name[0] != '/');
    law_file_lies_in_its_directory(above, folder);
    law_one_slash_joins(dir, name);
    law_one_slash_joins(above, name);
    lemma_index_of_is(name, '/', name.len() as int);
    assert(split(name, '/') =~= seq![name]);
    assert(split(name, '/').drop_last() =~= seq![]);
    lemma_no_colon(name);
    assert(image_url(name, dir) == dir + "/"@ + name);
    let a = "."@ + "/"@ + name;
    lemma_index_of_is(a, '/', 1);
    assert(a.take(1) =~= "."@);
    assert(a.skip(2) =~= name);
    assert(split(a, '/') =~= seq!["."@, name]);
    assert(split(a, '/').drop_last() =~= seq!["."@]);
    assert(seq!["."@].drop_last() =~= Seq::<Seq<char>>::empty());
    assert(lacks(a, ':'));
    lemma_no_colon(a);
    let b = ".."@ + "/"@ + name;
    lemma_index_of_is(b, '/', 2);
    assert(b.take(2) =~= ".."@);
    assert(b.skip(3) =~= name);
    assert(split(b, '/') =~= seq![".."@, name]);
    assert(split(b, '/').drop_last() =~= seq![".."@]);
    assert(seq![".."@].drop_last() =~= Seq::<Seq<char>>::empty());
    assert("."@.len() == 1 && ".."@.len() == 2);
    assert(lacks(b, ':'));
    lemma_no_colon(b);
}

proof fn lemma_no_colon(s: Seq<char>)
    requires
        lacks(s, ':'),
    ensures
        !contains(s, "://"@),
{
    reveal_strlit("://");
    lemma_find(s, "://"@);
    if let Some(i) = find(s, "://"@) {
        assert(s.subrange(i, i + 3)[0] == ':');
        assert(s[i] == ':');
    }
}

proof fn lemma_find_behind(a: Seq<char>, p: Seq<char>, rest: Seq<char>)
    requires
        p.len() > 0,
        lacks(a, p[0]),
    ensures
        find(a + p + rest, p) == Some(a.len() as int),
    decreases a.len(),
{
    let s = a + p + rest;
    if a.len() == 0 {
        assert(s =~= p + rest);
        assert(p.is_prefix_of(s)) by {
            assert(s.take(p.len() as int) =~= p);
        }
    } else {
        assert(s[0] == a[0]);
        assert(!p.is_prefix_of(s)) by {
            if p.is_prefix_of(s) {
                assert(s.take(p.len() as int)[0] == s[0]);
                assert(s[0] == p[0]);
            }
        }
        assert(s.drop_first() =~= a.drop_first() + p + rest);
        assert forall|i: int| 0 <= i < a.drop_first().len() implies #[trigger] a.drop_first()[i]
            != p[0] by {
            assert(a.drop_first()[i] == a[i + 1]);
        }
        lemma_find_behind(a.drop_first(), p, rest);
    }
}

/// In a text an image named without a directory gets the chapter's directory before
/// its name. What stands around it stays.
#[verifier::rlimit(30)]
pub proof fn law_image_references_are_resolved(
    dir: Seq<char>,
    text: Seq<char>,
    alt: Seq<char>,
    name: Seq<char>,
    rest: Seq<char>,
)
    requires
        ends_in_a_name(dir),
        plain_name(name),
        lacks(name, ':') && lacks(name, ')'),
        lacks(text, '!'),
        lacks(alt, ']'),
        lacks(rest, '!'),
    ensures
        absolutized(text + "!["@ + alt + "]("@ + name + ")"@ + rest, dir) == text + "!["@ + alt
            + "]("@ + (dir + "/"@ + name) + ")"@ + rest,
{
    reveal_strlit("![");
    reveal_strlit("](");
    reveal_strlit(")");
    reveal_strlit("/");
    let md = text + "!["@ + alt + "]("@ + name + ")"@ + rest;
    let behind = alt + "]("@ + name + ")"@ + rest;
    assert(md =~= text + "!["@ + behind);
    lemma_find_behind(text, "!["@, behind);
    let start = text.len() as int;
    let at = md.skip(start);
    let head = "!["@ + alt;
    let tail = name + ")"@ + rest;
    assert(at =~= head + "]("@ + tail);
    assert(lacks(head, ']'));
    lemma_find_behind(head, "]("@, tail);
    let c = head.len() as int;
    let closing = at.skip(c);
    assert(closing =~= "]("@ + name + ")"@ + rest);
    lemma_index_of_is(closing, ')', 2 + name.len() as int);
    let url_start = start + c + 2;
    let url_end = url_start + name.len();
    assert(first_image(md) == Some(ImageRef { start, url_start, url_end }));
    assert(md.subrange(url_start, url_end) =~= name);
    assert(md.take(url_start) =~= text + "!["@ + alt + "]("@);
    let more = md.skip(url_end);
    assert(more =~= ")"@ + rest);
    lemma_find(more, "!["@);
    if let Some(i) = find(more, "!["@) {
        assert(more.subrange(i, i + 2)[0] == '!');
        assert(more[i] == '!');
    }
    assert(absolutized(more, dir) == more);
    assert(name[0] != '/');
    law_one_slash_joins(dir, name);
    lemma_no_colon(name);
    lemma_index_of_is(name, '/', name.len() as int);
    assert(split(name, '/') =~= seq![name]);
    assert(split(name, '/').drop_last() =~= seq![]);
    reveal_with_fuel(path_walk, 2);
    assert(image_url(name, dir) == dir + "/"@ + name);
    assert(absolutized(md, dir) =~= text + "!["@ + alt + "]("@ + (dir + "/"@ + name) + ")"@ + rest);
}

proof fn lemma_all_examples_contain(dir: Seq<char>, cs: Seq<ExampleDirView>, k: int, e: ExampleView)
    requires
        0 <= k < cs.len(),
        category_examples(dir, cs[k]).contains(e),
    ensures
        examples_of_all(dir, cs).contains(e),
    decreases cs.len(),
{
    let first = examples_of_all(dir, cs.drop_last());
    let own = category_examples(dir, cs.last());
    let all = examples_of_all(dir, cs);
    if k == cs.len() - 1 {
        let i = choose|i: int| 0 <= i < own.len() && own[i] == e;
        assert(all[first.len() + i] == e);
    } else {
        assert(cs.drop_last()[k] == cs[k]);
        lemma_all_examples_contain(dir, cs.drop_last(), k, e);
        let i = choose|i: int| 0 <= i < first.len() && first[i] == e;
        assert(all[i] == e);
    }
}

/// Every Ruby file of a category is an example: it is called by its file's name
/// without the ending, and lies in the category's directory.
pub proof fn law_every_ruby_file_is_an_example(
    dir: Seq<char>,
    cs: Seq<ExampleDirView>,
    k: int,
    i: int,
    front: Seq<char>,
)
    requires
        ends_in_a_name(dir),
        0 <= k < cs.len(),
        plain_name(cs[k].name) && ends_in_a_name(cs[k].name),
        0 <= i < cs[k].files.len(),
        front.len() > 0 && front[0] != '/',
        cs[k].files[i] == front + "."@ + "rb"@,
    ensures
        examples(dir, cs).contains(
            (ExampleView {
                category: cs[k].name,
                name: front,
                path: dir + "/"@ + cs[k].name + "/"@ + (front + "."@ + "rb"@),
            }),
        ),
{
    reveal_strlit("rb");
    reveal_strlit("/");
    let c = cs[k];
    let file = front + "."@ + "rb"@;
    law_stem_and_extension(front, "rb"@);
    let p = |f: Seq<char>| extension(f) == Some("rb"@);
    let kept = c.files.filter(p);
    c.files.lemma_filter_contains(p, i);
    lemma_sort_contains(kept, name_le(), file);
    let sorted = stable_sort(kept, name_le());
    let m = choose|m: int| 0 <= m < sorted.len() && sorted[m] == file;
    let e = example_of(dir, c.name, file);
    assert(category_examples(dir, c)[m] == e);
    assert(category_examples(dir, c).contains(e));
    assert(cs.contains(c));
    lemma_sort_contains(cs, dir_le(), c);
    let ordered = stable_sort(cs, dir_le());
    let n = choose|n: int| 0 <= n < ordered.len() && ordered[n] == c;
    lemma_all_examples_contain(dir, ordered, n, e);
    assert(c.name[0] != '/');
    assert(file[0] == front[0]);
    law_one_slash_joins(dir, c.name);
    let base = dir + "/"@ + c.name;
    assert(base.last() == c.name.last());
    law_one_slash_joins(base, file);
}

/// The examples of a category are Ruby files of it and nothing else, in the order of
/// their names: these are the files of examples `m` and `n`.
pub proof fn law_examples_are_ruby_files_in_order(
    dir: Seq<char>,
    c: ExampleDirView,
    m: int,
    n: int,
) -> (r: (int, int))
    requires
        0 <= m <= n < category_examples(dir, c).len(),
    ensures
        0 <= r.0 < c.files.len() && 0 <= r.1 < c.files.len(),
        extension(c.files[r.0]) == Some("rb"@),
        extension(c.files[r.1]) == Some("rb"@),
        text_le(c.files[r.0], c.files[r.1]),
        category_examples(dir, c)[m].category == c.name,
        category_examples(dir, c)[m].path == path_join(path_join(dir, c.name), c.files[r.0]),
        category_examples(dir, c)[n].path == path_join(path_join(dir, c.name), c.files[r.1]),
        category_examples(dir, c).len() <= c.files.len(),
{
    let p = |f: Seq<char>| extension(f) == Some("rb"@);
    let kept = c.files.filter(p);
    let sorted = stable_sort(kept, name_le());
    lemma_name_rankings();
    law_sort_is_ranked(kept, name_le());
    lemma_sort_keeps(kept, name_le());
    c.files.lemma_filter_len(p);
    let i = lemma_kept_is_a_file(c.files, sorted[m]);
    let j = lemma_kept_is_a_file(c.files, sorted[n]);
    if m < n {
        assert(name_le()(sorted[m], sorted[n]));
    } else {
        lemma_text_le_total(sorted[m], sorted[m]);
    }
    assert(category_examples(dir, c)[m] == example_of(dir, c.name, sorted[m]));
    assert(category_examples(dir, c)[n] == example_of(dir, c.name, sorted[n]));
    (i, j)
}

proof fn lemma_kept_is_a_file(files: Seq<Seq<char>>, f: Seq<char>) -> (i: int)
    requires
        files.filter(|f: Seq<char>| extension(f) == Some("rb"@)).contains(f),
    ensures
        0 <= i < files.len(),
        files[i] == f,
        extension(f) == Some("rb"@),
{
    let p = |f: Seq<char>| extension(f) == Some("rb"@);
    let kept = files.filter(p);
    files.lemma_filter_contains_rev(p, f);
    let m = choose|m: int| 0 <= m < kept.len() && kept[m] == f;
    files.lemma_filter_pred(p, m);
    choose|i: int| 0 <= i < files.len() && files[i] == f
}

} // verus!
