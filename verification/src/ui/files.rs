//! The files behind the buffers: which file a buffer belongs to, which were used
//! of late, and where a save goes.

use crate::number::{decimal, law_decimal_reads_back, nat_text};
use crate::pathname::{
    ends_in_a_name, file_name, law_file_lies_in_its_directory, law_two_dots_are_no_name, parent,
    path_file_name, path_parent, paths_equal, plain_name, same_path,
};
use crate::table::Table;
use crate::text::{
    chars_of, join, joined, lacks, law_split_of_join, split, split_at_char, string_of,
    string_views, views,
};
use vstd::prelude::*;
use vstd::string::*;

verus! {

/// How many files the list of recent ones holds.
pub const RECENT_CAP: usize = 8;

/// The number of buffers.
pub const BUFFER_COUNT: usize = 10;

/// The first `RECENT_CAP` of some paths.
pub open spec fn capped(paths: Seq<Seq<char>>) -> Seq<Seq<char>> {
    if paths.len() > RECENT_CAP {
        paths.take(RECENT_CAP as int)
    } else {
        paths
    }
}

/// The paths in the text of a recent-files preference.
pub open spec fn recent_of(value: Seq<char>) -> Seq<Seq<char>> {
    split(value, '\t').filter(|s: Seq<char>| s.len() > 0)
}

/// The text of a recent-files preference.
pub open spec fn recent_text(paths: Seq<Seq<char>>) -> Seq<char> {
    join(paths, "\t"@)
}

/// `path` in front of the others, each once, as many as the list holds.
pub open spec fn pushed(recent: Seq<Seq<char>>, path: Seq<char>) -> Seq<Seq<char>> {
    capped(seq![path] + recent.filter(|p: Seq<char>| !same_path(p, path)))
}

/// Reads the recent files from their preference.
pub fn decode_recent(value: &str) -> (r: Vec<String>)
    ensures
        string_views(r@) == recent_of(value@),
{
    let cs: Vec<char> = chars_of(value);
    let pieces: Vec<&[char]> = split_at_char(cs.as_slice(), '\t');
    let ghost all = views(pieces@);
    let ghost f = |s: Seq<char>| s.len() > 0;
    let mut out: Vec<String> = Vec::new();
    let mut i: usize = 0;
    proof {
        reveal(Seq::filter);
        assert(string_views(out@) =~= all.take(0).filter(f));
    }
    while i < pieces.len()
        invariant
            i <= pieces@.len(),
            all == views(pieces@),
            f == (|s: Seq<char>| s.len() > 0),
            string_views(out@) == all.take(i as int).filter(f),
        decreases pieces@.len() - i,
    {
        let ghost before = string_views(out@);
        assert(all[i as int] == pieces@[i as int]@);
        proof {
            all.take(i as int).lemma_filter_push(all[i as int], f);
            assert(all.take(i as int).push(all[i as int]) =~= all.take(i + 1));
        }
        if pieces[i].len() > 0 {
            let s: String = string_of(pieces[i]);
            out.push(s);
            assert(string_views(out@) =~= before.push(s@));
        }
        i = i + 1;
    }
    assert(all.take(i as int) =~= all);
    out
}

/// Writes the recent files as their preference.
pub fn encode_recent(paths: &Vec<String>) -> (r: String)
    ensures
        r@ == recent_text(string_views(paths@)),
{
    joined(paths, "\t")
}

/// Puts a path at the head of the recent files.
pub fn push_recent(recent: Vec<String>, path: &str) -> (r: Vec<String>)
    ensures
        string_views(r@) == pushed(string_views(recent@), path@),
{
    let ghost all = string_views(recent@);
    let ghost f = |p: Seq<char>| !same_path(p, path@);
    let mut out: Vec<String> = Vec::new();
    out.push(String::from_str(path));
    let mut i: usize = 0;
    proof {
        reveal(Seq::filter);
        assert(string_views(out@) =~= seq![path@] + all.take(0).filter(f));
    }
    while i < recent.len()
        invariant
            i <= recent@.len(),
            all == string_views(recent@),
            f == (|p: Seq<char>| !same_path(p, path@)),
            string_views(out@) == seq![path@] + all.take(i as int).filter(f),
        decreases recent@.len() - i,
    {
        let ghost before = string_views(out@);
        assert(all[i as int] == recent@[i as int]@);
        proof {
            all.take(i as int).lemma_filter_push(all[i as int], f);
            assert(all.take(i as int).push(all[i as int]) =~= all.take(i + 1));
        }
        if !paths_equal(recent[i].as_str(), path) {
            let s: String = recent[i].clone();
            out.push(s);
            assert(string_views(out@) =~= before.push(s@));
            assert(string_views(out@) =~= seq![path@] + all.take(i + 1).filter(f));
        }
        i = i + 1;
    }
    assert(all.take(i as int) =~= all);
    let ghost full = string_views(out@);
    if out.len() > RECENT_CAP {
        out.truncate(RECENT_CAP);
        assert(string_views(out@) =~= full.take(RECENT_CAP as int));
    }
    out
}

/// The newest file comes first, the list never grows past its cap, and no other
/// entry is the same path.
pub proof fn law_newest_comes_first(recent: Seq<Seq<char>>, path: Seq<char>)
    ensures
        1 <= pushed(recent, path).len() <= RECENT_CAP,
        pushed(recent, path)[0] == path,
        forall|i: int|
            1 <= i < pushed(recent, path).len() ==> !same_path(
                #[trigger] pushed(recent, path)[i],
                path,
            ),
{
    let f = |p: Seq<char>| !same_path(p, path);
    let rest = recent.filter(f);
    assert forall|i: int| 1 <= i < pushed(recent, path).len() implies !same_path(
        #[trigger] pushed(recent, path)[i],
        path,
    ) by {
        assert(pushed(recent, path)[i] == rest[i - 1]);
        recent.lemma_filter_pred(f, i - 1);
    }
}

/// Recent files read back from their preference as they were written.
pub proof fn law_recent_round_trip(paths: Seq<Seq<char>>)
    requires
        forall|i: int|
            0 <= i < paths.len() ==> (#[trigger] paths[i]).len() > 0 && lacks(paths[i], '\t'),
    ensures
        recent_of(recent_text(paths)) == paths,
{
    reveal_strlit("\t");
    reveal(Seq::filter);
    assert("\t"@ =~= seq!['\t']);
    let f = |s: Seq<char>| s.len() > 0;
    if paths.len() == 0 {
        let t = recent_text(paths);
        assert(split(t, '\t') =~= seq![t]);
        assert(split(t, '\t').drop_last() =~= seq![]);
        assert(split(t, '\t').drop_last().filter(f) =~= seq![]);
        assert(recent_of(t) =~= paths);
    } else {
        law_split_of_join(paths, '\t');
        lemma_filter_keeps_all(paths, f);
    }
}

proof fn lemma_filter_keeps_all(s: Seq<Seq<char>>, f: spec_fn(Seq<char>) -> bool)
    requires
        forall|i: int| 0 <= i < s.len() ==> f(#[trigger] s[i]),
    ensures
        s.filter(f) == s,
    decreases s.len(),
{
    reveal(Seq::filter);
    if s.len() > 0 {
        let t = s.drop_last();
        assert forall|i: int| 0 <= i < t.len() implies f(#[trigger] t[i]) by {
            assert(t[i] == s[i]);
        }
        lemma_filter_keeps_all(t, f);
        assert(f(s[s.len() - 1]));
        assert(t.push(s.last()) =~= s);
    } else {
        assert(s.filter(f) =~= s);
    }
}

pub open spec fn optional_text(o: Option<String>) -> Option<Seq<char>> {
    match o {
        Some(s) => Some(s@),
        None => None,
    }
}

pub open spec fn optional_str(o: Option<&str>) -> Option<Seq<char>> {
    match o {
        Some(s) => Some(s@),
        None => None,
    }
}

/// The name to suggest for a save: that of the buffer's file, else one made from
/// the buffer's number.
pub open spec fn save_name(known: Option<Seq<char>>, buffer_ix: int) -> Seq<char> {
    match known {
        Some(p) => match path_file_name(p) {
            Some(n) => n,
            None => "buffer-"@ + decimal((buffer_ix + 1) as nat) + ".rb"@,
        },
        None => "buffer-"@ + decimal((buffer_ix + 1) as nat) + ".rb"@,
    }
}

/// The name to suggest in the save dialog.
pub fn suggested_save_name(known: Option<&str>, buffer_ix: usize) -> (r: String)
    requires
        buffer_ix < usize::MAX,
    ensures
        r@ == save_name(optional_str(known), buffer_ix as int),
{
    match known {
        Some(p) => {
            match file_name(p) {
                Some(n) => {
                    return n;
                },
                None => {},
            }
        },
        None => {},
    }
    let mut out: String = String::from_str("buffer-");
    let n: String = nat_text((buffer_ix + 1) as u64);
    out.append(n.as_str());
    out.append(".rb");
    out
}

/// The label of a buffer's tab: the name of its file, else its number.
pub open spec fn tab_name(path: Option<Seq<char>>, i: int) -> Seq<char> {
    match path {
        Some(p) => match path_file_name(p) {
            Some(n) => n,
            None => decimal((i + 1) as nat),
        },
        None => decimal((i + 1) as nat),
    }
}

/// The label of a buffer's tab.
pub fn tab_label(path: Option<&str>, i: usize) -> (r: String)
    requires
        i < usize::MAX,
    ensures
        r@ == tab_name(optional_str(path), i as int),
{
    match path {
        Some(p) => {
            match file_name(p) {
                Some(n) => {
                    return n;
                },
                None => {},
            }
        },
        None => {},
    }
    nat_text((i + 1) as u64)
}

/// The label of a recent file.
pub open spec fn recent_name(path: Seq<char>) -> Seq<char> {
    match path_file_name(path) {
        Some(n) => n,
        None => seq![],
    }
}

/// The label of a recent file: its name.
pub fn recent_label(path: &str) -> (r: String)
    ensures
        r@ == recent_name(path@),
{
    match file_name(path) {
        Some(n) => n,
        None => {
            let empty: String = String::new();
            assert(empty@ =~= seq![]);
            empty
        },
    }
}

/// The preference that holds the file of buffer `i`.
pub open spec fn path_key(i: int) -> Seq<char> {
    "buffer_path_"@ + decimal(i as nat)
}

/// The files of the buffers, and those used of late.
pub struct Files {
    pub paths: Vec<Option<String>>,
    pub recent: Vec<String>,
}

#[verifier::ext_equal]
pub struct FilesView {
    pub paths: Seq<Option<Seq<char>>>,
    pub recent: Seq<Seq<char>>,
}

impl View for Files {
    type V = FilesView;

    open spec fn view(&self) -> FilesView {
        FilesView {
            paths: Seq::new(self.paths@.len(), |i: int| optional_text(self.paths@[i])),
            recent: string_views(self.recent@),
        }
    }
}

/// The value of a preference, if it is set.
pub open spec fn pref(prefs: Map<Seq<char>, Seq<char>>, key: Seq<char>) -> Option<Seq<char>> {
    if prefs.dom().contains(key) {
        Some(prefs[key])
    } else {
        None
    }
}

/// The files that the preferences remember, for `count` buffers.
pub open spec fn files_of(prefs: Map<Seq<char>, Seq<char>>, count: int) -> FilesView {
    FilesView {
        paths: Seq::new(count as nat, |i: int| pref(prefs, path_key(i))),
        recent: match pref(prefs, "recent_files"@) {
            Some(v) => recent_of(v),
            None => seq![],
        },
    }
}

/// The files after `path` was opened into or saved from buffer `i`.
pub open spec fn remembered(f: FilesView, i: int, path: Seq<char>) -> FilesView {
    FilesView { paths: f.paths.update(i, Some(path)), recent: pushed(f.recent, path) }
}

/// The preferences after `path` was opened into or saved from buffer `i`.
pub open spec fn remembered_prefs(
    prefs: Map<Seq<char>, Seq<char>>,
    f: FilesView,
    i: int,
    path: Seq<char>,
) -> Map<Seq<char>, Seq<char>> {
    prefs.insert(path_key(i), path).insert("recent_files"@, recent_text(pushed(f.recent, path)))
}

/// Where a save goes.
pub enum SaveTarget {
    /// Straight to a file.
    Write(String),
    /// To a file that the save dialog asks for.
    Ask { dir: String, name: String },
}

#[verifier::ext_equal]
pub enum SaveTargetView {
    Write(Seq<char>),
    Ask { dir: Seq<char>, name: Seq<char> },
}

impl View for SaveTarget {
    type V = SaveTargetView;

    open spec fn view(&self) -> SaveTargetView {
        match self {
            SaveTarget::Write(p) => SaveTargetView::Write(p@),
            SaveTarget::Ask { dir, name } => SaveTargetView::Ask { dir: dir@, name: name@ },
        }
    }
}

/// Where a save of buffer `i` goes: to its file, unless another is asked for or it
/// has none; then to one chosen in the directory of its file, the home directory
/// or the current one.
pub open spec fn target_of(
    known: Option<Seq<char>>,
    i: int,
    save_as: bool,
    home: Option<Seq<char>>,
) -> SaveTargetView {
    if known is Some && !save_as {
        SaveTargetView::Write(known->0)
    } else {
        let above = match known {
            Some(p) => path_parent(p),
            None => None,
        };
        SaveTargetView::Ask {
            dir: match above {
                Some(d) => d,
                None => match home {
                    Some(h) => h,
                    None => "."@,
                },
            },
            name: save_name(known, i),
        }
    }
}

/// A file that a buffer was opened from or saved to is where the next save goes,
/// and where the next choice of a file starts.
pub proof fn law_saving_goes_back_to_the_file(
    v: FilesView,
    i: int,
    path: Seq<char>,
    home: Option<Seq<char>>,
)
    requires
        0 <= i < v.paths.len(),
    ensures
        ({
            let known = remembered(v, i, path).paths[i];
            &&& target_of(known, i, false, home) == SaveTargetView::Write(path)
            &&& path_parent(path) matches Some(d) ==> target_of(known, i, true, home)
                == (SaveTargetView::Ask { dir: d, name: save_name(Some(path), i) })
        }),
{
}

fn key_of(i: usize) -> (r: String)
    ensures
        r@ == path_key(i as int),
{
    let n: String = nat_text(i as u64);
    String::from_str("buffer_path_").concat(n.as_str())
}

impl Files {
    /// The files that the preferences remember.
    pub fn load(prefs: &Table, count: usize) -> (r: Files)
        ensures
            r@ == files_of(prefs@, count as int),
    {
        let mut paths: Vec<Option<String>> = Vec::new();
        let mut i: usize = 0;
        while i < count
            invariant
                i <= count,
                paths@.len() == i,
                forall|j: int|
                    0 <= j < i ==> optional_text(#[trigger] paths@[j]) == pref(
                        prefs@,
                        path_key(j),
                    ),
            decreases count - i,
        {
            let key: String = key_of(i);
            let found: Option<String> = match prefs.get(key.as_str()) {
                Some(p) => Some(p.clone()),
                None => None,
            };
            paths.push(found);
            i = i + 1;
        }
        let recent: Vec<String> = match prefs.get("recent_files") {
            Some(v) => decode_recent(v.as_str()),
            None => {
                let none: Vec<String> = Vec::new();
                assert(string_views(none@) =~= seq![]);
                none
            },
        };
        let r: Files = Files { paths, recent };
        assert(r@.paths =~= files_of(prefs@, count as int).paths);
        r
    }

    /// The file of buffer `i`.
    pub fn path(&self, i: usize) -> (r: Option<&str>)
        requires
            i < self@.paths.len(),
        ensures
            optional_str(r) == self@.paths[i as int],
    {
        match &self.paths[i] {
            Some(p) => Some(p.as_str()),
            None => None,
        }
    }

    /// Notes that `path` was opened into or saved from buffer `i`: it is the
    /// buffer's file from now on, and the newest of the recent ones. Gives the
    /// preferences that say so.
    pub fn remember_file(&mut self, i: usize, path: &str, prefs: Table) -> (r: Table)
        requires
            i < old(self)@.paths.len(),
        ensures
            final(self)@ == remembered(old(self)@, i as int, path@),
            r@ == remembered_prefs(prefs@, old(self)@, i as int, path@),
    {
        let ghost before = self@;
        let mut recent: Vec<String> = Vec::new();
        std::mem::swap(&mut recent, &mut self.recent);
        let updated: Vec<String> = push_recent(recent, path);
        let text: String = encode_recent(&updated);
        self.recent = updated;
        self.paths.set(i, Some(String::from_str(path)));
        assert(self@.paths =~= before.paths.update(i as int, Some(path@)));
        let key: String = key_of(i);
        let prefs: Table = prefs.insert(key, String::from_str(path));
        prefs.insert(String::from_str("recent_files"), text)
    }

    /// Where a save of buffer `i` goes.
    pub fn save_target(&self, i: usize, save_as: bool, home: Option<&str>) -> (r: SaveTarget)
        requires
            i < self@.paths.len(),
            i < usize::MAX,
        ensures
            r@ == target_of(self@.paths[i as int], i as int, save_as, optional_str(home)),
    {
        let known: Option<&str> = self.path(i);
        match known {
            Some(p) => {
                if !save_as {
                    return SaveTarget::Write(String::from_str(p));
                }
            },
            None => {},
        }
        let name: String = suggested_save_name(known, i);
        let above: Option<String> = match known {
            Some(p) => parent(p),
            None => None,
        };
        let dir: String = match above {
            Some(d) => d,
            None => match home {
                Some(h) => String::from_str(h),
                None => String::from_str("."),
            },
        };
        SaveTarget::Ask { dir, name }
    }
}

/// What is remembered of a file is there again when the preferences are loaded:
/// the buffer's file, the files of the other buffers, and the recent files.
pub proof fn law_remembered_files_load_again(
    prefs: Map<Seq<char>, Seq<char>>,
    count: int,
    i: int,
    path: Seq<char>,
)
    requires
        0 <= i < count,
        path.len() > 0 && lacks(path, '\t'),
    ensures
        files_of(remembered_prefs(prefs, files_of(prefs, count), i, path), count) == remembered(
            files_of(prefs, count),
            i,
            path,
        ),
{
    reveal_strlit("buffer_path_");
    reveal_strlit("recent_files");
    let before = files_of(prefs, count);
    let after = remembered_prefs(prefs, before, i, path);
    let got = files_of(after, count);
    let want = remembered(before, i, path);
    assert forall|j: int| 0 <= j < count implies #[trigger] got.paths[j] == want.paths[j] by {
        assert(path_key(j)[0] == 'b');
        assert("recent_files"@[0] == 'r');
        if j != i {
            law_decimal_reads_back(j as nat);
            law_decimal_reads_back(i as nat);
            assert(path_key(j).skip(12) =~= decimal(j as nat));
            assert(path_key(i).skip(12) =~= decimal(i as nat));
        }
    }
    assert(got.paths =~= want.paths);
    assert forall|k: int| 0 <= k < want.recent.len() implies (#[trigger] want.recent[k]).len() > 0
        && lacks(want.recent[k], '\t') by {
        let f = |p: Seq<char>| !same_path(p, path);
        if k > 0 {
            assert(want.recent[k] == before.recent.filter(f)[k - 1]);
            assert(before.recent.filter(f).contains(want.recent[k]));
            before.recent.lemma_filter_contains_rev(f, want.recent[k]);
            lemma_recent_is_clean(prefs, want.recent[k]);
        }
    }
    law_recent_round_trip(want.recent);
}

proof fn lemma_recent_is_clean(prefs: Map<Seq<char>, Seq<char>>, p: Seq<char>)
    requires
        files_of(prefs, 0).recent.contains(p),
    ensures
        p.len() > 0 && lacks(p, '\t'),
{
    let v = prefs["recent_files"@];
    let f = |s: Seq<char>| s.len() > 0;
    let all = split(v, '\t');
    crate::text::law_join_of_split(v, '\t');
    let k = choose|k: int| 0 <= k < all.filter(f).len() && all.filter(f)[k] == p;
    all.lemma_filter_pred(f, k);
    all.lemma_filter_contains_rev(f, p);
    let j = choose|j: int| 0 <= j < all.len() && all[j] == p;
    assert(lacks(all[j], '\t'));
}

/// Files used before stay in their order behind the newest, and the list holds eight:
/// of a longer one the oldest are dropped.
pub proof fn law_other_recent_files_stay(recent: Seq<Seq<char>>, path: Seq<char>)
    requires
        forall|i: int| 0 <= i < recent.len() ==> !same_path(#[trigger] recent[i], path),
    ensures
        recent.len() <= 7 ==> pushed(recent, path) == seq![path] + recent,
        recent.len() > 7 ==> pushed(recent, path) == seq![path] + recent.take(7),
{
    lemma_filter_keeps_all(recent, |p: Seq<char>| !same_path(p, path));
    if recent.len() > 7 {
        assert((seq![path] + recent).take(8) =~= seq![path] + recent.take(7));
    }
}

/// A file used again comes to the front, and the others close up behind it.
pub proof fn law_used_again_moves_to_the_front(
    newer: Seq<Seq<char>>,
    again: Seq<char>,
    older: Seq<Seq<char>>,
    path: Seq<char>,
)
    requires
        same_path(again, path),
        newer.len() + older.len() <= 7,
        forall|i: int| 0 <= i < newer.len() ==> !same_path(#[trigger] newer[i], path),
        forall|i: int| 0 <= i < older.len() ==> !same_path(#[trigger] older[i], path),
    ensures
        pushed(newer.push(again) + older, path) == seq![path] + newer + older,
{
    let f = |p: Seq<char>| !same_path(p, path);
    lemma_filter_keeps_all(newer, f);
    lemma_filter_keeps_all(older, f);
    newer.lemma_filter_push(again, f);
    Seq::filter_distributes_over_add(newer.push(again), older, f);
    assert(seq![path] + (newer + older) =~= seq![path] + newer + older);
}

/// A buffer without a file is named by its number, counted from one: so is its tab,
/// and the file that a save suggests.
pub proof fn law_buffers_without_a_file_go_by_number(i: int)
    requires
        0 <= i,
    ensures
        tab_name(None, i) == decimal((i + 1) as nat),
        save_name(None, i) == "buffer-"@ + decimal((i + 1) as nat) + ".rb"@,
{
}

/// A buffer with a file is named by it: its tab, the file that a save suggests and
/// the entry among the recent files show the name without the directory.
pub proof fn law_buffers_with_a_file_go_by_its_name(dir: Seq<char>, name: Seq<char>, i: int)
    requires
        ends_in_a_name(dir),
        plain_name(name),
    ensures
        tab_name(Some(dir + "/"@ + name), i) == name,
        save_name(Some(dir + "/"@ + name), i) == name,
        recent_name(dir + "/"@ + name) == name,
{
    law_file_lies_in_its_directory(dir, name);
}

/// A save goes to the buffer's file; asked for another, it starts in that file's
/// directory under its name. A buffer without a file starts in the home directory, or
/// where the program runs when there is none.
pub proof fn law_saves_start_near_the_file(
    dir: Seq<char>,
    name: Seq<char>,
    i: int,
    home: Seq<char>,
    as_another: bool,
)
    requires
        0 <= i,
        ends_in_a_name(dir),
        plain_name(name),
    ensures
        ({
            let path = dir + "/"@ + name;
            let fresh = "buffer-"@ + decimal((i + 1) as nat) + ".rb"@;
            &&& target_of(Some(path), i, false, Some(home)) == SaveTargetView::Write(path)
            &&& target_of(Some(path), i, true, Some(home)) == (SaveTargetView::Ask { dir, name })
            &&& target_of(None, i, as_another, Some(home)) == (SaveTargetView::Ask {
                dir: home,
                name: fresh,
            })
            &&& target_of(None, i, as_another, None) == (SaveTargetView::Ask {
                dir: "."@,
                name: fresh,
            })
        }),
{
    law_file_lies_in_its_directory(dir, name);
}

/// What the preferences hold of the files: that of each buffer under its number, and
/// the recent ones with tabs between them.
pub proof fn law_files_are_kept_in_the_preferences(
    prefs: Map<Seq<char>, Seq<char>>,
    f: FilesView,
    i: int,
    path: Seq<char>,
    count: int,
)
    requires
        0 <= i < count,
        f.recent.len() == 1,
        !same_path(f.recent[0], path),
    ensures
        ({
            let key = "buffer_path_"@ + decimal(i as nat);
            let after = remembered_prefs(prefs, f, i, path);
            &&& after[key] == path
            &&& after["recent_files"@] == path + "\t"@ + f.recent[0]
            &&& forall|k: Seq<char>|
                k != key && k != "recent_files"@ ==> (#[trigger] after.dom().contains(k)
                    == prefs.dom().contains(k)) && after[k] == prefs[k]
            &&& prefs.dom().contains(key) ==> files_of(prefs, count).paths[i] == Some(prefs[key])
            &&& !prefs.dom().contains(key) ==> files_of(prefs, count).paths[i] is None
        }),
{
    reveal_strlit("buffer_path_");
    reveal_strlit("recent_files");
    assert(path_key(i)[0] == 'b');
    assert("recent_files"@[0] == 'r');
    law_other_recent_files_stay(f.recent, path);
    let all = seq![path] + f.recent;
    assert(all.drop_last() =~= seq![path]);
    assert(join(seq![path], "\t"@) == path);
    assert(join(all, "\t"@) =~= path + "\t"@ + f.recent[0]);
}

/// A buffer whose path has no name at its end goes by its number too, and among the
/// recent files such a path has no label.
pub proof fn law_paths_without_a_name_go_by_number(dir: Seq<char>, i: int)
    requires
        0 <= i,
        ends_in_a_name(dir),
    ensures
        tab_name(Some(dir + "/"@ + ".."@), i) == decimal((i + 1) as nat),
        save_name(Some(dir + "/"@ + ".."@), i) == "buffer-"@ + decimal((i + 1) as nat) + ".rb"@,
        recent_name(dir + "/"@ + ".."@).len() == 0,
{
    law_two_dots_are_no_name(dir);
}

} // verus!
