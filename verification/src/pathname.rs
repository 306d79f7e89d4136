//! Slash-separated path names.

use crate::text::{
    after_last, chars_of, is_text, join, lacks, last_index_of, law_join_of_split,
    law_split_of_join, lemma_last_index_of, same_chars, split, split_at_char, string_of, views,
};
use vstd::prelude::*;
use vstd::slice::slice_subrange;
use vstd::string::*;

verus! {

/// Whether a path starts at the root.
pub open spec fn is_absolute(p: Seq<char>) -> bool {
    p.len() > 0 && p[0] == '/'
}

/// `tail` under `base`: an absolute `tail` stands for itself, and otherwise one
/// slash separates the two unless `base` is empty or ends in one.
pub open spec fn path_join(base: Seq<char>, tail: Seq<char>) -> Seq<char> {
    if is_absolute(tail) {
        tail
    } else if base.len() == 0 || base.last() == '/' {
        base + tail
    } else {
        base.push('/') + tail
    }
}

pub fn join_path(base: &str, tail: &str) -> (r: String)
    ensures
        r@ == path_join(base@, tail@),
{
    let b: Vec<char> = chars_of(base);
    let t: Vec<char> = chars_of(tail);
    if t.len() > 0 && t[0] == '/' {
        return String::from_str(tail);
    }
    let mut out: String = String::from_str(base);
    if b.len() > 0 && b[b.len() - 1] != '/' {
        out.push('/');
    }
    out.append(tail);
    out
}

/// How much of a path stands before its components: the slash of the root, or the
/// dot of a path that starts at the current directory.
pub open spec fn path_base(p: Seq<char>) -> int {
    if is_absolute(p) || starts_here(p) {
        1
    } else {
        0
    }
}

/// Whether a path starts with a dot component.
pub open spec fn starts_here(p: Seq<char>) -> bool {
    p.len() > 0 && p[0] == '.' && (p.len() == 1 || p[1] == '/')
}

/// Where the last component of a path starts, `b` being the length of its base.
pub open spec fn last_start(p: Seq<char>, b: int) -> int
    decreases p.len(),
{
    if p.len() == 0 || p.len() <= b || p.last() == '/' {
        p.len() as int
    } else {
        last_start(p.drop_last(), b)
    }
}

/// `p` without its last component and the slash before it.
pub open spec fn without_last(p: Seq<char>, b: int) -> Seq<char> {
    let i = last_start(p, b);
    if i > b {
        p.take(i - 1)
    } else {
        p.take(i)
    }
}

/// `p` without the empty and dot components at its end.
pub open spec fn drop_idle(p: Seq<char>, b: int) -> Seq<char>
    decreases p.len(),
{
    if p.len() <= b || b < 0 {
        p
    } else {
        let last = p.skip(last_start(p, b));
        if (last.len() == 0 || last == "."@) && without_last(p, b).len() < p.len() {
            drop_idle(without_last(p, b), b)
        } else {
            p
        }
    }
}

/// `p` without its last component: `None` for the root and for an empty path.
pub open spec fn path_parent(p: Seq<char>) -> Option<Seq<char>> {
    let b = path_base(p);
    let t = drop_idle(p, b);
    if t.len() > b {
        Some(drop_idle(without_last(t, b), b))
    } else if starts_here(p) {
        Some(seq![])
    } else {
        None
    }
}

proof fn lemma_last_start(p: Seq<char>, b: int)
    requires
        0 <= b <= p.len(),
    ensures
        b <= last_start(p, b) <= p.len(),
    decreases p.len(),
{
    if p.len() > b && p.last() != '/' {
        lemma_last_start(p.drop_last(), b);
    }
}

proof fn lemma_drop_idle(p: Seq<char>, b: int)
    requires
        0 <= b <= p.len(),
    ensures
        b <= drop_idle(p, b).len() <= p.len(),
        drop_idle(p, b) == p.take(drop_idle(p, b).len() as int),
    decreases p.len(),
{
    lemma_last_start(p, b);
    let q = without_last(p, b);
    if p.len() > b && q.len() < p.len() {
        lemma_drop_idle(q, b);
        let n = drop_idle(q, b).len() as int;
        assert(q.take(n) =~= p.take(n));
    }
    assert(p.take(p.len() as int) =~= p);
}

/// The parent of an absolute path is absolute, and the path starts with it.
pub proof fn lemma_parent_of_absolute(p: Seq<char>)
    requires
        is_absolute(p),
    ensures
        path_parent(p) matches Some(q) ==> is_absolute(q) && q.len() <= p.len() && q == p.take(
            q.len() as int,
        ),
{
    let t = drop_idle(p, 1);
    lemma_drop_idle(p, 1);
    if t.len() > 1 {
        lemma_last_start(t, 1);
        let w = without_last(t, 1);
        lemma_drop_idle(w, 1);
        let n = drop_idle(w, 1).len() as int;
        assert(w.take(n) =~= p.take(n));
    }
}

/// The last component of `p`, when it is a name.
pub open spec fn path_file_name(p: Seq<char>) -> Option<Seq<char>> {
    let b = path_base(p);
    let t = drop_idle(p, b);
    let last = t.skip(last_start(t, b));
    if t.len() > b && last != ".."@ {
        Some(last)
    } else {
        None
    }
}

fn find_last_start(p: &[char], b: usize) -> (r: usize)
    requires
        b <= p@.len(),
    ensures
        r == last_start(p@, b as int),
        b <= r <= p@.len(),
{
    let mut n: usize = p.len();
    assert(p@.take(n as int) =~= p@);
    while n > b && p[n - 1] != '/'
        invariant
            b <= n <= p@.len(),
            last_start(p@, b as int) == last_start(p@.take(n as int), b as int),
        decreases n,
    {
        assert(p@.take(n as int).drop_last() =~= p@.take(n - 1));
        n = n - 1;
    }
    n
}

fn cut_last(p: &[char], b: usize) -> (r: &[char])
    requires
        b <= p@.len(),
    ensures
        r@ == without_last(p@, b as int),
        b <= r@.len() <= p@.len(),
{
    let i: usize = find_last_start(p, b);
    if i > b {
        slice_subrange(p, 0, i - 1)
    } else {
        slice_subrange(p, 0, i)
    }
}

fn cut_idle(p: &[char], b: usize) -> (r: &[char])
    requires
        b <= p@.len(),
    ensures
        r@ == drop_idle(p@, b as int),
        b <= r@.len(),
{
    let mut t: &[char] = p;
    while t.len() > b
        invariant
            b <= t@.len(),
            drop_idle(p@, b as int) == drop_idle(t@, b as int),
        ensures
            b <= t@.len(),
            drop_idle(p@, b as int) == t@,
        decreases t@.len(),
    {
        let i: usize = find_last_start(t, b);
        let last: &[char] = slice_subrange(t, i, t.len());
        assert(last@ =~= t@.skip(i as int));
        let shorter: &[char] = cut_last(t, b);
        if (last.len() == 0 || is_text(last, ".")) && shorter.len() < t.len() {
            t = shorter;
        } else {
            break;
        }
    }
    t
}

fn base_of(p: &[char]) -> (r: usize)
    ensures
        r == path_base(p@),
        r <= p@.len(),
{
    if p.len() > 0 && (p[0] == '/' || (p[0] == '.' && (p.len() == 1 || p[1] == '/'))) {
        1
    } else {
        0
    }
}

/// The path without its last component.
pub fn parent(p: &str) -> (r: Option<String>)
    ensures
        match r {
            Some(q) => path_parent(p@) == Some(q@),
            None => path_parent(p@) is None,
        },
{
    let cs: Vec<char> = chars_of(p);
    let b: usize = base_of(cs.as_slice());
    let t: &[char] = cut_idle(cs.as_slice(), b);
    if t.len() > b {
        Some(string_of(cut_idle(cut_last(t, b), b)))
    } else if cs.len() > 0 && cs[0] == '.' && (cs.len() == 1 || cs[1] == '/') {
        let empty: String = String::new();
        assert(empty@ =~= seq![]);
        Some(empty)
    } else {
        None
    }
}

/// The last component of the path, when it is a name.
pub fn file_name(p: &str) -> (r: Option<String>)
    ensures
        match r {
            Some(n) => path_file_name(p@) == Some(n@),
            None => path_file_name(p@) is None,
        },
{
    let cs: Vec<char> = chars_of(p);
    let b: usize = base_of(cs.as_slice());
    let t: &[char] = cut_idle(cs.as_slice(), b);
    let last: &[char] = slice_subrange(t, find_last_start(t, b), t.len());
    assert(last@ =~= t@.skip(last_start(t@, b as int)));
    if t.len() > b && !is_text(last, "..") {
        Some(string_of(last))
    } else {
        None
    }
}

/// What a file name has after its last dot, when something stands before that dot.
pub open spec fn extension(name: Seq<char>) -> Option<Seq<char>> {
    let d = last_index_of(name, '.');
    if d > 0 {
        Some(name.skip(d + 1))
    } else {
        None
    }
}

/// A file name without its extension.
pub open spec fn stem(name: Seq<char>) -> Seq<char> {
    let d = last_index_of(name, '.');
    if d > 0 {
        name.take(d)
    } else {
        name
    }
}

/// Whether a file name has the extension `ext`.
pub fn has_extension(name: &str, ext: &str) -> (r: bool)
    ensures
        r == (extension(name@) == Some(ext@)),
{
    let cs: Vec<char> = chars_of(name);
    let n: usize = after_last(cs.as_slice(), '.');
    if n > 1 {
        let e: &[char] = slice_subrange(cs.as_slice(), n, cs.len());
        assert(e@ =~= cs@.skip(n as int));
        is_text(e, ext)
    } else {
        false
    }
}

pub fn stem_of(name: &str) -> (r: String)
    ensures
        r@ == stem(name@),
{
    let cs: Vec<char> = chars_of(name);
    let n: usize = after_last(cs.as_slice(), '.');
    if n > 1 {
        let s: &[char] = slice_subrange(cs.as_slice(), 0, n - 1);
        assert(s@ =~= cs@.take(n - 1));
        string_of(s)
    } else {
        String::from_str(name)
    }
}

/// Whether a component of a path says nothing: it is empty or a dot.
pub open spec fn is_idle(c: Seq<char>) -> bool {
    c.len() == 0 || c == "."@
}

/// The components of a path that say something. A dot counts where a path starts
/// with one.
pub open spec fn path_parts(p: Seq<char>) -> Seq<Seq<char>> {
    let named = split(p, '/').filter(|c: Seq<char>| !is_idle(c));
    if starts_here(p) {
        seq!["."@] + named
    } else {
        named
    }
}

/// Whether two paths are the same, component by component.
pub open spec fn same_path(a: Seq<char>, b: Seq<char>) -> bool {
    is_absolute(a) == is_absolute(b) && path_parts(a) == path_parts(b)
}

fn named_parts<'a>(cs: &'a [char]) -> (r: Vec<&'a [char]>)
    ensures
        views(r@) == split(cs@, '/').filter(|c: Seq<char>| !is_idle(c)),
{
    let pieces: Vec<&'a [char]> = split_at_char(cs, '/');
    let ghost all = views(pieces@);
    let ghost f = |c: Seq<char>| !is_idle(c);
    let mut out: Vec<&'a [char]> = Vec::new();
    let mut i: usize = 0;
    proof {
        reveal(Seq::filter);
        assert(views(out@) =~= all.take(0).filter(f));
    }
    while i < pieces.len()
        invariant
            i <= pieces@.len(),
            all == views(pieces@),
            f == (|c: Seq<char>| !is_idle(c)),
            views(out@) == all.take(i as int).filter(f),
        decreases pieces@.len() - i,
    {
        let ghost before = views(out@);
        let c: &'a [char] = pieces[i];
        assert(all[i as int] == c@);
        proof {
            all.take(i as int).lemma_filter_push(all[i as int], f);
            assert(all.take(i as int).push(all[i as int]) =~= all.take(i + 1));
        }
        if c.len() > 0 && !is_text(c, ".") {
            out.push(c);
            assert(views(out@) =~= before.push(c@));
        }
        i = i + 1;
    }
    assert(all.take(i as int) =~= all);
    out
}

/// Whether two path names name the same path.
pub fn paths_equal(a: &str, b: &str) -> (r: bool)
    ensures
        r == same_path(a@, b@),
{
    let x: Vec<char> = chars_of(a);
    let y: Vec<char> = chars_of(b);
    let x_root: bool = x.len() > 0 && x[0] == '/';
    let y_root: bool = y.len() > 0 && y[0] == '/';
    let x_here: bool = x.len() > 0 && x[0] == '.' && (x.len() == 1 || x[1] == '/');
    let y_here: bool = y.len() > 0 && y[0] == '.' && (y.len() == 1 || y[1] == '/');
    let xs: Vec<&[char]> = named_parts(x.as_slice());
    let ys: Vec<&[char]> = named_parts(y.as_slice());
    let ghost dot = "."@;
    proof {
        reveal_strlit(".");
        lemma_named_parts(x@);
        lemma_named_parts(y@);
    }
    if x_root != y_root {
        return false;
    }
    if x_here != y_here {
        proof {
            if path_parts(a@) == path_parts(b@) {
                let (with_dot, without) = if x_here {
                    (path_parts(a@), path_parts(b@))
                } else {
                    (path_parts(b@), path_parts(a@))
                };
                assert(with_dot[0] == dot);
                assert(without.len() > 0);
                assert(!is_idle(without[0]));
            }
        }
        return false;
    }
    if xs.len() != ys.len() {
        assert(views(xs@).len() == xs@.len());
        assert(views(ys@).len() == ys@.len());
        assert(path_parts(a@).len() != path_parts(b@).len());
        return false;
    }
    let mut i: usize = 0;
    while i < xs.len()
        invariant
            i <= xs@.len(),
            xs@.len() == ys@.len(),
            x_here == y_here,
            x_here == starts_here(a@),
            y_here == starts_here(b@),
            views(xs@) == split(a@, '/').filter(|c: Seq<char>| !is_idle(c)),
            views(ys@) == split(b@, '/').filter(|c: Seq<char>| !is_idle(c)),
            forall|j: int| 0 <= j < i ==> xs@[j]@ == ys@[j]@,
        decreases xs@.len() - i,
    {
        if !same_chars(xs[i], ys[i]) {
            proof {
                let k: int = if x_here {
                    i + 1
                } else {
                    i as int
                };
                assert(path_parts(a@)[k] == views(xs@)[i as int]);
                assert(path_parts(b@)[k] == views(ys@)[i as int]);
            }
            return false;
        }
        i = i + 1;
    }
    assert(views(xs@) =~= views(ys@));
    true
}

proof fn lemma_named_parts(p: Seq<char>)
    ensures
        ({
            let named = split(p, '/').filter(|c: Seq<char>| !is_idle(c));
            forall|i: int| 0 <= i < named.len() ==> !is_idle(#[trigger] named[i])
        }),
{
    let f = |c: Seq<char>| !is_idle(c);
    let named = split(p, '/').filter(f);
    assert forall|i: int| 0 <= i < named.len() implies !is_idle(#[trigger] named[i]) by {
        split(p, '/').lemma_filter_pred(f, i);
    }
}

/// Whether a text can be the name of a file: it is not empty, has no slash, and is
/// neither of the two dot components.
pub open spec fn plain_name(name: Seq<char>) -> bool {
    name.len() > 0 && lacks(name, '/') && name != "."@ && name != ".."@
}

/// Whether a path ends in a named component without a dot at its end.
pub open spec fn ends_in_a_name(dir: Seq<char>) -> bool {
    dir.len() > 0 && dir.last() != '/' && dir.last() != '.'
}

/// A relative path goes under a directory behind one slash, whether or not the
/// directory brings the slash along; an absolute one stays as it is.
pub proof fn law_one_slash_joins(base: Seq<char>, tail: Seq<char>)
    ensures
        tail.len() > 0 && tail[0] == '/' ==> path_join(base, tail) == tail,
        tail.len() == 0 || tail[0] != '/' ==> path_join(base + "/"@, tail) == base + "/"@ + tail,
        ends_in_a_name(base) && (tail.len() == 0 || tail[0] != '/') ==> path_join(base, tail)
            == base + "/"@ + tail,
{
    reveal_strlit("/");
    assert(base.push('/') =~= base + "/"@);
}

proof fn lemma_last_start_of(head: Seq<char>, name: Seq<char>, b: int)
    requires
        0 <= b <= head.len(),
        lacks(name, '/'),
        head.len() == b || head.last() == '/',
    ensures
        last_start(head + name, b) == head.len(),
    decreases name.len(),
{
    if name.len() == 0 {
        assert(head + name =~= head);
    } else {
        let p = head + name;
        assert(name[name.len() - 1] != '/');
        assert(p.last() == name.last());
        assert(p.drop_last() =~= head + name.drop_last());
        assert forall|i: int| 0 <= i < name.drop_last().len() implies #[trigger] name.drop_last()[i]
            != '/' by {
            assert(name.drop_last()[i] == name[i]);
        }
        lemma_last_start_of(head, name.drop_last(), b);
    }
}

proof fn lemma_named_end_is_kept(p: Seq<char>, b: int)
    requires
        0 <= b < p.len(),
        p.last() != '/',
        p.skip(last_start(p, b)) != "."@,
    ensures
        drop_idle(p, b) == p,
        last_start(p, b) < p.len(),
{
    lemma_last_start(p.drop_last(), b);
}

/// A file in a directory has its own name and that directory as its parent.
pub proof fn law_file_lies_in_its_directory(dir: Seq<char>, name: Seq<char>)
    requires
        ends_in_a_name(dir),
        plain_name(name),
    ensures
        path_file_name(dir + "/"@ + name) == Some(name),
        path_parent(dir + "/"@ + name) == Some(dir),
{
    reveal_strlit("/");
    reveal_strlit(".");
    let head = dir + "/"@;
    let p = head + name;
    let b = path_base(p);
    assert(p[0] == dir[0]);
    assert(p[1] == head[1]);
    if dir.len() == 1 {
        assert(dir[0] == dir.last());
    }
    assert(b < dir.len());
    lemma_last_start_of(head, name, b);
    assert(p.skip(last_start(p, b)) =~= name);
    assert(name[name.len() - 1] != '/');
    assert(p.last() == name.last());
    lemma_named_end_is_kept(p, b);
    assert(p.take(dir.len() as int) =~= dir);
    lemma_last_start(dir, b);
    lemma_last_start(dir.drop_last(), b);
    let last = dir.skip(last_start(dir, b));
    assert(last.last() == dir.last());
    assert(last != "."@) by {
        assert("."@.last() == '.');
    }
    lemma_named_end_is_kept(dir, b);
}

/// A file at the root has the root as its parent, and a bare name the empty path.
pub proof fn law_bare_names(name: Seq<char>)
    requires
        plain_name(name),
    ensures
        path_file_name("/"@ + name) == Some(name),
        path_parent("/"@ + name) == Some("/"@),
        path_file_name(name) == Some(name),
        path_parent(name) == Some(""@),
        path_parent("/"@) is None,
        path_file_name("/"@) is None,
{
    reveal_strlit("/");
    reveal_strlit(".");
    reveal_strlit("");
    assert(name[0] != '/');
    assert(name[name.len() - 1] != '/');
    let p = "/"@ + name;
    lemma_last_start_of("/"@, name, 1);
    assert(p.skip(1) =~= name);
    assert(p.last() == name.last());
    lemma_named_end_is_kept(p, 1);
    assert(p.take(1) =~= "/"@);
    assert(!starts_here(name)) by {
        if name.len() == 1 && name[0] == '.' {
            assert(name =~= "."@);
        }
        if name.len() > 1 {
            assert(name[1] != '/');
        }
    }
    let none = Seq::<char>::empty();
    lemma_last_start_of(none, name, 0);
    assert(none + name =~= name);
    assert(name.skip(0) =~= name);
    lemma_named_end_is_kept(name, 0);
    assert(name.take(0) =~= ""@);
    assert(drop_idle(""@, 0) == ""@);
}

/// A file name is its stem, a dot and its extension.
pub proof fn law_stem_and_extension(front: Seq<char>, ext: Seq<char>)
    requires
        front.len() > 0,
        lacks(ext, '.'),
    ensures
        extension(front + "."@ + ext) == Some(ext),
        stem(front + "."@ + ext) == front,
{
    reveal_strlit(".");
    let name = front + "."@ + ext;
    lemma_last_index_of(name, '.');
    let d = last_index_of(name, '.');
    assert(name[front.len() as int] == '.');
    if d > front.len() {
        assert(name[d] == ext[d - front.len() - 1]);
    }
    assert(d == front.len());
    assert(name.skip(d + 1) =~= ext);
    assert(name.take(d) =~= front);
}

/// A name without a dot, or with its only dot in front, has no extension and is its
/// own stem.
pub proof fn law_names_without_extension(name: Seq<char>)
    requires
        lacks(name, '.'),
    ensures
        extension(name) is None,
        stem(name) == name,
        extension("."@ + name) is None,
        stem("."@ + name) == "."@ + name,
{
    reveal_strlit(".");
    lemma_last_index_of(name, '.');
    let hidden = "."@ + name;
    lemma_last_index_of(hidden, '.');
    let d = last_index_of(hidden, '.');
    if d > 0 {
        assert(hidden[d] == name[d - 1]);
    }
}

proof fn lemma_split_under(dir: Seq<char>, name: Seq<char>)
    requires
        lacks(name, '/'),
    ensures
        split(dir + "/"@ + name, '/') == split(dir, '/').push(name),
{
    reveal_strlit("/");
    assert("/"@ =~= seq!['/']);
    law_join_of_split(dir, '/');
    let ps = split(dir, '/').push(name);
    assert(ps.drop_last() =~= split(dir, '/'));
    assert(join(ps, seq!['/']) =~= dir + "/"@ + name);
    assert forall|i: int| 0 <= i < ps.len() implies lacks(#[trigger] ps[i], '/') by {
        if i < ps.len() - 1 {
            assert(ps[i] == split(dir, '/')[i]);
        }
    }
    law_split_of_join(ps, '/');
}

/// Two files of one directory are the same path exactly when they have the same
/// name, and neither is the directory.
pub proof fn law_names_tell_paths_apart(dir: Seq<char>, a: Seq<char>, b: Seq<char>)
    requires
        dir.len() > 1,
        plain_name(a),
        plain_name(b),
    ensures
        same_path(dir + "/"@ + a, dir + "/"@ + b) <==> a == b,
        !same_path(dir + "/"@ + a, dir),
        !same_path(dir, dir + "/"@ + a),
{
    reveal_strlit("/");
    let f = |c: Seq<char>| !is_idle(c);
    let x = dir + "/"@ + a;
    let y = dir + "/"@ + b;
    lemma_split_under(dir, a);
    lemma_split_under(dir, b);
    let ps = split(dir, '/');
    ps.lemma_filter_push(a, f);
    ps.lemma_filter_push(b, f);
    assert(f(a) && f(b));
    assert(starts_here(x) == starts_here(dir)) by {
        assert(x[0] == dir[0] && x[1] == dir[1]);
    }
    assert(starts_here(y) == starts_here(dir)) by {
        assert(y[0] == dir[0] && y[1] == dir[1]);
    }
    assert(path_parts(x) =~= path_parts(dir).push(a));
    assert(path_parts(y) =~= path_parts(dir).push(b));
    assert(path_parts(x).last() == a);
    assert(path_parts(y).last() == b);
}

/// A slash at the end, a doubled slash and a dot in the middle make no other path,
/// but an absolute path is none of the relative ones.
pub proof fn law_idle_components_do_not_count(dir: Seq<char>, name: Seq<char>)
    requires
        dir.len() > 1,
        plain_name(name),
    ensures
        same_path(dir, dir),
        same_path(dir + "/"@, dir),
        same_path(dir + "/"@ + "/"@ + name, dir + "/"@ + name),
        same_path(dir + "/"@ + "."@ + "/"@ + name, dir + "/"@ + name),
        dir[0] != '/' ==> !same_path("/"@ + dir, dir),
{
    reveal_strlit("/");
    reveal_strlit(".");
    reveal_strlit("");
    let f = |c: Seq<char>| !is_idle(c);
    let ps = split(dir, '/');
    let none = Seq::<char>::empty();
    let open = dir + "/"@;
    let dotted = dir + "/"@ + "."@;
    assert(dir + "/"@ + none =~= open);
    lemma_split_under(dir, none);
    lemma_split_under(dir, "."@);
    lemma_split_under(dir, name);
    lemma_split_under(open, name);
    lemma_split_under(dotted, name);
    ps.lemma_filter_push(none, f);
    ps.lemma_filter_push("."@, f);
    ps.lemma_filter_push(name, f);
    ps.push(none).lemma_filter_push(name, f);
    ps.push("."@).lemma_filter_push(name, f);
    let a = open + "/"@ + name;
    let b = dotted + "/"@ + name;
    let c = dir + "/"@ + name;
    assert(starts_here(open) == starts_here(dir)) by {
        assert(open[0] == dir[0] && open[1] == dir[1]);
    }
    assert(starts_here(a) == starts_here(c)) by {
        assert(a[0] == c[0] && a[1] == c[1]);
    }
    assert(starts_here(b) == starts_here(c)) by {
        assert(b[0] == c[0] && b[1] == c[1]);
    }
    assert(("/"@ + dir)[0] == '/');
}

/// A slash or a dot component at the end of a path changes neither its name nor its
/// parent.
pub proof fn law_idle_end_does_not_count(p: Seq<char>)
    requires
        p.len() >= 2,
    ensures
        path_parent(p + "/"@) == path_parent(p),
        path_file_name(p + "/"@) == path_file_name(p),
        path_parent(p + "/"@ + "."@) == path_parent(p),
        path_file_name(p + "/"@ + "."@) == path_file_name(p),
{
    reveal_strlit("/");
    reveal_strlit(".");
    let b = path_base(p);
    let open = p + "/"@;
    assert(open[0] == p[0] && open[1] == p[1]);
    assert(path_base(open) == b);
    assert(open.last() == '/');
    assert(last_start(open, b) == open.len());
    assert(open.skip(open.len() as int).len() == 0);
    assert(open.take(p.len() as int) =~= p);
    assert(drop_idle(open, b) == drop_idle(p, b));
    let dotted = open + "."@;
    assert(dotted[0] == p[0] && dotted[1] == p[1]);
    assert(path_base(dotted) == b);
    lemma_last_start_of(open, "."@, b);
    assert(dotted.skip(open.len() as int) =~= "."@);
    assert(dotted.take(p.len() as int) =~= p);
    assert(drop_idle(dotted, b) == drop_idle(p, b));
}

/// A path that ends in two dots has no name of its own.
pub proof fn law_two_dots_are_no_name(dir: Seq<char>)
    requires
        ends_in_a_name(dir),
    ensures
        path_file_name(dir + "/"@ + ".."@) is None,
{
    reveal_strlit("/");
    reveal_strlit(".");
    reveal_strlit("..");
    let head = dir + "/"@;
    let p = head + ".."@;
    let b = path_base(p);
    lemma_last_start_of(head, ".."@, b);
    assert(p.skip(head.len() as int) =~= ".."@);
    assert(".."@.len() == 2 && "."@.len() == 1);
    assert(p.last() == '.');
    lemma_named_end_is_kept(p, b);
}

} // verus!
