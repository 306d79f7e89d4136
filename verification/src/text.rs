//! Text as sequences of characters.
//!
//! Every string of the crate is specified by its view, a `Seq<char>`. The spec
//! functions here say what the usual string operations mean on such a sequence,
//! and the executable functions beside them work on character slices.

use vstd::prelude::*;
use vstd::slice::slice_subrange;
use vstd::string::*;

pub mod pieces;

verus! {

/// `String::push` appends one character.
pub assume_specification[ std::string::String::push ](s: &mut std::string::String, c: char)
    ensures
        final(s)@ == old(s)@.push(c),
;

/// A text as `{:?}` shows it: in quotes, with escapes.
pub uninterp spec fn quoted(s: Seq<char>) -> Seq<char>;

/// The `Debug` form of a string, which is a function of its characters. How it
/// escapes them is left to the standard library.
#[verifier::external_body]
pub(crate) fn debug_text(s: &str) -> (r: String)
    ensures
        r@ == quoted(s@),
{
    format!("{:?}", s)
}

/// The characters of each slice in a list of slices.
pub open spec fn views(v: Seq<&[char]>) -> Seq<Seq<char>> {
    Seq::new(v.len(), |i: int| v[i]@)
}

/// The characters of each string in a list of strings.
pub open spec fn string_views(v: Seq<String>) -> Seq<Seq<char>> {
    Seq::new(v.len(), |i: int| v[i]@)
}

/// The characters of `s`.
pub fn chars_of(s: &str) -> (r: Vec<char>)
    ensures
        r@ == s@,
{
    let mut out: Vec<char> = Vec::new();
    for c in it: s.chars()
        invariant
            out@ == s@.take(it.index()),
            it.seq() == s@,
    {
        out.push(c);
        assert(out@ =~= s@.take(it.index() + 1));
    }
    assert(s@.take(s@.len() as int) =~= s@);
    out
}

/// The string made of the characters of `cs`.
pub fn string_of(cs: &[char]) -> (r: String)
    ensures
        r@ == cs@,
{
    let mut out: String = String::new();
    let mut i: usize = 0;
    while i < cs.len()
        invariant
            i <= cs@.len(),
            out@ == cs@.take(i as int),
        decreases cs@.len() - i,
    {
        out.push(cs[i]);
        i = i + 1;
        assert(out@ =~= cs@.take(i as int));
    }
    assert(cs@.take(cs@.len() as int) =~= cs@);
    out
}

/// Whether two slices hold the same characters.
pub fn same_chars(a: &[char], b: &[char]) -> (r: bool)
    ensures
        r == (a@ == b@),
{
    if a.len() != b.len() {
        return false;
    }
    let mut i: usize = 0;
    while i < a.len()
        invariant
            i <= a@.len(),
            a@.len() == b@.len(),
            forall|j: int| 0 <= j < i ==> a@[j] == b@[j],
        decreases a@.len() - i,
    {
        if a[i] != b[i] {
            return false;
        }
        i = i + 1;
    }
    assert(a@ =~= b@);
    true
}

/// Whether two strings are the same.
pub fn same_text(a: &str, b: &str) -> (r: bool)
    ensures
        r == (a@ == b@),
{
    let x: Vec<char> = chars_of(a);
    let y: Vec<char> = chars_of(b);
    same_chars(x.as_slice(), y.as_slice())
}

/// The characters with the Unicode `White_Space` property.
pub open spec fn is_white_space(c: char) -> bool {
    let u = c as u32;
    ||| 0x09 <= u <= 0x0d
    ||| u == 0x20
    ||| u == 0x85
    ||| u == 0xa0
    ||| u == 0x1680
    ||| 0x2000 <= u <= 0x200a
    ||| u == 0x2028
    ||| u == 0x2029
    ||| u == 0x202f
    ||| u == 0x205f
    ||| u == 0x3000
}

/// Whether `c` has the Unicode `White_Space` property.
pub fn white_space(c: char) -> (r: bool)
    ensures
        r == is_white_space(c),
{
    let u: u32 = c as u32;
    (0x09 <= u && u <= 0x0d) || u == 0x20 || u == 0x85 || u == 0xa0 || u == 0x1680 || (0x2000 <= u
        && u <= 0x200a) || u == 0x2028 || u == 0x2029 || u == 0x202f || u == 0x205f || u == 0x3000
}

/// `s` without its leading white space.
pub open spec fn trim_start(s: Seq<char>) -> Seq<char>
    decreases s.len(),
{
    if s.len() > 0 && is_white_space(s[0]) {
        trim_start(s.drop_first())
    } else {
        s
    }
}

/// `s` without its trailing white space.
pub open spec fn trim_end(s: Seq<char>) -> Seq<char>
    decreases s.len(),
{
    if s.len() > 0 && is_white_space(s.last()) {
        trim_end(s.drop_last())
    } else {
        s
    }
}

/// `s` without white space at either end.
pub open spec fn trim(s: Seq<char>) -> Seq<char> {
    trim_end(trim_start(s))
}

/// Whether `s` is white space alone.
pub open spec fn blank(s: Seq<char>) -> bool {
    forall|i: int| 0 <= i < s.len() ==> is_white_space(#[trigger] s[i])
}

/// Whether `s` neither starts nor ends with white space.
pub open spec fn no_outer_space(s: Seq<char>) -> bool {
    s.len() > 0 ==> !is_white_space(s[0]) && !is_white_space(s.last())
}

pub proof fn lemma_trim_start_padded(a: Seq<char>, s: Seq<char>)
    requires
        blank(a),
    ensures
        trim_start(a + s) == trim_start(s),
    decreases a.len(),
{
    if a.len() == 0 {
        assert(a + s =~= s);
    } else {
        assert(is_white_space(a[0]));
        assert((a + s)[0] == a[0]);
        assert((a + s).drop_first() =~= a.drop_first() + s);
        assert forall|i: int| 0 <= i < a.drop_first().len() implies is_white_space(
            #[trigger] a.drop_first()[i],
        ) by {
            assert(is_white_space(a[i + 1]));
        }
        lemma_trim_start_padded(a.drop_first(), s);
    }
}

pub proof fn lemma_trim_end_padded(s: Seq<char>, b: Seq<char>)
    requires
        blank(b),
    ensures
        trim_end(s + b) == trim_end(s),
    decreases b.len(),
{
    if b.len() == 0 {
        assert(s + b =~= s);
    } else {
        assert(is_white_space(b[b.len() - 1]));
        assert((s + b).last() == b.last());
        assert((s + b).drop_last() =~= s + b.drop_last());
        assert forall|i: int| 0 <= i < b.drop_last().len() implies is_white_space(
            #[trigger] b.drop_last()[i],
        ) by {
            assert(is_white_space(b[i]));
        }
        lemma_trim_end_padded(s, b.drop_last());
    }
}

/// White space around a text that has none at its ends is what trimming takes.
pub proof fn law_trim_padded(a: Seq<char>, s: Seq<char>, b: Seq<char>)
    requires
        blank(a),
        blank(b),
        no_outer_space(s),
    ensures
        trim(a + s + b) == s,
{
    assert(a + s + b =~= a + (s + b));
    lemma_trim_start_padded(a, s + b);
    if s.len() > 0 {
        assert((s + b)[0] == s[0]);
        assert(trim_start(s + b) == s + b);
        lemma_trim_end_padded(s, b);
        assert(trim_end(s) == s);
    } else {
        assert(s + b =~= b + Seq::<char>::empty());
        lemma_trim_start_padded(b, Seq::<char>::empty());
        assert(trim(a + s + b) =~= s);
    }
}

/// A trimmed text has no white space at its ends.
pub proof fn lemma_trim_result(s: Seq<char>)
    ensures
        no_outer_space(trim(s)),
        trim(s).len() <= s.len(),
    decreases s.len(),
{
    if s.len() > 0 && is_white_space(s[0]) {
        lemma_trim_result(s.drop_first());
    } else {
        lemma_trim_end_result(s);
    }
}

proof fn lemma_trim_end_result(s: Seq<char>)
    ensures
        trim_end(s).len() <= s.len(),
        trim_end(s) == s.take(trim_end(s).len() as int),
        trim_end(s).len() > 0 ==> !is_white_space(trim_end(s).last()),
    decreases s.len(),
{
    if s.len() > 0 && is_white_space(s.last()) {
        lemma_trim_end_result(s.drop_last());
        assert(s.take(trim_end(s).len() as int) =~= s.drop_last().take(trim_end(s).len() as int));
    } else {
        assert(s.take(s.len() as int) =~= s);
    }
}

pub fn trimmed_start(cs: &[char]) -> (r: &[char])
    ensures
        r@ == trim_start(cs@),
{
    let mut i: usize = 0;
    assert(cs@.skip(0) =~= cs@);
    while i < cs.len() && white_space(cs[i])
        invariant
            i <= cs@.len(),
            trim_start(cs@) == trim_start(cs@.skip(i as int)),
        decreases cs@.len() - i,
    {
        assert(cs@.skip(i as int).drop_first() =~= cs@.skip(i + 1));
        i = i + 1;
    }
    assert(cs@.skip(i as int) =~= cs@.subrange(i as int, cs@.len() as int));
    slice_subrange(cs, i, cs.len())
}

pub fn trimmed_end(cs: &[char]) -> (r: &[char])
    ensures
        r@ == trim_end(cs@),
{
    let mut i: usize = cs.len();
    assert(cs@.take(i as int) =~= cs@);
    while i > 0 && white_space(cs[i - 1])
        invariant
            i <= cs@.len(),
            trim_end(cs@) == trim_end(cs@.take(i as int)),
        decreases i,
    {
        assert(cs@.take(i as int).drop_last() =~= cs@.take(i - 1));
        i = i - 1;
    }
    slice_subrange(cs, 0, i)
}

pub fn trimmed(cs: &[char]) -> (r: &[char])
    ensures
        r@ == trim(cs@),
{
    trimmed_end(trimmed_start(cs))
}

/// `s` without the quotes at its start.
pub open spec fn drop_leading_quotes(s: Seq<char>) -> Seq<char>
    decreases s.len(),
{
    if s.len() > 0 && s[0] == '"' {
        drop_leading_quotes(s.drop_first())
    } else {
        s
    }
}

/// `s` without the quotes at its end.
pub open spec fn drop_trailing_quotes(s: Seq<char>) -> Seq<char>
    decreases s.len(),
{
    if s.len() > 0 && s.last() == '"' {
        drop_trailing_quotes(s.drop_last())
    } else {
        s
    }
}

/// `s` without the quotes at its ends.
pub open spec fn unquote(s: Seq<char>) -> Seq<char> {
    drop_trailing_quotes(drop_leading_quotes(s))
}

pub fn unquoted(t: &[char]) -> (r: &[char])
    ensures
        r@ == unquote(t@),
{
    let mut a: usize = 0;
    assert(t@.skip(0) =~= t@);
    while a < t.len() && t[a] == '"'
        invariant
            a <= t@.len(),
            drop_leading_quotes(t@.skip(a as int)) == drop_leading_quotes(t@),
        decreases t@.len() - a,
    {
        assert(t@.skip(a as int).drop_first() =~= t@.skip(a + 1));
        a = a + 1;
    }
    let ghost lead = drop_leading_quotes(t@);
    assert(lead =~= t@.skip(a as int));
    let mut b: usize = t.len();
    assert(t@.subrange(a as int, b as int) =~= lead);
    while b > a && t[b - 1] == '"'
        invariant
            a <= b <= t@.len(),
            drop_trailing_quotes(t@.subrange(a as int, b as int)) == drop_trailing_quotes(lead),
        decreases b,
    {
        assert(t@.subrange(a as int, b as int).drop_last() =~= t@.subrange(a as int, b - 1));
        b = b - 1;
    }
    slice_subrange(t, a, b)
}

/// The first index of `c` in `s`, or the length of `s` when it is not there.
pub open spec fn index_of(s: Seq<char>, c: char) -> int
    decreases s.len(),
{
    if s.len() == 0 || s[0] == c {
        0
    } else {
        1 + index_of(s.drop_first(), c)
    }
}

pub proof fn lemma_index_of(s: Seq<char>, c: char)
    ensures
        0 <= index_of(s, c) <= s.len(),
        forall|j: int| 0 <= j < index_of(s, c) ==> s[j] != c,
        index_of(s, c) < s.len() ==> s[index_of(s, c)] == c,
    decreases s.len(),
{
    if s.len() > 0 && s[0] != c {
        let t = s.drop_first();
        lemma_index_of(t, c);
        assert forall|j: int| 0 <= j < index_of(s, c) implies s[j] != c by {
            if j > 0 {
                assert(s[j] == t[j - 1]);
            }
        }
    }
}

pub proof fn lemma_index_of_is(s: Seq<char>, c: char, i: int)
    requires
        0 <= i <= s.len(),
        forall|j: int| 0 <= j < i ==> s[j] != c,
        i < s.len() ==> s[i] == c,
    ensures
        index_of(s, c) == i,
{
    lemma_index_of(s, c);
}

pub fn find_char(cs: &[char], c: char) -> (r: usize)
    ensures
        r == index_of(cs@, c),
        r <= cs@.len(),
{
    let mut i: usize = 0;
    while i < cs.len() && cs[i] != c
        invariant
            i <= cs@.len(),
            forall|j: int| 0 <= j < i ==> cs@[j] != c,
        decreases cs@.len() - i,
    {
        i = i + 1;
    }
    proof {
        lemma_index_of_is(cs@, c, i as int);
    }
    i
}

/// The last index of `c` in `s`, or -1.
pub open spec fn last_index_of(s: Seq<char>, c: char) -> int
    decreases s.len(),
{
    if s.len() == 0 {
        -1
    } else if s.last() == c {
        s.len() - 1
    } else {
        last_index_of(s.drop_last(), c)
    }
}

/// One more than the last index of `c`; zero when it is not there.
pub fn after_last(cs: &[char], c: char) -> (r: usize)
    ensures
        r == last_index_of(cs@, c) + 1,
        r <= cs@.len(),
{
    let mut n: usize = cs.len();
    assert(cs@.take(n as int) =~= cs@);
    while n > 0 && cs[n - 1] != c
        invariant
            n <= cs@.len(),
            last_index_of(cs@, c) == last_index_of(cs@.take(n as int), c),
        decreases n,
    {
        assert(cs@.take(n as int).drop_last() =~= cs@.take(n - 1));
        n = n - 1;
    }
    n
}

/// The pieces of `s` between occurrences of `c`; one piece more than there are
/// occurrences.
pub open spec fn split(s: Seq<char>, c: char) -> Seq<Seq<char>>
    decreases s.len(),
{
    let i = index_of(s, c);
    if 0 <= i < s.len() {
        seq![s.take(i)] + split(s.skip(i + 1), c)
    } else {
        seq![s]
    }
}

pub fn split_at_char<'a>(cs: &'a [char], c: char) -> (r: Vec<&'a [char]>)
    ensures
        views(r@) == split(cs@, c),
{
    let mut out: Vec<&'a [char]> = Vec::new();
    let mut rest: &'a [char] = cs;
    let mut i: usize = find_char(rest, c);
    assert(views(out@) + split(rest@, c) =~= split(cs@, c));
    while i < rest.len()
        invariant
            i == index_of(rest@, c),
            views(out@) + split(rest@, c) == split(cs@, c),
        decreases rest@.len(),
    {
        let ghost before = views(out@);
        let ghost old_rest = rest@;
        let piece: &'a [char] = slice_subrange(rest, 0, i);
        out.push(piece);
        rest = slice_subrange(rest, i + 1, rest.len());
        assert(views(out@) =~= before.push(piece@));
        assert(rest@ =~= old_rest.skip(i + 1));
        assert(piece@ =~= old_rest.take(i as int));
        assert(split(old_rest, c) == seq![old_rest.take(i as int)] + split(old_rest.skip(i + 1), c));
        assert(views(out@) + split(rest@, c) =~= before + split(old_rest, c));
        i = find_char(rest, c);
    }
    let ghost before = views(out@);
    out.push(rest);
    proof {
        lemma_index_of(rest@, c);
        assert(split(rest@, c) == seq![rest@]);
        assert(views(out@) =~= before + split(rest@, c));
    }
    out
}

/// `s` without one trailing carriage return.
pub open spec fn strip_cr(s: Seq<char>) -> Seq<char> {
    if s.len() > 0 && s.last() == '\r' {
        s.drop_last()
    } else {
        s
    }
}

/// The lines of `s`: what stands before each line feed, less one carriage return
/// right before it, and what follows the last line feed if that is not empty.
pub open spec fn lines(s: Seq<char>) -> Seq<Seq<char>>
    decreases s.len(),
{
    let i = index_of(s, '\n');
    if s.len() == 0 {
        seq![]
    } else if 0 <= i < s.len() {
        seq![strip_cr(s.take(i))] + lines(s.skip(i + 1))
    } else {
        seq![s]
    }
}

/// The lines of two texts one after the other, the first of which ends with a line
/// break, are the lines of the one and of the other.
pub proof fn lemma_lines_append(a: Seq<char>, b: Seq<char>)
    requires
        a.len() > 0 ==> a.last() == '\n',
    ensures
        lines(a + b) == lines(a) + lines(b),
    decreases a.len(),
{
    if a.len() == 0 {
        assert(a + b =~= b);
        assert(lines(a) + lines(b) =~= lines(b));
    } else {
        lemma_index_of(a, '\n');
        assert(a[a.len() - 1] == '\n');
        let i = index_of(a, '\n');
        let t = a.skip(i + 1);
        assert forall|j: int| 0 <= j < i implies (a + b)[j] != '\n' by {
            assert((a + b)[j] == a[j]);
        }
        lemma_index_of_is(a + b, '\n', i);
        assert((a + b).take(i) =~= a.take(i));
        assert((a + b).skip(i + 1) =~= t + b);
        assert(t.len() > 0 ==> t.last() == a.last());
        lemma_lines_append(t, b);
        assert(lines(a + b) =~= lines(a) + lines(b));
    }
}

pub fn lines_of<'a>(cs: &'a [char]) -> (r: Vec<&'a [char]>)
    ensures
        views(r@) == lines(cs@),
{
    let mut out: Vec<&'a [char]> = Vec::new();
    let mut rest: &'a [char] = cs;
    assert(views(out@) + lines(rest@) =~= lines(cs@));
    let mut i: usize = find_char(rest, '\n');
    while i < rest.len()
        invariant
            i == index_of(rest@, '\n'),
            views(out@) + lines(rest@) == lines(cs@),
        decreases rest@.len(),
    {
        let ghost before = views(out@);
        let ghost old_rest = rest@;
        let end: usize = if i > 0 && rest[i - 1] == '\r' {
            i - 1
        } else {
            i
        };
        let piece: &'a [char] = slice_subrange(rest, 0, end);
        out.push(piece);
        rest = slice_subrange(rest, i + 1, rest.len());
        assert(views(out@) =~= before.push(piece@));
        assert(rest@ =~= old_rest.skip(i + 1));
        assert(piece@ =~= strip_cr(old_rest.take(i as int)));
        assert(lines(old_rest) == seq![strip_cr(old_rest.take(i as int))] + lines(
            old_rest.skip(i + 1),
        ));
        assert(views(out@) + lines(rest@) =~= before + lines(old_rest));
        i = find_char(rest, '\n');
    }
    let ghost before = views(out@);
    proof {
        lemma_index_of(rest@, '\n');
    }
    if rest.len() > 0 {
        out.push(rest);
        assert(lines(rest@) == seq![rest@]);
        assert(views(out@) =~= before + lines(rest@));
    } else {
        assert(views(out@) =~= before + lines(rest@));
    }
    out
}

/// What stands before and after the first `c` of `s`.
pub open spec fn split_once(s: Seq<char>, c: char) -> Option<(Seq<char>, Seq<char>)> {
    let i = index_of(s, c);
    if i < s.len() {
        Some((s.take(i), s.skip(i + 1)))
    } else {
        None
    }
}

pub fn split_once_at<'a>(cs: &'a [char], c: char) -> (r: Option<(&'a [char], &'a [char])>)
    ensures
        match r {
            Some((a, b)) => split_once(cs@, c) == Some((a@, b@)),
            None => split_once(cs@, c) is None,
        },
{
    let i: usize = find_char(cs, c);
    if i < cs.len() {
        let a: &'a [char] = slice_subrange(cs, 0, i);
        let b: &'a [char] = slice_subrange(cs, i + 1, cs.len());
        assert(a@ =~= cs@.take(i as int));
        assert(b@ =~= cs@.skip(i + 1));
        Some((a, b))
    } else {
        None
    }
}

/// Whether `p` stands in `s` at index `i`.
pub open spec fn occurs_at(s: Seq<char>, p: Seq<char>, i: int) -> bool {
    0 <= i && i + p.len() <= s.len() && s.subrange(i, i + p.len()) == p
}

/// The first index at which `p` stands in `s`.
pub open spec fn find(s: Seq<char>, p: Seq<char>) -> Option<int>
    decreases s.len(),
{
    if p.is_prefix_of(s) {
        Some(0)
    } else if s.len() == 0 {
        None
    } else {
        match find(s.drop_first(), p) {
            Some(i) => Some(i + 1),
            None => None,
        }
    }
}

/// What `find` finds is an occurrence.
pub proof fn lemma_find(s: Seq<char>, p: Seq<char>)
    ensures
        find(s, p) matches Some(i) ==> occurs_at(s, p, i),
    decreases s.len(),
{
    if p.is_prefix_of(s) {
        assert(s.subrange(0, p.len() as int) =~= p);
    } else if s.len() > 0 {
        let t = s.drop_first();
        lemma_find(t, p);
        match find(t, p) {
            Some(i) => {
                assert(s.subrange(i + 1, i + 1 + p.len()) =~= t.subrange(i, i + p.len()));
            },
            None => {},
        }
    }
}

/// What is found within the first characters of a text is found at the same place in
/// every text that starts with these.
pub proof fn lemma_find_in_prefix(s: Seq<char>, t: Seq<char>, p: Seq<char>)
    requires
        find(s, p) matches Some(i) && i + p.len() <= s.len() && i + p.len() <= t.len() && s.take(
            i + p.len(),
        ) == t.take(i + p.len()),
    ensures
        find(t, p) == find(s, p),
    decreases s.len(),
{
    let i = find(s, p)->0;
    let n = i + p.len();
    lemma_find(s, p);
    assert forall|k: int| 0 <= k < n implies s[k] == t[k] by {
        assert(s.take(n)[k] == t.take(n)[k]);
    }
    if p.is_prefix_of(s) {
        assert(t.take(p.len() as int) =~= s.take(p.len() as int));
        assert(p.is_prefix_of(t));
    } else {
        if p.is_prefix_of(t) {
            assert(s.take(p.len() as int) =~= t.take(p.len() as int));
            assert(p.is_prefix_of(s));
        }
        let (u, v) = (s.drop_first(), t.drop_first());
        assert(u.take(n - 1) =~= v.take(n - 1));
        lemma_find_in_prefix(u, v, p);
    }
}

/// Whether `s` has `p` somewhere in it.
pub open spec fn contains(s: Seq<char>, p: Seq<char>) -> bool {
    find(s, p) is Some
}

pub fn begins_with(cs: &[char], p: &[char]) -> (r: bool)
    ensures
        r == p@.is_prefix_of(cs@),
{
    if cs.len() < p.len() {
        return false;
    }
    same_chars(slice_subrange(cs, 0, p.len()), p)
}

pub fn find_chars(cs: &[char], p: &[char]) -> (r: Option<usize>)
    ensures
        match r {
            Some(i) => find(cs@, p@) == Some(i as int) && i + p@.len() <= cs@.len(),
            None => find(cs@, p@) is None,
        },
{
    let mut i: usize = 0;
    assert(cs@.skip(0) =~= cs@);
    while !begins_with(slice_subrange(cs, i, cs.len()), p)
        invariant
            i <= cs@.len(),
            find(cs@, p@) == (match find(cs@.skip(i as int), p@) {
                Some(k) => Some(k + i),
                None => None,
            }),
        decreases cs@.len() - i,
    {
        assert(cs@.subrange(i as int, cs@.len() as int) =~= cs@.skip(i as int));
        if i == cs.len() {
            return None;
        }
        assert(cs@.skip(i as int).drop_first() =~= cs@.skip(i + 1));
        i = i + 1;
    }
    assert(cs@.subrange(i as int, cs@.len() as int) =~= cs@.skip(i as int));
    Some(i)
}

/// Whether `p` occurs in `cs`.
pub fn has_chars(cs: &[char], p: &[char]) -> (r: bool)
    ensures
        r == contains(cs@, p@),
{
    find_chars(cs, p).is_some()
}

/// What follows `p` in `s`, when `s` starts with `p`.
pub open spec fn strip_prefix(s: Seq<char>, p: Seq<char>) -> Option<Seq<char>> {
    if p.is_prefix_of(s) {
        Some(s.skip(p.len() as int))
    } else {
        None
    }
}

/// Whether `cs` starts with the text `p`.
pub fn begins_with_text(cs: &[char], p: &str) -> (r: bool)
    ensures
        r == p@.is_prefix_of(cs@),
{
    let q: Vec<char> = chars_of(p);
    begins_with(cs, q.as_slice())
}

/// Whether `cs` is the text `p`.
pub fn is_text(cs: &[char], p: &str) -> (r: bool)
    ensures
        r == (cs@ == p@),
{
    let q: Vec<char> = chars_of(p);
    same_chars(cs, q.as_slice())
}

pub fn without_prefix<'a>(cs: &'a [char], p: &str) -> (r: Option<&'a [char]>)
    ensures
        match r {
            Some(t) => strip_prefix(cs@, p@) == Some(t@),
            None => strip_prefix(cs@, p@) is None,
        },
{
    let q: Vec<char> = chars_of(p);
    if begins_with(cs, q.as_slice()) {
        let t: &'a [char] = slice_subrange(cs, q.len(), cs.len());
        assert(t@ =~= cs@.skip(q@.len() as int));
        Some(t)
    } else {
        None
    }
}

/// The first index of white space in `s`, or the length of `s`.
pub open spec fn white_space_index(s: Seq<char>) -> int
    decreases s.len(),
{
    if s.len() == 0 || is_white_space(s[0]) {
        0
    } else {
        1 + white_space_index(s.drop_first())
    }
}

pub fn find_white_space(cs: &[char]) -> (r: usize)
    ensures
        r == white_space_index(cs@),
        r <= cs@.len(),
{
    let mut i: usize = 0;
    assert(cs@.skip(0) =~= cs@);
    while i < cs.len() && !white_space(cs[i])
        invariant
            i <= cs@.len(),
            white_space_index(cs@) == i + white_space_index(cs@.skip(i as int)),
        decreases cs@.len() - i,
    {
        assert(cs@.skip(i as int).drop_first() =~= cs@.skip(i + 1));
        i = i + 1;
    }
    i
}

proof fn lemma_trim_start_len(s: Seq<char>)
    ensures
        trim_start(s).len() <= s.len(),
        trim_start(s).len() > 0 ==> !is_white_space(trim_start(s)[0]),
    decreases s.len(),
{
    if s.len() > 0 && is_white_space(s[0]) {
        lemma_trim_start_len(s.drop_first());
    }
}

/// The words of `s`: its longest pieces without white space.
pub open spec fn words(s: Seq<char>) -> Seq<Seq<char>>
    decreases s.len(),
    via words_decreases
{
    let t = trim_start(s);
    if t.len() == 0 {
        seq![]
    } else {
        let w = white_space_index(t);
        seq![t.take(w)] + words(t.skip(w))
    }
}

#[via_fn]
proof fn words_decreases(s: Seq<char>) {
    lemma_trim_start_len(s);
    lemma_white_space_index(trim_start(s));
}

proof fn lemma_white_space_index(s: Seq<char>)
    ensures
        0 <= white_space_index(s) <= s.len(),
        s.len() > 0 && !is_white_space(s[0]) ==> white_space_index(s) > 0,
        forall|j: int| 0 <= j < white_space_index(s) ==> !is_white_space(#[trigger] s[j]),
        white_space_index(s) < s.len() ==> is_white_space(s[white_space_index(s)]),
    decreases s.len(),
{
    if s.len() > 0 && !is_white_space(s[0]) {
        let t = s.drop_first();
        lemma_white_space_index(t);
        assert forall|j: int| 0 <= j < white_space_index(s) implies !is_white_space(
            #[trigger] s[j],
        ) by {
            if j > 0 {
                assert(s[j] == t[j - 1]);
            }
        }
    }
}

pub fn words_in<'a>(cs: &'a [char]) -> (r: Vec<&'a [char]>)
    ensures
        views(r@) == words(cs@),
{
    let mut out: Vec<&'a [char]> = Vec::new();
    let mut rest: &'a [char] = trimmed_start(cs);
    proof {
        lemma_trim_start_len(cs@);
        lemma_trim_start_idempotent(cs@);
        assert(views(out@) + words(rest@) =~= words(cs@)) by {
            assert(words(rest@) == words(cs@));
        }
    }
    while rest.len() > 0
        invariant
            rest@ == trim_start(rest@),
            views(out@) + words(rest@) == words(cs@),
        decreases rest@.len(),
    {
        let ghost before = views(out@);
        let ghost old_rest = rest@;
        let w: usize = find_white_space(rest);
        proof {
            lemma_white_space_index(rest@);
            lemma_trim_start_len(rest@);
        }
        let piece: &'a [char] = slice_subrange(rest, 0, w);
        out.push(piece);
        let tail: &'a [char] = slice_subrange(rest, w, rest.len());
        assert(piece@ =~= old_rest.take(w as int));
        assert(tail@ =~= old_rest.skip(w as int));
        assert(views(out@) =~= before.push(piece@));
        rest = trimmed_start(tail);
        proof {
            lemma_trim_start_len(tail@);
            lemma_trim_start_idempotent(tail@);
            assert(words(rest@) == words(tail@));
            assert(words(old_rest) == seq![old_rest.take(w as int)] + words(
                old_rest.skip(w as int),
            ));
            assert(views(out@) + words(rest@) =~= before + words(old_rest));
        }
    }
    assert(views(out@) =~= views(out@) + words(rest@));
    out
}

proof fn lemma_trim_start_idempotent(s: Seq<char>)
    ensures
        trim_start(trim_start(s)) == trim_start(s),
    decreases s.len(),
{
    if s.len() > 0 && is_white_space(s[0]) {
        lemma_trim_start_idempotent(s.drop_first());
    }
}

/// The pieces put together with `sep` between neighbours.
pub open spec fn join(pieces: Seq<Seq<char>>, sep: Seq<char>) -> Seq<char>
    decreases pieces.len(),
{
    if pieces.len() == 0 {
        seq![]
    } else if pieces.len() == 1 {
        pieces[0]
    } else {
        join(pieces.drop_last(), sep) + sep + pieces.last()
    }
}

/// The strings put together with `sep` between neighbours.
pub fn joined(pieces: &Vec<String>, sep: &str) -> (r: String)
    ensures
        r@ == join(string_views(pieces@), sep@),
{
    let mut out: String = String::new();
    let mut i: usize = 0;
    let ghost all = string_views(pieces@);
    assert(out@ =~= join(all.take(0), sep@));
    while i < pieces.len()
        invariant
            i <= pieces@.len(),
            all == string_views(pieces@),
            out@ == join(all.take(i as int), sep@),
        decreases pieces@.len() - i,
    {
        let ghost before = out@;
        if i > 0 {
            out.append(sep);
        }
        out.append(pieces[i].as_str());
        i = i + 1;
        assert(all.take(i as int).drop_last() =~= all.take(i - 1));
        assert(out@ =~= join(all.take(i as int), sep@));
    }
    assert(all.take(i as int) =~= all);
    out
}

/// Whether `cs` ends with the text `p`.
pub fn ends_with_text(cs: &[char], p: &str) -> (r: bool)
    ensures
        r == p@.is_suffix_of(cs@),
{
    let q: Vec<char> = chars_of(p);
    if cs.len() < q.len() {
        return false;
    }
    same_chars(slice_subrange(cs, cs.len() - q.len(), cs.len()), q.as_slice())
}

/// Whether `s` is without the character `c`.
pub open spec fn lacks(s: Seq<char>, c: char) -> bool {
    forall|i: int| 0 <= i < s.len() ==> #[trigger] s[i] != c
}

/// A text that trims to nothing is white space alone, and the other way round.
pub proof fn lemma_trim_blank(s: Seq<char>)
    ensures
        trim(s).len() == 0 <==> blank(s),
    decreases s.len(),
{
    if s.len() > 0 {
        if is_white_space(s[0]) {
            let t = s.drop_first();
            lemma_trim_blank(t);
            if blank(t) {
                assert forall|i: int| 0 <= i < s.len() implies is_white_space(#[trigger] s[i]) by {
                    if i > 0 {
                        assert(s[i] == t[i - 1]);
                    }
                }
            }
            if blank(s) {
                assert forall|i: int| 0 <= i < t.len() implies is_white_space(#[trigger] t[i]) by {
                    assert(t[i] == s[i + 1]);
                }
            }
        } else {
            lemma_trim_end_keeps(s);
        }
    }
}

proof fn lemma_trim_end_keeps(s: Seq<char>)
    requires
        s.len() > 0,
        !is_white_space(s[0]),
    ensures
        trim_end(s).len() > 0,
        trim_end(s)[0] == s[0],
    decreases s.len(),
{
    if is_white_space(s.last()) {
        assert(s.len() > 1);
        lemma_trim_end_keeps(s.drop_last());
    }
}

pub proof fn lemma_join_first(pieces: Seq<Seq<char>>, sep: Seq<char>)
    requires
        pieces.len() > 1,
    ensures
        join(pieces, sep) == pieces[0] + sep + join(pieces.drop_first(), sep),
    decreases pieces.len(),
{
    let rest = pieces.drop_first();
    if pieces.len() == 2 {
        assert(pieces.drop_last().len() == 1);
        assert(join(pieces.drop_last(), sep) == pieces[0]);
        assert(join(rest, sep) == pieces[1]);
        assert(join(pieces, sep) =~= pieces[0] + sep + join(rest, sep));
    } else {
        lemma_join_first(pieces.drop_last(), sep);
        assert(pieces.drop_last().drop_first() =~= rest.drop_last());
        assert(join(pieces, sep) =~= pieces[0] + sep + join(rest, sep));
    }
}

/// Splitting at a character and joining with it gives the text back, and no piece
/// has the character.
pub proof fn law_join_of_split(s: Seq<char>, c: char)
    ensures
        join(split(s, c), seq![c]) == s,
        split(s, c).len() > 0,
        forall|i: int| 0 <= i < split(s, c).len() ==> lacks(#[trigger] split(s, c)[i], c),
    decreases s.len(),
{
    lemma_index_of(s, c);
    let i = index_of(s, c);
    let ps = split(s, c);
    if i < s.len() {
        let t = s.skip(i + 1);
        law_join_of_split(t, c);
        assert(ps.drop_first() =~= split(t, c));
        lemma_join_first(ps, seq![c]);
        assert(s =~= s.take(i) + seq![c] + t);
        assert forall|k: int| 0 <= k < ps.len() implies lacks(#[trigger] ps[k], c) by {
            if k > 0 {
                assert(ps[k] == split(t, c)[k - 1]);
            }
        }
    }
}

/// Pieces without a character, joined with it, split into those pieces again.
pub proof fn law_split_of_join(pieces: Seq<Seq<char>>, c: char)
    requires
        pieces.len() > 0,
        forall|i: int| 0 <= i < pieces.len() ==> lacks(#[trigger] pieces[i], c),
    ensures
        split(join(pieces, seq![c]), c) == pieces,
    decreases pieces.len(),
{
    let s = join(pieces, seq![c]);
    let p = pieces[0];
    assert(lacks(p, c));
    if pieces.len() == 1 {
        lemma_index_of_is(s, c, s.len() as int);
        assert(split(s, c) =~= pieces);
    } else {
        let rest = pieces.drop_first();
        assert forall|i: int| 0 <= i < rest.len() implies lacks(#[trigger] rest[i], c) by {
            assert(rest[i] == pieces[i + 1]);
        }
        law_split_of_join(rest, c);
        lemma_join_first(pieces, seq![c]);
        assert forall|j: int| 0 <= j < p.len() implies s[j] != c by {
            assert(s[j] == p[j]);
        }
        lemma_index_of_is(s, c, p.len() as int);
        assert(s.take(p.len() as int) =~= p);
        assert(s.skip(p.len() as int + 1) =~= join(rest, seq![c]));
        assert(split(s, c) =~= pieces);
    }
}

/// Whether no line feed of `s` has a carriage return right before it.
pub open spec fn plain_breaks(s: Seq<char>) -> bool {
    forall|i: int, j: int|
        0 <= i && j == i + 1 && j < s.len() && #[trigger] s[j] == '\n' ==> #[trigger] s[i] != '\r'
}

/// A text with plain line breaks that does not end in one has the same lines as
/// pieces between line breaks.
pub proof fn lemma_lines_are_pieces(s: Seq<char>)
    requires
        s.len() > 0,
        s.last() != '\n',
        plain_breaks(s),
    ensures
        lines(s) == split(s, '\n'),
    decreases s.len(),
{
    lemma_index_of(s, '\n');
    let i = index_of(s, '\n');
    if i < s.len() {
        let t = s.skip(i + 1);
        assert(t.last() == s.last());
        lemma_plain_breaks_skip(s, i + 1);
        lemma_lines_are_pieces(t);
        assert(strip_cr(s.take(i)) == s.take(i)) by {
            if i > 0 {
                assert(s.take(i).last() == s[i - 1]);
            }
        }
    }
}

/// A text with plain line breaks that ends in one has the pieces between line
/// breaks as its lines, but for the empty piece at the end.
pub proof fn lemma_lines_are_closed_pieces(s: Seq<char>)
    requires
        s.len() > 0,
        s.last() == '\n',
        plain_breaks(s),
    ensures
        split(s, '\n') == lines(s).push(seq![]),
    decreases s.len(),
{
    lemma_index_of(s, '\n');
    let i = index_of(s, '\n');
    assert(s[s.len() - 1] == '\n');
    let t = s.skip(i + 1);
    lemma_plain_breaks_skip(s, i + 1);
    assert(strip_cr(s.take(i)) == s.take(i)) by {
        if i > 0 {
            assert(s.take(i).last() == s[i - 1]);
        }
    }
    if t.len() > 0 {
        assert(t.last() == s.last());
        lemma_lines_are_closed_pieces(t);
    } else {
        assert(t =~= seq![]);
        assert(split(t, '\n') =~= seq![t]);
        assert(lines(t) =~= seq![]);
    }
    assert(split(s, '\n') =~= lines(s).push(seq![]));
}

proof fn lemma_plain_breaks_skip(s: Seq<char>, n: int)
    requires
        plain_breaks(s),
        0 <= n <= s.len(),
    ensures
        plain_breaks(s.skip(n)),
{
    let t = s.skip(n);
    assert forall|i: int, j: int|
        0 <= i && j == i + 1 && j < t.len() && #[trigger] t[j] == '\n' implies #[trigger] t[i]
        != '\r' by {
        assert(s[n + j] == '\n' && s[n + i] == t[i]);
    }
}

/// Whether none of the pieces but the last ends in a carriage return.
pub open spec fn plain_ends(pieces: Seq<Seq<char>>) -> bool {
    forall|k: int|
        0 <= k < pieces.len() - 1 && (#[trigger] pieces[k]).len() > 0 ==> pieces[k].last() != '\r'
}

/// The pieces between plain line breaks do not end in carriage returns.
pub proof fn lemma_pieces_have_plain_ends(s: Seq<char>)
    requires
        plain_breaks(s),
    ensures
        plain_ends(split(s, '\n')),
    decreases s.len(),
{
    lemma_index_of(s, '\n');
    let i = index_of(s, '\n');
    if i < s.len() {
        let t = s.skip(i + 1);
        lemma_plain_breaks_skip(s, i + 1);
        lemma_pieces_have_plain_ends(t);
        let ps = split(s, '\n');
        assert forall|k: int| 0 <= k < ps.len() - 1 && (#[trigger] ps[k]).len() > 0 implies ps[k].last()
            != '\r' by {
            if k == 0 {
                assert(ps[0].last() == s[i - 1]);
            } else {
                assert(ps[k] == split(t, '\n')[k - 1]);
            }
        }
    }
}

/// Pieces that do not end in carriage returns make a text with plain line breaks.
pub proof fn lemma_join_has_plain_breaks(pieces: Seq<Seq<char>>)
    requires
        pieces.len() > 0,
        plain_ends(pieces),
        forall|i: int| 0 <= i < pieces.len() ==> lacks(#[trigger] pieces[i], '\n'),
    ensures
        plain_breaks(join(pieces, seq!['\n'])),
    decreases pieces.len(),
{
    let s = join(pieces, seq!['\n']);
    let p = pieces[0];
    assert(lacks(p, '\n'));
    if pieces.len() > 1 {
        let rest = pieces.drop_first();
        assert forall|i: int| 0 <= i < rest.len() implies lacks(#[trigger] rest[i], '\n') by {
            assert(rest[i] == pieces[i + 1]);
        }
        assert forall|k: int|
            0 <= k < rest.len() - 1 && (#[trigger] rest[k]).len() > 0 implies rest[k].last()
            != '\r' by {
            assert(rest[k] == pieces[k + 1]);
        }
        lemma_join_has_plain_breaks(rest);
        lemma_join_first(pieces, seq!['\n']);
        let t = join(rest, seq!['\n']);
        let n = p.len() as int;
        assert forall|i: int, j: int|
            0 <= i && j == i + 1 && j < s.len() && #[trigger] s[j] == '\n' implies #[trigger] s[i]
            != '\r' by {
            if j < n {
                assert(s[j] == p[j]);
            } else if j == n {
                assert(s[i] == p.last());
            } else if j > n + 1 {
                assert(s[j] == t[j - n - 1]);
                assert(s[i] == t[i - n - 1]);
            }
        }
    } else {
        assert forall|i: int, j: int|
            0 <= i && j == i + 1 && j < s.len() && #[trigger] s[j] == '\n' implies #[trigger] s[i]
            != '\r' by {
            assert(s[j] == p[j]);
        }
    }
}

/// Joining brings in no character that neither the pieces nor the separator have.
pub proof fn lemma_join_lacks(pieces: Seq<Seq<char>>, sep: Seq<char>, c: char)
    requires
        forall|i: int| 0 <= i < pieces.len() ==> lacks(#[trigger] pieces[i], c),
        lacks(sep, c),
    ensures
        lacks(join(pieces, sep), c),
    decreases pieces.len(),
{
    if pieces.len() > 0 {
        assert(lacks(pieces[pieces.len() - 1], c));
        if pieces.len() > 1 {
            let front = pieces.drop_last();
            assert forall|i: int| 0 <= i < front.len() implies lacks(#[trigger] front[i], c) by {
                assert(front[i] == pieces[i]);
            }
            lemma_join_lacks(front, sep, c);
        }
    }
}

/// The pieces of a text have no character that the text lacks.
pub proof fn lemma_split_lacks(s: Seq<char>, c: char, d: char)
    requires
        lacks(s, d),
    ensures
        forall|i: int| 0 <= i < split(s, c).len() ==> lacks(#[trigger] split(s, c)[i], d),
    decreases s.len(),
{
    lemma_index_of(s, c);
    let i = index_of(s, c);
    if i < s.len() {
        let t = s.skip(i + 1);
        assert forall|j: int| 0 <= j < t.len() implies #[trigger] t[j] != d by {
            assert(t[j] == s[i + 1 + j]);
        }
        lemma_split_lacks(t, c, d);
        assert forall|k: int| 0 <= k < split(s, c).len() implies lacks(
            #[trigger] split(s, c)[k],
            d,
        ) by {
            if k > 0 {
                assert(split(s, c)[k] == split(t, c)[k - 1]);
            }
        }
    }
}

/// What no character of a text is, none of its pieces is.
pub proof fn lemma_pieces_lack(s: Seq<char>, c: char, d: char, k: int)
    requires
        lacks(s, d),
        0 <= k < split(s, c).len(),
    ensures
        lacks(split(s, c)[k], d),
    decreases s.len(),
{
    lemma_index_of(s, c);
    let i = index_of(s, c);
    if i < s.len() {
        let t = s.skip(i + 1);
        if k > 0 {
            assert forall|j: int| 0 <= j < t.len() implies #[trigger] t[j] != d by {
                assert(t[j] == s[i + 1 + j]);
            }
            lemma_pieces_lack(t, c, d, k - 1);
        }
    }
}

/// The pieces of a blank text are blank.
pub proof fn lemma_split_blank(s: Seq<char>, c: char, k: int)
    requires
        blank(s),
        0 <= k < split(s, c).len(),
    ensures
        blank(split(s, c)[k]),
    decreases s.len(),
{
    lemma_index_of(s, c);
    let i = index_of(s, c);
    if i < s.len() {
        let t = s.skip(i + 1);
        if k > 0 {
            assert forall|j: int| 0 <= j < t.len() implies is_white_space(#[trigger] t[j]) by {
                assert(t[j] == s[i + 1 + j]);
            }
            lemma_split_blank(t, c, k - 1);
            assert(split(s, c)[k] == split(t, c)[k - 1]);
        }
    }
}

/// What is joined to a blank text is blank.
pub proof fn lemma_join_blank(pieces: Seq<Seq<char>>, sep: Seq<char>, k: int)
    requires
        blank(join(pieces, sep)),
        0 <= k < pieces.len(),
    ensures
        blank(pieces[k]),
    decreases pieces.len(),
{
    if pieces.len() > 1 {
        let front = join(pieces.drop_last(), sep);
        let all = join(pieces, sep);
        if k < pieces.len() - 1 {
            assert forall|j: int| 0 <= j < front.len() implies is_white_space(
                #[trigger] front[j],
            ) by {
                assert(front[j] == all[j]);
            }
            lemma_join_blank(pieces.drop_last(), sep, k);
        } else {
            let last = pieces.last();
            assert forall|j: int| 0 <= j < last.len() implies is_white_space(
                #[trigger] last[j],
            ) by {
                assert(last[j] == all[front.len() + sep.len() + j]);
            }
        }
    }
}

pub proof fn lemma_last_index_of(s: Seq<char>, c: char)
    ensures
        -1 <= last_index_of(s, c) < s.len(),
        last_index_of(s, c) >= 0 ==> s[last_index_of(s, c)] == c,
        forall|j: int| last_index_of(s, c) < j < s.len() ==> s[j] != c,
    decreases s.len(),
{
    if s.len() > 0 && s.last() != c {
        lemma_last_index_of(s.drop_last(), c);
        assert forall|j: int| last_index_of(s, c) < j < s.len() implies s[j] != c by {
            if j < s.len() - 1 {
                assert(s[j] == s.drop_last()[j]);
            }
        }
    }
}

/// Trimming brings in no character.
pub proof fn lemma_trim_lacks(s: Seq<char>, c: char)
    requires
        lacks(s, c),
    ensures
        lacks(trim(s), c),
    decreases s.len(),
{
    if s.len() > 0 && is_white_space(s[0]) {
        let t = s.drop_first();
        assert forall|i: int| 0 <= i < t.len() implies #[trigger] t[i] != c by {
            assert(t[i] == s[i + 1]);
        }
        lemma_trim_lacks(t, c);
    } else {
        lemma_trim_end_result(s);
    }
}

/// A text has whatever stands somewhere in it.
pub proof fn lemma_contains_at(s: Seq<char>, p: Seq<char>, i: int)
    requires
        occurs_at(s, p, i),
    ensures
        contains(s, p),
    decreases s.len(),
{
    if !p.is_prefix_of(s) {
        if i == 0 {
            assert(s.subrange(0, p.len() as int) =~= p);
        } else {
            let t = s.drop_first();
            assert(t.subrange(i - 1, i - 1 + p.len()) =~= s.subrange(i, i + p.len()));
            lemma_contains_at(t, p, i - 1);
        }
    }
}

/// Whether `s` is a word: not empty, and without white space.
pub open spec fn is_word(s: Seq<char>) -> bool {
    s.len() > 0 && forall|i: int| 0 <= i < s.len() ==> !is_white_space(#[trigger] s[i])
}

proof fn lemma_white_space_index_is(s: Seq<char>, i: int)
    requires
        0 <= i <= s.len(),
        forall|j: int| 0 <= j < i ==> !is_white_space(#[trigger] s[j]),
        i < s.len() ==> is_white_space(s[i]),
    ensures
        white_space_index(s) == i,
{
    lemma_white_space_index(s);
    let w = white_space_index(s);
    if w < i {
        assert(!is_white_space(s[w]));
    }
}

/// Words with a space between neighbours are read as those words.
pub proof fn law_words_of_join(ws: Seq<Seq<char>>)
    requires
        forall|i: int| 0 <= i < ws.len() ==> is_word(#[trigger] ws[i]),
    ensures
        words(join(ws, " "@)) == ws,
    decreases ws.len(),
{
    reveal_strlit(" ");
    let s = join(ws, " "@);
    if ws.len() == 0 {
        assert(words(s) =~= ws);
    } else {
        let p = ws[0];
        assert(is_word(p));
        assert(!is_white_space(p[0]));
        let rest = ws.drop_first();
        assert forall|i: int| 0 <= i < rest.len() implies is_word(#[trigger] rest[i]) by {
            assert(rest[i] == ws[i + 1]);
        }
        law_words_of_join(rest);
        if ws.len() == 1 {
            lemma_white_space_index_is(s, s.len() as int);
            assert(s.take(s.len() as int) =~= s);
            assert(s.skip(s.len() as int) =~= seq![]);
            assert(words(s.skip(s.len() as int)) =~= seq![]);
            assert(words(s) =~= ws);
        } else {
            lemma_join_first(ws, " "@);
            let tail = join(rest, " "@);
            assert forall|j: int| 0 <= j < p.len() implies !is_white_space(#[trigger] s[j]) by {
                assert(s[j] == p[j]);
            }
            lemma_white_space_index_is(s, p.len() as int);
            assert(s.take(p.len() as int) =~= p);
            let after = s.skip(p.len() as int);
            assert(after =~= seq![' '] + tail);
            assert(trim_start(after) == trim_start(tail)) by {
                assert(after.drop_first() =~= tail);
            }
            assert(words(after) == words(tail));
            assert(words(s) =~= ws);
        }
    }
}

} // verus!
