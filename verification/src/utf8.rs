//! Characters and bytes: where the characters of a string stand in its UTF-8
//! encoding.

use vstd::prelude::*;
use vstd::string::*;
use vstd::utf8::{char_is_scalar, encode_scalar, encode_utf8};

verus! {

/// The number of bytes that `s` takes in UTF-8.
pub open spec fn byte_len(s: Seq<char>) -> int {
    encode_utf8(s).len() as int
}

/// The number of bytes that `c` takes in UTF-8.
pub open spec fn char_bytes(c: char) -> int {
    encode_scalar(c as u32).len() as int
}

pub proof fn lemma_char_bytes(c: char)
    ensures
        1 <= char_bytes(c) <= 4,
        char_bytes(c) == 1 <==> c as u32 <= 0x7f,
{
    char_is_scalar(c);
}

pub fn char_width(c: char) -> (r: usize)
    ensures
        r == char_bytes(c),
        1 <= r <= 4,
{
    let u: u32 = c as u32;
    proof {
        char_is_scalar(c);
    }
    if u <= 0x7f {
        1
    } else if u <= 0x7ff {
        2
    } else if u <= 0xffff {
        3
    } else {
        4
    }
}

pub proof fn lemma_encode_concat(a: Seq<char>, b: Seq<char>)
    ensures
        encode_utf8(a + b) == encode_utf8(a) + encode_utf8(b),
    decreases a.len(),
{
    if a.len() == 0 {
        assert(a + b =~= b);
        assert(encode_utf8(a + b) =~= encode_utf8(a) + encode_utf8(b));
    } else {
        assert((a + b).drop_first() =~= a.drop_first() + b);
        lemma_encode_concat(a.drop_first(), b);
        assert(encode_utf8(a + b) =~= encode_utf8(a) + encode_utf8(b));
    }
}

pub proof fn lemma_byte_len_push(s: Seq<char>, c: char)
    ensures
        byte_len(s.push(c)) == byte_len(s) + char_bytes(c),
{
    assert(s.push(c) =~= s + seq![c]);
    lemma_encode_concat(s, seq![c]);
    reveal_with_fuel(encode_utf8, 2);
    assert(seq![c].drop_first() =~= Seq::<char>::empty());
    assert(encode_utf8(seq![c]) =~= encode_scalar(c as u32));
}

pub proof fn lemma_byte_len_split(s: Seq<char>, i: int)
    requires
        0 <= i <= s.len(),
    ensures
        byte_len(s) == byte_len(s.take(i)) + byte_len(s.skip(i)),
{
    assert(s =~= s.take(i) + s.skip(i));
    lemma_encode_concat(s.take(i), s.skip(i));
}

pub proof fn lemma_byte_len_at_least(s: Seq<char>)
    ensures
        byte_len(s) >= s.len(),
    decreases s.len(),
{
    if s.len() > 0 {
        lemma_byte_len_at_least(s.drop_last());
        lemma_byte_len_push(s.drop_last(), s.last());
        lemma_char_bytes(s.last());
        assert(s.drop_last().push(s.last()) =~= s);
    }
}

/// The number of bytes of `s`.
pub fn text_bytes(s: &str) -> (r: usize)
    ensures
        r == byte_len(s@),
{
    s.as_bytes().len()
}

/// The number of bytes of the first `n` characters of `cs`, which come from a
/// string of `total` bytes.
pub fn prefix_bytes(cs: &[char], n: usize, total: usize) -> (r: usize)
    requires
        n <= cs@.len(),
        byte_len(cs@) <= total,
    ensures
        r == byte_len(cs@.take(n as int)),
{
    let mut i: usize = 0;
    let mut b: usize = 0;
    assert(cs@.take(0) =~= Seq::<char>::empty());
    while i < n
        invariant
            i <= n <= cs@.len(),
            byte_len(cs@) <= total,
            b == byte_len(cs@.take(i as int)),
        decreases n - i,
    {
        proof {
            assert(cs@.take(i + 1) =~= cs@.take(i as int).push(cs@[i as int]));
            lemma_byte_len_push(cs@.take(i as int), cs@[i as int]);
            lemma_byte_len_split(cs@, i + 1);
        }
        b = b + char_width(cs[i]);
        i = i + 1;
    }
    b
}

/// How many characters of `s` lie whole within its first `n` bytes.
pub open spec fn chars_within(s: Seq<char>, n: int) -> int
    decreases s.len(),
{
    if s.len() > 0 && char_bytes(s[0]) <= n {
        1 + chars_within(s.drop_first(), n - char_bytes(s[0]))
    } else {
        0
    }
}

/// The characters within the first `n` bytes are as many as fit.
pub proof fn law_chars_within_is_greatest(s: Seq<char>, n: int)
    requires
        n >= 0,
    ensures
        0 <= chars_within(s, n) <= s.len(),
        byte_len(s.take(chars_within(s, n))) <= n,
        chars_within(s, n) < s.len() ==> byte_len(s.take(chars_within(s, n) + 1)) > n,
    decreases s.len(),
{
    let k = chars_within(s, n);
    reveal_with_fuel(encode_utf8, 2);
    assert(s.take(0) =~= Seq::<char>::empty());
    if s.len() > 0 {
        let c = s[0];
        let t = s.drop_first();
        if char_bytes(c) <= n {
            law_chars_within_is_greatest(t, n - char_bytes(c));
            assert(s.take(k).drop_first() =~= t.take(k - 1));
            if k < s.len() {
                assert(s.take(k + 1).drop_first() =~= t.take(k));
            }
        } else {
            assert(s.take(1).drop_first() =~= Seq::<char>::empty());
        }
    }
}

pub fn chars_in_bytes(cs: &[char], n: usize) -> (r: usize)
    ensures
        r == chars_within(cs@, n as int),
        r <= cs@.len(),
{
    let mut i: usize = 0;
    let mut left: usize = n;
    assert(cs@.skip(0) =~= cs@);
    while i < cs.len() && char_width(cs[i]) <= left
        invariant
            i <= cs@.len(),
            chars_within(cs@, n as int) == i + chars_within(cs@.skip(i as int), left as int),
        decreases cs@.len() - i,
    {
        assert(cs@.skip(i as int).drop_first() =~= cs@.skip(i + 1));
        left = left - char_width(cs[i]);
        i = i + 1;
    }
    i
}

pub proof fn lemma_chars_within_monotone(s: Seq<char>, m: int, n: int)
    requires
        m <= n,
    ensures
        chars_within(s, m) <= chars_within(s, n),
        0 <= chars_within(s, m) <= s.len(),
    decreases s.len(),
{
    if s.len() > 0 {
        lemma_chars_within_monotone(s.drop_first(), m - char_bytes(s[0]), n - char_bytes(s[0]));
    }
}

/// The bytes of the first `k` characters hold those characters and no more.
pub proof fn law_chars_within_prefix(s: Seq<char>, k: int)
    requires
        0 <= k <= s.len(),
    ensures
        chars_within(s, byte_len(s.take(k))) == k,
    decreases s.len(),
{
    reveal_with_fuel(encode_utf8, 2);
    if k == 0 {
        assert(s.take(0) =~= Seq::<char>::empty());
        if s.len() > 0 {
            lemma_char_bytes(s[0]);
        }
    } else {
        assert(s.take(k).drop_first() =~= s.drop_first().take(k - 1));
        law_chars_within_prefix(s.drop_first(), k - 1);
    }
}

/// A character takes one byte for each of the ranges that its code point is past.
pub proof fn law_characters_have_their_widths(c: char)
    ensures
        c as u32 <= 0x7f ==> char_bytes(c) == 1,
        0x80 <= c as u32 <= 0x7ff ==> char_bytes(c) == 2,
        0x800 <= c as u32 <= 0xffff ==> char_bytes(c) == 3,
        0x1_0000 <= c as u32 ==> char_bytes(c) == 4,
{
    char_is_scalar(c);
}

} // verus!
