//! Decimal numbers.

use vstd::prelude::*;
use vstd::string::*;

verus! {

/// Whether `c` is a decimal digit.
pub open spec fn is_digit(c: char) -> bool {
    '0' <= c && c <= '9'
}

/// The digit for `d`.
pub open spec fn digit(d: nat) -> char {
    if d == 0 {
        '0'
    } else if d == 1 {
        '1'
    } else if d == 2 {
        '2'
    } else if d == 3 {
        '3'
    } else if d == 4 {
        '4'
    } else if d == 5 {
        '5'
    } else if d == 6 {
        '6'
    } else if d == 7 {
        '7'
    } else if d == 8 {
        '8'
    } else {
        '9'
    }
}

/// The value of a digit.
pub open spec fn digit_value(c: char) -> nat {
    (c as u32 - 48) as nat
}

/// `n` in decimal, without leading zeros.
pub open spec fn decimal(n: nat) -> Seq<char>
    decreases n,
{
    if n < 10 {
        seq![digit(n)]
    } else {
        decimal(n / 10).push(digit(n % 10))
    }
}

/// `n` in decimal, with a minus sign when it is negative.
pub open spec fn decimal_int(n: int) -> Seq<char> {
    if n < 0 {
        seq!['-'] + decimal((-n) as nat)
    } else {
        decimal(n as nat)
    }
}

/// Whether `s` is one or more digits.
pub open spec fn all_digits(s: Seq<char>) -> bool {
    s.len() > 0 && forall|i: int| 0 <= i < s.len() ==> is_digit(#[trigger] s[i])
}

/// The number that the digits of `s` write.
pub open spec fn digits_value(s: Seq<char>) -> nat
    decreases s.len(),
{
    if s.len() == 0 {
        0
    } else {
        10 * digits_value(s.drop_last()) + digit_value(s.last())
    }
}

/// The number that `s` writes, if it is an optional plus sign and digits and the
/// number is at most `max`.
pub open spec fn parse_nat(s: Seq<char>, max: nat) -> Option<nat> {
    let d = if s.len() > 0 && s[0] == '+' {
        s.drop_first()
    } else {
        s
    };
    if all_digits(d) && digits_value(d) <= max {
        Some(digits_value(d))
    } else {
        None
    }
}

/// The number that `s` writes, if it is an optional sign and digits and the number
/// fits 32 bits with a sign.
pub open spec fn parse_signed(s: Seq<char>) -> Option<int> {
    if s.len() > 0 && s[0] == '-' {
        let d = s.drop_first();
        if all_digits(d) && digits_value(d) <= 0x8000_0000 {
            Some(-(digits_value(d) as int))
        } else {
            None
        }
    } else {
        match parse_nat(s, 0x7fff_ffff) {
            Some(n) => Some(n as int),
            None => None,
        }
    }
}

fn digit_char(d: u64) -> (r: char)
    requires
        d < 10,
    ensures
        r == digit(d as nat),
{
    match d {
        0 => '0',
        1 => '1',
        2 => '2',
        3 => '3',
        4 => '4',
        5 => '5',
        6 => '6',
        7 => '7',
        8 => '8',
        _ => '9',
    }
}

/// `n` in decimal.
pub fn nat_text(n: u64) -> (r: String)
    ensures
        r@ == decimal(n as nat),
    decreases n,
{
    if n < 10 {
        let mut out: String = String::new();
        out.push(digit_char(n));
        assert(out@ =~= seq![digit(n as nat)]);
        out
    } else {
        let mut out: String = nat_text(n / 10);
        out.push(digit_char(n % 10));
        out
    }
}

/// `n` in decimal.
pub fn int_text(n: i64) -> (r: String)
    requires
        n > i64::MIN,
    ensures
        r@ == decimal_int(n as int),
{
    if n < 0 {
        let mut out: String = String::new();
        out.push('-');
        out.append(nat_text((-n) as u64).as_str());
        assert(out@ =~= seq!['-'] + decimal((-n) as nat));
        out
    } else {
        nat_text(n as u64)
    }
}

proof fn lemma_value_grows(s: Seq<char>, i: int)
    requires
        0 <= i <= s.len(),
    ensures
        digits_value(s.take(i)) <= digits_value(s),
    decreases s.len(),
{
    if i == s.len() {
        assert(s.take(i) =~= s);
    } else {
        lemma_value_grows(s.drop_last(), i);
        assert(s.drop_last().take(i) =~= s.take(i));
    }
}

fn parse_digits(cs: &[char], from: usize, max: u64) -> (r: Option<u64>)
    requires
        from <= cs@.len(),
    ensures
        ({
            let d = cs@.skip(from as int);
            match r {
                Some(n) => all_digits(d) && digits_value(d) == n && n <= max,
                None => !(all_digits(d) && digits_value(d) <= max),
            }
        }),
{
    let ghost d = cs@.skip(from as int);
    if from >= cs.len() {
        return None;
    }
    let mut n: u64 = 0;
    let mut i: usize = from;
    assert(d.take(0) =~= Seq::<char>::empty());
    while i < cs.len()
        invariant
            from <= i <= cs@.len(),
            d == cs@.skip(from as int),
            n <= max,
            n == digits_value(d.take(i - from)),
            forall|j: int| 0 <= j < i - from ==> is_digit(#[trigger] d[j]),
        decreases cs@.len() - i,
    {
        let c: char = cs[i];
        assert(d[i - from] == c);
        if !('0' <= c && c <= '9') {
            assert(!is_digit(d[i - from]));
            return None;
        }
        let v: u32 = c as u32 - 48;
        proof {
            assert(d.take(i - from + 1).drop_last() =~= d.take(i - from));
            lemma_value_grows(d, i - from + 1);
        }
        let next: u128 = n as u128 * 10 + v as u128;
        if next > max as u128 {
            return None;
        }
        n = next as u64;
        i = i + 1;
    }
    assert(d.take(i - from) =~= d);
    Some(n)
}

/// The number that `s` writes, if it is at most `max`.
pub fn nat_from(cs: &[char], max: u64) -> (r: Option<u64>)
    ensures
        match r {
            Some(n) => parse_nat(cs@, max as nat) == Some(n as nat),
            None => parse_nat(cs@, max as nat) is None,
        },
        r matches Some(n) ==> n <= max,
{
    if cs.len() > 0 && cs[0] == '+' {
        assert(cs@.skip(1) =~= cs@.drop_first());
        parse_digits(cs, 1, max)
    } else {
        assert(cs@.skip(0) =~= cs@);
        parse_digits(cs, 0, max)
    }
}

/// The 32-bit number with a sign that `s` writes.
pub fn i32_from(cs: &[char]) -> (r: Option<i32>)
    ensures
        match r {
            Some(n) => parse_signed(cs@) == Some(n as int),
            None => parse_signed(cs@) is None,
        },
{
    if cs.len() > 0 && cs[0] == '-' {
        assert(cs@.skip(1) =~= cs@.drop_first());
        match parse_digits(cs, 1, 0x8000_0000) {
            Some(n) => Some((-(n as i64)) as i32),
            None => None,
        }
    } else {
        match nat_from(cs, 0x7fff_ffff) {
            Some(n) => Some(n as i32),
            None => None,
        }
    }
}

proof fn lemma_digit(d: nat)
    requires
        d < 10,
    ensures
        is_digit(digit(d)),
        digit_value(digit(d)) == d,
{
}

/// What `decimal` writes is digits, and they give the number back.
pub proof fn law_decimal_reads_back(n: nat)
    ensures
        all_digits(decimal(n)),
        digits_value(decimal(n)) == n,
    decreases n,
{
    reveal_with_fuel(digits_value, 2);
    lemma_digit(n % 10);
    if n < 10 {
        lemma_digit(n);
        assert(seq![digit(n)].drop_last() =~= Seq::<char>::empty());
    } else {
        law_decimal_reads_back(n / 10);
        let s = decimal(n / 10).push(digit(n % 10));
        assert(s.drop_last() =~= decimal(n / 10));
        assert forall|i: int| 0 <= i < s.len() implies is_digit(#[trigger] s[i]) by {
            if i < s.len() - 1 {
                assert(s[i] == decimal(n / 10)[i]);
            }
        }
    }
}

/// A number that fits reads back from its decimal.
pub proof fn law_nat_round_trip(n: nat, max: nat)
    requires
        n <= max,
    ensures
        parse_nat(decimal(n), max) == Some(n),
{
    law_decimal_reads_back(n);
    assert(is_digit(decimal(n)[0]));
}

/// A 32-bit number with a sign reads back from its decimal.
pub proof fn law_signed_round_trip(n: int)
    requires
        -0x8000_0000 <= n <= 0x7fff_ffff,
    ensures
        parse_signed(decimal_int(n)) == Some(n),
{
    if n < 0 {
        law_decimal_reads_back((-n) as nat);
        assert(decimal_int(n).drop_first() =~= decimal((-n) as nat));
    } else {
        law_nat_round_trip(n as nat, 0x7fff_ffff);
        law_decimal_reads_back(n as nat);
        assert(is_digit(decimal(n as nat)[0]));
    }
}

/// Digits stand for their numbers: zero to nine in the order of their code points.
pub proof fn law_digits_stand_for_their_numbers(d: nat, c: char)
    requires
        d < 10,
    ensures
        digit(d) as u32 == 48 + d,
        decimal(d) == seq![digit(d)],
        is_digit(c) <==> 48 <= c as u32 <= 57,
        digit_value(digit(d)) == d,
{
    lemma_digit(d);
}

/// A further digit multiplies a number by ten and adds to it.
pub proof fn law_digits_count_by_tens(n: nat, d: nat)
    requires
        0 < n,
        d < 10,
    ensures
        decimal(10 * n + d) == decimal(n).push(digit(d)),
        decimal(n)[0] != '0',
    decreases n,
{
    assert((10 * n + d) / 10 == n && (10 * n + d) % 10 == d) by (nonlinear_arith)
        requires
            d < 10,
    ;
    if n >= 10 {
        law_digits_count_by_tens(n / 10, n % 10);
    }
}

/// Different numbers are written differently.
pub proof fn law_numbers_are_told_apart(a: int, b: int)
    requires
        decimal_int(a) == decimal_int(b),
    ensures
        a == b,
{
    let x = if a < 0 {
        (-a) as nat
    } else {
        a as nat
    };
    let y = if b < 0 {
        (-b) as nat
    } else {
        b as nat
    };
    law_decimal_reads_back(x);
    law_decimal_reads_back(y);
    assert(is_digit(decimal(x)[0]));
    assert(is_digit(decimal(y)[0]));
    if a < 0 && b < 0 {
        assert(decimal_int(a).drop_first() =~= decimal(x));
        assert(decimal_int(b).drop_first() =~= decimal(y));
    }
}

/// A number may have a plus sign in front; one that is too large is none, and neither
/// is a text without digits or with anything else in it.
pub proof fn law_numbers_are_read_within_their_range(n: nat, max: nat, s: Seq<char>, i: int)
    ensures
        n <= max ==> parse_nat("+"@ + decimal(n), max) == Some(n),
        n > max ==> parse_nat(decimal(n), max) is None,
        parse_nat(""@, max) is None,
        parse_nat("+"@, max) is None,
        1 <= i < s.len() && !is_digit(s[i]) ==> parse_nat(s, max) is None,
        s.len() > 0 && !is_digit(s[0]) && s[0] != '+' ==> parse_nat(s, max) is None,
{
    reveal_strlit("+");
    reveal_strlit("");
    law_decimal_reads_back(n);
    assert(is_digit(decimal(n)[0]));
    assert(("+"@ + decimal(n)).drop_first() =~= decimal(n));
    assert("+"@.drop_first() =~= seq![]);
    if 1 <= i < s.len() && !is_digit(s[i]) {
        if s[0] == '+' {
            assert(s.drop_first()[i - 1] == s[i]);
        }
    }
}

/// A number with a sign is read if it fits 32 bits.
pub proof fn law_signed_numbers_fit_their_range(n: nat)
    ensures
        n <= 0x7fff_ffff ==> parse_signed("+"@ + decimal(n)) == Some(n as int),
        n > 0x7fff_ffff ==> parse_signed(decimal(n)) is None,
        n <= 0x8000_0000 ==> parse_signed("-"@ + decimal(n)) == Some(-(n as int)),
        n > 0x8000_0000 ==> parse_signed("-"@ + decimal(n)) is None,
        parse_signed("-"@) is None,
{
    reveal_strlit("+");
    reveal_strlit("-");
    law_decimal_reads_back(n);
    law_numbers_are_read_within_their_range(n, 0x7fff_ffff, decimal(n), 0);
    assert(is_digit(decimal(n)[0]));
    assert(("-"@ + decimal(n)).drop_first() =~= decimal(n));
    assert("-"@.drop_first() =~= seq![]);
}

} // verus!
