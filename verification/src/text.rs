//! Building text: decimal numbers, indentation and concatenation.

use vstd::prelude::*;

verus! {

/// The character of one decimal digit.
pub open spec fn digit_char(d: nat) -> char
    recommends
        d < 10,
{
    if d == 0 {
        '0'
    } else if d == 1 {
        '1'
    } else if d == 2 {
        '2'
    } else if d == 3 {
        '3'
    } else if d == 4 {
        '4'
    } else if d == 5 {
        '5'
    } else if d == 6 {
        '6'
    } else if d == 7 {
        '7'
    } else if d == 8 {
        '8'
    } else {
        '9'
    }
}

/// The decimal digits of a natural number, without leading zeros.
pub open spec fn digits(n: nat) -> Seq<char>
    decreases n,
{
    if n < 10 {
        Seq::<char>::empty().push(digit_char(n))
    } else {
        digits(n / 10).push(digit_char(n % 10))
    }
}

/// The decimal form of an integer: a minus sign for a negative one, then
/// the digits of its magnitude.
pub open spec fn decimal(n: int) -> Seq<char> {
    if n < 0 {
        Seq::<char>::empty().push('-') + digits((-n) as nat)
    } else {
        digits(n as nat)
    }
}

/// A run of `n` spaces.
pub open spec fn spaces(n: nat) -> Seq<char>
    decreases n,
{
    if n == 0 {
        Seq::<char>::empty()
    } else {
        spaces((n - 1) as nat).push(' ')
    }
}

/// `String::push`: the character is appended.
#[verifier::external_body]
pub(crate) fn push_char(s: &mut String, c: char)
    ensures
        final(s)@ == old(s)@.push(c),
{
    s.push(c)
}

fn digit(d: u64) -> (c: char)
    requires
        d < 10,
    ensures
        c == digit_char(d as nat),
{
    if d == 0 {
        '0'
    } else if d == 1 {
        '1'
    } else if d == 2 {
        '2'
    } else if d == 3 {
        '3'
    } else if d == 4 {
        '4'
    } else if d == 5 {
        '5'
    } else if d == 6 {
        '6'
    } else if d == 7 {
        '7'
    } else if d == 8 {
        '8'
    } else {
        '9'
    }
}

fn push_digits(s: &mut String, n: u64)
    ensures
        final(s)@ == old(s)@ + digits(n as nat),
    decreases n,
{
    if n < 10 {
        push_char(s, digit(n));
        assert(s@ =~= old(s)@ + digits(n as nat));
    } else {
        push_digits(s, n / 10);
        push_char(s, digit(n % 10));
        assert(s@ =~= old(s)@ + digits(n as nat));
    }
}

/// The decimal form of an unsigned number.
pub fn unsigned_text(n: u64) -> (s: String)
    ensures
        s@ == decimal(n as int),
{
    let mut s = String::new();
    push_digits(&mut s, n);
    assert(s@ =~= digits(n as nat));
    s
}

/// The decimal form of a signed number.
pub fn signed_text(n: i64) -> (s: String)
    ensures
        s@ == decimal(n as int),
{
    if n < 0 {
        let magnitude: u64 = if n == i64::MIN {
            9223372036854775808u64
        } else {
            (-n) as u64
        };
        let mut s = String::new();
        push_char(&mut s, '-');
        push_digits(&mut s, magnitude);
        s
    } else {
        unsigned_text(n as u64)
    }
}

/// A string of `n` spaces.
pub fn indent(n: usize) -> (s: String)
    ensures
        s@ == spaces(n as nat),
{
    let mut s = String::new();
    let mut i: usize = 0;
    while i < n
        invariant
            i <= n,
            s@ == spaces(i as nat),
        decreases n - i,
    {
        push_char(&mut s, ' ');
        i = i + 1;
    }
    s
}

pub fn cat2(a: &str, b: &str) -> (s: String)
    ensures
        s@ == a@ + b@,
{
    let mut s = String::from_str(a);
    s.append(b);
    s
}

pub fn cat3(a: &str, b: &str, c: &str) -> (s: String)
    ensures
        s@ == a@ + b@ + c@,
{
    let mut s = cat2(a, b);
    s.append(c);
    s
}

pub fn cat4(a: &str, b: &str, c: &str, d: &str) -> (s: String)
    ensures
        s@ == a@ + b@ + c@ + d@,
{
    let mut s = cat3(a, b, c);
    s.append(d);
    s
}

pub fn cat5(a: &str, b: &str, c: &str, d: &str, e: &str) -> (s: String)
    ensures
        s@ == a@ + b@ + c@ + d@ + e@,
{
    let mut s = cat4(a, b, c, d);
    s.append(e);
    s
}

pub fn cat6(a: &str, b: &str, c: &str, d: &str, e: &str, f: &str) -> (s: String)
    ensures
        s@ == a@ + b@ + c@ + d@ + e@ + f@,
{
    let mut s = cat5(a, b, c, d, e);
    s.append(f);
    s
}

pub fn cat7(a: &str, b: &str, c: &str, d: &str, e: &str, f: &str, g: &str) -> (s: String)
    ensures
        s@ == a@ + b@ + c@ + d@ + e@ + f@ + g@,
{
    let mut s = cat6(a, b, c, d, e, f);
    s.append(g);
    s
}

pub fn cat8(a: &str, b: &str, c: &str, d: &str, e: &str, f: &str, g: &str, h: &str) -> (s: String)
    ensures
        s@ == a@ + b@ + c@ + d@ + e@ + f@ + g@ + h@,
{
    let mut s = cat7(a, b, c, d, e, f, g);
    s.append(h);
    s
}

pub fn cat9(
    a: &str,
    b: &str,
    c: &str,
    d: &str,
    e: &str,
    f: &str,
    g: &str,
    h: &str,
    i: &str,
) -> (s: String)
    ensures
        s@ == a@ + b@ + c@ + d@ + e@ + f@ + g@ + h@ + i@,
{
    let mut s = cat8(a, b, c, d, e, f, g, h);
    s.append(i);
    s
}

pub fn cat10(
    a: &str,
    b: &str,
    c: &str,
    d: &str,
    e: &str,
    f: &str,
    g: &str,
    h: &str,
    i: &str,
    j: &str,
) -> (s: String)
    ensures
        s@ == a@ + b@ + c@ + d@ + e@ + f@ + g@ + h@ + i@ + j@,
{
    let mut s = cat9(a, b, c, d, e, f, g, h, i);
    s.append(j);
    s
}

/// Whether two texts hold the same characters.
pub fn same_text(a: &str, b: &str) -> (same: bool)
    ensures
        same == (a@ == b@),
{
    let a = String::from_str(a);
    let b = String::from_str(b);
    a == b
}

/// The digit that a character stands for.
pub open spec fn digit_value(c: char) -> nat {
    if c == '1' {
        1
    } else if c == '2' {
        2
    } else if c == '3' {
        3
    } else if c == '4' {
        4
    } else if c == '5' {
        5
    } else if c == '6' {
        6
    } else if c == '7' {
        7
    } else if c == '8' {
        8
    } else if c == '9' {
        9
    } else {
        0
    }
}

/// The number that a run of digits stands for.
pub open spec fn number_of(s: Seq<char>) -> nat
    decreases s.len(),
{
    if s.len() == 0 {
        0
    } else {
        number_of(s.drop_last()) * 10 + digit_value(s.last())
    }
}

/// The digits of a number stand for that number.
pub proof fn digits_number(n: nat)
    ensures
        number_of(digits(n)) == n,
        digits(n).len() > 0,
    decreases n,
{
    if n < 10 {
        assert(digits(n).drop_last() =~= Seq::<char>::empty());
        assert(number_of(digits(n).drop_last()) == 0);
    } else {
        digits_number(n / 10);
        assert(digits(n).drop_last() =~= digits(n / 10));
    }
}

/// Two numbers with the same digits are the same number.
pub proof fn digits_distinct(a: nat, b: nat)
    requires
        digits(a) == digits(b),
    ensures
        a == b,
{
    digits_number(a);
    digits_number(b);
}

/// Behind one prefix, the decimal forms of two different natural numbers
/// give two different texts.
pub proof fn numbered_distinct(prefix: Seq<char>, a: nat, b: nat)
    requires
        a != b,
    ensures
        prefix + decimal(a as int) != prefix + decimal(b as int),
{
    let x = decimal(a as int);
    let y = decimal(b as int);
    if prefix + x == prefix + y {
        assert((prefix + x).subrange(prefix.len() as int, (prefix + x).len() as int) =~= x);
        assert((prefix + y).subrange(prefix.len() as int, (prefix + y).len() as int) =~= y);
        digits_distinct(a, b);
    }
}

} // verus!
