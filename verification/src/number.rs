//! Counts, and numbers as text: written in decimal and hexadecimal
//! digits, and read from decimal digits.

use crate::text::chars_of;
use vstd::prelude::*;
use vstd::string::StringExecFns;

verus! {

/// One more, as far as a count goes.
pub open spec fn one_more(count: u64) -> u64 {
    if count < u64::MAX {
        (count + 1) as u64
    } else {
        count
    }
}

/// The character of a decimal digit.
pub open spec fn digit(d: int) -> char {
    if d == 0 {
        '0'
    } else if d == 1 {
        '1'
    } else if d == 2 {
        '2'
    } else if d == 3 {
        '3'
    } else if d == 4 {
        '4'
    } else if d == 5 {
        '5'
    } else if d == 6 {
        '6'
    } else if d == 7 {
        '7'
    } else if d == 8 {
        '8'
    } else {
        '9'
    }
}

/// A natural number in decimal digits, without leading zeros.
pub open spec fn natural_text(n: nat) -> Seq<char>
    decreases n,
{
    if n < 10 {
        seq![digit(n as int)]
    } else {
        natural_text(n / 10).push(digit((n % 10) as int))
    }
}

/// An integer in decimal digits, with `-` before a negative one.
pub open spec fn decimal_text(n: int) -> Seq<char> {
    if n < 0 {
        seq!['-'] + natural_text((-n) as nat)
    } else {
        natural_text(n as nat)
    }
}

fn digit_str(d: u64) -> (s: &'static str)
    requires
        d < 10,
    ensures
        s@ == seq![digit(d as int)],
{
    proof {
        reveal_strlit("0");
        reveal_strlit("1");
        reveal_strlit("2");
        reveal_strlit("3");
        reveal_strlit("4");
        reveal_strlit("5");
        reveal_strlit("6");
        reveal_strlit("7");
        reveal_strlit("8");
        reveal_strlit("9");
    }
    let s = if d == 0 {
        "0"
    } else if d == 1 {
        "1"
    } else if d == 2 {
        "2"
    } else if d == 3 {
        "3"
    } else if d == 4 {
        "4"
    } else if d == 5 {
        "5"
    } else if d == 6 {
        "6"
    } else if d == 7 {
        "7"
    } else if d == 8 {
        "8"
    } else {
        "9"
    };
    assert(s@ =~= seq![digit(d as int)]);
    s
}

/// Appends `n` in decimal digits to `out`.
pub fn push_natural(out: &mut String, n: u64)
    ensures
        final(out)@ == old(out)@ + natural_text(n as nat),
    decreases n,
{
    if n >= 10 {
        push_natural(out, n / 10);
    }
    out.append(digit_str(n % 10));
    assert(final(out)@ =~= old(out)@ + natural_text(n as nat));
}

/// Appends `n` in decimal digits to `out`, with `-` before a negative one.
pub fn push_decimal(out: &mut String, n: i64)
    ensures
        final(out)@ == old(out)@ + decimal_text(n as int),
{
    if n < 0 {
        proof {
            reveal_strlit("-");
        }
        out.append("-");
        let magnitude: u64 = (-(n + 1)) as u64 + 1;
        push_natural(out, magnitude);
        assert(final(out)@ =~= old(out)@ + decimal_text(n as int));
    } else {
        push_natural(out, n as u64);
    }
}

/// `n` in decimal digits.
pub fn decimal(n: i64) -> (out: String)
    ensures
        out@ == decimal_text(n as int),
{
    let mut out = String::new();
    push_decimal(&mut out, n);
    assert(out@ =~= decimal_text(n as int));
    out
}

/// The character of a hexadecimal digit, in lower case.
pub open spec fn hex_digit(d: int) -> char {
    if d < 10 {
        digit(d)
    } else if d == 10 {
        'a'
    } else if d == 11 {
        'b'
    } else if d == 12 {
        'c'
    } else if d == 13 {
        'd'
    } else if d == 14 {
        'e'
    } else {
        'f'
    }
}

/// The last `digits` hexadecimal digits of `n`, in lower case, with zeros
/// before a small number.
pub open spec fn hex_text(n: nat, digits: nat) -> Seq<char>
    decreases digits,
{
    if digits == 0 {
        Seq::empty()
    } else {
        hex_text(n / 16, (digits - 1) as nat).push(hex_digit((n % 16) as int))
    }
}

fn hex_digit_str(d: u64) -> (s: &'static str)
    requires
        d < 16,
    ensures
        s@ == seq![hex_digit(d as int)],
{
    if d < 10 {
        digit_str(d)
    } else {
        proof {
            reveal_strlit("a");
            reveal_strlit("b");
            reveal_strlit("c");
            reveal_strlit("d");
            reveal_strlit("e");
            reveal_strlit("f");
        }
        let s = if d == 10 {
            "a"
        } else if d == 11 {
            "b"
        } else if d == 12 {
            "c"
        } else if d == 13 {
            "d"
        } else if d == 14 {
            "e"
        } else {
            "f"
        };
        assert(s@ =~= seq![hex_digit(d as int)]);
        s
    }
}

/// Appends the last `digits` hexadecimal digits of `n` to `out`.
pub fn push_hex(out: &mut String, n: u64, digits: u32)
    ensures
        final(out)@ == old(out)@ + hex_text(n as nat, digits as nat),
    decreases digits,
{
    if digits > 0 {
        push_hex(out, n / 16, digits - 1);
        out.append(hex_digit_str(n % 16));
    }
    assert(final(out)@ =~= old(out)@ + hex_text(n as nat, digits as nat));
}

/// The number of the decimal digit `c`, if it is one.
pub open spec fn digit_value(c: char) -> Option<int> {
    if c == '0' {
        Some(0)
    } else if c == '1' {
        Some(1)
    } else if c == '2' {
        Some(2)
    } else if c == '3' {
        Some(3)
    } else if c == '4' {
        Some(4)
    } else if c == '5' {
        Some(5)
    } else if c == '6' {
        Some(6)
    } else if c == '7' {
        Some(7)
    } else if c == '8' {
        Some(8)
    } else if c == '9' {
        Some(9)
    } else {
        None
    }
}

/// The natural number that the decimal digits `digits` stand for; `None`
/// where one of them is no digit. No digits stand for 0.
pub open spec fn natural_of(digits: Seq<char>) -> Option<nat>
    decreases digits.len(),
{
    if digits.len() == 0 {
        Some(0)
    } else {
        match (natural_of(digits.drop_last()), digit_value(digits.last())) {
            (Some(high), Some(low)) => Some((high * 10 + low) as nat),
            _ => None,
        }
    }
}

/// The integer that `text` stands for: decimal digits, at least one, with
/// `+` or `-` before them or nothing. `None` for any other text.
pub open spec fn integer_of(text: Seq<char>) -> Option<int> {
    if text.len() > 0 && text[0] == '-' {
        if text.len() == 1 {
            None
        } else {
            match natural_of(text.subrange(1, text.len() as int)) {
                Some(n) => Some(-(n as int)),
                None => None,
            }
        }
    } else if text.len() > 0 && text[0] == '+' {
        if text.len() == 1 {
            None
        } else {
            match natural_of(text.subrange(1, text.len() as int)) {
                Some(n) => Some(n as int),
                None => None,
            }
        }
    } else if text.len() == 0 {
        None
    } else {
        match natural_of(text) {
            Some(n) => Some(n as int),
            None => None,
        }
    }
}

/// The `i64` that `text` stands for, if it stands for an integer that an
/// `i64` holds.
pub open spec fn i64_of(text: Seq<char>) -> Option<i64> {
    match integer_of(text) {
        Some(n) if i64::MIN <= n <= i64::MAX => Some(n as i64),
        _ => None,
    }
}

fn digit_of(c: char) -> (value: Option<u8>)
    ensures
        match digit_value(c) {
            Some(d) => value == Some(d as u8) && 0 <= d <= 9,
            None => value is None,
        },
{
    if c == '0' {
        Some(0)
    } else if c == '1' {
        Some(1)
    } else if c == '2' {
        Some(2)
    } else if c == '3' {
        Some(3)
    } else if c == '4' {
        Some(4)
    } else if c == '5' {
        Some(5)
    } else if c == '6' {
        Some(6)
    } else if c == '7' {
        Some(7)
    } else if c == '8' {
        Some(8)
    } else if c == '9' {
        Some(9)
    } else {
        None
    }
}

/// A text that holds something else than digits among its first
/// characters stands for no number.
proof fn lemma_natural_of_fails(digits: Seq<char>, upto: int)
    requires
        0 <= upto <= digits.len(),
        natural_of(digits.take(upto)) is None,
    ensures
        natural_of(digits) is None,
    decreases digits.len(),
{
    if upto < digits.len() {
        assert(digits.drop_last().take(upto) =~= digits.take(upto));
        lemma_natural_of_fails(digits.drop_last(), upto);
    } else {
        assert(digits.take(upto) =~= digits);
    }
}

/// More digits stand for no smaller number.
proof fn lemma_natural_of_grows(digits: Seq<char>, upto: int)
    requires
        0 <= upto <= digits.len(),
        natural_of(digits) is Some,
    ensures
        natural_of(digits.take(upto)) is Some,
        natural_of(digits.take(upto))->0 <= natural_of(digits)->0,
    decreases digits.len(),
{
    if upto < digits.len() {
        assert(digits.drop_last().take(upto) =~= digits.take(upto));
        lemma_natural_of_grows(digits.drop_last(), upto);
    } else {
        assert(digits.take(upto) =~= digits);
    }
}

/// Reads `text` as an `i64`.
pub fn parse_i64(text: &str) -> (number: Option<i64>)
    ensures
        number == i64_of(text@),
{
    let chars = chars_of(text);
    if chars.len() == 0 {
        return None;
    }
    let negative = chars[0] == '-';
    let start: usize = if negative || chars[0] == '+' {
        1
    } else {
        0
    };
    if start == chars.len() {
        return None;
    }
    let ghost digits = text@.subrange(start as int, text@.len() as int);
    assert(start == 0 ==> digits =~= text@);
    assert(integer_of(text@) == (match natural_of(digits) {
        Some(n) => Some(
            if negative {
                -(n as int)
            } else {
                n as int
            },
        ),
        None => None,
    }));
    let mut total: i128 = 0;
    let mut at: usize = start;
    assert(digits.take(0) =~= Seq::<char>::empty());
    while at < chars.len()
        invariant
            start <= at <= chars.len(),
            chars@ == text@,
            digits == text@.subrange(start as int, text@.len() as int),
            integer_of(text@) == (match natural_of(digits) {
                Some(n) => Some(
                    if negative {
                        -(n as int)
                    } else {
                        n as int
                    },
                ),
                None => None,
            }),
            natural_of(digits.take(at - start)) == Some(total as nat),
            0 <= total <= 0x8000_0000_0000_0000,
        decreases chars.len() - at,
    {
        proof {
            let upto = digits.take(at - start + 1);
            assert(upto.drop_last() =~= digits.take(at - start));
            assert(upto.last() == chars@[at as int]);
        }
        match digit_of(chars[at]) {
            None => {
                proof {
                    lemma_natural_of_fails(digits, at - start + 1);
                }
                return None;
            },
            Some(low) => {
                total = total * 10 + low as i128;
                assert(natural_of(digits.take(at - start + 1)) == Some(total as nat));
                if total > 0x8000_0000_0000_0000 {
                    proof {
                        if natural_of(digits) is Some {
                            lemma_natural_of_grows(digits, at - start + 1);
                        }
                    }
                    return None;
                }
            },
        }
        at += 1;
    }
    assert(digits.take(digits.len() as int) =~= digits);
    if negative {
        Some((-total) as i64)
    } else if total > 0x7fff_ffff_ffff_ffff {
        None
    } else {
        Some(total as i64)
    }
}

} // verus!
