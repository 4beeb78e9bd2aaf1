//! Text building blocks shared by the renderers of values and errors.

use vstd::prelude::*;

verus! {

/// The character that writes the decimal digit `d`.
pub open spec fn digit_char(d: nat) -> char {
    if d == 0 {
        '0'
    } else if d == 1 {
        '1'
    } else if d == 2 {
        '2'
    } else if d == 3 {
        '3'
    } else if d == 4 {
        '4'
    } else if d == 5 {
        '5'
    } else if d == 6 {
        '6'
    } else if d == 7 {
        '7'
    } else if d == 8 {
        '8'
    } else {
        '9'
    }
}

/// Decimal notation of a natural number: most significant digit first, no leading zero.
pub open spec fn decimal(n: nat) -> Seq<char>
    decreases n,
{
    if n < 10 {
        seq![digit_char(n)]
    } else {
        decimal(n / 10) + seq![digit_char(n % 10)]
    }
}

/// Decimal notation of an integer, with a leading minus sign below zero.
pub open spec fn signed_decimal(i: int) -> Seq<char> {
    if i < 0 {
        seq!['-'] + decimal((-i) as nat)
    } else {
        decimal(i as nat)
    }
}

fn digit_str(d: u64) -> (s: &'static str)
    requires
        d < 10,
    ensures
        s@ == seq![digit_char(d as nat)],
{
    proof {
        reveal_strlit("0");
        reveal_strlit("1");
        reveal_strlit("2");
        reveal_strlit("3");
        reveal_strlit("4");
        reveal_strlit("5");
        reveal_strlit("6");
        reveal_strlit("7");
        reveal_strlit("8");
        reveal_strlit("9");
    }
    let s = if d == 0 {
        "0"
    } else if d == 1 {
        "1"
    } else if d == 2 {
        "2"
    } else if d == 3 {
        "3"
    } else if d == 4 {
        "4"
    } else if d == 5 {
        "5"
    } else if d == 6 {
        "6"
    } else if d == 7 {
        "7"
    } else if d == 8 {
        "8"
    } else {
        "9"
    };
    assert(s@ =~= seq![digit_char(d as nat)]);
    s
}

/// Writes a natural number in decimal.
pub fn natural_text(n: u64) -> (s: String)
    ensures
        s@ == decimal(n as nat),
    decreases n,
{
    if n < 10 {
        String::from_str(digit_str(n))
    } else {
        let mut s = natural_text(n / 10);
        s.append(digit_str(n % 10));
        s
    }
}

/// Writes a signed integer in decimal.
pub fn integer_text(i: i64) -> (s: String)
    ensures
        s@ == signed_decimal(i as int),
{
    if i < 0 {
        let magnitude: i128 = -(i as i128);
        proof {
            reveal_strlit("-");
        }
        let digits = natural_text(magnitude as u64);
        let s = String::from_str("-").concat(digits.as_str());
        assert(s@ =~= seq!['-'] + decimal((-i) as nat));
        s
    } else {
        natural_text(i as u64)
    }
}

/// `String::from` on a `char`: the string that holds exactly that character.
#[verifier::external_body]
pub(crate) fn char_text(c: char) -> (s: String)
    ensures
        s@ == seq![c],
{
    String::from(c)
}

/// The number of a character in the code charts.
pub open spec fn char_code(c: char) -> int {
    c as u32 as int
}

/// The order of two texts, character by character from the left, as the sign
/// of a difference: negative where `a` comes first. A text comes before every
/// longer text that starts with it.
pub open spec fn lexicographic(a: Seq<char>, b: Seq<char>) -> int
    decreases a.len(),
{
    if a.len() == 0 {
        if b.len() == 0 {
            0
        } else {
            -1
        }
    } else if b.len() == 0 {
        1
    } else if char_code(a[0]) < char_code(b[0]) {
        -1
    } else if char_code(a[0]) > char_code(b[0]) {
        1
    } else {
        lexicographic(a.skip(1), b.skip(1))
    }
}

/// `str::cmp`: strings are ordered lexicographically by their bytes, which
/// orders them by the code points of their characters. The result is handed
/// back as a sign.
#[verifier::external_body]
pub(crate) fn text_order(a: &str, b: &str) -> (sign: i8)
    ensures
        sign == lexicographic(a@, b@),
{
    match a.cmp(b) {
        std::cmp::Ordering::Less => -1,
        std::cmp::Ordering::Equal => 0,
        std::cmp::Ordering::Greater => 1,
    }
}

/// Joins two pieces of text.
pub fn join(left: String, right: &str) -> (s: String)
    ensures
        s@ == left@ + right@,
{
    left.concat(right)
}

} // verus!
