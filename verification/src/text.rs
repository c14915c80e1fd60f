//! Pieces of text that the presentation backends put together.

use crate::error::AlgebraError;
use vstd::prelude::*;
use vstd::string::StringExecFns;

verus! {

/// What rendering came to, as text.
pub open spec fn text_outcome(r: Result<String, AlgebraError>) -> Result<Seq<char>, AlgebraError> {
    match r {
        Ok(s) => Ok(s@),
        Err(e) => Err(e),
    }
}

/// One text behind another; the first failure is kept.
pub open spec fn then(a: Result<Seq<char>, AlgebraError>, b: Result<Seq<char>, AlgebraError>) -> Result<
    Seq<char>,
    AlgebraError,
> {
    match (a, b) {
        (Err(e), _) => Err(e),
        (Ok(_), Err(e)) => Err(e),
        (Ok(x), Ok(y)) => Ok(x + y),
    }
}

/// A text that cannot fail.
pub open spec fn lit(s: Seq<char>) -> Result<Seq<char>, AlgebraError> {
    Ok(s)
}

/// A text between round brackets that grow with it, where `wrapped` holds.
pub open spec fn bracketed(wrapped: bool, inner: Result<Seq<char>, AlgebraError>) -> Result<
    Seq<char>,
    AlgebraError,
> {
    if wrapped {
        then(then(lit("\\left("@), inner), lit("\\right)"@))
    } else {
        inner
    }
}

/// A text between round brackets, where `wrapped` holds.
pub open spec fn parenthesized(wrapped: bool, inner: Result<Seq<char>, AlgebraError>) -> Result<
    Seq<char>,
    AlgebraError,
> {
    if wrapped {
        then(then(lit("("@), inner), lit(")"@))
    } else {
        inner
    }
}

/// The character of a decimal digit.
pub open spec fn digit_char(d: nat) -> char {
    if d == 0 {
        '0'
    } else if d == 1 {
        '1'
    } else if d == 2 {
        '2'
    } else if d == 3 {
        '3'
    } else if d == 4 {
        '4'
    } else if d == 5 {
        '5'
    } else if d == 6 {
        '6'
    } else if d == 7 {
        '7'
    } else if d == 8 {
        '8'
    } else {
        '9'
    }
}

/// The decimal digits of a natural number, the most significant first.
pub open spec fn decimal(n: nat) -> Seq<char>
    decreases n,
{
    if n < 10 {
        seq![digit_char(n)]
    } else {
        decimal(n / 10) + seq![digit_char(n % 10)]
    }
}

/// The decimal digits of an integer, behind a minus sign where it is
/// negative.
pub open spec fn signed_decimal(n: int) -> Seq<char> {
    if n < 0 {
        seq!['-'] + decimal((-n) as nat)
    } else {
        decimal(n as nat)
    }
}

/// The letter that stands `count` places behind `c` in the lower-case
/// alphabet, if there is one.
pub open spec fn letter_after(c: char, count: nat) -> Option<char> {
    if 'a' <= c && c <= 'z' && c as nat + count <= 'z' as nat {
        Some(((c as nat + count) as u8) as char)
    } else {
        None
    }
}

/// The letter that stands `count` places behind `c` in the lower-case
/// alphabet; none where the alphabet ends before, or `c` is no such letter.
pub fn next_char(c: char, count: usize) -> (r: Option<char>)
    ensures
        r == letter_after(c, count as nat),
{
    if c < 'a' || c > 'z' {
        return None;
    }
    let start: u8 = c as u8;
    if count > 25 {
        return None;
    }
    let shift: u8 = count as u8;
    if start + shift > 122 {
        return None;
    }
    Some((start + shift) as char)
}

/// A text that cannot fail.
pub fn text(s: &str) -> (r: Result<String, AlgebraError>)
    ensures
        text_outcome(r) == lit(s@),
{
    Ok(String::from_str(s))
}

/// One text behind another.
pub fn join(a: Result<String, AlgebraError>, b: Result<String, AlgebraError>) -> (r: Result<
    String,
    AlgebraError,
>)
    ensures
        text_outcome(r) == then(text_outcome(a), text_outcome(b)),
{
    match (a, b) {
        (Err(e), _) => Err(e),
        (Ok(_), Err(e)) => Err(e),
        (Ok(x), Ok(y)) => Ok(x.concat(y.as_str())),
    }
}

/// A text behind another that cannot fail.
pub fn join_text(a: Result<String, AlgebraError>, s: &str) -> (r: Result<String, AlgebraError>)
    ensures
        text_outcome(r) == then(text_outcome(a), lit(s@)),
{
    match a {
        Err(e) => Err(e),
        Ok(x) => Ok(x.concat(s)),
    }
}

/// A text between round brackets that grow with it, where `wrapped` holds.
pub fn in_brackets(wrapped: bool, inner: Result<String, AlgebraError>) -> (r: Result<
    String,
    AlgebraError,
>)
    ensures
        text_outcome(r) == bracketed(wrapped, text_outcome(inner)),
{
    if wrapped {
        join_text(join(text("\\left("), inner), "\\right)")
    } else {
        inner
    }
}

/// A text between round brackets, where `wrapped` holds.
pub fn in_parentheses(wrapped: bool, inner: Result<String, AlgebraError>) -> (r: Result<
    String,
    AlgebraError,
>)
    ensures
        text_outcome(r) == parenthesized(wrapped, text_outcome(inner)),
{
    if wrapped {
        join_text(join(text("("), inner), ")")
    } else {
        inner
    }
}

/// The text of one decimal digit.
fn digit_text(d: u8) -> (r: &'static str)
    requires
        d < 10,
    ensures
        r@ == seq![digit_char(d as nat)],
{
    proof {
        reveal_strlit("0");
        reveal_strlit("1");
        reveal_strlit("2");
        reveal_strlit("3");
        reveal_strlit("4");
        reveal_strlit("5");
        reveal_strlit("6");
        reveal_strlit("7");
        reveal_strlit("8");
        reveal_strlit("9");
    }
    let r = if d == 0 {
        "0"
    } else if d == 1 {
        "1"
    } else if d == 2 {
        "2"
    } else if d == 3 {
        "3"
    } else if d == 4 {
        "4"
    } else if d == 5 {
        "5"
    } else if d == 6 {
        "6"
    } else if d == 7 {
        "7"
    } else if d == 8 {
        "8"
    } else {
        "9"
    };
    proof {
        assert(r@ =~= seq![digit_char(d as nat)]);
    }
    r
}

/// The decimal digits of a number.
pub fn decimal_text(n: u128) -> (r: String)
    ensures
        r@ == decimal(n as nat),
    decreases n,
{
    if n < 10 {
        String::from_str(digit_text(n as u8))
    } else {
        let head = decimal_text(n / 10);
        head.concat(digit_text((n % 10) as u8))
    }
}

/// The decimal digits of an integer, behind a minus sign where it is
/// negative.
pub fn signed_decimal_text(n: i64) -> (r: String)
    ensures
        r@ == signed_decimal(n as int),
{
    if n < 0 {
        let size: u128 = ((-(n + 1)) as u128) + 1;
        proof {
            reveal_strlit("-");
            assert("-"@ =~= seq!['-']);
        }
        String::from_str("-").concat(decimal_text(size).as_str())
    } else {
        decimal_text(n as u128)
    }
}

/// The text of one lower-case letter.
pub fn letter_text(c: char) -> (r: &'static str)
    requires
        'a' <= c <= 'z',
    ensures
        r@ == seq![c],
{
    proof {
        reveal_strlit("a");
        reveal_strlit("b");
        reveal_strlit("c");
        reveal_strlit("d");
        reveal_strlit("e");
        reveal_strlit("f");
        reveal_strlit("g");
        reveal_strlit("h");
        reveal_strlit("i");
        reveal_strlit("j");
        reveal_strlit("k");
        reveal_strlit("l");
        reveal_strlit("m");
        reveal_strlit("n");
        reveal_strlit("o");
        reveal_strlit("p");
        reveal_strlit("q");
        reveal_strlit("r");
        reveal_strlit("s");
        reveal_strlit("t");
        reveal_strlit("u");
        reveal_strlit("v");
        reveal_strlit("w");
        reveal_strlit("x");
        reveal_strlit("y");
        reveal_strlit("z");
    }
    let r = match c {
        'a' => "a",
        'b' => "b",
        'c' => "c",
        'd' => "d",
        'e' => "e",
        'f' => "f",
        'g' => "g",
        'h' => "h",
        'i' => "i",
        'j' => "j",
        'k' => "k",
        'l' => "l",
        'm' => "m",
        'n' => "n",
        'o' => "o",
        'p' => "p",
        'q' => "q",
        'r' => "r",
        's' => "s",
        't' => "t",
        'u' => "u",
        'v' => "v",
        'w' => "w",
        'x' => "x",
        'y' => "y",
        _ => "z",
    };
    proof {
        assert(r@ =~= seq![c]);
    }
    r
}

} // verus!
