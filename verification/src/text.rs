//! Number formatting for error messages.

use vstd::prelude::*;
use vstd::string::*;

verus! {

/// The character of one digit, `0`–`9` then `a`–`f`.
pub open spec fn digit_char(d: int) -> char {
    if d < 10 {
        (0x30 + d) as char
    } else {
        (0x57 + d) as char
    }
}

/// The digits of `n` in `base`, most significant first, without leading zeros.
pub open spec fn digits(n: nat, base: nat) -> Seq<char>
    decreases n,
{
    if base < 2 || n < base {
        seq![digit_char(n as int)]
    } else {
        proof {
            lemma_quotient_shrinks(n, base);
        }
        digits(n / base, base).push(digit_char((n % base) as int))
    }
}

/// Dividing by a base of two or more shrinks a number.
pub proof fn lemma_quotient_shrinks(n: nat, base: nat)
    by (nonlinear_arith)
    requires
        base >= 2,
        n >= base,
    ensures
        n / base < n,
{
}

/// `n` in lower-case hexadecimal with a `0x` prefix.
pub open spec fn hex_text(n: nat) -> Seq<char> {
    "0x"@ + digits(n, 16)
}

/// `n` in hexadecimal with a `0x` prefix and at least two digits.
pub open spec fn hex2_text(n: nat) -> Seq<char> {
    if n < 16 {
        "0x0"@ + digits(n, 16)
    } else {
        "0x"@ + digits(n, 16)
    }
}

/// One digit as text.
fn digit_str(d: u32) -> (s: &'static str)
    requires
        d < 16,
    ensures
        s@ == seq![digit_char(d as int)],
{
    proof {
        reveal_strlit("0");
        reveal_strlit("1");
        reveal_strlit("2");
        reveal_strlit("3");
        reveal_strlit("4");
        reveal_strlit("5");
        reveal_strlit("6");
        reveal_strlit("7");
        reveal_strlit("8");
        reveal_strlit("9");
        reveal_strlit("a");
        reveal_strlit("b");
        reveal_strlit("c");
        reveal_strlit("d");
        reveal_strlit("e");
        reveal_strlit("f");
    }
    match d {
        0 => "0",
        1 => "1",
        2 => "2",
        3 => "3",
        4 => "4",
        5 => "5",
        6 => "6",
        7 => "7",
        8 => "8",
        9 => "9",
        10 => "a",
        11 => "b",
        12 => "c",
        13 => "d",
        14 => "e",
        _ => "f",
    }
}

/// The digits of `n` in `base`.
pub fn to_digits(n: u32, base: u32) -> (s: String)
    requires
        2 <= base <= 16,
    ensures
        s@ == digits(n as nat, base as nat),
    decreases n,
{
    if n < base {
        digit_str(n).to_owned()
    } else {
        proof {
            lemma_quotient_shrinks(n as nat, base as nat);
        }
        let mut s = to_digits(n / base, base);
        s.append(digit_str(n % base));
        assert(s@ =~= digits((n / base) as nat, base as nat).push(digit_char((n % base) as int)));
        s
    }
}

/// `n` in lower-case hexadecimal with a `0x` prefix.
pub fn to_hex(n: u32) -> (s: String)
    ensures
        s@ == hex_text(n as nat),
{
    let d = to_digits(n, 16);
    "0x".to_owned().concat(d.as_str())
}

/// `n` in hexadecimal with a `0x` prefix, padded to two digits.
pub fn to_hex2(n: u32) -> (s: String)
    ensures
        s@ == hex2_text(n as nat),
{
    let d = to_digits(n, 16);
    if n < 16 {
        "0x0".to_owned().concat(d.as_str())
    } else {
        "0x".to_owned().concat(d.as_str())
    }
}

} // verus!
