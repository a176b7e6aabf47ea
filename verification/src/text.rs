//! Decimal formatting of the library's numbers as `String`s.
//!
//! The crate cannot implement the standard formatting traits, so the types
//! that need a textual form expose methods built on these helpers.  The
//! digit sequence of a number is pinned down by [`dec_digits`].

use vstd::prelude::*;

verus! {

/// The character of one decimal digit.
pub open spec fn digit_char(d: int) -> char {
    if d == 0 {
        '0'
    } else if d == 1 {
        '1'
    } else if d == 2 {
        '2'
    } else if d == 3 {
        '3'
    } else if d == 4 {
        '4'
    } else if d == 5 {
        '5'
    } else if d == 6 {
        '6'
    } else if d == 7 {
        '7'
    } else if d == 8 {
        '8'
    } else {
        '9'
    }
}

/// The decimal digit sequence of a natural number.
pub open spec fn dec_digits(n: nat) -> Seq<char>
    decreases n,
{
    if n < 10 {
        seq![digit_char(n as int)]
    } else {
        dec_digits(n / 10).push(digit_char((n % 10) as int))
    }
}

/// The one-character string of a decimal digit.
fn digit_str(d: u128) -> (r: &'static str)
    requires
        d < 10,
    ensures
        r@ =~= seq![digit_char(d as int)],
{
    proof {
        reveal_strlit("0");
        reveal_strlit("1");
        reveal_strlit("2");
        reveal_strlit("3");
        reveal_strlit("4");
        reveal_strlit("5");
        reveal_strlit("6");
        reveal_strlit("7");
        reveal_strlit("8");
        reveal_strlit("9");
    }
    if d == 0 {
        "0"
    } else if d == 1 {
        "1"
    } else if d == 2 {
        "2"
    } else if d == 3 {
        "3"
    } else if d == 4 {
        "4"
    } else if d == 5 {
        "5"
    } else if d == 6 {
        "6"
    } else if d == 7 {
        "7"
    } else if d == 8 {
        "8"
    } else {
        "9"
    }
}

/// Relies on `String::push`: appends exactly the one given character.
#[verifier::external_body]
pub fn push_char(s: &mut String, c: char)
    ensures
        final(s)@ == old(s)@.push(c),
{
    s.push(c)
}

/// Appends the decimal digits of `n` to the string.
pub fn push_u128(s: &mut String, n: u128)
    ensures
        final(s)@ == old(s)@ + dec_digits(n as nat),
    decreases n,
{
    if n < 10 {
        s.append(digit_str(n));
    } else {
        push_u128(s, n / 10);
        s.append(digit_str(n % 10));
        proof {
            assert(old(s)@ + dec_digits((n / 10) as nat) + seq![digit_char((n % 10) as int)]
                =~= old(s)@ + dec_digits(n as nat));
        }
    }
}

/// The decimal digits of a `u128`, as a fresh string.
pub fn u128_string(n: u128) -> (r: String)
    ensures
        r@ == dec_digits(n as nat),
{
    let mut s = String::new();
    push_u128(&mut s, n);
    proof {
        assert(Seq::<char>::empty() + dec_digits(n as nat) =~= dec_digits(n as nat));
    }
    s
}

/// A signed number with an explicit plus sign for nonnegative values, as
/// the deviation and octave fields of a nearest-fraction display use.
pub open spec fn dec_digits_plus(neg: bool, mag: nat) -> Seq<char> {
    if neg {
        seq!['-'] + dec_digits(mag)
    } else {
        seq!['+'] + dec_digits(mag)
    }
}

/// Appends a signed decimal number, with a plus sign when nonnegative.
pub fn push_i128_plus(s: &mut String, n: i128)
    requires
        n > i128::MIN,
    ensures
        final(s)@ == old(s)@ + dec_digits_plus(
            n < 0,
            (if n < 0 {
                -(n as int)
            } else {
                n as int
            }) as nat,
        ),
{
    if n < 0 {
        proof {
            reveal_strlit("-");
        }
        s.append("-");
        push_u128(s, (-n) as u128);
        proof {
            assert(old(s)@ + "-"@ + dec_digits((-n) as nat) =~= old(s)@ + (seq!['-'] + dec_digits(
                (-n) as nat,
            )));
        }
    } else {
        proof {
            reveal_strlit("+");
        }
        s.append("+");
        push_u128(s, n as u128);
        proof {
            assert(old(s)@ + "+"@ + dec_digits(n as nat) =~= old(s)@ + (seq!['+'] + dec_digits(
                n as nat,
            )));
        }
    }
}

} // verus!
