//! Decimal rendering of machine integers, used for token literals and the
//! syntax-tree pretty printer.

use vstd::prelude::*;
use vstd::string::StringExecFns;

verus! {

/// The digit character for a value below ten.
pub open spec fn digit_char(d: int) -> char {
    if d == 0 { '0' }
    else if d == 1 { '1' }
    else if d == 2 { '2' }
    else if d == 3 { '3' }
    else if d == 4 { '4' }
    else if d == 5 { '5' }
    else if d == 6 { '6' }
    else if d == 7 { '7' }
    else if d == 8 { '8' }
    else { '9' }
}

/// The decimal rendering of a nonnegative number, most significant digit
/// first, without leading zeros (a single zero for zero itself).
pub open spec fn dec_rep(n: int) -> Seq<char>
    decreases n,
{
    if n < 10 {
        seq![digit_char(n)]
    } else {
        dec_rep(n / 10).push(digit_char(n % 10))
    }
}

/// The decimal rendering of a signed number: a minus sign before the
/// rendering of the magnitude when negative.
pub open spec fn int_dec_rep(i: int) -> Seq<char> {
    if i < 0 {
        seq!['-'] + dec_rep(-i)
    } else {
        dec_rep(i)
    }
}

/// The one-character string for a digit below ten.
fn digit_str(d: u8) -> (r: &'static str)
    requires
        d < 10,
    ensures
        r@ =~= seq![digit_char(d as int)],
{
    proof {
        reveal_strlit("0");
        reveal_strlit("1");
        reveal_strlit("2");
        reveal_strlit("3");
        reveal_strlit("4");
        reveal_strlit("5");
        reveal_strlit("6");
        reveal_strlit("7");
        reveal_strlit("8");
        reveal_strlit("9");
    }
    match d {
        0 => "0",
        1 => "1",
        2 => "2",
        3 => "3",
        4 => "4",
        5 => "5",
        6 => "6",
        7 => "7",
        8 => "8",
        _ => "9",
    }
}

/// Renders a nonnegative number in decimal.
pub fn usize_to_string(n: usize) -> (r: String)
    ensures
        r@ == dec_rep(n as int),
    decreases n,
{
    if n < 10 {
        let r = String::from_str(digit_str(n as u8));
        proof {
            assert(r@ =~= dec_rep(n as int));
        }
        r
    } else {
        let mut s = usize_to_string(n / 10);
        s.append(digit_str((n % 10) as u8));
        proof {
            assert(s@ =~= dec_rep(n as int));
        }
        s
    }
}

/// Whether every character of `s` is a decimal digit.
pub open spec fn all_digits(s: Seq<char>) -> bool {
    forall|i: int| 0 <= i < s.len() ==> crate::lexer::helper::is_digit_spec(#[trigger] s[i])
}

/// The numeric value of a digit character.
pub open spec fn digit_value(c: char) -> int {
    c as int - 48
}

/// The value of a digit string read in decimal.
pub open spec fn digits_value(s: Seq<char>) -> int
    decreases s.len(),
{
    if s.len() == 0 {
        0
    } else {
        digits_value(s.drop_last()) * 10 + digit_value(s.last())
    }
}

/// Reads a nonempty digit string as a nonnegative machine integer.
/// Succeeds iff the text is all digits, is nonempty, and its value fits.
pub fn parse_isize(s: &str) -> (r: Option<isize>)
    ensures
        r is Some <==> (s@.len() > 0 && all_digits(s@) && digits_value(s@) <= isize::MAX),
        r is Some ==> r->0 as int == digits_value(s@),
{
    let n = s.unicode_len();
    if n == 0 {
        return None;
    }
    let mut value: isize = 0;
    let mut i: usize = 0;
    while i < n
        invariant
            n == s@.len(),
            i <= n,
            0 <= value,
            value as int == digits_value(s@.subrange(0, i as int)),
            all_digits(s@.subrange(0, i as int)),
        decreases n - i,
    {
        let c = s.get_char(i);
        if !crate::lexer::helper::is_digit(c) {
            return None;
        }
        let d = (c as u32 - 48) as isize;
        let shifted = match value.checked_mul(10) {
            Some(v) => v,
            None => {
                proof {
                    if all_digits(s@) {
                        lemma_digits_value_grows(s@, i as int);
                    }
                }
                return None;
            },
        };
        let next = match shifted.checked_add(d) {
            Some(v) => v,
            None => {
                proof {
                    if all_digits(s@) {
                        lemma_digits_value_grows(s@, i + 1);
                        assert(s@.subrange(0, i + 1).drop_last() =~= s@.subrange(0, i as int));
                        assert(s@.subrange(0, i + 1).last() == s@[i as int]);
                        assert(digits_value(s@.subrange(0, i + 1))
                            == value * 10 + digit_value(s@[i as int]));
                    }
                }
                return None;
            },
        };
        value = next;
        proof {
            assert(s@.subrange(0, i + 1).drop_last() =~= s@.subrange(0, i as int));
            assert(s@.subrange(0, i + 1).last() == s@[i as int]);
        }
        i += 1;
    }
    proof {
        assert(s@.subrange(0, n as int) =~= s@);
    }
    Some(value)
}

/// A digit string's value only grows as more digits follow: it dominates
/// the value of every prefix, tenfold when at least one digit follows.
proof fn lemma_digits_value_grows(s: Seq<char>, i: int)
    requires
        0 <= i <= s.len(),
        all_digits(s),
    ensures
        digits_value(s) >= digits_value(s.subrange(0, i)),
        i < s.len() ==> digits_value(s) >= digits_value(s.subrange(0, i)) * 10,
        digits_value(s) >= 0,
    decreases s.len() - i,
{
    lemma_digits_value_nonneg(s.subrange(0, i));
    if i < s.len() {
        lemma_digits_value_grows(s, i + 1);
        assert(s.subrange(0, i + 1).drop_last() =~= s.subrange(0, i));
        assert(digit_value(s.subrange(0, i + 1).last()) >= 0);
        assert(digits_value(s.subrange(0, i + 1))
            == digits_value(s.subrange(0, i)) * 10 + digit_value(s.subrange(0, i + 1).last()));
        if i + 1 < s.len() {
            assert(digits_value(s) >= digits_value(s.subrange(0, i + 1)) * 10);
            assert(digits_value(s.subrange(0, i + 1)) * 10
                >= digits_value(s.subrange(0, i)) * 10) by (nonlinear_arith)
                requires
                    digits_value(s.subrange(0, i + 1)) >= digits_value(s.subrange(0, i)),
            ;
        }
    } else {
        assert(s.subrange(0, i) =~= s);
    }
}

/// The value of an all-digit string is nonnegative.
proof fn lemma_digits_value_nonneg(s: Seq<char>)
    requires
        all_digits(s),
    ensures
        digits_value(s) >= 0,
    decreases s.len(),
{
    if s.len() > 0 {
        assert(all_digits(s.drop_last())) by {
            assert(forall|i: int| 0 <= i < s.len() - 1
                ==> crate::lexer::helper::is_digit_spec(#[trigger] s.drop_last()[i]));
        }
        lemma_digits_value_nonneg(s.drop_last());
    }
}

/// Renders a signed number in decimal.
pub fn isize_to_string(v: isize) -> (r: String)
    ensures
        r@ == int_dec_rep(v as int),
{
    if v >= 0 {
        usize_to_string(v as usize)
    } else {
        let mag: usize = ((-(v + 1)) as usize) + 1;
        proof {
            assert(mag as int == -(v as int));
            reveal_strlit("-");
        }
        let mut s = String::from_str("-");
        let rest = usize_to_string(mag);
        s.append(rest.as_str());
        proof {
            assert(s@ =~= int_dec_rep(v as int));
        }
        s
    }
}

} // verus!
