//! Decimal rendering and parsing of machine integers, with the proof that
//! parsing inverts rendering. The topology codec stores every count and
//! ordinal through these functions.

use vstd::prelude::*;
use vstd::string::*;
use vstd::arithmetic::div_mod::{
    lemma_div_is_ordered, lemma_fundamental_div_mod, lemma_fundamental_div_mod_converse,
};
use vstd::arithmetic::mul::lemma_mul_inequality;

verus! {

/// An ASCII decimal digit.
pub open spec fn is_digit(c: char) -> bool {
    '0' <= c <= '9'
}

/// Every character of the string is a decimal digit.
pub open spec fn all_digits(s: Seq<char>) -> bool {
    forall|i: int| 0 <= i < s.len() ==> is_digit(#[trigger] s[i])
}

/// Numeric value of one digit character.
pub open spec fn digit_of_char(c: char) -> int {
    c as u32 - '0' as u32
}

/// The digit character for a value below ten.
pub open spec fn char_of_digit(d: int) -> char {
    if d == 0 {
        '0'
    } else if d == 1 {
        '1'
    } else if d == 2 {
        '2'
    } else if d == 3 {
        '3'
    } else if d == 4 {
        '4'
    } else if d == 5 {
        '5'
    } else if d == 6 {
        '6'
    } else if d == 7 {
        '7'
    } else if d == 8 {
        '8'
    } else {
        '9'
    }
}

/// Decimal rendering of a natural number, most significant digit first,
/// without leading zeros (zero itself renders as "0").
pub open spec fn spec_digits(n: nat) -> Seq<char>
    decreases n,
{
    if n < 10 {
        seq![char_of_digit(n as int)]
    } else {
        spec_digits(n / 10).push(char_of_digit((n % 10) as int))
    }
}

/// Value of a digit string, read most significant digit first.
pub open spec fn digits_value(s: Seq<char>) -> int
    decreases s.len(),
{
    if s.len() == 0 {
        0
    } else {
        digits_value(s.drop_last()) * 10 + digit_of_char(s.last())
    }
}

/// What parsing a decimal string yields: the value of its digits when the
/// string is non-empty, all digits, and the value fits a `usize`; nothing
/// otherwise.
pub open spec fn spec_parse_usize(s: Seq<char>) -> Option<usize> {
    if s.len() > 0 && all_digits(s) && digits_value(s) <= usize::MAX {
        Some(digits_value(s) as usize)
    } else {
        None
    }
}

/// A rendered number consists of digits only.
pub proof fn lemma_spec_digits_all_digits(n: nat)
    ensures
        spec_digits(n).len() >= 1,
        all_digits(spec_digits(n)),
    decreases n,
{
    if n >= 10 {
        lemma_spec_digits_all_digits(n / 10);
        let s = spec_digits(n);
        assert forall|i: int| 0 <= i < s.len() implies is_digit(s[i]) by {
            if i < s.len() - 1 {
                assert(s[i] == spec_digits(n / 10)[i]);
            }
        }
    }
}

/// Reading the digit character of a value below ten gives the value back.
pub proof fn lemma_digit_char_roundtrip(d: int)
    requires
        0 <= d < 10,
    ensures
        digit_of_char(char_of_digit(d)) == d,
        is_digit(char_of_digit(d)),
{
}

/// The value of a rendered number is the number itself.
pub proof fn lemma_spec_digits_value(n: nat)
    ensures
        digits_value(spec_digits(n)) == n,
    decreases n,
{
    if n < 10 {
        let s = spec_digits(n);
        assert(s == seq![char_of_digit(n as int)]);
        assert(s.len() == 1);
        assert(s.drop_last() =~= Seq::<char>::empty());
        assert(digits_value(s.drop_last()) == 0);
        lemma_digit_char_roundtrip(n as int);
        assert(s.last() == char_of_digit(n as int));
        assert(digits_value(s) == 0 * 10 + digit_of_char(char_of_digit(n as int)));
        assert(digits_value(s) == n);
    } else {
        lemma_spec_digits_value(n / 10);
        let s = spec_digits(n);
        assert(s == spec_digits(n / 10).push(char_of_digit((n % 10) as int)));
        assert(s.len() == spec_digits(n / 10).len() + 1);
        assert(s.drop_last() =~= spec_digits(n / 10));
        assert(s.last() == char_of_digit((n % 10) as int));
        lemma_digit_char_roundtrip((n % 10) as int);
        assert(digits_value(s) == digits_value(spec_digits(n / 10)) * 10 + (n % 10));
        assert(digits_value(s) == (n / 10) * 10 + (n % 10));
        lemma_fundamental_div_mod(n as int, 10);
        assert(digits_value(s) == n);
    }
}

/// A digit string's value is not negative.
pub proof fn lemma_digits_value_nonneg(s: Seq<char>)
    requires
        all_digits(s),
    ensures
        digits_value(s) >= 0,
    decreases s.len(),
{
    if s.len() > 0 {
        lemma_digits_value_nonneg(s.drop_last());
        vstd::arithmetic::mul::lemma_mul_nonnegative(digits_value(s.drop_last()), 10);
    }
}

/// Reading more digits can only increase the value.
pub proof fn lemma_digits_value_take_le(s: Seq<char>, i: int)
    requires
        all_digits(s),
        0 <= i <= s.len(),
    ensures
        digits_value(s.take(i)) <= digits_value(s),
    decreases s.len() - i,
{
    if i < s.len() {
        lemma_digits_value_take_le(s, i + 1);
        let t = s.take(i + 1);
        assert(t.drop_last() =~= s.take(i));
        assert(all_digits(s.take(i)));
        lemma_digits_value_nonneg(s.take(i));
        vstd::arithmetic::mul::lemma_mul_inequality(1, 10, digits_value(s.take(i)));
        if digits_value(s.take(i)) > 0 {
            lemma_mul_inequality(1, digits_value(s.take(i)), 10);
        }
        assert(digits_value(t) == digits_value(s.take(i)) * 10 + digit_of_char(s[i]));
        assert(digits_value(s.take(i)) * 10 >= digits_value(s.take(i))) by {
            lemma_mul_inequality(1, 10, digits_value(s.take(i)));
        }
    } else {
        assert(s.take(i) =~= s);
    }
}

/// The digit string of a number parses back to that number.
pub proof fn lemma_parse_inverts_digits(n: usize)
    ensures
        spec_parse_usize(spec_digits(n as nat)) == Some(n),
{
    lemma_spec_digits_all_digits(n as nat);
    lemma_spec_digits_value(n as nat);
}

/// The single-character string for a digit value.
fn digit_str(d: usize) -> (r: &'static str)
    requires
        d < 10,
    ensures
        r@ =~= seq![char_of_digit(d as int)],
{
    proof {
        reveal_strlit("0");
        reveal_strlit("1");
        reveal_strlit("2");
        reveal_strlit("3");
        reveal_strlit("4");
        reveal_strlit("5");
        reveal_strlit("6");
        reveal_strlit("7");
        reveal_strlit("8");
        reveal_strlit("9");
    }
    if d == 0 {
        "0"
    } else if d == 1 {
        "1"
    } else if d == 2 {
        "2"
    } else if d == 3 {
        "3"
    } else if d == 4 {
        "4"
    } else if d == 5 {
        "5"
    } else if d == 6 {
        "6"
    } else if d == 7 {
        "7"
    } else if d == 8 {
        "8"
    } else {
        "9"
    }
}

/// Decimal rendering of a `usize`.
pub fn usize_to_string(n: usize) -> (r: String)
    ensures
        r@ == spec_digits(n as nat),
    decreases n,
{
    if n < 10 {
        digit_str(n).to_owned()
    } else {
        let mut s = usize_to_string(n / 10);
        s.append(digit_str(n % 10));
        proof {
            assert(s@ =~= spec_digits(n as nat));
        }
        s
    }
}

/// Decimal parsing of a `usize`: the value of the digits, or nothing on an
/// empty string, a non-digit character, or overflow.
pub fn parse_usize(s: &str) -> (r: Option<usize>)
    ensures
        r == spec_parse_usize(s@),
{
    let len = s.unicode_len();
    if len == 0 {
        return None;
    }
    let mut val: usize = 0;
    let mut i: usize = 0;
    while i < len
        invariant
            0 < len == s@.len(),
            i <= len,
            all_digits(s@.take(i as int)),
            digits_value(s@.take(i as int)) == val,
        decreases len - i,
    {
        let c = s.get_char(i);
        if c < '0' || c > '9' {
            return None;
        }
        let d: usize = ((c as u32) - ('0' as u32)) as usize;
        assert(d == digit_of_char(s@[i as int]));
        assert(d < 10);
        if val > (usize::MAX - d) / 10 {
            proof {
                let m = (usize::MAX - d) as int;
                lemma_fundamental_div_mod(m, 10);
                lemma_mul_inequality(m / 10 + 1, val as int, 10);
                assert(val * 10 + d > usize::MAX);
                assert(s@.take(i + 1).drop_last() =~= s@.take(i as int));
                assert(digits_value(s@.take(i + 1)) > usize::MAX);
                if all_digits(s@) {
                    lemma_digits_value_take_le(s@, i + 1);
                }
            }
            return None;
        }
        proof {
            let m = (usize::MAX - d) as int;
            lemma_fundamental_div_mod(m, 10);
            lemma_mul_inequality(val as int, m / 10, 10);
            assert(val * 10 <= m);
        }
        let new_val = val * 10 + d;
        proof {
            assert(s@.take(i + 1).drop_last() =~= s@.take(i as int));
        }
        val = new_val;
        i = i + 1;
    }
    proof {
        assert(s@.take(len as int) =~= s@);
    }
    Some(val)
}

/// Decimal parsing with a zero fallback, as positional fields of
/// multiplexer listings are read.
pub fn parse_usize_or_zero(s: &str) -> (r: usize)
    ensures
        r == spec_parse_usize_or_zero(s@),
{
    match parse_usize(s) {
        Some(v) => v,
        None => 0,
    }
}

/// The value [`parse_usize_or_zero`] yields.
pub open spec fn spec_parse_usize_or_zero(s: Seq<char>) -> usize {
    match spec_parse_usize(s) {
        Some(v) => v,
        None => 0,
    }
}

} // verus!
