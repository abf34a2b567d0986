//! Reading numbers and booleans.

use std::num::IntErrorKind;

use vstd::prelude::*;
use vstd::string::*;

use crate::error::NumberFault;
use crate::text::{self, same};

verus! {

/// A non-empty string of decimal digits.
pub open spec fn is_digits(s: Seq<char>) -> bool {
    s.len() > 0 && forall|i: int| 0 <= i < s.len() ==> '0' <= #[trigger] s[i] && s[i] <= '9'
}

/// The number that a string of decimal digits stands for.
pub open spec fn value(s: Seq<char>) -> nat
    decreases s.len(),
{
    if s.len() == 0 {
        0
    } else {
        value(s.drop_last()) * 10 + (s.last() as int - '0' as int) as nat
    }
}

/// A string without its leading plus sign, if it has one.
pub open spec fn without_plus(s: Seq<char>) -> Seq<char> {
    if s.len() > 0 && s[0] == '+' {
        s.skip(1)
    } else {
        s
    }
}

/// A string stands for a number of 32 bits: it is made of digits, maybe behind
/// a plus sign, and the number fits.
pub open spec fn is_u32(s: Seq<char>) -> bool {
    is_digits(without_plus(s)) && value(without_plus(s)) <= u32::MAX
}

/// A string starts with digits that stand for a number of more than 32 bits, and
/// something else than a digit comes right behind them.
pub open spec fn starts_too_large(s: Seq<char>) -> bool {
    exists|n: int|
        {
            &&& 0 <= n < s.len()
            &&& is_digits(#[trigger] s.take(n))
            &&& !('0' <= s[n] && s[n] <= '9')
            &&& value(s.take(n)) > u32::MAX
        }
}

/// What is wrong with a string that stands for no number of 32 bits. A string
/// that holds something else than digits has an invalid digit, unless the
/// digits before that are too large already: then either may be told.
pub open spec fn is_u32_fault(s: Seq<char>, fault: NumberFault) -> bool {
    if s.len() == 0 {
        fault == NumberFault::Empty
    } else if is_digits(without_plus(s)) {
        fault == NumberFault::TooLarge
    } else {
        fault == NumberFault::InvalidDigit || (fault == NumberFault::TooLarge && starts_too_large(without_plus(s)))
    }
}

/// Reads a number with `str::parse::<u32>`, which takes decimal digits behind
/// an optional plus sign and nothing else. Its error has a kind: the string is
/// empty, or something in it is no digit, or the number is too large. Which of
/// the last two it is, is left open for a string whose digits are too large
/// before the first character that is no digit.
#[verifier::external_body]
pub(crate) fn parse_u32(s: &str) -> (r: Result<u32, NumberFault>)
    ensures
        match r {
            Ok(n) => is_u32(s@) && n == value(without_plus(s@)),
            Err(fault) => !is_u32(s@) && is_u32_fault(s@, fault),
        },
{
    match s.parse::<u32>() {
        Ok(n) => Ok(n),
        Err(e) => Err(match e.kind() {
            IntErrorKind::Empty => NumberFault::Empty,
            IntErrorKind::PosOverflow => NumberFault::TooLarge,
            _ => NumberFault::InvalidDigit,
        }),
    }
}

/// A string that does not start with a digit, behind a plus sign or not, has an
/// invalid digit, and no other fault.
pub proof fn lemma_fault_without_digits(s: Seq<char>, fault: NumberFault)
    requires
        s.len() > 0,
        without_plus(s).len() > 0 ==> !('0' <= without_plus(s)[0] && without_plus(s)[0] <= '9'),
    ensures
        is_u32_fault(s, fault) <==> fault == NumberFault::InvalidDigit,
{
    let digits = without_plus(s);
    assert forall|n: int| 0 <= n < digits.len() implies !is_digits(#[trigger] digits.take(n)) by {
        if n > 0 {
            assert(digits.take(n)[0] == digits[0]);
        }
    }
}

/// Reads a boolean, which is written `true` or `false`.
pub fn parse_bool(s: &str) -> (r: Option<bool>)
    ensures
        match r {
            Some(b) => s@ == (if b { "true"@ } else { "false"@ }),
            None => s@ != "true"@ && s@ != "false"@,
        },
{
    if same(s, "true") {
        Some(true)
    } else if same(s, "false") {
        Some(false)
    } else {
        None
    }
}

/// A decimal numeral is made of digits and stands for its number. It starts
/// with a zero only if it is the numeral of zero.
pub proof fn lemma_decimal_value(n: nat)
    ensures
        is_digits(text::decimal(n)),
        value(text::decimal(n)) == n,
        text::decimal(n)[0] == '0' <==> n == 0,
    decreases n,
{
    reveal_strlit("0123456789");
    let d = n % 10;
    assert('0' <= text::digit(d) && text::digit(d) <= '9' && text::digit(d) as int - '0' as int == d);
    let s = text::decimal(n);
    if n < 10 {
        assert(s.drop_last() =~= Seq::<char>::empty());
        assert(value(Seq::<char>::empty()) == 0);
    } else {
        lemma_decimal_value(n / 10);
        assert(s.drop_last() =~= text::decimal(n / 10));
        assert(s[0] == text::decimal(n / 10)[0]);
    }
}

/// The numeral that a number is shown by reads as that number.
pub proof fn lemma_decimal_reads_back(n: u32)
    ensures
        is_u32(text::decimal(n as nat)),
        value(without_plus(text::decimal(n as nat))) == n,
{
    let s = text::decimal(n as nat);
    lemma_decimal_value(n as nat);
    assert('0' <= s[0] && s[0] <= '9');
    assert(without_plus(s) == s);
}

/// A plus sign before digits, and a zero before them, change nothing.
pub proof fn lemma_plus_and_zeros(s: Seq<char>)
    requires
        is_digits(s),
    ensures
        is_u32(s) == (value(s) <= u32::MAX),
        without_plus(s) == s,
        without_plus(seq!['+'] + s) == s,
        is_u32(seq!['+'] + s) == is_u32(s),
        value(seq!['0'] + s) == value(s),
        is_u32(seq!['0'] + s) == is_u32(s),
{
    assert('0' <= s[0]);
    assert((seq!['+'] + s).skip(1) =~= s);
    lemma_zero_before(s);
    let t = seq!['0'] + s;
    assert forall|i: int| 0 <= i < t.len() implies '0' <= #[trigger] t[i] && t[i] <= '9' by {
        if i > 0 {
            assert(t[i] == s[i - 1]);
        }
    }
    assert(without_plus(t) == t);
}

/// A zero before a string does not count.
proof fn lemma_zero_before(s: Seq<char>)
    ensures
        value(seq!['0'] + s) == value(s),
    decreases s.len(),
{
    let t = seq!['0'] + s;
    if s.len() == 0 {
        assert(t.drop_last() =~= Seq::<char>::empty());
        assert(value(t.drop_last()) == 0);
    } else {
        lemma_zero_before(s.drop_last());
        assert(t.drop_last() =~= seq!['0'] + s.drop_last());
        assert(t.last() == s.last());
    }
}

/// A digit behind others makes the number ten times as large and adds the
/// digit. Behind anything else, or if it is none, there are no digits.
pub proof fn lemma_one_digit_more(s: Seq<char>, c: char)
    ensures
        is_digits(s.push(c)) <==> (s.len() == 0 || is_digits(s)) && '0' <= c && c <= '9',
        '0' <= c ==> value(s.push(c)) == 10 * value(s) + (c as int - '0' as int),
{
    let t = s.push(c);
    assert(t.drop_last() =~= s);
    assert(t[s.len() as int] == c);
    if is_digits(t) && s.len() > 0 {
        assert forall|i: int| 0 <= i < s.len() implies '0' <= #[trigger] s[i] && s[i] <= '9' by {
            assert(t[i] == s[i]);
        }
    }
    if (s.len() == 0 || is_digits(s)) && '0' <= c && c <= '9' {
        assert forall|i: int| 0 <= i < t.len() implies '0' <= #[trigger] t[i] && t[i] <= '9' by {
            if i < s.len() {
                assert(t[i] == s[i]);
            }
        }
    }
}

/// What is wrong with a string that stands for no number: it is empty if, and
/// only if, there is nothing in it, and digits alone can only be too large.
pub proof fn lemma_fault(s: Seq<char>, fault: NumberFault)
    requires
        is_u32_fault(s, fault),
    ensures
        fault == NumberFault::Empty <==> s.len() == 0,
        is_digits(without_plus(s)) ==> fault == NumberFault::TooLarge,
        fault == NumberFault::InvalidDigit ==> !is_digits(without_plus(s)),
{
}

} // verus!
