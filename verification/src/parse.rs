//! The recoverable-failure component: converting text into an unsigned
//! number. Failure is data: it carries a descriptive cause, is returned
//! through the normal channel, and short-circuits through chained calls. It
//! never terminates the process.

use vstd::prelude::*;

verus! {

/// Why a piece of text could not be converted into a number.
#[derive(Debug, Clone, Copy, PartialEq, Eq, Structural)]
pub enum ParseError {
    /// The text was empty.
    Empty,
    /// The text held a character that is not a decimal digit.
    InvalidDigit,
    /// The digits denote a number too large for the target type.
    Overflow,
}

impl ParseError {
    /// A human-readable description of the cause; never empty.
    pub fn message(&self) -> (r: String)
        ensures
            r@.len() > 0,
            self is Empty ==> r@ == "empty input"@,
            self is InvalidDigit ==> r@ == "invalid digit"@,
            self is Overflow ==> r@ == "number too large"@,
    {
        proof {
            reveal_strlit("empty input");
            reveal_strlit("invalid digit");
            reveal_strlit("number too large");
        }
        match self {
            ParseError::Empty => "empty input".to_string(),
            ParseError::InvalidDigit => "invalid digit".to_string(),
            ParseError::Overflow => "number too large".to_string(),
        }
    }
}

/// `c` is a decimal digit, `'0'` through `'9'`.
pub open spec fn is_digit(c: char) -> bool {
    48 <= c as int <= 57
}

/// The numeric value of the digit `c`.
pub open spec fn digit_value(c: char) -> nat
    recommends
        is_digit(c),
{
    (c as int - 48) as nat
}

/// Every character of `s` is a decimal digit.
pub open spec fn all_digits(s: Seq<char>) -> bool {
    forall|i: int| 0 <= i < s.len() ==> is_digit(s[i])
}

/// The number denoted by a sequence of decimal digits, most significant
/// first.
pub open spec fn decimal_value(s: Seq<char>) -> nat
    recommends
        all_digits(s),
    decreases s.len(),
{
    if s.len() == 0 {
        0
    } else {
        decimal_value(s.drop_last()) * 10 + digit_value(s.last())
    }
}

/// The outcome `parse_u32` owes on each input: empty text is rejected as
/// empty; text with any non-digit character is rejected as an invalid digit;
/// digits denoting a number beyond `u32::MAX` are rejected as overflow; and
/// every other text yields exactly the number its digits denote.
pub open spec fn parse_u32_result(s: Seq<char>) -> Result<u32, ParseError> {
    if s.len() == 0 {
        Err(ParseError::Empty)
    } else if !all_digits(s) {
        Err(ParseError::InvalidDigit)
    } else if decimal_value(s) > u32::MAX {
        Err(ParseError::Overflow)
    } else {
        Ok(decimal_value(s) as u32)
    }
}

/// A digit sequence denotes at least as much as any of its prefixes.
proof fn lemma_prefix_value_le(s: Seq<char>, k: int)
    requires
        all_digits(s),
        0 <= k <= s.len(),
    ensures
        decimal_value(s.subrange(0, k)) <= decimal_value(s),
    decreases s.len() - k,
{
    if k == s.len() {
        assert(s.subrange(0, k) =~= s);
    } else {
        let t = s.subrange(0, k + 1);
        assert(t.drop_last() =~= s.subrange(0, k));
        assert(t.last() == s[k]);
        lemma_prefix_value_le(s, k + 1);
    }
}

/// Attempts to read `s` as an unsigned decimal number. On success, returns
/// the value; on failure, returns the cause and does not terminate the
/// process.
pub fn parse_u32(s: &str) -> (r: Result<u32, ParseError>)
    ensures
        r == parse_u32_result(s@),
{
    let n = s.unicode_len();
    if n == 0 {
        return Err(ParseError::Empty);
    }
    let mut i: usize = 0;
    while i < n
        invariant
            n == s@.len(),
            i <= n,
            forall|j: int| 0 <= j < i ==> is_digit(s@[j]),
        decreases n - i,
    {
        let c = s.get_char(i);
        let v = c as u32;
        if v < 48 || v > 57 {
            return Err(ParseError::InvalidDigit);
        }
        i += 1;
    }
    assert(all_digits(s@));
    let mut acc: u32 = 0;
    let mut j: usize = 0;
    while j < n
        invariant
            n == s@.len(),
            all_digits(s@),
            j <= n,
            acc as nat == decimal_value(s@.subrange(0, j as int)),
        decreases n - j,
    {
        let c = s.get_char(j);
        let d = (c as u32) - 48;
        proof {
            assert(s@.subrange(0, j + 1).drop_last() =~= s@.subrange(0, j as int));
            assert(s@.subrange(0, j + 1).last() == s@[j as int]);
        }
        let shifted = match acc.checked_mul(10) {
            Some(x) => x,
            None => {
                proof {
                    lemma_prefix_value_le(s@, j + 1);
                }
                return Err(ParseError::Overflow);
            },
        };
        acc = match shifted.checked_add(d) {
            Some(x) => x,
            None => {
                proof {
                    lemma_prefix_value_le(s@, j + 1);
                }
                return Err(ParseError::Overflow);
            },
        };
        j += 1;
    }
    proof {
        assert(s@.subrange(0, n as int) =~= s@);
    }
    Ok(acc)
}

/// The propagation demonstration: tries to parse text that is not a number
/// and forwards the inner failure to its own caller unchanged, via the
/// short-circuit operator.
pub fn question_result() -> (r: Result<u32, ParseError>)
    ensures
        r == Err::<u32, ParseError>(ParseError::InvalidDigit),
{
    proof {
        reveal_strlit("j");
        assert(!is_digit("j"@[0]));
    }
    let val = parse_u32("j")?;

    Ok(val)
}

} // verus!
