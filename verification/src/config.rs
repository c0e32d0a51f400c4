//! What the start-up configuration says of the relay.

use crate::dotenv::collect_chars;
use crate::error::ConfigError;
use vstd::prelude::*;

verus! {

/// Length of a session name where none is configured.
pub const DEFAULT_NAMESPACE_LEN: usize = 7;

/// Whether `c` is a decimal digit.
pub open spec fn is_digit(c: char) -> bool {
    '0' <= c && c <= '9'
}

/// Whether every character of `s` is a decimal digit.
pub open spec fn all_digits(s: Seq<char>) -> bool {
    forall|i: int| 0 <= i < s.len() ==> is_digit(#[trigger] s[i])
}

/// The number that a sequence of decimal digits writes.
pub open spec fn decimal(digits: Seq<char>) -> nat
    decreases digits.len(),
{
    if digits.len() == 0 {
        0
    } else {
        decimal(digits.drop_last()) * 10 + (digits.last() as nat - '0' as nat) as nat
    }
}

/// The number that a text writes: decimal digits, at least one, after an
/// optional `+`. Any other text writes none.
pub open spec fn unsigned(text: Seq<char>) -> Option<nat> {
    let digits = if text.len() > 0 && text[0] == '+' {
        text.skip(1)
    } else {
        text
    };
    if digits.len() > 0 && all_digits(digits) {
        Some(decimal(digits))
    } else {
        None
    }
}

/// The length of session names that a configuration asks for: the default
/// where nothing is configured, else the number configured, which must be
/// at least one and no more than a string can hold.
pub open spec fn configured_len(text: Option<Seq<char>>) -> Result<nat, ConfigError> {
    match text {
        None => Ok(DEFAULT_NAMESPACE_LEN as nat),
        Some(t) => match unsigned(t) {
            Some(n) => if 1 <= n <= isize::MAX {
                Ok(n)
            } else {
                Err(ConfigError::InvalidLength)
            },
            None => Err(ConfigError::InvalidLength),
        },
    }
}

/// The characters of a text that may be absent.
pub open spec fn text_of(configured: Option<&str>) -> Option<Seq<char>> {
    match configured {
        None => None,
        Some(t) => Some(t@),
    }
}

/// More digits never write a smaller number.
proof fn lemma_decimal_grows(digits: Seq<char>, i: int)
    requires
        0 <= i <= digits.len(),
    ensures
        decimal(digits.take(i)) <= decimal(digits),
    decreases digits.len() - i,
{
    if i == digits.len() {
        assert(digits.take(i) =~= digits);
    } else {
        lemma_decimal_grows(digits.drop_last(), i);
        assert(digits.drop_last().take(i) =~= digits.take(i));
    }
}

/// Settles the length of session names from what the configuration holds
/// for it, if anything.
#[verifier::loop_isolation(false)]
pub fn namespace_len(configured: Option<&str>) -> (r: Result<usize, ConfigError>)
    ensures
        match r {
            Ok(n) => configured_len(text_of(configured)) matches Ok(m) && m == n,
            Err(e) => configured_len(text_of(configured)) matches Err(f) && f == e,
        },
{
    let text = match configured {
        None => {
            return Ok(DEFAULT_NAMESPACE_LEN);
        },
        Some(t) => t,
    };
    let chars = collect_chars(text);
    let first: usize = if chars.len() > 0 && chars[0] == '+' {
        1
    } else {
        0
    };
    let ghost digits = chars@.skip(first as int);
    assert(first == 0 ==> digits =~= text@);
    if first == chars.len() {
        return Err(ConfigError::InvalidLength);
    }
    let limit: usize = isize::MAX as usize;
    let mut n: usize = 0;
    let mut i: usize = first;
    while i < chars.len()
        invariant
            first <= i <= chars.len(),
            digits == chars@.skip(first as int),
            limit == isize::MAX,
            n == decimal(digits.take(i - first)),
            n <= limit,
            forall|k: int| 0 <= k < i - first ==> is_digit(#[trigger] digits[k]),
        decreases chars.len() - i,
    {
        let c = chars[i];
        if c < '0' || c > '9' {
            assert(!is_digit(digits[i - first]));
            return Err(ConfigError::InvalidLength);
        }
        let d: usize = (c as u32 - '0' as u32) as usize;
        proof {
            assert(digits.take(i - first + 1).drop_last() =~= digits.take(i - first));
            lemma_decimal_grows(digits, i - first + 1);
        }
        if n > (limit - d) / 10 {
            return Err(ConfigError::InvalidLength);
        }
        n = n * 10 + d;
        i += 1;
    }
    assert(digits.take(digits.len() as int) =~= digits);
    if n == 0 {
        return Err(ConfigError::InvalidLength);
    }
    Ok(n)
}

} // verus!
