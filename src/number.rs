//! Decimal numbers written with ASCII digits.
use vstd::prelude::*;

verus! {

/// Why a text is not a decimal `u32`.
#[derive(Clone, Copy, Debug, PartialEq, Eq, Structural)]
pub enum NumberError {
    /// The text is empty.
    Empty,
    /// The text holds a character that is not an ASCII digit.
    InvalidDigit,
    /// The digits denote a number above `u32::MAX`.
    PosOverflow,
}

pub open spec fn is_digit(c: char) -> bool {
    '0' <= c <= '9'
}

pub open spec fn all_digits(s: Seq<char>) -> bool {
    forall|k: int| 0 <= k < s.len() ==> is_digit(#[trigger] s[k])
}

/// The number that the digits of `s` denote, most significant first.
pub open spec fn decimal_value(s: Seq<char>) -> int
    decreases s.len(),
{
    if s.len() == 0 {
        0
    } else {
        decimal_value(s.drop_last()) * 10 + (s.last() as int - '0' as int)
    }
}

/// `s` read as a decimal `u32`, or why it is not one.
pub open spec fn decimal(s: Seq<char>) -> Result<u32, NumberError> {
    if s.len() == 0 {
        Err(NumberError::Empty)
    } else if !all_digits(s) {
        Err(NumberError::InvalidDigit)
    } else if decimal_value(s) > u32::MAX {
        Err(NumberError::PosOverflow)
    } else {
        Ok(decimal_value(s) as u32)
    }
}

proof fn lemma_value_grows(s: Seq<char>, j: int)
    requires
        all_digits(s),
        0 <= j <= s.len(),
    ensures
        0 <= decimal_value(s.take(j)) <= decimal_value(s),
    decreases s.len(),
{
    if s.len() > 0 {
        assert(all_digits(s.drop_last()));
        if j < s.len() {
            assert(s.drop_last().take(j) =~= s.take(j));
            lemma_value_grows(s.drop_last(), j);
        } else {
            assert(s.take(j) =~= s);
            lemma_value_grows(s.drop_last(), j - 1);
            assert(s.drop_last().take(j - 1) =~= s.drop_last());
        }
        assert(is_digit(s[s.len() - 1]));
    } else {
        assert(s.take(j) =~= s);
    }
}

/// Reads `s` as a decimal `u32`: one or more ASCII digits, no sign.
pub fn parse_u32(s: &str) -> (r: Result<u32, NumberError>)
    ensures
        r == decimal(s@),
{
    let n = s.unicode_len();
    if n == 0 {
        return Err(NumberError::Empty);
    }
    let mut i: usize = 0;
    while i < n
        invariant
            n == s@.len(),
            i <= n,
            forall|k: int| 0 <= k < i ==> is_digit(#[trigger] s@[k]),
        decreases n - i,
    {
        let c = s.get_char(i);
        if !('0' <= c && c <= '9') {
            return Err(NumberError::InvalidDigit);
        }
        i += 1;
    }
    assert(all_digits(s@));
    let mut acc: u64 = 0;
    let mut i: usize = 0;
    assert(s@.take(0) =~= Seq::<char>::empty());
    while i < n
        invariant
            n == s@.len(),
            i <= n,
            all_digits(s@),
            acc == decimal_value(s@.take(i as int)),
            acc <= u32::MAX,
        decreases n - i,
    {
        let c = s.get_char(i);
        assert(s@.take(i + 1).drop_last() =~= s@.take(i as int));
        assert(is_digit(s@[i as int]));
        acc = acc * 10 + (c as u64 - '0' as u64);
        if acc > u32::MAX as u64 {
            proof {
                lemma_value_grows(s@, i + 1);
            }
            return Err(NumberError::PosOverflow);
        }
        i += 1;
    }
    assert(s@.take(n as int) =~= s@);
    Ok(acc as u32)
}

} // verus!
