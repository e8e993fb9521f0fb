use vstd::prelude::*;

use crate::text::chars_of;

verus! {

/// Why a string is not a decimal `u64`.
#[derive(Clone, Copy, Debug, PartialEq, Eq, Structural, Hash)]
pub enum IntErrorKind {
    /// The string is empty.
    Empty,
    /// A character is not a decimal digit (a lone or misplaced sign counts).
    InvalidDigit,
    /// The number is larger than `u64::MAX`.
    PosOverflow,
}

/// The error of parsing a decimal `u64`.
#[derive(Clone, Copy, Debug, PartialEq, Eq, Structural, Hash)]
pub struct ParseIntError {
    pub kind: IntErrorKind,
}

impl ParseIntError {
    /// Why the parse failed.
    pub fn kind(&self) -> (res: IntErrorKind)
        ensures
            res == self.kind,
    {
        self.kind
    }
}

/// Whether `c` is one of `0` to `9`.
pub open spec fn is_decimal_digit(c: char) -> bool {
    '0' <= c <= '9'
}

/// The value of a decimal digit.
pub open spec fn digit_value(c: char) -> int {
    (c as int) - ('0' as int)
}

/// The value of a run of digits, read left to right: the first character
/// that is not a digit fails with `InvalidDigit`, and the first prefix whose
/// value exceeds `u64::MAX` fails with `PosOverflow`, whichever comes first.
pub open spec fn parse_digits(s: Seq<char>) -> Result<u64, IntErrorKind>
    decreases s.len(),
{
    if s.len() == 0 {
        Ok(0)
    } else {
        match parse_digits(s.drop_last()) {
            Err(e) => Err(e),
            Ok(v) => if !is_decimal_digit(s.last()) {
                Err(IntErrorKind::InvalidDigit)
            } else if v * 10 + digit_value(s.last()) > u64::MAX {
                Err(IntErrorKind::PosOverflow)
            } else {
                Ok((v * 10 + digit_value(s.last())) as u64)
            },
        }
    }
}

/// What parsing `s` as a decimal `u64` gives: an optional leading `+`, then
/// digits only; the empty string is `Empty`, a lone `+` is `InvalidDigit`.
pub open spec fn spec_parse_u64(s: Seq<char>) -> Result<u64, IntErrorKind> {
    if s.len() == 0 {
        Err(IntErrorKind::Empty)
    } else if s[0] == '+' {
        if s.len() == 1 {
            Err(IntErrorKind::InvalidDigit)
        } else {
            parse_digits(s.skip(1))
        }
    } else {
        parse_digits(s)
    }
}

/// The shortest decimal rendering of `n`, without sign or leading zeros.
pub open spec fn decimal(n: nat) -> Seq<char>
    decreases n,
{
    if n < 10 {
        seq![digit_char(n)]
    } else {
        decimal(n / 10).push(digit_char(n % 10))
    }
}

/// The digit character of a number below ten.
pub open spec fn digit_char(d: nat) -> char {
    (d + ('0' as nat)) as char
}

pub proof fn lemma_digit_char(d: nat)
    requires
        d < 10,
    ensures
        is_decimal_digit(digit_char(d)),
        digit_value(digit_char(d)) == d,
        digit_char(d) != '+',
{
    assert(('0' as nat) == 48);
    assert((d + 48) as char as int == d + 48);
}

proof fn lemma_decimal_parses(n: nat)
    requires
        n <= u64::MAX,
    ensures
        parse_digits(decimal(n)) == Ok::<u64, IntErrorKind>(n as u64),
        decimal(n).len() >= 1,
        decimal(n)[0] != '+',
    decreases n,
{
    lemma_digit_char(n % 10);
    if n >= 10 {
        lemma_decimal_parses(n / 10);
        let s = decimal(n);
        assert(s.drop_last() == decimal(n / 10));
        assert(s.last() == digit_char(n % 10));
        assert(digit_value(digit_char(n % 10)) == n % 10);
        assert((n / 10) * 10 + n % 10 == n);
    } else {
        let s = decimal(n);
        assert(s.drop_last() == Seq::<char>::empty());
        assert(parse_digits(Seq::<char>::empty()) == Ok::<u64, IntErrorKind>(0));
    }
}

proof fn lemma_parse_digits_error_persists(s: Seq<char>, k: int)
    requires
        0 <= k <= s.len(),
        parse_digits(s.take(k)) is Err,
    ensures
        parse_digits(s) == parse_digits(s.take(k)),
    decreases s.len(),
{
    if k < s.len() {
        assert(s.drop_last().take(k) == s.take(k));
        lemma_parse_digits_error_persists(s.drop_last(), k);
    } else {
        assert(s.take(k) == s);
    }
}

/// The decimal rendering of a number is made of digits only.
pub proof fn lemma_decimal_digits(n: nat)
    ensures
        forall|i: int| 0 <= i < decimal(n).len() ==> #[trigger] is_decimal_digit(decimal(n)[i]),
    decreases n,
{
    lemma_digit_char(n % 10);
    if n >= 10 {
        lemma_decimal_digits(n / 10);
        assert forall|i: int| 0 <= i < decimal(n).len() implies #[trigger] is_decimal_digit(
            decimal(n)[i],
        ) by {
            if i < decimal(n).len() - 1 {
                assert(decimal(n)[i] == decimal(n / 10)[i]);
            }
        }
    }
}

/// Every `u64` reads back from its decimal rendering.
pub proof fn lemma_parse_decimal_roundtrip(n: u64)
    ensures
        spec_parse_u64(decimal(n as nat)) == Ok::<u64, IntErrorKind>(n),
{
    lemma_decimal_parses(n as nat);
}

/// Parses a decimal `u64` as `str::parse::<u64>` does: an optional `+`,
/// then one or more digits, no other character, at most `u64::MAX`.
pub fn parse_u64(s: &str) -> (res: Result<u64, ParseIntError>)
    ensures
        match res {
            Ok(v) => spec_parse_u64(s@) == Ok::<u64, IntErrorKind>(v),
            Err(e) => spec_parse_u64(s@) == Err::<u64, IntErrorKind>(e.kind),
        },
{
    let chars = chars_of(s);
    let n = chars.len();
    if n == 0 {
        return Err(ParseIntError { kind: IntErrorKind::Empty });
    }
    let mut i: usize = 0;
    if chars[0] == '+' {
        if n == 1 {
            return Err(ParseIntError { kind: IntErrorKind::InvalidDigit });
        }
        i = 1;
    }
    let start = i;
    assert(s@.skip(0) == s@);
    let ghost digits = s@.skip(start as int);
    assert(digits.take(0) == Seq::<char>::empty());
    let mut value: u64 = 0;
    while i < n
        invariant
            chars@ == s@,
            n == s@.len(),
            start <= i <= n,
            start == 0 || (start == 1 && s@[0] == '+' && n > 1),
            start == 0 ==> s@[0] != '+' && digits == s@,
            digits == s@.skip(start as int),
            parse_digits(digits.take(i - start)) == Ok::<u64, IntErrorKind>(value),
        decreases n - i,
    {
        let c = chars[i];
        let ghost pre = digits.take(i - start);
        assert(digits.take(i - start + 1).drop_last() == pre);
        assert(digits.take(i - start + 1).last() == c);
        if !('0' <= c && c <= '9') {
            proof {
                lemma_parse_digits_error_persists(digits, i - start + 1);
            }
            return Err(ParseIntError { kind: IntErrorKind::InvalidDigit });
        }
        let d = (c as u32 - '0' as u32) as u64;
        if value > 1844674407370955161 || (value == 1844674407370955161 && d > 5) {
            proof {
                lemma_parse_digits_error_persists(digits, i - start + 1);
            }
            return Err(ParseIntError { kind: IntErrorKind::PosOverflow });
        }
        value = value * 10 + d;
        i = i + 1;
    }
    assert(digits.take(n - start) == digits);
    Ok(value)
}

} // verus!
