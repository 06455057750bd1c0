//! Decimal numbers as they are written on a command line.
//!
//! An integer is an optional sign followed by ASCII digits. A floating point
//! number is an optional sign followed by `inf`, `infinity` or `nan` in any
//! letter case, or by digits with an optional fraction and exponent. Nothing
//! may stand before or after: no blanks, no underscores.

use vstd::prelude::*;

verus! {

/// Whether `c` is one of the ten ASCII digits.
pub open spec fn is_digit(c: char) -> bool {
    '0' <= c && c <= '9'
}

/// Whether `c` is `+` or `-`.
pub open spec fn is_sign(c: char) -> bool {
    c == '+' || c == '-'
}

/// The number that the digit `c` stands for.
pub open spec fn digit_value(c: char) -> int {
    c as int - '0' as int
}

/// Whether `s` consists of digits only.
pub open spec fn all_digits(s: Seq<char>) -> bool {
    forall|i: int| 0 <= i < s.len() ==> is_digit(#[trigger] s[i])
}

/// The number that the digits of `s` denote in base ten.
pub open spec fn decimal(s: Seq<char>) -> int
    decreases s.len(),
{
    if s.len() == 0 {
        0
    } else {
        decimal(s.drop_last()) * 10 + digit_value(s.last())
    }
}

/// `s` without a sign at its front.
pub open spec fn unsigned_part(s: Seq<char>) -> Seq<char> {
    if s.len() > 0 && is_sign(s[0]) {
        s.drop_first()
    } else {
        s
    }
}

/// The integer that `s` denotes: an optional sign, then at least one digit.
pub open spec fn integer_value(s: Seq<char>) -> Option<int> {
    let digits = unsigned_part(s);
    if digits.len() == 0 || !all_digits(digits) {
        None
    } else if s[0] == '-' {
        Some(-decimal(digits))
    } else {
        Some(decimal(digits))
    }
}

/// The integer that `s` denotes, if it denotes one from `low` to `high`.
pub open spec fn integer_within(s: Seq<char>, low: int, high: int) -> Option<int> {
    match integer_value(s) {
        Some(v) => if low <= v <= high {
            Some(v)
        } else {
            None
        },
        None => None,
    }
}

/// The integer that `s` denotes, if it denotes one from 0 to `high` and is
/// written without a minus sign.
pub open spec fn natural_within(s: Seq<char>, high: int) -> Option<int> {
    if s.len() > 0 && s[0] == '-' {
        None
    } else {
        integer_within(s, 0, high)
    }
}

/// The `i32` that `s` denotes, if it denotes an integer in range.
pub open spec fn i32_value(s: Seq<char>) -> Option<i32> {
    match integer_within(s, i32::MIN as int, i32::MAX as int) {
        Some(v) => Some(v as i32),
        None => None,
    }
}

/// The `i64` that `s` denotes, if it denotes an integer in range.
pub open spec fn i64_value(s: Seq<char>) -> Option<i64> {
    match integer_within(s, i64::MIN as int, i64::MAX as int) {
        Some(v) => Some(v as i64),
        None => None,
    }
}

/// The `u32` that `s` denotes, if it denotes an integer in range.
pub open spec fn u32_value(s: Seq<char>) -> Option<u32> {
    match natural_within(s, u32::MAX as int) {
        Some(v) => Some(v as u32),
        None => None,
    }
}

/// The `u64` that `s` denotes, if it denotes an integer in range.
pub open spec fn u64_value(s: Seq<char>) -> Option<u64> {
    match natural_within(s, u64::MAX as int) {
        Some(v) => Some(v as u64),
        None => None,
    }
}

/// The `usize` that `s` denotes, if it denotes an integer in range.
pub open spec fn usize_value(s: Seq<char>) -> Option<usize> {
    match natural_within(s, usize::MAX as int) {
        Some(v) => Some(v as usize),
        None => None,
    }
}

/// More digits never make the number smaller.
proof fn lemma_decimal_grows(s: Seq<char>, n: int)
    requires
        all_digits(s),
        0 <= n <= s.len(),
    ensures
        0 <= decimal(s.take(n)) <= decimal(s),
    decreases s.len() - n,
{
    lemma_decimal_nonnegative(s.take(n));
    if n < s.len() {
        assert(s.take(n + 1).drop_last() =~= s.take(n));
        lemma_decimal_grows(s, n + 1);
    } else {
        assert(s.take(n) =~= s);
    }
}

proof fn lemma_decimal_nonnegative(s: Seq<char>)
    requires
        all_digits(s),
    ensures
        0 <= decimal(s),
    decreases s.len(),
{
    if s.len() > 0 {
        lemma_decimal_nonnegative(s.drop_last());
    }
}

/// Reads an integer written in base ten that lies from `low` to `high`.
pub fn parse_integer(chars: &Vec<char>, low: i128, high: i128) -> (out: Option<i128>)
    requires
        -0x1_0000_0000_0000_0000 <= low <= 0,
        0 <= high <= 0x1_0000_0000_0000_0000,
    ensures
        match out {
            Some(v) => integer_within(chars@, low as int, high as int) == Some(v as int),
            None => integer_within(chars@, low as int, high as int) is None,
        },
{
    let n = chars.len();
    if n == 0 {
        return None;
    }
    let negative = chars[0] == '-';
    let start: usize = if chars[0] == '-' || chars[0] == '+' {
        1
    } else {
        0
    };
    if start == n {
        return None;
    }
    let bound: i128 = if negative {
        -low
    } else {
        high
    };
    let ghost digits = unsigned_part(chars@);
    let mut acc: i128 = 0;
    let mut i: usize = start;
    while i < n
        invariant
            start <= i <= n,
            n == chars@.len(),
            digits == chars@.skip(start as int),
            digits == unsigned_part(chars@),
            all_digits(digits.take(i - start)),
            acc == decimal(digits.take(i - start)),
            0 <= acc <= bound <= 0x1_0000_0000_0000_0000,
            negative == (chars@[0] == '-'),
            negative ==> bound == -low,
            !negative ==> bound == high,
        decreases n - i,
    {
        let c = chars[i];
        if c < '0' || c > '9' {
            proof {
                assert(!is_digit(digits[i - start]));
            }
            return None;
        }
        let d: i128 = (c as u32 - '0' as u32) as i128;
        let next: i128 = acc * 10 + d;
        proof {
            assert(digits.take(i + 1 - start).drop_last() =~= digits.take(i - start));
        }
        if next > bound {
            proof {
                // Whatever follows, the number stays out of range, or a
                // later character is no digit.
                if all_digits(digits) {
                    lemma_decimal_grows(digits, i + 1 - start);
                }
            }
            return None;
        }
        acc = next;
        i += 1;
    }
    proof {
        assert(digits.take(n - start) =~= digits);
    }
    if negative {
        Some(-acc)
    } else {
        Some(acc)
    }
}

/// Reads an integer from 0 to `high`, written in base ten without a
/// minus sign.
pub fn parse_natural(chars: &Vec<char>, high: u64) -> (out: Option<u64>)
    ensures
        match out {
            Some(v) => natural_within(chars@, high as int) == Some(v as int),
            None => natural_within(chars@, high as int) is None,
        },
{
    if chars.len() > 0 && chars[0] == '-' {
        return None;
    }
    match parse_integer(chars, 0, high as i128) {
        Some(v) => Some(v as u64),
        None => None,
    }
}

/// Reads an `i32` written in base ten.
pub fn parse_i32(chars: &Vec<char>) -> (out: Option<i32>)
    ensures
        out == i32_value(chars@),
{
    match parse_integer(chars, i32::MIN as i128, i32::MAX as i128) {
        Some(v) => Some(v as i32),
        None => None,
    }
}

/// Reads an `i64` written in base ten.
pub fn parse_i64(chars: &Vec<char>) -> (out: Option<i64>)
    ensures
        out == i64_value(chars@),
{
    match parse_integer(chars, i64::MIN as i128, i64::MAX as i128) {
        Some(v) => Some(v as i64),
        None => None,
    }
}

/// Reads a `u32` written in base ten.
pub fn parse_u32(chars: &Vec<char>) -> (out: Option<u32>)
    ensures
        out == u32_value(chars@),
{
    match parse_natural(chars, u32::MAX as u64) {
        Some(v) => Some(v as u32),
        None => None,
    }
}

/// Reads a `u64` written in base ten.
pub fn parse_u64(chars: &Vec<char>) -> (out: Option<u64>)
    ensures
        out == u64_value(chars@),
{
    parse_natural(chars, u64::MAX)
}

/// Reads a `usize` written in base ten.
pub fn parse_usize(chars: &Vec<char>) -> (out: Option<usize>)
    ensures
        out == usize_value(chars@),
{
    match parse_natural(chars, usize::MAX as u64) {
        Some(v) => Some(v as usize),
        None => None,
    }
}

/// ASCII lower-case form of `c`; other characters are kept.
pub open spec fn ascii_lower(c: char) -> char {
    if 'A' <= c && c <= 'Z' {
        ((c as u8) + 32) as char
    } else {
        c
    }
}

/// Whether `s` reads as `word` when ASCII letter case is ignored.
pub open spec fn same_word(s: Seq<char>, word: Seq<char>) -> bool {
    s.len() == word.len() && forall|i: int| 0 <= i < s.len() ==> ascii_lower(s[i]) == word[i]
}

/// Whether `s` names one of the values that are no numbers: `inf`,
/// `infinity` or `nan`, in any letter case.
pub open spec fn is_special_float(s: Seq<char>) -> bool {
    same_word(s, seq!['i', 'n', 'f']) || same_word(s, seq!['n', 'a', 'n']) || same_word(
        s,
        seq!['i', 'n', 'f', 'i', 'n', 'i', 't', 'y'],
    )
}

/// Index of the first character at or after `from` that is no digit
/// (the length of `s` when only digits follow).
pub open spec fn digits_end(s: Seq<char>, from: int) -> int
    decreases s.len() - from,
{
    if from < 0 || from >= s.len() || !is_digit(s[from]) {
        from
    } else {
        digits_end(s, from + 1)
    }
}

/// Whether `s` is a decimal number: digits, optionally a point and more
/// digits, with at least one digit before or after the point, optionally
/// followed by `e` or `E`, an optional sign and at least one digit.
pub open spec fn is_decimal_number(s: Seq<char>) -> bool {
    let whole_end = digits_end(s, 0);
    let has_point = whole_end < s.len() && s[whole_end] == '.';
    let fraction_start = if has_point {
        whole_end + 1
    } else {
        whole_end
    };
    let mantissa_end = digits_end(s, fraction_start);
    let digit_count = whole_end + (mantissa_end - fraction_start);
    digit_count > 0 && (mantissa_end == s.len() || ((s[mantissa_end] == 'e' || s[mantissa_end]
        == 'E') && {
        let exponent_start = if mantissa_end + 1 < s.len() && is_sign(s[mantissa_end + 1]) {
            mantissa_end + 2
        } else {
            mantissa_end + 1
        };
        exponent_start < s.len() && digits_end(s, exponent_start) == s.len()
    }))
}

/// Whether `s` is written as a floating point number.
pub open spec fn is_float_literal(s: Seq<char>) -> bool {
    let body = unsigned_part(s);
    body.len() > 0 && (is_decimal_number(body) || is_special_float(body))
}

/// `digits_end` is the only index from `from` on up to which all
/// characters are digits and at which a digit does not follow.
proof fn lemma_digits_end_unique(s: Seq<char>, from: int, end: int)
    requires
        0 <= from <= end <= s.len(),
        forall|k: int| from <= k < end ==> is_digit(#[trigger] s[k]),
        end == s.len() || !is_digit(s[end]),
    ensures
        digits_end(s, from) == end,
    decreases end - from,
{
    if from < end {
        lemma_digits_end_unique(s, from + 1, end);
    }
}

/// Skips the digits of `chars` that start at `from`.
fn skip_digits(chars: &Vec<char>, from: usize) -> (end: usize)
    requires
        from <= chars@.len(),
    ensures
        end == digits_end(chars@, from as int),
        from <= end <= chars@.len(),
{
    let mut end: usize = from;
    while end < chars.len() && '0' <= chars[end] && chars[end] <= '9'
        invariant
            from <= end <= chars@.len(),
            forall|k: int| from <= k < end ==> is_digit(#[trigger] chars@[k]),
        decreases chars@.len() - end,
    {
        end += 1;
    }
    proof {
        lemma_digits_end_unique(chars@, from as int, end as int);
    }
    end
}

/// Whether the characters from `from` on read as `word`, letter case ignored.
fn reads_as(chars: &Vec<char>, from: usize, word: &Vec<char>) -> (b: bool)
    requires
        from <= chars@.len(),
        forall|i: int| 0 <= i < word@.len() ==> 'a' <= #[trigger] word@[i] <= 'z',
    ensures
        b == same_word(chars@.skip(from as int), word@),
{
    if chars.len() - from != word.len() {
        return false;
    }
    let ghost body = chars@.skip(from as int);
    let mut i: usize = 0;
    while i < word.len()
        invariant
            from <= chars@.len() <= usize::MAX,
            chars@.len() - from == word@.len(),
            body == chars@.skip(from as int),
            i <= word@.len(),
            forall|k: int| 0 <= k < i ==> ascii_lower(body[k]) == word@[k],
            forall|k: int| 0 <= k < word@.len() ==> 'a' <= #[trigger] word@[k] <= 'z',
        decreases word@.len() - i,
    {
        let c = chars[from + i];
        let w = word[i];
        let same = c == w || ('A' <= c && c <= 'Z' && (c as u8) + 32 == w as u8);
        proof {
            assert(same == (ascii_lower(c) == w));
        }
        if !same {
            return false;
        }
        i += 1;
    }
    true
}

/// Tells whether `chars` is written as a floating point number.
pub fn is_float(chars: &Vec<char>) -> (b: bool)
    ensures
        b == is_float_literal(chars@),
{
    let n = chars.len();
    if n == 0 {
        return false;
    }
    let start: usize = if chars[0] == '-' || chars[0] == '+' {
        1
    } else {
        0
    };
    if start == n {
        return false;
    }
    let ghost body = unsigned_part(chars@);
    assert(body =~= chars@.skip(start as int));
    if decimal_number_from(chars, start) {
        return true;
    }
    let inf: Vec<char> = vec!['i', 'n', 'f'];
    let nan: Vec<char> = vec!['n', 'a', 'n'];
    let infinity: Vec<char> = vec!['i', 'n', 'f', 'i', 'n', 'i', 't', 'y'];
    reads_as(chars, start, &inf) || reads_as(chars, start, &nan) || reads_as(
        chars,
        start,
        &infinity,
    )
}

/// Shifting the start of a text shifts where its digit runs end.
proof fn lemma_digits_end_skip(s: Seq<char>, start: int, from: int)
    requires
        0 <= start <= s.len(),
        0 <= from <= s.len() - start,
    ensures
        digits_end(s.skip(start), from) + start == digits_end(s, from + start),
    decreases s.len() - start - from,
{
    let t = s.skip(start);
    if from < t.len() {
        if is_digit(t[from]) {
            lemma_digits_end_skip(s, start, from + 1);
        }
    }
}

/// Whether what follows `start` in `chars` is a decimal number.
fn decimal_number_from(chars: &Vec<char>, start: usize) -> (b: bool)
    requires
        start <= chars@.len(),
    ensures
        b == is_decimal_number(chars@.skip(start as int)),
{
    let n = chars.len();
    let ghost body = chars@.skip(start as int);
    let whole_end = skip_digits(chars, start);
    proof {
        lemma_digits_end_skip(chars@, start as int, 0);
    }
    let has_point = whole_end < n && chars[whole_end] == '.';
    let fraction_start: usize = if has_point {
        whole_end + 1
    } else {
        whole_end
    };
    let mantissa_end = skip_digits(chars, fraction_start);
    proof {
        lemma_digits_end_skip(chars@, start as int, fraction_start - start);
    }
    if (whole_end - start) + (mantissa_end - fraction_start) == 0 {
        return false;
    }
    if mantissa_end == n {
        return true;
    }
    if chars[mantissa_end] != 'e' && chars[mantissa_end] != 'E' {
        return false;
    }
    let exponent_start: usize = if mantissa_end + 1 < n && (chars[mantissa_end + 1] == '+'
        || chars[mantissa_end + 1] == '-') {
        mantissa_end + 2
    } else {
        mantissa_end + 1
    };
    if exponent_start >= n {
        return false;
    }
    let exponent_end = skip_digits(chars, exponent_start);
    proof {
        lemma_digits_end_skip(chars@, start as int, exponent_start - start);
    }
    exponent_end == n
}

} // verus!
