use vstd::prelude::*;

verus! {

/// Why a text is not a decimal `i64`; the kinds of `core::num::IntErrorKind`
/// that base-10 parsing can give.
#[derive(Debug, Clone, Copy, PartialEq, Eq, Structural)]
pub enum IntParseError {
    Empty,
    InvalidDigit,
    PosOverflow,
    NegOverflow,
}

/// Why a text is not a floating-point literal: empty, or not in the grammar.
#[derive(Debug, Clone, Copy, PartialEq, Eq, Structural)]
pub enum FloatParseError {
    Empty,
    Invalid,
}

pub open spec fn is_digit(c: char) -> bool {
    '0' <= c && c <= '9'
}

pub open spec fn digit_value(c: char) -> int {
    (c as int) - ('0' as int)
}

pub open spec fn is_sign(c: char) -> bool {
    c == '+' || c == '-'
}

/// Reads the digits of `d` from left to right onto `acc` (subtracting them
/// when `negative`), stopping at the first character that is no digit or
/// the first step that leaves the range of `i64`.
pub open spec fn spec_scan_digits(d: Seq<char>, negative: bool, acc: int) -> Result<i64, IntParseError>
    decreases d.len(),
{
    if d.len() == 0 {
        Ok(acc as i64)
    } else if !is_digit(d[0]) {
        Err(IntParseError::InvalidDigit)
    } else {
        let next = if negative {
            acc * 10 - digit_value(d[0])
        } else {
            acc * 10 + digit_value(d[0])
        };
        if next > i64::MAX {
            Err(IntParseError::PosOverflow)
        } else if next < i64::MIN {
            Err(IntParseError::NegOverflow)
        } else {
            spec_scan_digits(d.drop_first(), negative, next)
        }
    }
}

/// What `<i64 as FromStr>::from_str` gives: an optional sign, then at least
/// one decimal digit, and nothing else.
pub open spec fn spec_parse_i64(s: Seq<char>) -> Result<i64, IntParseError> {
    if s.len() == 0 {
        Err(IntParseError::Empty)
    } else if is_sign(s[0]) && s.len() == 1 {
        Err(IntParseError::InvalidDigit)
    } else if s[0] == '+' {
        spec_scan_digits(s.drop_first(), false, 0)
    } else if s[0] == '-' {
        spec_scan_digits(s.drop_first(), true, 0)
    } else {
        spec_scan_digits(s, false, 0)
    }
}

/// The number of consecutive decimal digits of `s` from position `i` on.
pub open spec fn digit_run(s: Seq<char>, i: int) -> int
    decreases s.len() - i,
{
    if i < 0 || i >= s.len() || !is_digit(s[i]) {
        0
    } else {
        1 + digit_run(s, i + 1)
    }
}

pub open spec fn ascii_lower(c: char) -> char {
    if 'A' <= c && c <= 'Z' {
        ((c as int) + 32) as char
    } else {
        c
    }
}

/// `s` equals the lower-case ASCII `word` up to ASCII case.
pub open spec fn eq_ignore_ascii_case(s: Seq<char>, word: Seq<char>) -> bool {
    &&& s.len() == word.len()
    &&& forall|i: int| 0 <= i < s.len() ==> ascii_lower(#[trigger] s[i]) == word[i]
}

/// `r[e..]` is an exponent: `e` or `E`, an optional sign, one digit or more.
pub open spec fn is_exponent_at(r: Seq<char>, e: int) -> bool {
    let k = if e + 1 < r.len() && is_sign(r[e + 1]) {
        e + 2
    } else {
        e + 1
    };
    &&& 0 <= e < r.len()
    &&& (r[e] == 'e' || r[e] == 'E')
    &&& k < r.len()
    &&& k + digit_run(r, k) == r.len()
}

/// `Digit+ | Digit+ '.' Digit* | Digit* '.' Digit+`, then an optional exponent.
pub open spec fn is_decimal_number(r: Seq<char>) -> bool {
    let a = digit_run(r, 0);
    let has_dot = a < r.len() && r[a] == '.';
    let b = if has_dot {
        digit_run(r, a + 1)
    } else {
        0
    };
    let end = if has_dot {
        a + 1 + b
    } else {
        a
    };
    &&& a + b > 0
    &&& (end == r.len() || is_exponent_at(r, end))
}

/// The grammar of `<f64 as FromStr>::from_str` as its documentation gives
/// it, letters compared without regard to ASCII case:
/// `Sign? ('inf' | 'infinity' | 'nan' | Number)`.
pub open spec fn spec_float_syntax(s: Seq<char>) -> Result<(), FloatParseError> {
    if s.len() == 0 {
        Err(FloatParseError::Empty)
    } else {
        let r = if is_sign(s[0]) {
            s.drop_first()
        } else {
            s
        };
        if eq_ignore_ascii_case(r, seq!['i', 'n', 'f'])
            || eq_ignore_ascii_case(r, seq!['i', 'n', 'f', 'i', 'n', 'i', 't', 'y'])
            || eq_ignore_ascii_case(r, seq!['n', 'a', 'n']) || is_decimal_number(r) {
            Ok(())
        } else {
            Err(FloatParseError::Invalid)
        }
    }
}

/// The characters of `s`.
pub fn chars_of(s: &str) -> (r: Vec<char>)
    ensures
        r@ == s@,
{
    let n = s.unicode_len();
    let mut r: Vec<char> = Vec::with_capacity(n);
    let mut i: usize = 0;
    while i < n
        invariant
            n == s@.len(),
            0 <= i <= n,
            r@ == s@.subrange(0, i as int),
        decreases n - i,
    {
        r.push(s.get_char(i));
        i = i + 1;
        assert(r@ =~= s@.subrange(0, i as int));
    }
    assert(s@.subrange(0, n as int) =~= s@);
    r
}

fn char_is_digit(c: char) -> (r: bool)
    ensures
        r == is_digit(c),
{
    '0' <= c && c <= '9'
}

fn char_is_sign(c: char) -> (r: bool)
    ensures
        r == is_sign(c),
{
    c == '+' || c == '-'
}

fn char_digit_value(c: char) -> (r: i128)
    requires
        is_digit(c),
    ensures
        r == digit_value(c),
        0 <= r <= 9,
{
    ((c as u32) - ('0' as u32)) as i128
}

/// Reads `d[start..]` as in `spec_scan_digits` from an accumulator of zero.
fn scan_digits(d: &Vec<char>, start: usize, negative: bool) -> (r: Result<i64, IntParseError>)
    requires
        start <= d@.len(),
    ensures
        r == spec_scan_digits(d@.subrange(start as int, d@.len() as int), negative, 0),
{
    let n = d.len();
    let mut acc: i64 = 0;
    let mut i: usize = start;
    while i < n
        invariant
            n == d@.len(),
            start <= i <= n,
            spec_scan_digits(d@.subrange(start as int, n as int), negative, 0)
                == spec_scan_digits(d@.subrange(i as int, n as int), negative, acc as int),
        decreases n - i,
    {
        let ghost rest = d@.subrange(i as int, n as int);
        assert(rest[0] == d@[i as int]);
        let c = d[i];
        if !char_is_digit(c) {
            return Err(IntParseError::InvalidDigit);
        }
        let v = char_digit_value(c);
        let next: i128 = if negative {
            (acc as i128) * 10 - v
        } else {
            (acc as i128) * 10 + v
        };
        if next > (i64::MAX as i128) {
            return Err(IntParseError::PosOverflow);
        }
        if next < (i64::MIN as i128) {
            return Err(IntParseError::NegOverflow);
        }
        acc = next as i64;
        assert(rest.drop_first() =~= d@.subrange(i + 1, n as int));
        i = i + 1;
    }
    assert(d@.subrange(n as int, n as int).len() == 0);
    Ok(acc)
}

/// Parses a decimal `i64` as `<i64 as FromStr>::from_str` does.
pub fn parse_i64(s: &str) -> (r: Result<i64, IntParseError>)
    ensures
        r == spec_parse_i64(s@),
{
    let d = chars_of(s);
    let n = d.len();
    if n == 0 {
        return Err(IntParseError::Empty);
    }
    if char_is_sign(d[0]) && n == 1 {
        return Err(IntParseError::InvalidDigit);
    }
    if d[0] == '+' {
        assert(d@.subrange(1, n as int) =~= s@.drop_first());
        scan_digits(&d, 1, false)
    } else if d[0] == '-' {
        assert(d@.subrange(1, n as int) =~= s@.drop_first());
        scan_digits(&d, 1, true)
    } else {
        assert(d@.subrange(0, n as int) =~= s@);
        scan_digits(&d, 0, false)
    }
}

fn count_digits(r: &Vec<char>, i: usize) -> (k: usize)
    requires
        i <= r@.len(),
    ensures
        k == digit_run(r@, i as int),
        i + k <= r@.len(),
{
    let n = r.len();
    let mut j: usize = i;
    while j < n && char_is_digit(r[j])
        invariant
            n == r@.len(),
            i <= j <= n,
            digit_run(r@, i as int) == (j - i) + digit_run(r@, j as int),
        decreases n - j,
    {
        j = j + 1;
    }
    j - i
}

fn matches_word(r: &Vec<char>, word: &str) -> (b: bool)
    ensures
        b == eq_ignore_ascii_case(r@, word@),
{
    let w = chars_of(word);
    if r.len() != w.len() {
        return false;
    }
    let n = r.len();
    let mut i: usize = 0;
    while i < n
        invariant
            n == r@.len(),
            n == w@.len(),
            w@ == word@,
            0 <= i <= n,
            forall|j: int| 0 <= j < i ==> ascii_lower(#[trigger] r@[j]) == w@[j],
        decreases n - i,
    {
        let c = r[i];
        let lowered = if 'A' <= c && c <= 'Z' {
            char_lower_ascii(c)
        } else {
            c
        };
        if lowered != w[i] {
            return false;
        }
        i = i + 1;
    }
    true
}

fn char_lower_ascii(c: char) -> (r: char)
    requires
        'A' <= c <= 'Z',
    ensures
        r == ascii_lower(c),
{
    let wide: u32 = (c as u32) + 32;
    let code: u8 = wide as u8;
    code as char
}

fn exponent_at(r: &Vec<char>, e: usize) -> (b: bool)
    requires
        e <= r@.len(),
    ensures
        b == is_exponent_at(r@, e as int),
{
    let n = r.len();
    if e >= n || !(r[e] == 'e' || r[e] == 'E') {
        return false;
    }
    let k = if e + 1 < n && char_is_sign(r[e + 1]) {
        e + 2
    } else {
        e + 1
    };
    if k >= n {
        return false;
    }
    let run = count_digits(r, k);
    k + run == n
}

fn decimal_number(r: &Vec<char>) -> (b: bool)
    ensures
        b == is_decimal_number(r@),
{
    let n = r.len();
    let a = count_digits(r, 0);
    let has_dot = a < n && r[a] == '.';
    let b = if has_dot {
        count_digits(r, a + 1)
    } else {
        0
    };
    let end = if has_dot {
        a + 1 + b
    } else {
        a
    };
    a + b > 0 && (end == n || exponent_at(r, end))
}

/// Checks `s` against the grammar that `<f64 as FromStr>::from_str`
/// accepts; the conversion to a float itself is left to the caller.
pub fn check_float_syntax(s: &str) -> (res: Result<(), FloatParseError>)
    ensures
        res == spec_float_syntax(s@),
{
    let mut r = chars_of(s);
    if r.len() == 0 {
        return Err(FloatParseError::Empty);
    }
    if char_is_sign(r[0]) {
        r.remove(0);
        assert(r@ =~= s@.drop_first());
    }
    proof {
        reveal_strlit("inf");
        reveal_strlit("infinity");
        reveal_strlit("nan");
    }
    if matches_word(&r, "inf") || matches_word(&r, "infinity") || matches_word(&r, "nan")
        || decimal_number(&r) {
        proof {
            assert("inf"@ =~= seq!['i', 'n', 'f']);
            assert("infinity"@ =~= seq!['i', 'n', 'f', 'i', 'n', 'i', 't', 'y']);
            assert("nan"@ =~= seq!['n', 'a', 'n']);
        }
        Ok(())
    } else {
        proof {
            assert("inf"@ =~= seq!['i', 'n', 'f']);
            assert("infinity"@ =~= seq!['i', 'n', 'f', 'i', 'n', 'i', 't', 'y']);
            assert("nan"@ =~= seq!['n', 'a', 'n']);
        }
        Err(FloatParseError::Invalid)
    }
}

} // verus!
