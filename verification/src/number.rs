//! Integer parsing with the grammar and error kinds of the standard
//! library's `FromStr` for integers (and `from_str_radix` with radix 16):
//! an optional sign, then at least one digit, no surrounding space.

use vstd::prelude::*;

verus! {

/// Why a text is not an integer of the wanted type.
#[derive(Clone, Copy, Debug, PartialEq, Eq, Structural)]
pub enum IntErrorKind {
    /// The text is empty.
    Empty,
    /// A character that is not a digit of the radix (a lone sign counts).
    InvalidDigit,
    /// The value is above the type's maximum.
    PosOverflow,
    /// The value is below the type's minimum.
    NegOverflow,
}

/// Value of `c` as a digit of `radix` (10 or 16, either case of letter).
pub open spec fn digit_value(c: char, radix: u32) -> Option<int> {
    if '0' <= c && c <= '9' {
        Some(c as int - '0' as int)
    } else if radix == 16 && 'a' <= c && c <= 'f' {
        Some(c as int - 'a' as int + 10)
    } else if radix == 16 && 'A' <= c && c <= 'F' {
        Some(c as int - 'A' as int + 10)
    } else {
        None
    }
}

/// `acc` shifted one digit to the left in `radix`.
pub open spec fn shift(acc: int, radix: u32) -> int {
    if radix == 16 {
        acc * 16
    } else {
        acc * 10
    }
}

/// Reads the digits `ds[i..]` left to right onto `acc`, failing at the
/// first character that is not a digit or that takes the value out of
/// `[min, max]`.
pub open spec fn scan_digits(
    ds: Seq<char>,
    i: int,
    acc: int,
    radix: u32,
    negative: bool,
    min: int,
    max: int,
) -> Result<int, IntErrorKind>
    decreases ds.len() - i,
{
    if i < 0 || i >= ds.len() {
        Ok(acc)
    } else {
        match digit_value(ds[i], radix) {
            None => Err(IntErrorKind::InvalidDigit),
            Some(d) => {
                let next = if negative {
                    shift(acc, radix) - d
                } else {
                    shift(acc, radix) + d
                };
                if next > max {
                    Err(IntErrorKind::PosOverflow)
                } else if next < min {
                    Err(IntErrorKind::NegOverflow)
                } else {
                    scan_digits(ds, i + 1, next, radix, negative, min, max)
                }
            },
        }
    }
}

/// The integer that `s` denotes in `radix` within `[min, max]`; a leading
/// `-` is a sign only where `signed` holds.
pub open spec fn parse_spec(
    s: Seq<char>,
    radix: u32,
    signed: bool,
    min: int,
    max: int,
) -> Result<int, IntErrorKind> {
    if s.len() == 0 {
        Err(IntErrorKind::Empty)
    } else if (s[0] == '+' || s[0] == '-') && s.len() == 1 {
        Err(IntErrorKind::InvalidDigit)
    } else if s[0] == '+' {
        scan_digits(s, 1, 0, radix, false, min, max)
    } else if s[0] == '-' && signed {
        scan_digits(s, 1, 0, radix, true, min, max)
    } else {
        scan_digits(s, 0, 0, radix, false, min, max)
    }
}

/// Scanning digits behind a leading character is scanning them alone.
proof fn lemma_scan_shift(c: char, d: Seq<char>, i: int, acc: int, radix: u32, negative: bool, min: int, max: int)
    requires
        0 <= i <= d.len(),
    ensures
        scan_digits(seq![c] + d, i + 1, acc, radix, negative, min, max)
            == scan_digits(d, i, acc, radix, negative, min, max),
    decreases d.len() - i,
{
    let s = seq![c] + d;
    if i < d.len() {
        assert(s[i + 1] == d[i]);
        match digit_value(d[i], radix) {
            None => {},
            Some(v) => {
                let next = if negative { shift(acc, radix) - v } else { shift(acc, radix) + v };
                if min <= next <= max {
                    lemma_scan_shift(c, d, i + 1, next, radix, negative, min, max);
                }
            },
        }
    }
}

/// A leading `+` does not change what a number denotes.
pub proof fn lemma_plus_sign(d: Seq<char>, radix: u32, signed: bool, min: int, max: int)
    requires
        d.len() > 0,
        d[0] != '+',
        d[0] != '-',
    ensures
        parse_spec(seq!['+'] + d, radix, signed, min, max) == parse_spec(d, radix, signed, min, max),
{
    lemma_scan_shift('+', d, 0, 0, radix, false, min, max);
    assert((seq!['+'] + d)[0] == '+');
}

/// The decimal digits of `n`, most significant first, without leading
/// zeros.
pub open spec fn decimal(n: nat) -> Seq<char>
    decreases n,
{
    if n < 10 {
        seq![(48 + n) as char]
    } else {
        decimal(n / 10).push((48 + n % 10) as char)
    }
}

/// Every character of `decimal(n)` is a decimal digit.
proof fn lemma_decimal_digits(n: nat)
    ensures
        decimal(n).len() >= 1,
        forall|i: int| 0 <= i < decimal(n).len() ==> '0' <= #[trigger] decimal(n)[i] <= '9',
    decreases n,
{
    if n >= 10 {
        lemma_decimal_digits(n / 10);
    }
}

/// Scanning one more character continues from where the shorter scan
/// ended.
proof fn lemma_scan_push(s: Seq<char>, c: char, i: int, acc: int, radix: u32, negative: bool, min: int, max: int)
    requires
        0 <= i <= s.len(),
    ensures
        scan_digits(s.push(c), i, acc, radix, negative, min, max) == match scan_digits(s, i, acc, radix, negative, min, max) {
            Ok(a) => scan_digits(seq![c], 0, a, radix, negative, min, max),
            Err(e) => Err(e),
        },
    decreases s.len() - i,
{
    let t = s.push(c);
    if i < s.len() {
        assert(t[i] == s[i]);
        match digit_value(s[i], radix) {
            None => {},
            Some(d) => {
                let next = if negative { shift(acc, radix) - d } else { shift(acc, radix) + d };
                if min <= next <= max {
                    lemma_scan_push(s, c, i + 1, next, radix, negative, min, max);
                }
            },
        }
    } else {
        assert(t[i] == seq![c][0]);
        match digit_value(c, radix) {
            None => {},
            Some(d) => {
                let next = if negative { shift(acc, radix) - d } else { shift(acc, radix) + d };
                if min <= next <= max {
                    assert(scan_digits(t, i + 1, next, radix, negative, min, max) == Ok::<int, IntErrorKind>(next));
                    assert(scan_digits(seq![c], 1, next, radix, negative, min, max) == Ok::<int, IntErrorKind>(next));
                }
            },
        }
    }
}

/// Scanning the decimal digits of `n` in base 10 gives `n` (or `-n` when
/// negative) as long as that value is in range.
proof fn lemma_scan_decimal(n: nat, negative: bool, min: int, max: int)
    requires
        min <= 0 <= max,
        !negative ==> n <= max,
        negative ==> -n >= min,
    ensures
        scan_digits(decimal(n), 0, 0, 10, negative, min, max)
            == Ok::<int, IntErrorKind>(if negative { -n } else { n as int }),
    decreases n,
{
    let d = n % 10;
    let c = (48 + d) as char;
    assert(digit_value(c, 10) == Some(d as int));
    if n < 10 {
        assert(decimal(n) =~= seq![c]);
        let next = if negative { shift(0, 10) - d } else { shift(0, 10) + d };
        assert(scan_digits(seq![c], 1, next, 10, negative, min, max) == Ok::<int, IntErrorKind>(next));
    } else {
        let m = n / 10;
        lemma_scan_decimal(m, negative, min, max);
        lemma_scan_push(decimal(m), c, 0, 0, 10, negative, min, max);
        lemma_decimal_digits(m);
        let a: int = if negative { -m } else { m as int };
        let next = if negative { shift(a, 10) - d } else { shift(a, 10) + d };
        assert(next == if negative { -n } else { n as int });
        assert(scan_digits(seq![c], 1, next, 10, negative, min, max) == Ok::<int, IntErrorKind>(next));
    }
}

/// Scanning the decimal digits of a number above `max` overflows.
proof fn lemma_scan_decimal_overflow(n: nat, min: int, max: int)
    requires
        min <= 0 <= max,
        n > max,
    ensures
        scan_digits(decimal(n), 0, 0, 10, false, min, max) == Err::<int, IntErrorKind>(IntErrorKind::PosOverflow),
    decreases n,
{
    let d = n % 10;
    let c = (48 + d) as char;
    assert(digit_value(c, 10) == Some(d as int));
    if n < 10 {
        assert(decimal(n) =~= seq![c]);
    } else {
        let m = n / 10;
        lemma_scan_push(decimal(m), c, 0, 0, 10, false, min, max);
        if m > max {
            lemma_scan_decimal_overflow(m, min, max);
        } else {
            lemma_scan_decimal(m, false, min, max);
        }
    }
}

/// The decimal text of a number reads back as that number: for every `n`
/// within `[min, max]`, `decimal(n)` parses as `n`, and when a sign is
/// allowed, "-" followed by `decimal(n)` parses as `-n` within range;
/// above the maximum `decimal(n)` is a positive overflow.
pub proof fn lemma_decimal_round_trip(n: nat, signed: bool, min: int, max: int)
    requires
        min <= 0 <= max,
    ensures
        n <= max ==> parse_spec(decimal(n), 10, signed, min, max) == Ok::<int, IntErrorKind>(n as int),
        signed && -n >= min ==> parse_spec(seq!['-'] + decimal(n), 10, signed, min, max)
            == Ok::<int, IntErrorKind>(-n),
        n > max ==> parse_spec(decimal(n), 10, signed, min, max)
            == Err::<int, IntErrorKind>(IntErrorKind::PosOverflow),
{
    lemma_decimal_digits(n);
    let s = decimal(n);
    assert('0' <= s[0] <= '9');
    if n <= max {
        lemma_scan_decimal(n, false, min, max);
    } else {
        lemma_scan_decimal_overflow(n, min, max);
    }
    if signed && -n >= min {
        lemma_scan_decimal(n, true, min, max);
        lemma_scan_shift('-', s, 0, 0, 10, true, min, max);
        assert((seq!['-'] + s)[0] == '-');
    }
}

/// Executable `digit_value`.
fn digit(c: char, radix: u32) -> (d: Option<i128>)
    ensures
        match digit_value(c, radix) {
            Some(v) => d == Some(v as i128),
            None => d is None,
        },
{
    if '0' <= c && c <= '9' {
        Some((c as u32 - '0' as u32) as i128)
    } else if radix == 16 && 'a' <= c && c <= 'f' {
        Some((c as u32 - 'a' as u32 + 10) as i128)
    } else if radix == 16 && 'A' <= c && c <= 'F' {
        Some((c as u32 - 'A' as u32 + 10) as i128)
    } else {
        None
    }
}

/// Parses `s` as an integer of `radix` in `[min, max]`.
pub fn parse_int(s: &[char], radix: u32, signed: bool, min: i128, max: i128) -> (r: Result<
    i128,
    IntErrorKind,
>)
    requires
        radix == 10 || radix == 16,
        -0x1_0000_0000_0000_0000 <= min <= 0 <= max <= 0x1_0000_0000_0000_0000,
    ensures
        r matches Ok(v) ==> min <= v <= max,
        match r {
            Ok(v) => parse_spec(s@, radix, signed, min as int, max as int) == Ok::<int, IntErrorKind>(v as int),
            Err(e) => parse_spec(s@, radix, signed, min as int, max as int) == Err::<int, IntErrorKind>(e),
        },
{
    let n = s.len();
    if n == 0 {
        return Err(IntErrorKind::Empty);
    }
    if (s[0] == '+' || s[0] == '-') && n == 1 {
        return Err(IntErrorKind::InvalidDigit);
    }
    let negative = s[0] == '-' && signed;
    let mut i: usize = if s[0] == '+' || negative { 1 } else { 0 };
    let mut acc: i128 = 0;
    let ghost start = i as int;
    assert(parse_spec(s@, radix, signed, min as int, max as int) == scan_digits(s@, start, 0, radix, negative, min as int, max as int));
    while i < n
        invariant
            n == s@.len(),
            radix == 10 || radix == 16,
            -0x1_0000_0000_0000_0000 <= min <= 0 <= max <= 0x1_0000_0000_0000_0000,
            i <= n,
            min <= acc <= max,
            parse_spec(s@, radix, signed, min as int, max as int) == scan_digits(s@, start, 0, radix, negative, min as int, max as int),
            scan_digits(s@, start, 0, radix, negative, min as int, max as int)
                == scan_digits(s@, i as int, acc as int, radix, negative, min as int, max as int),
        decreases n - i,
    {
        let d = match digit(s[i], radix) {
            None => {
                return Err(IntErrorKind::InvalidDigit);
            },
            Some(d) => d,
        };
        let shifted: i128 = if radix == 16 { acc * 16 } else { acc * 10 };
        let next: i128 = if negative { shifted - d } else { shifted + d };
        if next > max {
            return Err(IntErrorKind::PosOverflow);
        }
        if next < min {
            return Err(IntErrorKind::NegOverflow);
        }
        acc = next;
        i = i + 1;
    }
    Ok(acc)
}

/// Parses `s` as a `u32` in decimal, as `str::parse::<u32>` does.
pub fn parse_u32(s: &[char]) -> (r: Result<u32, IntErrorKind>)
    ensures
        match r {
            Ok(v) => parse_spec(s@, 10, false, 0, u32::MAX as int) == Ok::<int, IntErrorKind>(v as int),
            Err(e) => parse_spec(s@, 10, false, 0, u32::MAX as int) == Err::<int, IntErrorKind>(e),
        },
{
    match parse_int(s, 10, false, 0, 0xffff_ffff) {
        Ok(v) => Ok(v as u32),
        Err(e) => Err(e),
    }
}

/// Parses `s` as a `u64` in decimal, as `str::parse::<u64>` does.
pub fn parse_u64(s: &[char]) -> (r: Result<u64, IntErrorKind>)
    ensures
        match r {
            Ok(v) => parse_spec(s@, 10, false, 0, u64::MAX as int) == Ok::<int, IntErrorKind>(v as int),
            Err(e) => parse_spec(s@, 10, false, 0, u64::MAX as int) == Err::<int, IntErrorKind>(e),
        },
{
    match parse_int(s, 10, false, 0, 0xffff_ffff_ffff_ffff) {
        Ok(v) => Ok(v as u64),
        Err(e) => Err(e),
    }
}

/// Parses `s` as an `i32` in decimal, as `str::parse::<i32>` does.
pub fn parse_i32(s: &[char]) -> (r: Result<i32, IntErrorKind>)
    ensures
        match r {
            Ok(v) => parse_spec(s@, 10, true, i32::MIN as int, i32::MAX as int) == Ok::<int, IntErrorKind>(v as int),
            Err(e) => parse_spec(s@, 10, true, i32::MIN as int, i32::MAX as int) == Err::<int, IntErrorKind>(e),
        },
{
    match parse_int(s, 10, true, -0x8000_0000, 0x7fff_ffff) {
        Ok(v) => Ok(v as i32),
        Err(e) => Err(e),
    }
}

/// Parses `s` as a `u8` in hexadecimal, as `u8::from_str_radix(s, 16)` does.
pub fn parse_hex_u8(s: &[char]) -> (r: Result<u8, IntErrorKind>)
    ensures
        match r {
            Ok(v) => parse_spec(s@, 16, false, 0, 255) == Ok::<int, IntErrorKind>(v as int),
            Err(e) => parse_spec(s@, 16, false, 0, 255) == Err::<int, IntErrorKind>(e),
        },
{
    match parse_int(s, 16, false, 0, 255) {
        Ok(v) => Ok(v as u8),
        Err(e) => Err(e),
    }
}

} // verus!
