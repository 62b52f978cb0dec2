//! Character-level helpers shared by the parsers of this crate.

use vstd::prelude::*;
use vstd::string::StrSliceExecFns;

verus! {

/// Appends one character to a `String` (`String::push`).
#[verifier::external_body]
pub(crate) fn push_char(s: &mut String, c: char)
    ensures
        final(s)@ == old(s)@.push(c),
{
    s.push(c);
}

/// The characters of `s`, in order.
pub fn chars_of(s: &str) -> (cs: Vec<char>)
    ensures
        cs@ == s@,
{
    let n = s.unicode_len();
    let mut cs: Vec<char> = Vec::new();
    let mut i: usize = 0;
    while i < n
        invariant
            n == s@.len(),
            i <= n,
            cs@ == s@.subrange(0, i as int),
        decreases n - i,
    {
        cs.push(s.get_char(i));
        i = i + 1;
    }
    cs
}

/// A `String` holding exactly the characters `cs`.
pub fn string_of(cs: &[char]) -> (s: String)
    ensures
        s@ == cs@,
{
    let mut s = String::new();
    let mut i: usize = 0;
    while i < cs.len()
        invariant
            i <= cs@.len(),
            s@ == cs@.subrange(0, i as int),
        decreases cs@.len() - i,
    {
        push_char(&mut s, cs[i]);
        i = i + 1;
    }
    s
}

/// Whether the characters `cs` spell exactly `lit`.
pub fn eq_lit(cs: &[char], lit: &str) -> (b: bool)
    ensures
        b == (cs@ == lit@),
{
    let n = lit.unicode_len();
    if cs.len() != n {
        return false;
    }
    let mut i: usize = 0;
    while i < n
        invariant
            n == lit@.len(),
            n == cs@.len(),
            i <= n,
            forall|j: int| 0 <= j < i ==> cs@[j] == lit@[j],
        decreases n - i,
    {
        if cs[i] != lit.get_char(i) {
            return false;
        }
        i = i + 1;
    }
    assert(cs@ =~= lit@);
    true
}


/// Case folding used when matching words case-insensitively: ASCII capitals
/// map to their small letters and the Kelvin sign to `k`; every other
/// character is its own fold.
///
/// Matching folded text against words made of ASCII letters, digits,
/// punctuation and `§` gives the same answer as comparing the full Unicode
/// lowercase of the text with the word: the Kelvin sign is the only
/// character outside ASCII whose lowercase is an ASCII letter, and the
/// lowercase of any other character outside ASCII holds a character that no
/// such word holds.
pub open spec fn fold_char(c: char) -> char {
    if 'A' <= c && c <= 'Z' {
        ((c as u32) + 32) as char
    } else if c == '\u{212A}' {
        'k'
    } else {
        c
    }
}

/// The fold of every character of `s`.
pub open spec fn fold(s: Seq<char>) -> Seq<char> {
    s.map_values(|c: char| fold_char(c))
}

/// `s` with its small ASCII letters made capital.
pub open spec fn ascii_upper(s: Seq<char>) -> Seq<char> {
    s.map_values(|c: char| if 'a' <= c && c <= 'z' { ((c as u32) - 32) as char } else { c })
}

/// Executable `fold_char`.
pub fn fold_one(c: char) -> (d: char)
    ensures
        d == fold_char(c),
{
    if 'A' <= c && c <= 'Z' {
        let code: u32 = c as u32;
        let small: u8 = (code + 32) as u8;
        small as char
    } else if c == '\u{212A}' {
        'k'
    } else {
        c
    }
}

/// The folded characters of `s`.
pub fn folded_chars(s: &str) -> (cs: Vec<char>)
    ensures
        cs@ == fold(s@),
{
    let raw = chars_of(s);
    let mut cs: Vec<char> = Vec::new();
    let mut i: usize = 0;
    while i < raw.len()
        invariant
            raw@ == s@,
            i <= raw@.len(),
            cs@ == fold(s@).subrange(0, i as int),
        decreases raw@.len() - i,
    {
        let d = fold_one(raw[i]);
        cs.push(d);
        i = i + 1;
        assert(cs@ =~= fold(s@).subrange(0, i as int));
    }
    assert(cs@ =~= fold(s@));
    cs
}


/// Number of bytes that the UTF-8 encoding of `c` takes.
pub open spec fn char_utf8_len(c: char) -> nat {
    if (c as u32) < 0x80 {
        1
    } else if (c as u32) < 0x800 {
        2
    } else if (c as u32) < 0x10000 {
        3
    } else {
        4
    }
}

/// Number of bytes that the UTF-8 encoding of `s` takes.
pub open spec fn utf8_len(s: Seq<char>) -> nat
    decreases s.len(),
{
    if s.len() == 0 {
        0
    } else {
        utf8_len(s.drop_last()) + char_utf8_len(s.last())
    }
}

/// Whether byte offset `b` of the UTF-8 encoding of `s` falls between two
/// characters.
pub open spec fn is_byte_boundary(s: Seq<char>, b: nat) -> bool {
    exists|k: int| 0 <= k <= s.len() && utf8_len(#[trigger] s.subrange(0, k)) == b
}

/// Executable `char_utf8_len`.
pub fn utf8_width(c: char) -> (n: usize)
    ensures
        n == char_utf8_len(c),
{
    let code = c as u32;
    if code < 0x80 {
        1
    } else if code < 0x800 {
        2
    } else if code < 0x10000 {
        3
    } else {
        4
    }
}

} // verus!
