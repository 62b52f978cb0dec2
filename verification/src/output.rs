//! Preparing transcribed text for typing at the cursor.

use vstd::prelude::*;
use crate::config::OutputConfig;
use crate::text::{chars_of, string_of};

verus! {

/// The text to type for the transcription `t`: the first letter made
/// capital when it is a small ASCII letter and `capitalize` holds, then a
/// space added when `trailing_space` holds and the text does not already
/// end with one. An empty transcription stays empty (nothing is typed).
pub open spec fn prepared_text(t: Seq<char>, capitalize: bool, trailing_space: bool) -> Seq<char> {
    if t.len() == 0 {
        t
    } else {
        let t1 = if capitalize && 'a' <= t[0] && t[0] <= 'z' {
            seq![((t[0] as u32) - 32) as char] + t.drop_first()
        } else {
            t
        };
        if trailing_space && t1.last() != ' ' {
            t1.push(' ')
        } else {
            t1
        }
    }
}

/// What preparing does to a transcription `t`: every character after the
/// first is kept; the first is raised to its capital exactly when
/// `capitalize` holds and it is a small ASCII letter, and kept otherwise; a
/// single space is appended exactly when `trailing_space` holds and `t` is
/// not empty and does not end with a space; nothing else is added. In
/// particular, without `capitalize` the text is typed as transcribed.
pub proof fn lemma_prepared_text(t: Seq<char>, capitalize: bool, trailing_space: bool)
    ensures
        ({
            let p = prepared_text(t, capitalize, trailing_space);
            let adds_space = trailing_space && t.len() > 0 && t.last() != ' ';
            let raises = capitalize && t.len() > 0 && 'a' <= t[0] && t[0] <= 'z';
            &&& p.len() == t.len() + if adds_space { 1int } else { 0int }
            &&& forall|i: int| 1 <= i < t.len() ==> p[i] == t[i]
            &&& t.len() > 0 ==> (if raises { p[0] as u32 + 32 == t[0] as u32 && 'A' <= p[0] && p[0] <= 'Z' } else { p[0] == t[0] })
            &&& adds_space ==> p[t.len() as int] == ' '
            &&& !capitalize ==> p == if adds_space { t.push(' ') } else { t }
        }),
{
    if t.len() > 0 {
        let t1 = if capitalize && 'a' <= t[0] && t[0] <= 'z' {
            seq![((t[0] as u32) - 32) as char] + t.drop_first()
        } else {
            t
        };
        assert(t1.len() == t.len());
        assert(t1.last() == ' ' <==> t.last() == ' ');
    }
}

/// The text to type for a transcription.
pub fn prepare_text(text: &str, config: &OutputConfig) -> (out: String)
    ensures
        out@ == prepared_text(text@, config.capitalize, config.add_trailing_space),
{
    let mut cs = chars_of(text);
    if cs.len() == 0 {
        return String::new();
    }
    if config.capitalize && 'a' <= cs[0] && cs[0] <= 'z' {
        let code: u32 = cs[0] as u32;
        let capital: u8 = (code - 32) as u8;
        cs.set(0, capital as char);
        assert(cs@ =~= seq![((text@[0] as u32) - 32) as char] + text@.drop_first());
    }
    if config.add_trailing_space && cs[cs.len() - 1] != ' ' {
        cs.push(' ');
    }
    string_of(&cs)
}

/// The delay between keystrokes in microseconds, as the typing tool takes
/// it (a 32-bit count; larger values wrap).
pub fn typing_delay_micros(typing_delay_ms: u64) -> (us: u32)
    requires
        typing_delay_ms * 1000 <= u64::MAX,
    ensures
        us == (typing_delay_ms * 1000) as u32,
{
    let total: u64 = typing_delay_ms * 1000;
    total as u32
}

} // verus!
