//! Hotkey parsing ("Super+D") and the press/release tracking that turns
//! raw key events, auto-repeat included, into clean hotkey events.

use vstd::prelude::*;
use crate::text::{ascii_upper, chars_of, eq_lit, fold, fold_one};
use crate::number::decimal;

verus! {

/// Events from the hotkey listener to the dictation loop.
#[derive(Clone, Copy, Debug, PartialEq, Eq, Structural)]
pub enum HotkeyEvent {
    /// The key went down.
    Pressed,
    /// The key went up.
    Released,
}

/// Tracks whether the hotkey is held, so that repeated presses while it
/// is held and releases while it is up are dropped.
pub struct KeyTracker {
    key_is_down: bool,
}

/// Whether the tracked key is held after a raw press (`true`) or release
/// (`false`) event, and the hotkey event it gives, if any.
pub open spec fn track_step(down: bool, press: bool) -> (bool, Option<HotkeyEvent>) {
    if press {
        if down { (true, None) } else { (true, Some(HotkeyEvent::Pressed)) }
    } else {
        if down { (false, Some(HotkeyEvent::Released)) } else { (false, None) }
    }
}

/// The held flag and the hotkey events after the raw events `raw`.
pub open spec fn track_run(down: bool, raw: Seq<bool>) -> (bool, Seq<HotkeyEvent>)
    decreases raw.len(),
{
    if raw.len() == 0 {
        (down, Seq::empty())
    } else {
        let (d, es) = track_run(down, raw.drop_last());
        let (d2, e) = track_step(d, raw.last());
        match e {
            Some(ev) => (d2, es.push(ev)),
            None => (d2, es),
        }
    }
}

/// Whatever raw events arrive, the hotkey events that come out of a
/// tracker that starts with the key up alternate, beginning with
/// `Pressed`; the key is held exactly when the last one was `Pressed`.
pub proof fn lemma_events_alternate(raw: Seq<bool>)
    ensures
        forall|i: int| 0 <= i < track_run(false, raw).1.len() ==>
            #[trigger] track_run(false, raw).1[i] == (if i % 2 == 0 { HotkeyEvent::Pressed } else { HotkeyEvent::Released }),
        track_run(false, raw).0 == (track_run(false, raw).1.len() % 2 == 1),
    decreases raw.len(),
{
    if raw.len() > 0 {
        lemma_events_alternate(raw.drop_last());
    }
}

impl KeyTracker {
    /// A tracker with the key up.
    pub fn new() -> (t: Self)
        ensures
            !t.is_down_spec(),
    {
        KeyTracker { key_is_down: false }
    }

    /// Whether the key is held.
    pub closed spec fn is_down_spec(&self) -> bool {
        self.key_is_down
    }

    /// A raw press of the key: `Pressed` unless it is already held (an
    /// auto-repeat).
    pub fn on_press(&mut self) -> (e: Option<HotkeyEvent>)
        ensures
            (final(self).is_down_spec(), e) == track_step(old(self).is_down_spec(), true),
    {
        if self.key_is_down {
            None
        } else {
            self.key_is_down = true;
            Some(HotkeyEvent::Pressed)
        }
    }

    /// A raw release of the key: `Released` unless it was not held (an
    /// orphan release).
    pub fn on_release(&mut self) -> (e: Option<HotkeyEvent>)
        ensures
            (final(self).is_down_spec(), e) == track_step(old(self).is_down_spec(), false),
    {
        if !self.key_is_down {
            None
        } else {
            self.key_is_down = false;
            Some(HotkeyEvent::Released)
        }
    }
}


/// A key that the hotkey can be bound to.
#[derive(Clone, Copy, Debug, PartialEq, Eq, Structural)]
pub enum Key {
    /// A letter key, named by its small letter `a`..`z`.
    Letter(char),
    /// A digit key `0`..`9`.
    Digit(u8),
    Space,
    Return,
    Escape,
    Tab,
    BackSpace,
    Delete,
    Home,
    End,
    PageUp,
    PageDown,
    Up,
    Down,
    Left,
    Right,
    /// A function key `F1`..`F12`.
    F(u8),
    /// The `§` key.
    Section,
}

/// The key that a lowercased key name names.
pub open spec fn key_named(lower: Seq<char>) -> Option<Key> {
    if lower.len() == 1 && 'a' <= lower[0] && lower[0] <= 'z' {
        Some(Key::Letter(lower[0]))
    } else if lower.len() == 1 && '0' <= lower[0] && lower[0] <= '9' {
        Some(Key::Digit(((lower[0] as u32) - ('0' as u32)) as u8))
    } else if lower == "space"@ {
        Some(Key::Space)
    } else if lower == "return"@ {
        Some(Key::Return)
    } else if lower == "enter"@ {
        Some(Key::Return)
    } else if lower == "escape"@ {
        Some(Key::Escape)
    } else if lower == "esc"@ {
        Some(Key::Escape)
    } else if lower == "tab"@ {
        Some(Key::Tab)
    } else if lower == "backspace"@ {
        Some(Key::BackSpace)
    } else if lower == "delete"@ {
        Some(Key::Delete)
    } else if lower == "home"@ {
        Some(Key::Home)
    } else if lower == "end"@ {
        Some(Key::End)
    } else if lower == "page_up"@ {
        Some(Key::PageUp)
    } else if lower == "page_down"@ {
        Some(Key::PageDown)
    } else if lower == "up"@ {
        Some(Key::Up)
    } else if lower == "down"@ {
        Some(Key::Down)
    } else if lower == "left"@ {
        Some(Key::Left)
    } else if lower == "right"@ {
        Some(Key::Right)
    } else if lower == "f1"@ {
        Some(Key::F(1))
    } else if lower == "f2"@ {
        Some(Key::F(2))
    } else if lower == "f3"@ {
        Some(Key::F(3))
    } else if lower == "f4"@ {
        Some(Key::F(4))
    } else if lower == "f5"@ {
        Some(Key::F(5))
    } else if lower == "f6"@ {
        Some(Key::F(6))
    } else if lower == "f7"@ {
        Some(Key::F(7))
    } else if lower == "f8"@ {
        Some(Key::F(8))
    } else if lower == "f9"@ {
        Some(Key::F(9))
    } else if lower == "f10"@ {
        Some(Key::F(10))
    } else if lower == "f11"@ {
        Some(Key::F(11))
    } else if lower == "f12"@ {
        Some(Key::F(12))
    } else if lower == "§"@ {
        Some(Key::Section)
    } else if lower == "section"@ {
        Some(Key::Section)
    } else if lower == "sect"@ {
        Some(Key::Section)
    } else {
        None
    }
}

/// The key that a key name names, in any case.
pub open spec fn key_of_name(name: Seq<char>) -> Option<Key> {
    key_named(fold(name))
}

/// Executable `key_named`.
fn key_for_lower(lower: &[char]) -> (k: Option<Key>)
    ensures
        k == key_named(lower@),
{
    if lower.len() == 1 && 'a' <= lower[0] && lower[0] <= 'z' {
        Some(Key::Letter(lower[0]))
    } else if lower.len() == 1 && '0' <= lower[0] && lower[0] <= '9' {
        Some(Key::Digit((lower[0] as u32 - '0' as u32) as u8))
    } else if eq_lit(lower, "space") {
        Some(Key::Space)
    } else if eq_lit(lower, "return") {
        Some(Key::Return)
    } else if eq_lit(lower, "enter") {
        Some(Key::Return)
    } else if eq_lit(lower, "escape") {
        Some(Key::Escape)
    } else if eq_lit(lower, "esc") {
        Some(Key::Escape)
    } else if eq_lit(lower, "tab") {
        Some(Key::Tab)
    } else if eq_lit(lower, "backspace") {
        Some(Key::BackSpace)
    } else if eq_lit(lower, "delete") {
        Some(Key::Delete)
    } else if eq_lit(lower, "home") {
        Some(Key::Home)
    } else if eq_lit(lower, "end") {
        Some(Key::End)
    } else if eq_lit(lower, "page_up") {
        Some(Key::PageUp)
    } else if eq_lit(lower, "page_down") {
        Some(Key::PageDown)
    } else if eq_lit(lower, "up") {
        Some(Key::Up)
    } else if eq_lit(lower, "down") {
        Some(Key::Down)
    } else if eq_lit(lower, "left") {
        Some(Key::Left)
    } else if eq_lit(lower, "right") {
        Some(Key::Right)
    } else if eq_lit(lower, "f1") {
        Some(Key::F(1))
    } else if eq_lit(lower, "f2") {
        Some(Key::F(2))
    } else if eq_lit(lower, "f3") {
        Some(Key::F(3))
    } else if eq_lit(lower, "f4") {
        Some(Key::F(4))
    } else if eq_lit(lower, "f5") {
        Some(Key::F(5))
    } else if eq_lit(lower, "f6") {
        Some(Key::F(6))
    } else if eq_lit(lower, "f7") {
        Some(Key::F(7))
    } else if eq_lit(lower, "f8") {
        Some(Key::F(8))
    } else if eq_lit(lower, "f9") {
        Some(Key::F(9))
    } else if eq_lit(lower, "f10") {
        Some(Key::F(10))
    } else if eq_lit(lower, "f11") {
        Some(Key::F(11))
    } else if eq_lit(lower, "f12") {
        Some(Key::F(12))
    } else if eq_lit(lower, "§") {
        Some(Key::Section)
    } else if eq_lit(lower, "section") {
        Some(Key::Section)
    } else if eq_lit(lower, "sect") {
        Some(Key::Section)
    } else {
        None
    }
}

/// Modifier keys held together with the hotkey.
#[derive(Clone, Copy, Debug, PartialEq, Eq, Structural)]
pub struct Modifiers {
    /// Super / Mod4.
    pub super_key: bool,
    /// Control.
    pub control: bool,
    /// Alt / Mod1.
    pub alt: bool,
    /// Shift.
    pub shift: bool,
    /// Mod2 (NumLock).
    pub mod2: bool,
    /// Mod3.
    pub mod3: bool,
    /// Mod5.
    pub mod5: bool,
}

/// No modifier.
pub open spec fn no_modifiers() -> Modifiers {
    Modifiers { super_key: false, control: false, alt: false, shift: false, mod2: false, mod3: false, mod5: false }
}

/// `m` with the modifier that `part` names (in any case) added; a part
/// that names no modifier adds nothing.
pub open spec fn add_modifier(m: Modifiers, part: Seq<char>) -> Modifiers {
    let f = fold(part);
    if f == "super"@ || f == "mod4"@ || f == "win"@ {
        Modifiers { super_key: true, ..m }
    } else if f == "ctrl"@ || f == "control"@ {
        Modifiers { control: true, ..m }
    } else if f == "alt"@ || f == "mod1"@ {
        Modifiers { alt: true, ..m }
    } else if f == "shift"@ {
        Modifiers { shift: true, ..m }
    } else if f == "mod2"@ || f == "num"@ {
        Modifiers { mod2: true, ..m }
    } else if f == "mod3"@ {
        Modifiers { mod3: true, ..m }
    } else if f == "mod5"@ {
        Modifiers { mod5: true, ..m }
    } else {
        m
    }
}

/// The modifiers that the parts name together.
pub open spec fn modifiers_of(parts: Seq<Seq<char>>) -> Modifiers
    decreases parts.len(),
{
    if parts.len() == 0 {
        no_modifiers()
    } else {
        add_modifier(modifiers_of(parts.drop_last()), parts.last())
    }
}

/// The pieces of `s` between `+` signs (one piece when there is none).
pub open spec fn split_plus(s: Seq<char>) -> Seq<Seq<char>>
    decreases s.len(),
{
    if s.len() == 0 {
        seq![Seq::<char>::empty()]
    } else {
        let p = split_plus(s.drop_last());
        if s.last() == '+' {
            p.push(Seq::<char>::empty())
        } else {
            p.update(p.len() - 1, p.last().push(s.last()))
        }
    }
}

/// `split_plus` always gives at least one piece.
proof fn lemma_split_nonempty(s: Seq<char>)
    ensures
        split_plus(s).len() >= 1,
    decreases s.len(),
{
    if s.len() > 0 {
        lemma_split_nonempty(s.drop_last());
    }
}

/// Adding two modifiers in either order gives the same set.
pub proof fn lemma_modifier_order(m: Modifiers, a: Seq<char>, b: Seq<char>)
    ensures
        add_modifier(add_modifier(m, a), b) == add_modifier(add_modifier(m, b), a),
{
}

/// The modifiers that a hotkey names do not depend on the order of its
/// pieces: swapping two neighbouring pieces gives the same set.
pub proof fn lemma_modifiers_swap(parts: Seq<Seq<char>>, i: int)
    requires
        0 <= i,
        i + 1 < parts.len(),
    ensures
        modifiers_of(parts.update(i, parts[i + 1]).update(i + 1, parts[i])) == modifiers_of(parts),
    decreases parts.len(),
{
    let swapped = parts.update(i, parts[i + 1]).update(i + 1, parts[i]);
    if i + 2 == parts.len() {
        let base = parts.drop_last().drop_last();
        assert(swapped.drop_last().drop_last() =~= base);
        assert(swapped.last() == parts[i]);
        assert(swapped.drop_last().last() == parts[i + 1]);
        assert(parts.drop_last().last() == parts[i]);
        lemma_modifier_order(modifiers_of(base), parts[i], parts[i + 1]);
        assert(parts.drop_last().drop_last() =~= base);
        assert(modifiers_of(swapped.drop_last()) == add_modifier(modifiers_of(base), parts[i + 1]));
        assert(modifiers_of(parts.drop_last()) == add_modifier(modifiers_of(base), parts[i]));
        assert(modifiers_of(swapped) == add_modifier(modifiers_of(swapped.drop_last()), parts[i]));
        assert(modifiers_of(parts) == add_modifier(modifiers_of(parts.drop_last()), parts[i + 1]));
    } else {
        lemma_modifiers_swap(parts.drop_last(), i);
        assert(swapped.drop_last() =~= parts.drop_last().update(i, parts[i + 1]).update(i + 1, parts[i]));
        assert(swapped.last() == parts.last());
    }
}

/// A parsed hotkey: the modifiers and the key.
#[derive(Clone, Copy, Debug, PartialEq, Eq, Structural)]
pub struct KeyCombo {
    pub modifiers: Modifiers,
    pub key: Key,
}

/// Why a hotkey text was refused.
pub enum HotkeyError {
    /// The last piece names no key; it is carried here.
    UnknownKeyName(String),
}

/// What a hotkey text such as "Super+D" denotes: the pieces before the
/// last `+` are modifiers (unknown ones are ignored), the last piece is
/// the key. `Err` carries the key piece when it names no key.
pub open spec fn combo_spec(s: Seq<char>) -> Result<KeyCombo, Seq<char>> {
    let parts = split_plus(s);
    match key_of_name(parts.last()) {
        Some(k) => Ok(KeyCombo { modifiers: modifiers_of(parts.drop_last()), key: k }),
        None => Err(parts.last()),
    }
}

/// Adds the modifier that `part` names.
fn add_modifier_exec(m: Modifiers, part: &[char]) -> (r: Modifiers)
    ensures
        r == add_modifier(m, part@),
{
    let mut f: Vec<char> = Vec::new();
    let mut i: usize = 0;
    while i < part.len()
        invariant
            i <= part@.len(),
            f@ == fold(part@).subrange(0, i as int),
        decreases part@.len() - i,
    {
        f.push(fold_one(part[i]));
        i = i + 1;
        assert(f@ =~= fold(part@).subrange(0, i as int));
    }
    assert(f@ =~= fold(part@));
    if eq_lit(&f, "super") || eq_lit(&f, "mod4") || eq_lit(&f, "win") {
        Modifiers { super_key: true, ..m }
    } else if eq_lit(&f, "ctrl") || eq_lit(&f, "control") {
        Modifiers { control: true, ..m }
    } else if eq_lit(&f, "alt") || eq_lit(&f, "mod1") {
        Modifiers { alt: true, ..m }
    } else if eq_lit(&f, "shift") {
        Modifiers { shift: true, ..m }
    } else if eq_lit(&f, "mod2") || eq_lit(&f, "num") {
        Modifiers { mod2: true, ..m }
    } else if eq_lit(&f, "mod3") {
        Modifiers { mod3: true, ..m }
    } else if eq_lit(&f, "mod5") {
        Modifiers { mod5: true, ..m }
    } else {
        m
    }
}

/// The key that a key name names, in any case.
pub fn name_to_key(name: &[char]) -> (k: Option<Key>)
    ensures
        k == key_of_name(name@),
{
    let mut lower: Vec<char> = Vec::new();
    let mut i: usize = 0;
    while i < name.len()
        invariant
            i <= name@.len(),
            lower@ == fold(name@).subrange(0, i as int),
        decreases name@.len() - i,
    {
        lower.push(fold_one(name[i]));
        i = i + 1;
        assert(lower@ =~= fold(name@).subrange(0, i as int));
    }
    assert(lower@ =~= fold(name@));
    key_for_lower(&lower)
}

/// Parses a key combination like "Super+D" into its modifiers and key.
pub fn parse_key_combo(key_str: &str) -> (r: Result<KeyCombo, HotkeyError>)
    ensures
        match r {
            Ok(c) => combo_spec(key_str@) == Ok::<KeyCombo, Seq<char>>(c),
            Err(HotkeyError::UnknownKeyName(n)) => combo_spec(key_str@) == Err::<KeyCombo, Seq<char>>(n@),
        },
{
    let s = chars_of(key_str);
    let mut modifiers = Modifiers {
        super_key: false,
        control: false,
        alt: false,
        shift: false,
        mod2: false,
        mod3: false,
        mod5: false,
    };
    let mut current: Vec<char> = Vec::new();
    let mut i: usize = 0;
    proof {
        assert(s@.subrange(0, 0) =~= Seq::<char>::empty());
        assert(split_plus(Seq::<char>::empty()).drop_last() =~= Seq::<Seq<char>>::empty());
    }
    while i < s.len()
        invariant
            s@ == key_str@,
            i <= s@.len(),
            split_plus(s@.subrange(0, i as int)).len() >= 1,
            modifiers == modifiers_of(split_plus(s@.subrange(0, i as int)).drop_last()),
            current@ == split_plus(s@.subrange(0, i as int)).last(),
        decreases s@.len() - i,
    {
        let ghost prev = s@.subrange(0, i as int);
        let ghost p = split_plus(prev);
        let c = s[i];
        proof {
            assert(s@.subrange(0, i + 1).drop_last() =~= prev);
            assert(s@.subrange(0, i + 1).last() == c);
        }
        if c == '+' {
            modifiers = add_modifier_exec(modifiers, &current);
            current = Vec::new();
            proof {
                let np = p.push(Seq::<char>::empty());
                assert(np.drop_last() =~= p);
                assert(p =~= p.drop_last().push(p.last()));
            }
        } else {
            current.push(c);
            proof {
                let np = p.update(p.len() - 1, p.last().push(c));
                assert(np.drop_last() =~= p.drop_last());
            }
        }
        i = i + 1;
    }
    proof {
        assert(s@.subrange(0, s@.len() as int) =~= s@);
    }
    match name_to_key(&current) {
        Some(k) => Ok(KeyCombo { modifiers, key: k }),
        None => Err(HotkeyError::UnknownKeyName(crate::text::string_of(&current))),
    }
}

/// The function keys are named "F" (or "f") and their number in decimal:
/// for every `n` from 1 to 12 that name, in either case, is the key F`n`.
pub proof fn lemma_function_key_names(n: nat, capital: bool)
    requires
        1 <= n <= 12,
    ensures
        key_of_name(seq![if capital { 'F' } else { 'f' }] + decimal(n)) == Some(Key::F(n as u8)),
{
    let name = seq![if capital { 'F' } else { 'f' }] + decimal(n);
    let lower = fold(name);
    reveal_strlit("space");
    reveal_strlit("return");
    reveal_strlit("enter");
    reveal_strlit("escape");
    reveal_strlit("esc");
    reveal_strlit("tab");
    reveal_strlit("backspace");
    reveal_strlit("delete");
    reveal_strlit("home");
    reveal_strlit("end");
    reveal_strlit("page_up");
    reveal_strlit("page_down");
    reveal_strlit("up");
    reveal_strlit("down");
    reveal_strlit("left");
    reveal_strlit("right");
    reveal_strlit("f1");
    reveal_strlit("f2");
    reveal_strlit("f3");
    reveal_strlit("f4");
    reveal_strlit("f5");
    reveal_strlit("f6");
    reveal_strlit("f7");
    reveal_strlit("f8");
    reveal_strlit("f9");
    reveal_strlit("f10");
    reveal_strlit("f11");
    reveal_strlit("f12");
    reveal_with_fuel(decimal, 2);
    if n >= 10 {
        assert(decimal(n) =~= seq!['1', (48 + n % 10) as char]);
    }
    assert(lower[0] == 'f');
    assert(forall|i: int| 1 <= i < name.len() ==> lower[i] == name[i]);
    if n == 1 {
        assert(lower =~= "f1"@);
    } else if n == 2 {
        assert(lower =~= "f2"@);
        assert("f2"@[1] != "f1"@[1]);
    } else if n == 3 {
        assert(lower =~= "f3"@);
        assert("f3"@[1] != "f1"@[1]);
        assert("f3"@[1] != "f2"@[1]);
    } else if n == 4 {
        assert(lower =~= "f4"@);
        assert("f4"@[1] != "f1"@[1]);
        assert("f4"@[1] != "f2"@[1]);
        assert("f4"@[1] != "f3"@[1]);
    } else if n == 5 {
        assert(lower =~= "f5"@);
        assert("f5"@[1] != "f1"@[1]);
        assert("f5"@[1] != "f2"@[1]);
        assert("f5"@[1] != "f3"@[1]);
        assert("f5"@[1] != "f4"@[1]);
    } else if n == 6 {
        assert(lower =~= "f6"@);
        assert("f6"@[1] != "f1"@[1]);
        assert("f6"@[1] != "f2"@[1]);
        assert("f6"@[1] != "f3"@[1]);
        assert("f6"@[1] != "f4"@[1]);
        assert("f6"@[1] != "f5"@[1]);
    } else if n == 7 {
        assert(lower =~= "f7"@);
        assert("f7"@[1] != "f1"@[1]);
        assert("f7"@[1] != "f2"@[1]);
        assert("f7"@[1] != "f3"@[1]);
        assert("f7"@[1] != "f4"@[1]);
        assert("f7"@[1] != "f5"@[1]);
        assert("f7"@[1] != "f6"@[1]);
    } else if n == 8 {
        assert(lower =~= "f8"@);
        assert("f8"@[1] != "f1"@[1]);
        assert("f8"@[1] != "f2"@[1]);
        assert("f8"@[1] != "f3"@[1]);
        assert("f8"@[1] != "f4"@[1]);
        assert("f8"@[1] != "f5"@[1]);
        assert("f8"@[1] != "f6"@[1]);
        assert("f8"@[1] != "f7"@[1]);
    } else if n == 9 {
        assert(lower =~= "f9"@);
        assert("f9"@[1] != "f1"@[1]);
        assert("f9"@[1] != "f2"@[1]);
        assert("f9"@[1] != "f3"@[1]);
        assert("f9"@[1] != "f4"@[1]);
        assert("f9"@[1] != "f5"@[1]);
        assert("f9"@[1] != "f6"@[1]);
        assert("f9"@[1] != "f7"@[1]);
        assert("f9"@[1] != "f8"@[1]);
    } else if n == 10 {
        assert(lower =~= "f10"@);
    } else if n == 11 {
        assert(lower =~= "f11"@);
        assert("f11"@[2] != "f10"@[2]);
    } else if n == 12 {
        assert(lower =~= "f12"@);
        assert("f12"@[2] != "f10"@[2]);
        assert("f12"@[2] != "f11"@[2]);
    }
}

/// A single letter names its letter key, in either case, and a single
/// digit its digit key.
pub proof fn lemma_letter_and_digit_names(c: char, d: nat)
    requires
        'a' <= c <= 'z',
        d <= 9,
    ensures
        key_of_name(seq![c]) == Some(Key::Letter(c)),
        key_of_name(seq![((c as u32) - 32) as char]) == Some(Key::Letter(c)),
        key_of_name(decimal(d)) == Some(Key::Digit(d as u8)),
{
    let upper = ((c as u32) - 32) as char;
    assert(fold(seq![c]) =~= seq![c]);
    assert(fold(seq![upper]) =~= seq![c]);
    assert(decimal(d) =~= seq![(48 + d) as char]);
    assert(fold(decimal(d)) =~= decimal(d));
}

/// `split_plus` of text followed by a piece with no `+` in it: the
/// pieces of the text, with that piece added onto the last one.
proof fn lemma_split_append(x: Seq<char>, b: Seq<char>)
    requires
        forall|i: int| 0 <= i < b.len() ==> b[i] != '+',
    ensures
        split_plus(x + b) == split_plus(x).update(split_plus(x).len() - 1, split_plus(x).last() + b),
    decreases b.len(),
{
    lemma_split_nonempty(x);
    if b.len() == 0 {
        assert(x + b =~= x);
        assert(split_plus(x).last() + b =~= split_plus(x).last());
        assert(split_plus(x).update(split_plus(x).len() - 1, split_plus(x).last()) =~= split_plus(x));
    } else {
        let b1 = b.drop_last();
        lemma_split_append(x, b1);
        assert((x + b).drop_last() =~= x + b1);
        assert((x + b).last() == b.last());
        lemma_split_nonempty(x + b1);
        let p = split_plus(x + b1);
        assert(p.last() =~= split_plus(x).last() + b1);
        assert(p.last().push(b.last()) =~= split_plus(x).last() + b);
        assert(p.update(p.len() - 1, p.last().push(b.last()))
            =~= split_plus(x).update(split_plus(x).len() - 1, split_plus(x).last() + b));
    }
}

/// A hotkey written as a modifier, `+`, and a key name (neither holding a
/// `+`) is that modifier with that key; a key name that names no key is
/// the error, whatever the modifier.
pub proof fn lemma_modifier_plus_key(m: Seq<char>, k: Seq<char>)
    requires
        forall|i: int| 0 <= i < m.len() ==> m[i] != '+',
        forall|i: int| 0 <= i < k.len() ==> k[i] != '+',
    ensures
        combo_spec(m + seq!['+'] + k) == (match key_of_name(k) {
            Some(key) => Ok::<KeyCombo, Seq<char>>((KeyCombo { modifiers: add_modifier(no_modifiers(), m), key })),
            None => Err::<KeyCombo, Seq<char>>(k),
        }),
{
    let e = Seq::<char>::empty();
    lemma_split_append(e, m);
    assert(e + m =~= m);
    assert(split_plus(e) =~= seq![e]);
    assert(split_plus(m) =~= seq![m]);
    let mp = m.push('+');
    assert(mp.drop_last() =~= m);
    assert(split_plus(mp) =~= seq![m, e]);
    lemma_split_append(mp, k);
    assert(m + seq!['+'] + k =~= mp + k);
    assert(e + k =~= k);
    let parts = split_plus(m + seq!['+'] + k);
    assert(parts =~= seq![m, k]);
    assert(parts.drop_last() =~= seq![m]);
    assert(seq![m].drop_last() =~= Seq::<Seq<char>>::empty());
    assert(parts.last() == k);
    assert(modifiers_of(seq![m]) == add_modifier(modifiers_of(Seq::<Seq<char>>::empty()), m));
    assert(modifiers_of(parts.drop_last()) == add_modifier(no_modifiers(), m));
}

/// The modifier names, in any case: super, mod4 or win for Super; ctrl or
/// control for Control; alt or mod1 for Alt; shift; mod2 or num for Mod2;
/// mod3; mod5.
pub proof fn lemma_modifier_names(m: Modifiers)
    ensures
        add_modifier(m, "super"@) == (Modifiers { super_key: true, ..m }),
        add_modifier(m, "mod4"@) == (Modifiers { super_key: true, ..m }),
        add_modifier(m, "win"@) == (Modifiers { super_key: true, ..m }),
        add_modifier(m, "ctrl"@) == (Modifiers { control: true, ..m }),
        add_modifier(m, "control"@) == (Modifiers { control: true, ..m }),
        add_modifier(m, "alt"@) == (Modifiers { alt: true, ..m }),
        add_modifier(m, "mod1"@) == (Modifiers { alt: true, ..m }),
        add_modifier(m, "shift"@) == (Modifiers { shift: true, ..m }),
        add_modifier(m, "mod2"@) == (Modifiers { mod2: true, ..m }),
        add_modifier(m, "num"@) == (Modifiers { mod2: true, ..m }),
        add_modifier(m, "mod3"@) == (Modifiers { mod3: true, ..m }),
        add_modifier(m, "mod5"@) == (Modifiers { mod5: true, ..m }),
{
    reveal_strlit("super");
    reveal_strlit("mod4");
    reveal_strlit("win");
    reveal_strlit("ctrl");
    reveal_strlit("control");
    reveal_strlit("alt");
    reveal_strlit("mod1");
    reveal_strlit("shift");
    reveal_strlit("mod2");
    reveal_strlit("num");
    reveal_strlit("mod3");
    reveal_strlit("mod5");
    assert(fold("super"@) =~= "super"@);
    assert(fold("mod4"@) =~= "mod4"@);
    assert(fold("win"@) =~= "win"@);
    assert(fold("ctrl"@) =~= "ctrl"@);
    assert(fold("control"@) =~= "control"@);
    assert(fold("alt"@) =~= "alt"@);
    assert(fold("mod1"@) =~= "mod1"@);
    assert(fold("shift"@) =~= "shift"@);
    assert(fold("mod2"@) =~= "mod2"@);
    assert(fold("num"@) =~= "num"@);
    assert(fold("mod3"@) =~= "mod3"@);
    assert(fold("mod5"@) =~= "mod5"@);
    assert("super"@[1] == 'u');
    assert("shift"@[1] == 'h');
    assert("mod4"@[0] == 'm');
    assert("ctrl"@[0] == 'c');
    assert("mod4"@[3] == '4');
    assert("mod1"@[3] == '1');
    assert("mod2"@[3] == '2');
    assert("mod3"@[3] == '3');
    assert("mod5"@[3] == '5');
    assert("win"@[0] == 'w');
    assert("alt"@[0] == 'a');
    assert("num"@[0] == 'n');
    assert("mod1"@[0] == 'm');
    assert("mod2"@[0] == 'm');
    assert("mod3"@[0] == 'm');
    assert("mod5"@[0] == 'm');
}

/// The named keys: space; return or enter; escape or esc; tab;
/// backspace; delete; home; end; page_up; page_down; the four arrows up,
/// down, left, right; and the section key as §, section or sect.
pub proof fn lemma_named_keys()
    ensures
        key_of_name("space"@) == Some(Key::Space),
        key_of_name("return"@) == Some(Key::Return),
        key_of_name("enter"@) == Some(Key::Return),
        key_of_name("escape"@) == Some(Key::Escape),
        key_of_name("esc"@) == Some(Key::Escape),
        key_of_name("tab"@) == Some(Key::Tab),
        key_of_name("backspace"@) == Some(Key::BackSpace),
        key_of_name("delete"@) == Some(Key::Delete),
        key_of_name("home"@) == Some(Key::Home),
        key_of_name("end"@) == Some(Key::End),
        key_of_name("page_up"@) == Some(Key::PageUp),
        key_of_name("page_down"@) == Some(Key::PageDown),
        key_of_name("up"@) == Some(Key::Up),
        key_of_name("down"@) == Some(Key::Down),
        key_of_name("left"@) == Some(Key::Left),
        key_of_name("right"@) == Some(Key::Right),
        key_of_name("§"@) == Some(Key::Section),
        key_of_name("section"@) == Some(Key::Section),
        key_of_name("sect"@) == Some(Key::Section),
{
    reveal_strlit("space");
    reveal_strlit("return");
    reveal_strlit("enter");
    reveal_strlit("escape");
    reveal_strlit("esc");
    reveal_strlit("tab");
    reveal_strlit("backspace");
    reveal_strlit("delete");
    reveal_strlit("home");
    reveal_strlit("end");
    reveal_strlit("page_up");
    reveal_strlit("page_down");
    reveal_strlit("up");
    reveal_strlit("down");
    reveal_strlit("left");
    reveal_strlit("right");
    reveal_strlit("§");
    reveal_strlit("section");
    reveal_strlit("sect");
    reveal_strlit("f1");
    reveal_strlit("f2");
    reveal_strlit("f3");
    reveal_strlit("f4");
    reveal_strlit("f5");
    reveal_strlit("f6");
    reveal_strlit("f7");
    reveal_strlit("f8");
    reveal_strlit("f9");
    reveal_strlit("f10");
    reveal_strlit("f11");
    reveal_strlit("f12");
    assert(fold("space"@) =~= "space"@);
    assert(fold("return"@) =~= "return"@);
    assert(fold("enter"@) =~= "enter"@);
    assert(fold("escape"@) =~= "escape"@);
    assert(fold("esc"@) =~= "esc"@);
    assert(fold("tab"@) =~= "tab"@);
    assert(fold("backspace"@) =~= "backspace"@);
    assert(fold("delete"@) =~= "delete"@);
    assert(fold("home"@) =~= "home"@);
    assert(fold("end"@) =~= "end"@);
    assert(fold("page_up"@) =~= "page_up"@);
    assert(fold("page_down"@) =~= "page_down"@);
    assert(fold("up"@) =~= "up"@);
    assert(fold("down"@) =~= "down"@);
    assert(fold("left"@) =~= "left"@);
    assert(fold("right"@) =~= "right"@);
    assert(fold("§"@) =~= "§"@);
    assert(fold("section"@) =~= "section"@);
    assert(fold("sect"@) =~= "sect"@);
    assert("space"@[0] == 's');
    assert("enter"@[0] == 'e');
    assert("right"@[0] == 'r');
    assert("return"@[0] == 'r');
    assert("escape"@[0] == 'e');
    assert("delete"@[0] == 'd');
    assert("esc"@[0] == 'e');
    assert("tab"@[0] == 't');
    assert("esc"@[1] == 's');
    assert("end"@[1] == 'n');
    assert("f10"@[0] == 'f');
    assert("f11"@[0] == 'f');
    assert("f12"@[0] == 'f');
    assert("end"@[0] == 'e');
    assert("backspace"@[0] == 'b');
    assert("page_down"@[0] == 'p');
    assert("home"@[0] == 'h');
    assert("down"@[0] == 'd');
    assert("left"@[0] == 'l');
    assert("sect"@[0] == 's');
    assert("page_up"@[0] == 'p');
    assert("section"@[0] == 's');
    assert("up"@[0] == 'u');
    assert("f1"@[0] == 'f');
    assert("f2"@[0] == 'f');
    assert("f3"@[0] == 'f');
    assert("f4"@[0] == 'f');
    assert("f5"@[0] == 'f');
    assert("f6"@[0] == 'f');
    assert("f7"@[0] == 'f');
    assert("f8"@[0] == 'f');
    assert("f9"@[0] == 'f');
    assert("f1"@[1] == '1');
    assert("f2"@[1] == '2');
    assert("f3"@[1] == '3');
    assert("f4"@[1] == '4');
    assert("f5"@[1] == '5');
    assert("f6"@[1] == '6');
    assert("f7"@[1] == '7');
    assert("f8"@[1] == '8');
    assert("f9"@[1] == '9');
    assert("f10"@[2] == '0');
    assert("f11"@[2] == '1');
    assert("f12"@[2] == '2');
}

/// Key names are read in any case: writing a name's letters as capitals
/// names the same key, or none when the name names none.
pub proof fn lemma_key_name_case(name: Seq<char>)
    ensures
        key_of_name(ascii_upper(name)) == key_of_name(name),
{
    assert(fold(ascii_upper(name)) =~= fold(name));
}

} // verus!
