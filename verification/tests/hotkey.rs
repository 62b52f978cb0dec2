use dictatord::hotkey::{parse_key_combo, name_to_key, HotkeyError, HotkeyEvent, Key, KeyTracker, Modifiers};

fn mods() -> Modifiers {
    Modifiers { super_key: false, control: false, alt: false, shift: false, mod2: false, mod3: false, mod5: false }
}

fn key(name: &str) -> Option<Key> {
    let cs: Vec<char> = name.chars().collect();
    name_to_key(&cs)
}

#[test]
fn parses_default_hotkey() {
    let c = parse_key_combo("Super+D").ok().unwrap();
    assert_eq!(c.key, Key::Letter('d'));
    assert_eq!(c.modifiers, Modifiers { super_key: true, ..mods() });
}

#[test]
fn parses_all_modifiers() {
    let c = parse_key_combo("ctrl+Alt+SHIFT+win+num+mod3+mod5+F12").ok().unwrap();
    assert_eq!(c.key, Key::F(12));
    assert_eq!(
        c.modifiers,
        Modifiers { super_key: true, control: true, alt: true, shift: true, mod2: true, mod3: true, mod5: true }
    );
    let c = parse_key_combo("Control+Mod1+mod4+mod2+space").ok().unwrap();
    assert_eq!(c.key, Key::Space);
    assert_eq!(c.modifiers, Modifiers { super_key: true, control: true, alt: true, mod2: true, ..mods() });
}

#[test]
fn modifier_order_does_not_matter() {
    let a = parse_key_combo("Ctrl+Alt+D").ok().unwrap();
    let b = parse_key_combo("Alt+Ctrl+D").ok().unwrap();
    assert_eq!(a, b);
}

#[test]
fn unknown_modifiers_are_ignored() {
    let c = parse_key_combo("Hyper+Super+d").ok().unwrap();
    assert_eq!(c.modifiers, Modifiers { super_key: true, ..mods() });
}

#[test]
fn bare_key_and_section() {
    let c = parse_key_combo("§").ok().unwrap();
    assert_eq!(c.key, Key::Section);
    assert_eq!(c.modifiers, mods());
    assert_eq!(key("Sect"), Some(Key::Section));
    assert_eq!(key("section"), Some(Key::Section));
}

#[test]
fn key_names() {
    assert_eq!(key("a"), Some(Key::Letter('a')));
    assert_eq!(key("Z"), Some(Key::Letter('z')));
    assert_eq!(key("0"), Some(Key::Digit(0)));
    assert_eq!(key("9"), Some(Key::Digit(9)));
    assert_eq!(key("Return"), Some(Key::Return));
    assert_eq!(key("ENTER"), Some(Key::Return));
    assert_eq!(key("esc"), Some(Key::Escape));
    assert_eq!(key("Escape"), Some(Key::Escape));
    assert_eq!(key("tab"), Some(Key::Tab));
    assert_eq!(key("BackSpace"), Some(Key::BackSpace));
    assert_eq!(key("delete"), Some(Key::Delete));
    assert_eq!(key("home"), Some(Key::Home));
    assert_eq!(key("end"), Some(Key::End));
    assert_eq!(key("Page_Up"), Some(Key::PageUp));
    assert_eq!(key("page_down"), Some(Key::PageDown));
    assert_eq!(key("up"), Some(Key::Up));
    assert_eq!(key("down"), Some(Key::Down));
    assert_eq!(key("left"), Some(Key::Left));
    assert_eq!(key("right"), Some(Key::Right));
    assert_eq!(key("f1"), Some(Key::F(1)));
    assert_eq!(key("F10"), Some(Key::F(10)));
    assert_eq!(key("f13"), None);
    assert_eq!(key("pageup"), None);
    assert_eq!(key(""), None);
    assert_eq!(key("aa"), None);
    // The Kelvin sign lowercases to "k".
    assert_eq!(key("\u{212A}"), Some(Key::Letter('k')));
    assert_eq!("\u{212A}".to_lowercase(), "k");
}

#[test]
fn unknown_key_name_is_reported() {
    match parse_key_combo("Super+Hyper") {
        Err(HotkeyError::UnknownKeyName(n)) => assert_eq!(n, "Hyper"),
        Ok(_) => panic!("accepted"),
    }
    match parse_key_combo("Super+") {
        Err(HotkeyError::UnknownKeyName(n)) => assert_eq!(n, ""),
        Ok(_) => panic!("accepted"),
    }
    match parse_key_combo("") {
        Err(HotkeyError::UnknownKeyName(n)) => assert_eq!(n, ""),
        Ok(_) => panic!("accepted"),
    }
}

#[test]
fn tracker_drops_repeats_and_orphans() {
    let mut t = KeyTracker::new();
    assert_eq!(t.on_release(), None);
    assert_eq!(t.on_press(), Some(HotkeyEvent::Pressed));
    assert_eq!(t.on_press(), None);
    assert_eq!(t.on_press(), None);
    assert_eq!(t.on_release(), Some(HotkeyEvent::Released));
    assert_eq!(t.on_release(), None);
    assert_eq!(t.on_press(), Some(HotkeyEvent::Pressed));
}

#[test]
fn tracker_events_alternate() {
    let mut t = KeyTracker::new();
    let raw = [true, true, false, false, true, false, true, true, true, false, false, true];
    let mut out = Vec::new();
    for press in raw {
        let e = if press { t.on_press() } else { t.on_release() };
        if let Some(e) = e {
            out.push(e);
        }
    }
    for (i, e) in out.iter().enumerate() {
        let expected = if i % 2 == 0 { HotkeyEvent::Pressed } else { HotkeyEvent::Released };
        assert_eq!(*e, expected);
    }
    assert_eq!(out.len(), 7);
}
