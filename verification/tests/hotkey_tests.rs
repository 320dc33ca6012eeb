use holdem_core::hotkey::{parse_shortcut, KeyCode, ShortcutSpec};

#[test]
fn parse_ctrl_shift_letter() {
    let s = parse_shortcut("Ctrl+Shift+N");
    assert_eq!(
        s,
        ShortcutSpec { ctrl: true, shift: true, alt: false, meta: false, key: KeyCode::KeyN }
    );
}

#[test]
fn parse_is_case_insensitive() {
    let s = parse_shortcut("cOnTrOl+aLt+p");
    assert!(s.ctrl);
    assert!(s.alt);
    assert!(!s.shift);
    assert_eq!(s.key, KeyCode::KeyP);
}

#[test]
fn parse_trims_spaces() {
    let s = parse_shortcut("  win  +  x ");
    assert!(s.meta);
    assert_eq!(s.key, KeyCode::KeyX);
}

#[test]
fn parse_meta_synonyms() {
    assert!(parse_shortcut("META+A").meta);
    assert!(parse_shortcut("Win+A").meta);
    assert!(parse_shortcut("Command+A").meta);
}

#[test]
fn unrecognized_token_keeps_default_key() {
    // Multi-character non-modifier tokens are not understood; the key
    // stays at its default N.
    let s = parse_shortcut("Ctrl+F5");
    assert!(s.ctrl);
    assert_eq!(s.key, KeyCode::KeyN);
}

#[test]
fn later_letter_wins() {
    let s = parse_shortcut("A+B");
    assert_eq!(s.key, KeyCode::KeyB);
}

#[test]
fn empty_string_gives_default() {
    let s = parse_shortcut("");
    assert_eq!(s, ShortcutSpec::default());
}
