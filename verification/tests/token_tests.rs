use keylog_core::token::{derive_token, KeyEvent, RawKey};

fn named(s: &str) -> RawKey {
    RawKey::Named(s.to_string())
}

#[test]
fn codeless_244_remaps() {
    let ev = KeyEvent { name: None, key: RawKey::Code(244) };
    assert_eq!(derive_token(&ev), "<F>");
}

#[test]
fn codeless_243_remaps() {
    let ev = KeyEvent { name: None, key: RawKey::Code(243) };
    assert_eq!(derive_token(&ev), "<H>");
}

#[test]
fn codeless_93_remaps() {
    let ev = KeyEvent { name: None, key: RawKey::Code(93) };
    assert_eq!(derive_token(&ev), "<App>");
}

#[test]
fn other_codeless_code_brackets() {
    let ev = KeyEvent { name: None, key: RawKey::Code(7) };
    assert_eq!(derive_token(&ev), "<Unknown(7)>");
    let ev = KeyEvent { name: None, key: RawKey::Code(0) };
    assert_eq!(derive_token(&ev), "<Unknown(0)>");
    let ev = KeyEvent { name: None, key: RawKey::Code(1234567890) };
    assert_eq!(derive_token(&ev), "<Unknown(1234567890)>");
}

#[test]
fn codeless_named_key_brackets() {
    let ev = KeyEvent { name: None, key: named("Return") };
    assert_eq!(derive_token(&ev), "<Return>");
}

#[test]
fn single_visible_name_is_kept_verbatim() {
    let ev = KeyEvent { name: Some("a".to_string()), key: named("KeyA") };
    assert_eq!(derive_token(&ev), "a");
    let ev = KeyEvent { name: Some("Z".to_string()), key: named("KeyZ") };
    assert_eq!(derive_token(&ev), "Z");
}

#[test]
fn space_name_becomes_space_token() {
    let ev = KeyEvent { name: Some(" ".to_string()), key: named("Space") };
    assert_eq!(derive_token(&ev), "<Space>");
}

#[test]
fn multi_character_name_falls_back_to_identifier() {
    let ev = KeyEvent { name: Some("abc".to_string()), key: named("KeyA") };
    assert_eq!(derive_token(&ev), "<KeyA>");
}

#[test]
fn empty_name_falls_back_to_identifier() {
    let ev = KeyEvent { name: Some(String::new()), key: named("ShiftLeft") };
    assert_eq!(derive_token(&ev), "<ShiftLeft>");
}

#[test]
fn control_character_name_falls_back() {
    let ev = KeyEvent { name: Some("\n".to_string()), key: named("Return") };
    assert_eq!(derive_token(&ev), "<Return>");
    let ev = KeyEvent { name: Some("\u{8}".to_string()), key: named("Backspace") };
    assert_eq!(derive_token(&ev), "<Backspace>");
}

#[test]
fn quote_and_backslash_names_fall_back() {
    let ev = KeyEvent { name: Some("\"".to_string()), key: named("Quote") };
    assert_eq!(derive_token(&ev), "<Quote>");
    let ev = KeyEvent { name: Some("\\".to_string()), key: named("BackSlash") };
    assert_eq!(derive_token(&ev), "<BackSlash>");
}

#[test]
fn named_key_with_unused_name_still_brackets_the_name_form() {
    // The textual name wins only when it is a single visible character;
    // a code accompanied by an overlong name brackets the code.
    let ev = KeyEvent { name: Some("F24".to_string()), key: RawKey::Code(244) };
    assert_eq!(derive_token(&ev), "<Unknown(244)>");
}
