use whispercat::hotkey::{KeyCode, parse_hotkey, parse_key_sequence};

#[test]
fn test_parse_hotkey() {
    let hotkey = parse_hotkey("Ctrl+Shift+R").unwrap();
    assert!(hotkey.mods.control);
    assert!(hotkey.mods.shift);
}

#[test]
fn test_parse_single_key() {
    let hotkey = parse_hotkey("F1").unwrap();
    assert_eq!(hotkey.key, KeyCode::F1);
}

#[test]
fn test_parse_alt_key() {
    let hotkey = parse_hotkey("Alt+F4").unwrap();
    assert!(hotkey.mods.alt);
    assert_eq!(hotkey.key, KeyCode::F4);
}

#[test]
fn test_parse_single_key_sequence() {
    let sequence = parse_key_sequence("Ctrl+Shift+R").unwrap();
    assert!(sequence.is_single());
    assert_eq!(sequence.keys().len(), 1);
}

#[test]
fn test_parse_multi_key_sequence() {
    let sequence = parse_key_sequence("Ctrl+K, Ctrl+S").unwrap();
    assert!(!sequence.is_single());
    assert_eq!(sequence.keys().len(), 2);

    let first_key = &sequence.keys()[0];
    assert!(first_key.mods.control);
    assert_eq!(first_key.key, KeyCode::KeyK);

    let second_key = &sequence.keys()[1];
    assert!(second_key.mods.control);
    assert_eq!(second_key.key, KeyCode::KeyS);
}

#[test]
fn test_parse_sequence_no_spaces() {
    let sequence = parse_key_sequence("Ctrl+K,Ctrl+S").unwrap();
    assert_eq!(sequence.keys().len(), 2);
}

#[test]
fn test_parse_three_key_sequence() {
    let sequence = parse_key_sequence("Ctrl+K, Ctrl+S, Ctrl+O").unwrap();
    assert_eq!(sequence.keys().len(), 3);
}

#[test]
fn test_parse_unknown_key_is_error() {
    let result = parse_hotkey("Ctrl+Bogus");
    assert!(matches!(
        result,
        Err(whispercat::error::WhisperCatError::ConfigError(_))
    ));
}

#[test]
fn test_parse_modifiers_only_is_error() {
    let result = parse_hotkey("Ctrl+Shift");
    assert!(matches!(
        result,
        Err(whispercat::error::WhisperCatError::ConfigError(_))
    ));
}

#[test]
fn test_parse_meta_synonyms() {
    for name in ["Super+A", "Meta+A", "Win+A", "Cmd+A"] {
        let hotkey = parse_hotkey(name).unwrap();
        assert!(hotkey.mods.meta);
        assert_eq!(hotkey.key, KeyCode::KeyA);
    }
}
