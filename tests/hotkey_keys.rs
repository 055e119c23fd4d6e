use gui_layout::keys::{check_hotkey_char, conv_char2vkey, conv_char2vmod, conv_vkey2char, conv_vmod2char, MOD_ALT, MOD_CONTROL, MOD_SHIFT};

#[test]
fn modifiers_both_ways() {
    assert_eq!(conv_char2vmod('S'), Some(MOD_SHIFT | MOD_CONTROL));
    assert_eq!(conv_char2vmod('A'), Some(MOD_ALT | MOD_CONTROL));
    assert_eq!(conv_char2vmod('N'), Some(0));
    assert_eq!(conv_char2vmod('s'), None);
    assert_eq!(conv_vmod2char(6), Some('S'));
    assert_eq!(conv_vmod2char(3), Some('A'));
    assert_eq!(conv_vmod2char(0), Some('N'));
    assert_eq!(conv_vmod2char(MOD_SHIFT), None);
    for c in ['S', 'A', 'N'] {
        assert_eq!(conv_vmod2char(conv_char2vmod(c).unwrap()), Some(c));
    }
}

#[test]
fn keys_both_ways() {
    assert_eq!(conv_char2vkey('A'), Some(0x41));
    assert_eq!(conv_char2vkey('Z'), Some(0x5A));
    assert_eq!(conv_char2vkey('0'), Some(0x30));
    assert_eq!(conv_char2vkey('9'), Some(0x39));
    assert_eq!(conv_char2vkey('!'), Some(0xFC));
    assert_eq!(conv_char2vkey('/'), Some(0xBF));
    assert_eq!(conv_char2vkey('a'), None);
    assert_eq!(conv_char2vkey('~'), None);
    assert_eq!(conv_vkey2char(0x42), Some('B'));
    assert_eq!(conv_vkey2char(0x35), Some('5'));
    assert_eq!(conv_vkey2char(0xDE), Some('\''));
    assert_eq!(conv_vkey2char(0x20), None);
    let all = "ABCDEFGHIJKLMNOPQRSTUVWXYZ0123456789!`-=[]\\;',./";
    for c in all.chars() {
        assert_eq!(conv_vkey2char(conv_char2vkey(c).unwrap()), Some(c));
    }
}

#[test]
fn punctuation_names() {
    assert!(check_hotkey_char(&'!'));
    assert!(check_hotkey_char(&'\\'));
    assert!(!check_hotkey_char(&'A'));
    assert!(!check_hotkey_char(&'_'));
}
