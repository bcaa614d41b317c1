use ncmpc::keys::from_keycode;
use ncmpc::keys::to_keycode;
use ncmpc::keys::ControlKey;
use ncmpc::keys::ToKeyCode;
use ncmpc::keys::KEY_BACKSPACE;
use ncmpc::keys::KEY_DC;
use ncmpc::keys::KEY_DOWN;
use ncmpc::keys::KEY_END;
use ncmpc::keys::KEY_ESCAPE;
use ncmpc::keys::KEY_F0;
use ncmpc::keys::KEY_HOME;
use ncmpc::keys::KEY_IC;
use ncmpc::keys::KEY_LEFT;
use ncmpc::keys::KEY_NPAGE;
use ncmpc::keys::KEY_PPAGE;
use ncmpc::keys::KEY_RIGHT;
use ncmpc::keys::KEY_TAB;
use ncmpc::keys::KEY_UP;
use ncmpc::keys::KEY_CTRL_BACKSLASH;
use ncmpc::keys::KEY_CTRL_CARET;
use ncmpc::keys::KEY_CTRL_LEFTBRACKET;
use ncmpc::keys::KEY_CTRL_RIGHTBRACKET;
use ncmpc::keys::KEY_CTRL_UNDERSCORE;

#[test]
fn test_keycode() {
    assert_eq!(to_keycode("a"), Some('a' as i32));
    assert_eq!(to_keycode("z"), Some('z' as i32));
    assert_eq!(to_keycode("escape"), Some(KEY_ESCAPE));
    assert_eq!(to_keycode("left"), Some(KEY_LEFT));
    assert_eq!(to_keycode("right"), Some(KEY_RIGHT));
    assert_eq!(to_keycode("up"), Some(KEY_UP));
    assert_eq!(to_keycode("down"), Some(KEY_DOWN));
    assert_eq!(to_keycode("page_up"), Some(KEY_PPAGE));
    assert_eq!(to_keycode("page_down"), Some(KEY_NPAGE));
    assert_eq!(to_keycode("tab"), Some(KEY_TAB));
    assert_eq!(to_keycode("ctrl_a"), Some(1));
    assert_eq!(to_keycode("ctrl_z"), Some(26));
    assert_eq!(to_keycode("ctrl_["), Some(KEY_CTRL_LEFTBRACKET));
    assert_eq!(to_keycode("ctrl_\\"), Some(KEY_CTRL_BACKSLASH));
    assert_eq!(to_keycode("ctrl_]"), Some(KEY_CTRL_RIGHTBRACKET));
    assert_eq!(to_keycode("ctrl_^"), Some(KEY_CTRL_CARET));
    assert_eq!(to_keycode("ctrl__"), Some(KEY_CTRL_UNDERSCORE));
    assert_eq!(to_keycode("ctrl-a"), Some(1));
    assert_eq!(to_keycode("ctrl-z"), Some(26));
    assert_eq!(to_keycode("ctrl-["), Some(KEY_CTRL_LEFTBRACKET));
    assert_eq!(to_keycode("ctrl-\\"), Some(KEY_CTRL_BACKSLASH));
    assert_eq!(to_keycode("ctrl-]"), Some(KEY_CTRL_RIGHTBRACKET));
    assert_eq!(to_keycode("ctrl-^"), Some(KEY_CTRL_CARET));
    assert_eq!(to_keycode("ctrl-_"), Some(KEY_CTRL_UNDERSCORE));
    assert_eq!(to_keycode("f1"), Some(KEY_F0 + 1));
    assert_eq!(to_keycode("f5"), Some(KEY_F0 + 5));
    assert_eq!(to_keycode("f10"), Some(KEY_F0 + 10));

    assert_eq!(from_keycode(KEY_F0 + 9), String::from("F9"));
}

#[test]
fn encode_fixed_vocabulary() {
    assert_eq!(to_keycode("home"), Some(KEY_HOME));
    assert_eq!(to_keycode("end"), Some(KEY_END));
    assert_eq!(to_keycode("space"), Some(' ' as i32));
    assert_eq!(to_keycode("insert"), Some(KEY_IC));
    assert_eq!(to_keycode("delete"), Some(KEY_DC));
    assert_eq!(to_keycode("backspace"), Some(KEY_BACKSPACE));
    assert_eq!(to_keycode("shift_up"), Some(KEY_UP));
    assert_eq!(to_keycode("shift_anything"), Some(KEY_UP));
}

#[test]
fn encode_rejects_unknown_names() {
    assert_eq!(to_keycode("no_such_key"), None);
    assert_eq!(to_keycode(""), None);
    assert_eq!(to_keycode("ctrl_ab"), None);
}

#[test]
fn encode_discards_ctrl_qualifier_outside_table() {
    assert_eq!(to_keycode("ctrl_1"), Some('1' as i32));
    assert_eq!(to_keycode("ctrl-9"), Some('9' as i32));
}

#[test]
fn encode_function_key_fallbacks() {
    // An unparsable or out-of-range suffix counts as 0.
    assert_eq!(to_keycode("fx"), Some(KEY_F0));
    assert_eq!(to_keycode("f99999999999"), Some(KEY_F0));
}

#[test]
fn decode_encode_roundtrip() {
    let cases = [
        ("up", "Up"),
        ("down", "Down"),
        ("left", "Left"),
        ("right", "Right"),
        ("home", "Home"),
        ("end", "End"),
        ("space", "Space"),
        ("delete", "Delete"),
        ("tab", "Tab"),
        ("backspace", "Backspace"),
    ];
    for (name, display) in cases.iter() {
        let code = to_keycode(name).unwrap();
        assert_eq!(from_keycode(code), String::from(*display));
    }
    for n in 1..=15 {
        let name = format!("f{}", n);
        let code = to_keycode(&name).unwrap();
        assert_eq!(code, KEY_F0 + n);
        assert_eq!(from_keycode(code), format!("F{}", n));
    }
}

#[test]
fn decode_fallbacks() {
    assert_eq!(from_keycode('x' as i32), String::from("x"));
    assert_eq!(from_keycode('\n' as i32), String::from("Enter"));
    assert_eq!(from_keycode(' ' as i32), String::from("Space"));
    assert_eq!(from_keycode(-5), String::from("unknown"));
    assert_eq!(from_keycode(0xD800), String::from("unknown"));
}

#[test]
fn control_key_display_forms() {
    assert_eq!(ControlKey::Char('q').to_display_string(), String::from("q"));
    assert_eq!(ControlKey::Char('\n').to_display_string(), String::from("Enter"));
    assert_eq!(ControlKey::Char(' ').to_display_string(), String::from("Space"));
    assert_eq!(ControlKey::KeyCode(KEY_UP).to_display_string(), String::from("Up"));
}

#[test]
fn keycode_trait_reads_codes() {
    assert_eq!(65i32.keycode(), 65);
    assert_eq!('a'.keycode(), 97);
    assert_eq!(ControlKey::KeyCode(300).keycode(), 300);
    assert_eq!(ControlKey::Char('b').keycode(), 98);
}
