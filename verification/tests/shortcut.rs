use live_transcriber::shortcut::{
    code_from_name, code_of, combine, modifier_of, parse_shortcut, Code, Modifier, Modifiers,
    Part, Shortcut, DEFAULT_SHORTCUT,
};

fn mods(control: bool, alt: bool, shift: bool, super_key: bool) -> Modifiers {
    Modifiers { control, alt, shift, super_key }
}

#[test]
fn the_default_shortcut_is_one() {
    assert_eq!(
        parse_shortcut(DEFAULT_SHORTCUT),
        Some(Shortcut { mods: mods(true, false, true, false), key: Code::KeyS })
    );
}

#[test]
fn modifiers_have_several_names() {
    for name in ["ctrl", "control", "commandorcontrol", "cmdorctrl"] {
        assert_eq!(modifier_of(name), Some(Modifier::Control));
    }
    for name in ["alt", "option"] {
        assert_eq!(modifier_of(name), Some(Modifier::Alt));
    }
    assert_eq!(modifier_of("shift"), Some(Modifier::Shift));
    for name in ["super", "meta", "cmd", "command", "win"] {
        assert_eq!(modifier_of(name), Some(Modifier::Super));
    }
    assert_eq!(modifier_of("Shift"), None);
    assert_eq!(modifier_of(""), None);
}

#[test]
fn keys_have_names() {
    assert_eq!(code_from_name("a"), Some(Code::KeyA));
    assert_eq!(code_from_name("Z"), Some(Code::KeyZ));
    assert_eq!(code_from_name("0"), Some(Code::Digit0));
    assert_eq!(code_from_name("9"), Some(Code::Digit9));
    assert_eq!(code_from_name("f1"), Some(Code::F1));
    assert_eq!(code_from_name("F12"), Some(Code::F12));
    assert_eq!(code_from_name("Space"), Some(Code::Space));
    assert_eq!(code_from_name("spc"), Some(Code::Space));
    assert_eq!(code_from_name("Enter"), Some(Code::Enter));
    assert_eq!(code_from_name("return"), Some(Code::Enter));
    for name in ["", "F13", "F0", "Tab", "AA", " a"] {
        assert_eq!(code_from_name(name), None, "{}", name);
    }
    assert_eq!(code_of("a"), None);
    assert_eq!(code_of("A"), Some(Code::KeyA));
    // The capital of the dotless i is an ASCII letter.
    assert_eq!(code_from_name("\u{131}"), Some(Code::KeyI));
}

#[test]
fn every_letter_and_digit_is_a_key() {
    let mut seen: Vec<Code> = Vec::new();
    for c in ('A'..='Z').chain('0'..='9') {
        let code = code_from_name(&c.to_string()).expect("a key");
        assert!(!seen.contains(&code));
        seen.push(code);
    }
    for n in 1..=12 {
        let code = code_from_name(&format!("F{}", n)).expect("a key");
        assert!(!seen.contains(&code));
        seen.push(code);
    }
    assert_eq!(seen.len(), 48);
}

#[test]
fn letter_case_and_spaces_do_not_matter() {
    let expected = Some(Shortcut { mods: mods(true, true, true, true), key: Code::F5 });
    for text in [
        "Ctrl+Alt+Shift+Super+F5",
        "ctrl+alt+shift+super+f5",
        "CTRL+ALT+SHIFT+SUPER+F5",
        " Ctrl + Alt\t+ Shift + Super + F5 ",
        "F5+super+shift+option+control",
        "ctrl+ctrl+alt+shift+win+cmd+F5",
    ] {
        assert_eq!(parse_shortcut(text), expected, "{}", text);
    }
}

#[test]
fn the_last_key_counts() {
    let none = mods(false, false, false, false);
    assert_eq!(parse_shortcut("A+B"), Some(Shortcut { mods: none, key: Code::KeyB }));
    assert_eq!(parse_shortcut("A"), Some(Shortcut { mods: none, key: Code::KeyA }));
    assert_eq!(parse_shortcut("A+Unknown"), None);
    assert_eq!(parse_shortcut("Unknown+A"), Some(Shortcut { mods: none, key: Code::KeyA }));
    assert_eq!(parse_shortcut("Ctrl+"), None);
    assert_eq!(parse_shortcut("+A"), Some(Shortcut { mods: none, key: Code::KeyA }));
}

#[test]
fn modifiers_alone_are_no_shortcut() {
    assert_eq!(parse_shortcut("Ctrl+Shift"), None);
    assert_eq!(parse_shortcut(""), None);
    assert_eq!(parse_shortcut("   "), None);
    assert_eq!(combine(&vec![Part::Modifier(Modifier::Alt)]), None);
    assert_eq!(
        combine(&vec![Part::Key(Some(Code::Enter)), Part::Modifier(Modifier::Alt)]),
        Some(Shortcut { mods: mods(false, true, false, false), key: Code::Enter })
    );
    assert_eq!(combine(&vec![Part::Key(Some(Code::Enter)), Part::Key(None)]), None);
}

#[test]
fn spelling_does_not_matter() {
    let expected = parse_shortcut("CommandOrControl+Shift+S");
    assert!(expected.is_some());
    for text in [
        " s + SHIFT + ctrl+control",
        "cOmMaNdOrCoNtRoL+sHiFt+s",
        "shift+S+CmdOrCtrl+shift",
        "A+control+shift+s",
    ] {
        assert_eq!(parse_shortcut(text), expected, "{}", text);
    }
    for text in ["Shift+S", "Cmd+Shift+S", "Control+Shift+A", "Control+Shift+S+"] {
        assert_ne!(parse_shortcut(text), expected, "{}", text);
    }
}

#[test]
fn spelling_does_not_matter_in_any_script() {
    // The capital of the dotless i names a key; its neighbours may be spelled
    // as they like.
    let expected = parse_shortcut("ctrl+shift+\u{131}");
    assert_eq!(
        expected,
        Some(Shortcut { mods: mods(true, false, true, false), key: Code::KeyI })
    );
    for text in ["\u{131} + SHIFT+Control", "Shift+CTRL+\u{131}+cmdorctrl+shift"] {
        assert_eq!(parse_shortcut(text), expected, "{}", text);
    }
    for text in ["ctrl+\u{3a3}", "\u{3a3}+CONTROL", " \u{3c3} + ctrl"] {
        assert_eq!(parse_shortcut(text), None, "{}", text);
    }
}
