use live_transcriber::devices::{
    classify_advanced, find_device, is_advanced_name, list_devices, pick_device, picks_default,
    Picked,
};

fn names(list: &[&str]) -> Vec<Option<String>> {
    list.iter().map(|n| Some(n.to_string())).collect()
}

#[test]
fn raw_devices_are_advanced() {
    for name in [
        "hw:CARD=PCH", "plughw:1", "dsnoop:0", "dmix:0", "front:CARD=x", "surround51:0",
        "iec958:CARD=x", "sysdefault:CARD=x",
    ] {
        assert!(classify_advanced(name), "{}", name);
        assert!(classify_advanced(&name.to_uppercase()), "{}", name);
        assert!(is_advanced_name(&name.to_lowercase()));
    }
    for name in ["pulse", "default", "xhw:0", "hw", "sysdefault", "front", ""] {
        assert!(!classify_advanced(name), "{}", name);
    }
    // Names are compared in lower case, so capitals count only there.
    assert!(!is_advanced_name("HW:0"));
    // The small letter of the Kelvin sign is an ASCII one; this name has none.
    assert!(!classify_advanced("\u{212a}hw:"));
}

#[test]
fn the_default_device_comes_first() {
    let devices = list_devices(
        Some("pulse".to_string()),
        Some(vec![
            Some("hw:0".to_string()),
            None,
            Some("pulse".to_string()),
            Some("Default".to_string()),
        ]),
    );
    let seen: Vec<(&str, bool, bool)> =
        devices.iter().map(|d| (d.name.as_str(), d.is_default, d.is_advanced)).collect();
    assert_eq!(
        seen,
        vec![
            ("Default", true, false),
            ("hw:0", false, true),
            ("pulse", true, false),
            ("Default", false, false),
        ]
    );
}

#[test]
fn devices_that_cannot_be_listed_are_left_out() {
    let devices = list_devices(None, None);
    assert_eq!(devices.len(), 1);
    assert_eq!(devices[0].name, "Default");
    // Without a default device its name counts as empty.
    let devices = list_devices(None, Some(names(&["", "mic"])));
    assert_eq!(devices.len(), 3);
    assert!(devices[1].is_default);
    assert!(!devices[2].is_default);
}

#[test]
fn the_default_device_is_picked_by_default() {
    for choice in [None, Some(""), Some("Default")] {
        assert!(picks_default(choice));
        assert_eq!(pick_device(choice, true, Ok(vec![])), Ok(Picked::Default));
        assert_eq!(
            pick_device(choice, false, Ok(names(&["mic"]))),
            Err("No default input device".to_string())
        );
        assert_eq!(pick_device(choice, true, Err("broken".to_string())), Ok(Picked::Default));
    }
    assert!(!picks_default(Some("default")));
}

#[test]
fn the_first_device_of_a_name_is_picked() {
    let mut list = names(&["a", "mic", "mic"]);
    list.insert(0, None);
    assert_eq!(find_device(&list, "mic"), Some(2));
    assert_eq!(find_device(&list, "Mic"), None);
    assert_eq!(pick_device(Some("mic"), false, Ok(list)), Ok(Picked::At(2)));
    assert_eq!(
        pick_device(Some("usb"), true, Ok(names(&["mic"]))),
        Err("Device not found: usb".to_string())
    );
    assert_eq!(
        pick_device(Some("usb"), true, Err("no host".to_string())),
        Err("no host".to_string())
    );
}

#[test]
fn offered_devices_can_be_picked() {
    let list = names(&["hw:0", "pulse", "mic"]);
    let devices = list_devices(Some("mic".to_string()), Some(list.clone()));
    for device in &devices[1..] {
        match pick_device(Some(&device.name), true, Ok(list.clone())) {
            Ok(Picked::At(at)) => assert_eq!(list[at].as_deref(), Some(device.name.as_str())),
            other => panic!("{:?}", other),
        }
    }
}

#[test]
fn what_follows_the_prefix_does_not_matter() {
    for prefix in ["hw:", "Surround", "SYSDEFAULT:", "dMix:"] {
        for rest in ["", "0", " x", "\u{3a3}", "CARD=PCH,DEV=0"] {
            let name = format!("{}{}", prefix, rest);
            assert!(classify_advanced(&name), "{}", name);
            assert!(classify_advanced(&name.to_ascii_uppercase()), "{}", name);
        }
    }
}

#[test]
fn names_in_any_script_are_judged_by_their_beginning() {
    for name in ["hw:\u{3a3}", "HW:\u{df}", "Front:M\u{fc}hle", "surround \u{1f3a4}"] {
        assert!(classify_advanced(name), "{}", name);
        assert!(classify_advanced(&name.to_ascii_uppercase()), "{}", name);
        assert!(classify_advanced(&name.to_ascii_lowercase()), "{}", name);
    }
    for name in ["\u{3a3}hw:", "dm\u{130}x:0", "\u{fc}"] {
        assert!(!classify_advanced(name), "{}", name);
        assert!(!classify_advanced(&name.to_ascii_uppercase()), "{}", name);
    }
    let devices = list_devices(None, Some(names(&["hw:0", "HW:\u{3a3}", "\u{fc}", "Default"])));
    let advanced: Vec<bool> = devices.iter().map(|d| d.is_advanced).collect();
    assert_eq!(advanced, vec![false, true, true, false, false]);
}
