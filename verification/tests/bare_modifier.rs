use appshots::bare_modifier::{
    handle_event, parse_args, parse_detail, resolve_keycodes, run, EventKind, HotkeyError,
    Monitor, MonitorState, Signal, TriggerMode,
};
use appshots::hotkey::{key_pair, key_pairs, normalize_key};
use appshots::keymap::{find_keysym_code, parse_xmodmap, read_xmodmap_keycodes};

fn args(texts: &[&str]) -> Vec<String> {
    texts.iter().map(|text| text.to_string()).collect()
}

#[test]
fn parses_xmodmap_keycodes() {
    let parsed = parse_xmodmap(
        "keycode  50 = Shift_L ISO_Prev_Group Shift_L\nkeycode  62 = Shift_R ISO_Next_Group Shift_R\n",
    );
    assert_eq!(parsed.get("Shift_L"), Some(&50));
    assert_eq!(parsed.get("Shift_R"), Some(&62));
}

#[test]
fn normalizes_modifier_aliases() {
    assert_eq!(key_pair("Shift + Shift").unwrap().canonical, "DoubleShift");
    assert_eq!(key_pair("DoubleOption").unwrap().canonical, "DoubleAlt");
    assert_eq!(
        key_pair("left_meta + right_meta").unwrap().canonical,
        "DoubleSuper"
    );
}

#[test]
fn emits_press_and_release_once_per_chord() {
    let mut state = MonitorState {
        left_down: false,
        right_down: false,
        armed: false,
        trigger_mode: TriggerMode::Press,
    };
    handle_event(&mut state, EventKind::Press, 50, 50, 62);
    assert!(!state.armed);
    handle_event(&mut state, EventKind::Press, 62, 50, 62);
    assert!(state.armed);
    handle_event(&mut state, EventKind::Press, 62, 50, 62);
    assert!(state.armed);
    handle_event(&mut state, EventKind::Release, 50, 50, 62);
    assert!(!state.armed);
}

#[test]
fn signals_on_press() {
    let mut monitor = run(args(&["--key", "DoubleShift"])).unwrap().start(None).unwrap();
    let mut signals = Vec::new();
    for line in [
        "EVENT type 13 (RawKeyPress)",
        "    detail: 50",
        "EVENT type 13 (RawKeyPress)",
        "    device: 3 (11)",
        "    detail: 62",
        "EVENT type 13 (RawKeyPress)",
        "    detail: 62",
        "EVENT type 13 (RawKeyPress)",
        "    detail: 17",
        "    detail: 50",
        "EVENT type 14 (RawKeyRelease)",
        "    detail: 50",
        "EVENT type 14 (RawKeyRelease)",
        "    detail: 62",
    ] {
        signals.extend(monitor.observe(line));
    }
    assert_eq!(signals, vec![Signal::Down, Signal::Up]);
    assert!(!monitor.state.armed && !monitor.state.left_down && !monitor.state.right_down);
}

#[test]
fn signals_on_release() {
    let mut state = MonitorState {
        left_down: false,
        right_down: false,
        armed: false,
        trigger_mode: TriggerMode::Release,
    };
    assert_eq!(handle_event(&mut state, EventKind::Press, 62, 50, 62), vec![]);
    assert_eq!(handle_event(&mut state, EventKind::Press, 50, 50, 62), vec![]);
    assert_eq!(handle_event(&mut state, EventKind::Release, 99, 50, 62), vec![]);
    assert!(state.armed);
    assert_eq!(
        handle_event(&mut state, EventKind::Release, 62, 50, 62),
        vec![Signal::Down, Signal::Up]
    );
    assert_eq!(handle_event(&mut state, EventKind::Release, 50, 50, 62), vec![]);
}

#[test]
fn an_announcement_waits_for_its_detail() {
    let mut monitor = Monitor {
        state: MonitorState {
            left_down: false,
            right_down: true,
            armed: false,
            trigger_mode: TriggerMode::Press,
        },
        pending_event: None,
        left_code: 50,
        right_code: 62,
    };
    assert_eq!(monitor.observe("detail: 50"), vec![]);
    assert_eq!(monitor.pending_event, None);
    assert_eq!(monitor.observe("  (RawKeyPress)  "), vec![]);
    assert_eq!(monitor.observe("detail: fifty"), vec![]);
    assert_eq!(monitor.pending_event, Some(EventKind::Press));
    assert_eq!(monitor.observe("\tdetail:50\r"), vec![Signal::Down]);
    assert_eq!(monitor.pending_event, None);
}

#[test]
fn reads_details() {
    assert_eq!(parse_detail("detail: 50"), Some(50));
    assert_eq!(parse_detail("detail:+65535 "), Some(65535));
    assert_eq!(parse_detail("detail: 65536"), None);
    assert_eq!(parse_detail("detail:"), None);
    assert_eq!(parse_detail(" detail: 50"), None);
    assert_eq!(parse_detail("detail: -1"), None);
}

#[test]
fn reads_arguments() {
    assert_eq!(
        parse_args(&args(&["--key", "DoubleAlt", "--trigger-on-release"])),
        Ok(("DoubleAlt".to_string(), TriggerMode::Release))
    );
    assert_eq!(
        parse_args(&args(&["--trigger-on-release", "shift+shift", "--immediate"])),
        Ok(("shift+shift".to_string(), TriggerMode::Press))
    );
    assert_eq!(
        parse_args(&args(&["a", "--key", "--key"])),
        Ok(("--key".to_string(), TriggerMode::Press))
    );
    assert_eq!(parse_args(&args(&["--key"])), Err(HotkeyError::KeyNeedsValue));
    assert_eq!(parse_args(&args(&["--immediate"])), Err(HotkeyError::MissingKey));
    assert_eq!(
        parse_args(&args(&["a", "b"])),
        Err(HotkeyError::UnknownArgument("b".to_string()))
    );
    assert_eq!(
        parse_args(&args(&["-x"])),
        Err(HotkeyError::UnknownArgument("-x".to_string()))
    );
}

#[test]
fn errors_say_what_is_wrong() {
    assert_eq!(run(args(&["--key"])).unwrap_err().message(), "--key requires a value");
    assert_eq!(run(vec![]).unwrap_err().message(), "missing --key");
    assert_eq!(
        run(args(&["-h"])).unwrap_err().message(),
        "unknown bare modifier monitor argument '-h'"
    );
    assert_eq!(
        run(args(&["Ctrl+Alt+A"])).unwrap_err().message(),
        "unsupported bare modifier hotkey 'Ctrl+Alt+A'"
    );
    let plan = run(args(&["DoubleShift"])).unwrap();
    let same = b"keycode 9 = Shift_L Shift_R";
    assert_eq!(
        plan.start(Some((true, same))).unwrap_err().message(),
        "left and right DoubleShift keys resolved to the same keycode"
    );
}

#[test]
fn the_first_binding_counts() {
    let parsed = parse_xmodmap(
        "keycode 64 = Alt_L Meta_L\r\nkeycode 205 = NoSymbol Meta_L = Extra\n\
         keycode = Lost\nkeycode x = Lost\nkeysym 7 = Lost\nkeycode 7 Lost\n\
         keycode +8 9 = Kept\nkeycode 70000 = Lost\nkeycode 133 = Super_L",
    );
    assert_eq!(parsed.get("Meta_L"), Some(&64));
    assert_eq!(parsed.get("="), Some(&205));
    assert_eq!(parsed.get("Extra"), Some(&205));
    assert_eq!(parsed.get("Lost"), None);
    assert_eq!(parsed.get("Kept"), Some(&8));
    assert_eq!(parsed.get("Super_L"), Some(&133));
    assert_eq!(find_keysym_code(&parsed, &["Hyper_L", "Super_L", "Meta_L"]), Some(133));
    assert_eq!(find_keysym_code(&parsed, &["Hyper_L"]), None);
    assert_eq!(find_keysym_code(&parsed, &[]), None);
}

#[test]
fn keycodes_come_from_xmodmap_or_are_the_usual_ones() {
    let plan = run(args(&["--key", "command + command"])).unwrap();
    let monitor = plan.start(Some((true, b"keycode 9 = Hyper_L\nkeycode 11 = \xff Meta_R"))).unwrap();
    assert_eq!((monitor.left_code, monitor.right_code), (9, 11));
    let monitor = plan.start(Some((false, b"keycode 9 = Hyper_L"))).unwrap();
    assert_eq!((monitor.left_code, monitor.right_code), (133, 134));
    assert_eq!(read_xmodmap_keycodes(Some((true, b"keycode 7 = a\xff"))).get("a\u{fffd}"), Some(&7));
}

#[test]
fn every_hotkey_works_without_a_keymap() {
    let mut codes = Vec::new();
    for pair in key_pairs() {
        codes.push(resolve_keycodes(&pair, &read_xmodmap_keycodes(None)).unwrap());
    }
    assert_eq!(codes, vec![(50, 62), (64, 108), (133, 134), (37, 105)]);
}

#[test]
fn every_name_finds_its_hotkey() {
    let mut names = 0;
    for pair in key_pairs() {
        assert_eq!(key_pair(pair.canonical).unwrap().canonical, pair.canonical);
        for alias in pair.aliases() {
            assert_eq!(key_pair(alias).unwrap().canonical, pair.canonical);
            assert_eq!(key_pair(&alias.to_uppercase()).unwrap().canonical, pair.canonical);
            names += 1;
        }
    }
    assert_eq!(names, 20);
    assert!(key_pair("").is_none());
}

#[test]
fn names_are_normalized() {
    assert_eq!(normalize_key(" Left-Alt_ +\tRIGHT\nalt\r\u{c}"), "leftalt+rightalt");
    assert_eq!(normalize_key("a\u{b}\u{a0}b"), "a\u{b}\u{a0}b");
    assert_eq!(normalize_key("ÄİΣ"), "äi\u{307}σ");
    for byte in 0..128u8 {
        let ch = byte as char;
        let expected = if matches!(ch, ' ' | '\t' | '\n' | '\u{c}' | '\r' | '-' | '_') {
            String::new()
        } else {
            ch.to_ascii_lowercase().to_string()
        };
        assert_eq!(normalize_key(&ch.to_string()), expected);
    }
}

#[test]
fn texts_bind_in_order() {
    let second = "keycode 2 = a b\nkeycode 3 = c";
    for first in ["keycode 1 = a", "keycode 1 = a\r", "keycode 1 = a\n", "keycode 1 = a\r\n"] {
        let parsed = parse_xmodmap(&format!("{first}\n{second}"));
        assert_eq!(parsed.get("a"), Some(&1));
        assert_eq!(parsed.get("b"), Some(&2));
        assert_eq!(parsed.get("c"), Some(&3));
    }
    assert_eq!(parse_xmodmap(&format!("\n{second}")).get("a"), Some(&2));
}
