use g13_nexus::input::{
    belongs_to_g13, decode_events, device_kind, discover, encode_event, is_event_node,
    key_control, keyboard_candidate, node_paths, DeviceKind, InputEvent, EVENT_SIZE,
};
use g13_nexus::uinput::{emit_bytes, key_reports, keycode, keyname, setup_bytes, MAX_KEY_CODE};

#[test]
fn keycode_reads_names_with_and_without_prefix() {
    assert_eq!(keycode("KEY_A"), Some(30));
    assert_eq!(keycode("A"), Some(30));
    assert_eq!(keycode("  KEY_ENTER \n"), Some(28));
    assert_eq!(keycode("KEY_LEFTCTRL"), Some(29));
    assert_eq!(keycode("RIGHTMETA"), Some(126));
    assert_eq!(keycode("KEY_F12"), Some(88));
}

#[test]
fn keycode_falls_back_to_decimal_codes() {
    assert_eq!(keycode("183"), Some(183));
    assert_eq!(keycode("KEY_183"), Some(183));
    assert_eq!(keycode("+7"), Some(7));
    assert_eq!(keycode("65535"), Some(65535));
    assert_eq!(keycode("65536"), None);
    assert_eq!(keycode("a"), None);
    assert_eq!(keycode("KEY_"), None);
    assert_eq!(keycode(""), None);
}

#[test]
fn keyname_names_table_codes_only() {
    assert_eq!(keyname(1), Some("KEY_ESC"));
    assert_eq!(keyname(30), Some("KEY_A"));
    assert_eq!(keyname(57), Some("KEY_SPACE"));
    assert_eq!(keyname(0), None);
    assert_eq!(keyname(300), None);
}

#[test]
fn keycode_of_keyname_round_trips() {
    for code in 0u16..=300 {
        if let Some(name) = keyname(code) {
            assert_eq!(keycode(name), Some(code), "{name}");
        }
    }
}

#[test]
fn key_control_names_every_g13_control() {
    assert_eq!(key_control(0x290).as_deref(), Some("G1"));
    assert_eq!(key_control(0x2a5).as_deref(), Some("G22"));
    assert_eq!(key_control(0x29a).as_deref(), Some("G11"));
    assert_eq!(key_control(0x21e).as_deref(), Some("KEY_LIGHTS_TOGGLE"));
    assert_eq!(key_control(0x2b3).as_deref(), Some("KEY_MACRO_PRESET1"));
    assert_eq!(key_control(0x2b5).as_deref(), Some("KEY_MACRO_PRESET3"));
    assert_eq!(key_control(0x2b0).as_deref(), Some("KEY_MACRO_RECORD_START"));
    assert_eq!(key_control(0x2b8).as_deref(), Some("KEY_KBD_LCD_MENU1"));
    assert_eq!(key_control(0x2bc).as_deref(), Some("KEY_KBD_LCD_MENU5"));
    assert_eq!(key_control(0x126).as_deref(), Some("BTN_BASE"));
    assert_eq!(key_control(0x127).as_deref(), Some("BTN_BASE2"));
    assert_eq!(key_control(0x121).as_deref(), Some("BTN_THUMB"));
    assert_eq!(key_control(0x2a6), None);
    assert_eq!(key_control(0x2b1), None);
    assert_eq!(key_control(30), None);
}

#[test]
fn event_encoding_is_little_endian() {
    let e = InputEvent { sec: 1, usec: 2, type_: 1, code: 0x1e, value: -1 };
    let b = encode_event(&e);
    assert_eq!(b.len(), EVENT_SIZE);
    assert_eq!(&b[0..8], &[1, 0, 0, 0, 0, 0, 0, 0]);
    assert_eq!(&b[8..16], &[2, 0, 0, 0, 0, 0, 0, 0]);
    assert_eq!(&b[16..18], &[1, 0]);
    assert_eq!(&b[18..20], &[0x1e, 0]);
    assert_eq!(&b[20..24], &[0xff, 0xff, 0xff, 0xff]);
}

#[test]
fn decoding_encoded_events_gives_them_back() {
    let events = vec![
        InputEvent { sec: 1_700_000_000, usec: 999_999, type_: 1, code: 0x290, value: 1 },
        InputEvent { sec: -5, usec: 0, type_: 3, code: 0, value: 255 },
        InputEvent { sec: 0, usec: 0, type_: 0, code: 0, value: 0 },
    ];
    let mut bytes = Vec::new();
    for e in &events {
        bytes.extend(encode_event(e));
    }
    assert_eq!(decode_events(&bytes), events);
}

#[test]
fn decoding_ignores_a_partial_trailing_event() {
    let e = InputEvent { sec: 3, usec: 4, type_: 1, code: 2, value: 0 };
    let mut bytes = encode_event(&e);
    bytes.extend([7u8; 10]);
    assert_eq!(decode_events(&bytes), vec![e]);
    assert_eq!(decode_events(&bytes[..23]), Vec::<InputEvent>::new());
    assert_eq!(decode_events(&[]), Vec::<InputEvent>::new());
}

#[test]
fn uinput_writes_zero_time_events() {
    let b = emit_bytes(1, 30, 1);
    assert_eq!(b, encode_event(&InputEvent { sec: 0, usec: 0, type_: 1, code: 30, value: 1 }));
    let r = key_reports(30, 0);
    assert_eq!(r.len(), 2);
    assert_eq!(decode_events(&r[0]), vec![InputEvent { sec: 0, usec: 0, type_: 1, code: 30, value: 0 }]);
    assert_eq!(decode_events(&r[1]), vec![InputEvent { sec: 0, usec: 0, type_: 0, code: 0, value: 0 }]);
    assert_eq!(MAX_KEY_CODE, 767);
}

#[test]
fn uinput_setup_record_layout() {
    let b = setup_bytes();
    assert_eq!(b.len(), 1116);
    assert_eq!(&b[..26], b"G13 Nexus Virtual Keyboard");
    assert!(b[26..80].iter().all(|&x| x == 0));
    assert_eq!(&b[80..88], &[0x03, 0x00, 0x34, 0x12, 0x78, 0x56, 0x00, 0x02]);
    assert!(b[88..].iter().all(|&x| x == 0));
}

#[test]
fn event_nodes_and_g13_identity() {
    assert!(is_event_node("event12"));
    assert!(!is_event_node("mouse0"));
    assert!(!is_event_node("even"));
    let ids = vec![
        (Some("1d6b\n".to_string()), Some("0002".to_string())),
        (Some(" 046D ".to_string()), Some("C21C\n".to_string())),
    ];
    assert!(belongs_to_g13(&ids));
    assert!(!belongs_to_g13(&vec![(Some("046d".to_string()), None)]));
    assert!(!belongs_to_g13(&vec![(Some("046d".to_string()), Some("c21d".to_string()))]));
    assert!(!belongs_to_g13(&Vec::new()));
}

#[test]
fn recorder_keyboards_exclude_g13_and_own_device() {
    assert!(keyboard_candidate("event3", false, "AT keyboard\n", true));
    assert!(!keyboard_candidate("event3", true, "Logitech G13 Gaming Keypad", true));
    assert!(!keyboard_candidate("event4", false, " G13 Nexus Virtual Keyboard\n", true));
    assert!(!keyboard_candidate("event5", false, "Mouse", false));
    assert!(!keyboard_candidate("js0", false, "Pad", true));
}

#[test]
fn node_paths_sorted_and_deduplicated() {
    let names = vec!["event9".to_string(), "event10".to_string(), "event9".to_string()];
    assert_eq!(
        node_paths(&names),
        vec!["/dev/input/event10".to_string(), "/dev/input/event9".to_string()]
    );
}

#[test]
fn discover_keeps_last_node_of_each_kind() {
    assert_eq!(device_kind(" Logitech G13 Gaming Keypad\n"), Some(DeviceKind::Keypad));
    assert_eq!(device_kind("Logitech G13 Thumbstick"), Some(DeviceKind::Thumbstick));
    assert_eq!(device_kind("Logitech G13"), None);
    let nodes = vec![
        ("/dev/input/event3".to_string(), "Logitech G13 Gaming Keypad".to_string()),
        ("/dev/input/event4".to_string(), "Logitech G13 Thumbstick".to_string()),
        ("/dev/input/event5".to_string(), "Logitech G13 Gaming Keypad\n".to_string()),
        ("/dev/input/event6".to_string(), "other".to_string()),
    ];
    assert_eq!(
        discover(&nodes),
        Some(("/dev/input/event5".to_string(), "/dev/input/event4".to_string()))
    );
    assert_eq!(discover(&nodes[..1].to_vec()), None);
    assert_eq!(discover(&Vec::new()), None);
}

#[test]
fn key_prefix_is_optional_for_every_trimmed_name() {
    for name in ["A", "F12", "SPACE", "LEFTMETA", "30", "0", "", "NOPE", "12x"] {
        let with = format!("KEY_{name}");
        assert_eq!(keycode(&with), keycode(name), "{name}");
    }
    assert_eq!(keycode("KEY_30"), Some(30));
    assert_eq!(keycode("KEY_"), None);
}
