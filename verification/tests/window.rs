use g13_nexus::config::{MacroStep, Profile};
use g13_nexus::ipc::Reply;
use g13_nexus::labels::{
    binding_text, button_click, button_look, configurable, egui_key_to_linux, is_record_target,
    macro_bound, macro_key_label, modifier_edges, poll_update, preview_row, profile_count,
    supported_image, zone_look, Click, Look,
};

fn s(x: &str) -> String {
    x.to_string()
}

fn status() -> Reply {
    Reply {
        ok: true,
        message: String::new(),
        connected: true,
        x: 127,
        y: 127,
        center_x: 127,
        center_y: 127,
        pressed: Vec::new(),
        active_bank: 1,
        recording: true,
        record_target: Some(s("G4")),
        record_preview: Vec::new(),
        macro_targets: vec![s("G4"), s("G9")],
        lcd_ok: true,
        lcd_enabled: true,
        lcd_page: 0,
        profile_name: s("Default"),
        profiles: vec![s("Default")],
    }
}

#[test]
fn fixed_controls_are_not_configurable() {
    assert!(!configurable("KEY_MACRO_PRESET1"));
    assert!(!configurable("KEY_MACRO_PRESET3"));
    assert!(!configurable("KEY_MACRO_RECORD_START"));
    assert!(!configurable("KEY_LIGHTS_TOGGLE"));
    assert!(configurable("G1"));
    assert!(configurable("KEY_KBD_LCD_MENU5"));
    assert!(configurable("ABS_X-"));
}

#[test]
fn macro_step_labels() {
    assert_eq!(macro_key_label("KEY_LEFTCTRL"), "Left Ctrl");
    assert_eq!(macro_key_label("KEY_PAGEDOWN"), "Page Down");
    assert_eq!(macro_key_label("KEY_BACKSLASH"), "\\");
    assert_eq!(macro_key_label("KEY_GRAVE"), "`");
    assert_eq!(macro_key_label("KEY_ESC"), "Escape");
    assert_eq!(macro_key_label("KEY_A"), "A");
    assert_eq!(macro_key_label("KEY_KP_ENTER"), "KP ENTER");
    assert_eq!(macro_key_label("BTN_LEFT"), "BTN LEFT");
    assert_eq!(macro_key_label(""), "");
}

#[test]
fn window_keys_to_linux_names() {
    assert_eq!(egui_key_to_linux("A").as_deref(), Some("KEY_A"));
    assert_eq!(egui_key_to_linux("q").as_deref(), Some("KEY_Q"));
    assert_eq!(egui_key_to_linux("Num7").as_deref(), Some("KEY_7"));
    assert_eq!(egui_key_to_linux("F1").as_deref(), Some("KEY_F1"));
    assert_eq!(egui_key_to_linux("F12").as_deref(), Some("KEY_F12"));
    assert_eq!(egui_key_to_linux("F13"), None);
    assert_eq!(egui_key_to_linux("F0"), None);
    assert_eq!(egui_key_to_linux("F+5").as_deref(), Some("KEY_F+5"));
    assert_eq!(egui_key_to_linux("ArrowUp").as_deref(), Some("KEY_UP"));
    assert_eq!(egui_key_to_linux("PlusEquals").as_deref(), Some("KEY_EQUAL"));
    assert_eq!(egui_key_to_linux("Backtick").as_deref(), Some("KEY_GRAVE"));
    assert_eq!(egui_key_to_linux("Num10"), None);
    assert_eq!(egui_key_to_linux("1"), None);
    assert_eq!(egui_key_to_linux("Copy"), None);
}

#[test]
fn record_target_and_macro_badges() {
    let st = Some(status());
    assert!(is_record_target(&st, "G4"));
    assert!(!is_record_target(&st, "G5"));
    assert!(!is_record_target(&None, "G4"));
    let mut idle = status();
    idle.recording = false;
    assert!(!is_record_target(&Some(idle), "G4"));
    let mut p = Profile::default();
    assert!(macro_bound(&st, &p, "G9"));
    assert!(!macro_bound(&st, &p, "G1"));
    p.bank_mut().macros.insert(s("G1"), vec![MacroStep { key: s("KEY_A"), down: true, delay_ms: 0 }]);
    p.bank_mut().macros.insert(s("G2"), Vec::new());
    assert!(macro_bound(&None, &p, "G1"));
    assert!(!macro_bound(&None, &p, "G2"));
    assert!(!macro_bound(&None, &p, "G3"));
}

#[test]
fn selecting_a_control_shows_its_binding() {
    let mut p = Profile::default();
    assert_eq!(binding_text(&p, "G5"), "KEY_F5");
    assert_eq!(binding_text(&p, "KEY_KBD_LCD_MENU1"), "");
    p.active_bank = 2;
    p.bank_mut().bindings.insert(s("G5"), s("KEY_X"));
    assert_eq!(binding_text(&p, "G5"), "KEY_X");
}

#[test]
fn modifier_changes_become_edges() {
    assert_eq!(modifier_edges([false; 4], [false; 4]), Vec::<(String, bool)>::new());
    assert_eq!(
        modifier_edges([false, true, false, false], [true, false, false, true]),
        vec![(s("KEY_LEFTCTRL"), true), (s("KEY_LEFTSHIFT"), false), (s("KEY_LEFTMETA"), true)]
    );
    assert_eq!(modifier_edges([false, false, true, false], [false, false, false, false]), vec![(s("KEY_LEFTALT"), false)]);
}

#[test]
fn picture_key_looks() {
    let mut st = status();
    st.pressed = vec![s("G2")];
    let live = Some(st);
    assert_eq!(button_look(&live, 1, "", "KEY_MACRO_RECORD_START"), Look::Recording);
    assert_eq!(button_look(&live, 1, "", "G2"), Look::Live);
    assert_eq!(button_look(&live, 3, "", "KEY_MACRO_PRESET1"), Look::Selected);
    assert_eq!(button_look(&live, 1, "", "KEY_MACRO_PRESET2"), Look::Idle);
    assert_eq!(button_look(&None, 2, "", "KEY_MACRO_PRESET2"), Look::Selected);
    assert_eq!(button_look(&None, 2, "", "KEY_MACRO_RECORD_START"), Look::Idle);
    assert_eq!(button_look(&None, 2, "G7", "G7"), Look::Selected);
    assert_eq!(zone_look(&live, "", "G2"), Look::Live);
    assert_eq!(zone_look(&live, "ABS_X-", "ABS_X-"), Look::Selected);
    assert_eq!(zone_look(&None, "", "ABS_X-"), Look::Idle);
}

#[test]
fn picture_key_clicks() {
    assert_eq!(button_click("KEY_MACRO_RECORD_START"), Click::ToggleRecording);
    assert_eq!(button_click("KEY_MACRO_PRESET3"), Click::SetBank(3));
    assert_eq!(button_click("G1"), Click::Select);
    assert_eq!(button_click("KEY_LIGHTS_TOGGLE"), Click::Nothing);
}

#[test]
fn status_poll_updates() {
    let p = Profile::default();
    let mut st = status();
    st.pressed = vec![s("KEY_MACRO_PRESET1"), s("G3"), s("G4")];
    st.active_bank = 2;
    let u = poll_update(&p, "", &st);
    assert_eq!(u.bank, 2);
    assert!(!u.reload);
    assert_eq!(u.select.as_deref(), Some("G3"));
    let u = poll_update(&p, "G3", &st);
    assert_eq!(u.select, None);
    st.lcd_page = 2;
    assert!(poll_update(&p, "", &st).reload);
    let mut other = status();
    other.profile_name = s("Other");
    assert!(poll_update(&p, "", &other).reload);
    other.pressed = vec![s("KEY_LIGHTS_TOGGLE")];
    assert_eq!(poll_update(&p, "", &other).select, None);
}

#[test]
fn recording_window_rows() {
    let step = MacroStep { key: s("KEY_LEFTSHIFT"), down: true, delay_ms: 42 };
    assert_eq!(preview_row(0, &step), (s("001"), s("DOWN"), s("Left Shift"), s("+42 ms")));
    let up = MacroStep { key: s("KEY_Q"), down: false, delay_ms: 0 };
    assert_eq!(preview_row(99, &up), (s("100"), s("UP"), s("Q"), s("+0 ms")));
    assert_eq!(preview_row(1233, &up).0, "1234");
    assert_eq!(preview_row(9, &up).0, "010");
    assert_eq!(profile_count(1), "1 profile");
    assert_eq!(profile_count(0), "0 profiles");
    assert_eq!(profile_count(3), "3 profiles");
}

#[test]
fn window_keys_name_keys_the_daemon_takes() {
    let names = [
        "a", "Z", "Num0", "Num9", "F1", "F9", "F10", "F12", "Escape", "Tab", "Backspace", "Enter",
        "Space", "Insert", "Delete", "Home", "End", "PageUp", "PageDown", "ArrowUp", "ArrowDown",
        "ArrowLeft", "ArrowRight", "Minus", "Equals", "PlusEquals", "Comma", "Period", "Dot",
        "Semicolon", "Quote", "Apostrophe", "Backslash", "Slash", "OpenBracket", "CloseBracket",
        "Backtick", "Grave",
    ];
    for name in names {
        let key = egui_key_to_linux(name).expect(name);
        let code = g13_nexus::uinput::keycode(&key).expect(&key);
        assert_eq!(g13_nexus::uinput::keyname(code), Some(key.as_str()), "{name}");
    }
    assert_eq!(egui_key_to_linux("F13"), None);
    assert_eq!(egui_key_to_linux("Num10"), None);
    assert_eq!(egui_key_to_linux("F+5").as_deref(), Some("KEY_F+5"));
    assert_eq!(g13_nexus::uinput::keycode("KEY_F+5"), None);
}

#[test]
fn dropped_images_by_extension() {
    for p in ["a.png", "/home/u/Photo.JPG", "x.jpeg", "b.Bmp", "dir/pic.jpg/", "pic.png/.", "./pic.PNG", "a.b.png"] {
        assert!(supported_image(p), "{p}");
    }
    for p in ["c.gif", ".png", "png", "a.", "", "/", "pic.png/..", "..", ".", "a.png.txt", "a/.bmp"] {
        assert!(!supported_image(p), "{p}");
    }
}
