use g13_nexus::config::{MacroStep, Profile};
use g13_nexus::daemon::{
    action_events, arm_record_target, direction_states, effective_center, finish_recording,
    handle_request, has_mapping, lcd_button, macro_schedule, profile_outcome, publish,
    record_key_event, recordable_control, set_control, start_recording, switch_bank,
    toggle_recording, update_directions, ControlAction, Effects, ProfileOp, Shared,
};
use g13_nexus::ipc::{Reply, Request};

fn s(x: &str) -> String {
    x.to_string()
}

fn reply() -> Reply {
    Reply {
        ok: true,
        message: String::new(),
        connected: false,
        x: 127,
        y: 127,
        center_x: 127,
        center_y: 127,
        pressed: Vec::new(),
        active_bank: 1,
        recording: false,
        record_target: None,
        record_preview: Vec::new(),
        macro_targets: Vec::new(),
        lcd_ok: false,
        lcd_enabled: true,
        lcd_page: 0,
        profile_name: s("Default"),
        profiles: Vec::new(),
    }
}

fn shared() -> Shared {
    Shared {
        reply: reply(),
        profile: Profile::default(),
        detected_center_x: 127,
        detected_center_y: 127,
        rec_last: None,
        rec_down: Vec::new(),
        rec_recent: Vec::new(),
    }
}

fn none() -> Effects {
    Effects { save: false, set_rgb: false, apply_visuals: false, refresh_lcd: false, refresh_profiles: false }
}

#[test]
fn recordable_controls() {
    for n in ["G1", "G22", "G+5", "G022", "BTN_BASE", "BTN_BASE2", "BTN_THUMB", "ABS_X-", "ABS_Y+", "KEY_KBD_LCD_MENU1", "KEY_KBD_LCD_MENU5"] {
        assert!(recordable_control(n), "{n}");
    }
    for n in ["G0", "G23", "G", "G256", "KEY_MACRO_PRESET1", "KEY_MACRO_RECORD_START", "KEY_LIGHTS_TOGGLE", "KEY_KBD_LCD_MENU6", "g1"] {
        assert!(!recordable_control(n), "{n}");
    }
}

#[test]
fn arming_a_recording_destination() {
    let mut sh = shared();
    assert!(!arm_record_target(&mut sh, "G1"));
    start_recording(&mut sh);
    assert!(sh.reply.recording);
    assert!(!arm_record_target(&mut sh, "KEY_MACRO_PRESET1"));
    assert!(arm_record_target(&mut sh, "G1"));
    assert_eq!(sh.reply.record_target.as_deref(), Some("G1"));
    assert!(!sh.profile.bank().bindings.contains_key("G1"));
    assert_eq!(sh.profile.bank().macros.get("G1").map(|m| m.len()), Some(0));
    assert!(!arm_record_target(&mut sh, "G2"));
    assert_eq!(sh.reply.record_target.as_deref(), Some("G1"));
}

#[test]
fn bank_switch_refused_while_recording_has_destination() {
    let mut sh = shared();
    assert_eq!(switch_bank(&mut sh, 2), Some(true));
    assert_eq!(sh.profile.active_bank, 2);
    assert_eq!(sh.reply.active_bank, 2);
    assert_eq!(switch_bank(&mut sh, 2), Some(false));
    start_recording(&mut sh);
    assert_eq!(switch_bank(&mut sh, 3), Some(true));
    assert!(arm_record_target(&mut sh, "G5"));
    assert_eq!(switch_bank(&mut sh, 1), None);
    assert_eq!(sh.profile.active_bank, 3);
}

#[test]
fn lcd_keys_builtin_functions() {
    let mut sh = shared();
    assert!(lcd_button(&mut sh, "KEY_KBD_LCD_MENU1"));
    assert_eq!(sh.profile.lcd_page, 3);
    assert!(lcd_button(&mut sh, "KEY_KBD_LCD_MENU2"));
    assert_eq!(sh.profile.lcd_page, 0);
    assert!(lcd_button(&mut sh, "KEY_KBD_LCD_MENU5"));
    assert_eq!(sh.profile.lcd_page, 1);
    assert!(lcd_button(&mut sh, "KEY_KBD_LCD_MENU3"));
    assert!(!sh.profile.lcd_enabled);
    assert_eq!(sh.reply.lcd_enabled, false);
    assert!(lcd_button(&mut sh, "KEY_KBD_LCD_MENU4"));
    assert!(sh.profile.lcd_enabled);
    assert_eq!(sh.profile.lcd_page, 0);
    assert!(!lcd_button(&mut sh, "G1"));
}

#[test]
fn stick_hysteresis() {
    // Dead zone 38 around 127: release zone 38 - 9 = 29.
    assert_eq!(direction_states(38, 127, 127, 88, 127, [false; 4]), [true, false, false, false]);
    assert_eq!(direction_states(38, 127, 127, 97, 127, [false; 4]), [false, false, false, false]);
    assert_eq!(direction_states(38, 127, 127, 97, 127, [true, false, false, false]), [true, false, false, false]);
    assert_eq!(direction_states(38, 127, 127, 98, 127, [true, false, false, false]), [false, false, false, false]);
    assert_eq!(direction_states(38, 127, 127, 127, 200, [false; 4]), [false, false, false, true]);
    assert_eq!(direction_states(0, 127, 127, 128, 126, [false; 4]), [false, true, true, false]);
    assert_eq!(direction_states(0, 127, 127, 128, 126, [false, true, true, false]), [false, true, true, false]);
    assert_eq!(direction_states(0, 127, 127, 127, 127, [false, true, true, false]), [false; 4]);
    // Small dead zones release at one count.
    assert_eq!(direction_states(3, 100, 100, 98, 100, [true, false, false, false]), [true, false, false, false]);
}

#[test]
fn stick_directions_use_profile_center() {
    let mut sh = shared();
    sh.profile.joystick_center_x = Some(100);
    assert_eq!(effective_center(&sh), (100, 127));
    assert_eq!(update_directions(&sh, &Vec::new(), 61, 127), [true, false, false, false]);
    assert_eq!(update_directions(&sh, &Vec::new(), 88, 127), [false, false, false, false]);
    assert_eq!(update_directions(&sh, &vec![s("ABS_X-")], 70, 127), [true, false, false, false]);
}

#[test]
fn control_press_and_release() {
    let mut sh = shared();
    let mut pressed = Vec::new();
    match set_control(&mut sh, &mut pressed, "G1", true) {
        ControlAction::Press { action, down } => {
            assert_eq!(action, "KEY_F1");
            assert!(down);
        }
        other => panic!("{other:?}"),
    }
    assert_eq!(pressed, vec![s("G1")]);
    assert!(matches!(set_control(&mut sh, &mut pressed, "G1", true), ControlAction::Nothing));
    match set_control(&mut sh, &mut pressed, "G1", false) {
        ControlAction::Press { action, down } => {
            assert_eq!(action, "KEY_F1");
            assert!(!down);
        }
        other => panic!("{other:?}"),
    }
    assert!(pressed.is_empty());
    assert!(matches!(set_control(&mut sh, &mut pressed, "KEY_KBD_LCD_MENU1", true), ControlAction::Nothing));
}

#[test]
fn macro_plays_on_press_only() {
    let mut sh = shared();
    let steps = vec![MacroStep { key: s("KEY_A"), down: true, delay_ms: 0 }, MacroStep { key: s("KEY_A"), down: false, delay_ms: 20 }];
    sh.profile.bank_mut().macros.insert(s("G2"), steps);
    assert!(has_mapping(&sh, "G2"));
    assert!(!has_mapping(&sh, "BTN_NONE"));
    let mut pressed = Vec::new();
    match set_control(&mut sh, &mut pressed, "G2", true) {
        ControlAction::PlayMacro(v) => {
            assert_eq!(v.len(), 2);
            assert_eq!(v[1].delay_ms, 20);
        }
        other => panic!("{other:?}"),
    }
    assert!(matches!(set_control(&mut sh, &mut pressed, "G2", false), ControlAction::Nothing));
}

#[test]
fn binding_chords_press_in_order_release_in_reverse() {
    assert_eq!(action_events("KEY_LEFTCTRL+KEY_C", true), vec![(29, 1), (46, 1)]);
    assert_eq!(action_events("KEY_LEFTCTRL+KEY_C", false), vec![(46, 0), (29, 0)]);
    assert_eq!(action_events("KEY_A + bogus", true), vec![(30, 1)]);
    assert_eq!(action_events("", true), Vec::<(u16, i32)>::new());
    assert_eq!(action_events("++", false), Vec::<(u16, i32)>::new());
}

#[test]
fn macro_schedule_caps_delays_and_releases_held_keys() {
    let steps = vec![
        MacroStep { key: s("KEY_A"), down: true, delay_ms: 10 },
        MacroStep { key: s("KEY_B"), down: true, delay_ms: 6000 },
        MacroStep { key: s("KEY_A"), down: false, delay_ms: 0 },
        MacroStep { key: s("nope"), down: true, delay_ms: 1 },
    ];
    let (events, releases) = macro_schedule(&steps);
    let delays: Vec<u64> = events.iter().map(|e| e.delay_ms).collect();
    assert_eq!(delays, vec![10, 5000, 0, 1]);
    let keys: Vec<Option<(u16, i32)>> = events.iter().map(|e| e.key).collect();
    assert_eq!(keys, vec![Some((30, 1)), Some((48, 1)), Some((30, 0)), None]);
    assert_eq!(releases, vec![48]);
}

#[test]
fn recording_takes_edges_once() {
    let mut sh = shared();
    assert!(!record_key_event(&mut sh, s("KEY_A"), true, 0));
    start_recording(&mut sh);
    assert!(!record_key_event(&mut sh, s("KEY_A"), true, 0));
    assert!(arm_record_target(&mut sh, "G3"));
    assert!(record_key_event(&mut sh, s("KEY_A"), true, 100));
    assert!(!record_key_event(&mut sh, s("KEY_A"), true, 110));
    assert!(!record_key_event(&mut sh, s("bogus"), true, 120));
    assert!(record_key_event(&mut sh, s("KEY_A"), false, 250));
    let steps = sh.profile.bank().macros.get("G3").unwrap();
    assert_eq!(steps.len(), 2);
    assert_eq!((steps[0].key.as_str(), steps[0].down, steps[0].delay_ms), ("KEY_A", true, 0));
    assert_eq!((steps[1].key.as_str(), steps[1].down, steps[1].delay_ms), ("KEY_A", false, 150));
    assert_eq!(sh.reply.record_preview.len(), 2);
    assert_eq!(sh.reply.macro_targets, vec![s("G3")]);
}

#[test]
fn recording_delay_is_capped() {
    let mut sh = shared();
    start_recording(&mut sh);
    assert!(arm_record_target(&mut sh, "G4"));
    assert!(record_key_event(&mut sh, s("KEY_B"), true, 1000));
    assert!(record_key_event(&mut sh, s("KEY_B"), false, 90_000));
    let steps = sh.profile.bank().macros.get("G4").unwrap();
    assert_eq!(steps[1].delay_ms, 5000);
}

#[test]
fn finishing_releases_held_keys_in_order() {
    let mut sh = shared();
    start_recording(&mut sh);
    assert!(arm_record_target(&mut sh, "G7"));
    assert!(record_key_event(&mut sh, s("KEY_LEFTSHIFT"), true, 0));
    assert!(record_key_event(&mut sh, s("KEY_A"), true, 10));
    assert!(finish_recording(&mut sh, 40, true));
    assert!(!sh.reply.recording);
    assert_eq!(sh.reply.record_target, None);
    assert!(sh.rec_down.is_empty());
    let steps = sh.profile.bank().macros.get("G7").unwrap();
    let tail: Vec<(String, bool, u64)> = steps[2..].iter().map(|m| (m.key.clone(), m.down, m.delay_ms)).collect();
    assert_eq!(tail, vec![(s("KEY_A"), false, 30), (s("KEY_LEFTSHIFT"), false, 0)]);
    assert!(!finish_recording(&mut sh, 50, true));
}

#[test]
fn mr_toggles_recording() {
    let mut sh = shared();
    assert_eq!(toggle_recording(&mut sh, 0), (true, false));
    assert!(sh.reply.recording);
    assert_eq!(toggle_recording(&mut sh, 5), (false, true));
    assert!(!sh.reply.recording);
}

#[test]
fn requests_change_state_and_report_work() {
    let mut sh = shared();
    let e = handle_request(&mut sh, Request::SetColor { rgb: [1, 2, 3] }, 0);
    assert_eq!(e, Effects { save: true, set_rgb: true, ..none() });
    assert_eq!(sh.profile.color, [1, 2, 3]);
    let e = handle_request(&mut sh, Request::SetLcdPage { page: 6 }, 0);
    assert_eq!(e, Effects { save: true, refresh_lcd: true, ..none() });
    assert_eq!(sh.profile.lcd_page, 2);
    assert_eq!(sh.reply.lcd_page, 2);
    assert_eq!(handle_request(&mut sh, Request::SetBank { bank: 4 }, 0), none());
    assert_eq!(sh.profile.active_bank, 1);
    assert_eq!(handle_request(&mut sh, Request::SetBank { bank: 3 }, 0), Effects { save: true, apply_visuals: true, ..none() });
    assert_eq!(sh.reply.active_bank, 3);
    handle_request(&mut sh, Request::SetBinding { key: s("G1"), action: s("  ") }, 0);
    assert!(!sh.profile.bank().bindings.contains_key("G1"));
    handle_request(&mut sh, Request::SetBinding { key: s("G1"), action: s("KEY_Z") }, 0);
    assert_eq!(sh.profile.bank().bindings.get("G1"), Some(&s("KEY_Z")));
    handle_request(&mut sh, Request::SetDeadzone { value: 12 }, 0);
    assert_eq!(sh.profile.deadzone, 12);
    handle_request(&mut sh, Request::SetJoystickCenter { x: Some(120), y: None }, 0);
    assert_eq!((sh.reply.center_x, sh.reply.center_y), (120, 127));
    assert_eq!(handle_request(&mut sh, Request::LcdRefresh, 0), Effects { refresh_lcd: true, ..none() });
}

#[test]
fn requests_drive_a_recording() {
    let mut sh = shared();
    let e = handle_request(&mut sh, Request::RecordToggle, 0);
    assert_eq!(e, Effects { apply_visuals: true, ..none() });
    assert!(sh.reply.recording);
    let e = handle_request(&mut sh, Request::RecordTarget { key: s("BTN_THUMB") }, 0);
    assert_eq!(e, Effects { save: true, refresh_lcd: true, ..none() });
    handle_request(&mut sh, Request::RecordEvent { key: s("KEY_X"), down: true }, 10);
    let e = handle_request(&mut sh, Request::RecordToggle, 20);
    assert_eq!(e, Effects { save: true, apply_visuals: true, ..none() });
    let steps = sh.profile.bank().macros.get("BTN_THUMB").unwrap();
    assert_eq!(steps.len(), 2);
    assert!(!steps[1].down);
    assert_eq!(sh.reply.macro_targets, vec![s("BTN_THUMB")]);
}

#[test]
fn store_outcomes_set_messages() {
    let mut sh = shared();
    let mut p = Profile::default();
    p.name = s("Racing");
    let e = profile_outcome(&mut sh, ProfileOp::Load, Some(p), "Racing");
    assert_eq!(e, Effects { apply_visuals: true, refresh_profiles: true, ..none() });
    assert_eq!(sh.reply.message, "profile loaded: Racing");
    assert_eq!(sh.reply.profile_name, "Racing");
    let e = profile_outcome(&mut sh, ProfileOp::Load, None, "Nope");
    assert_eq!(e, none());
    assert_eq!(sh.reply.message, "profile not found: Nope");
    profile_outcome(&mut sh, ProfileOp::Rename, None, "profile already exists");
    assert_eq!(sh.reply.message, "rename profile failed: profile already exists");
    profile_outcome(&mut sh, ProfileOp::Delete, None, "cannot delete the last profile");
    assert_eq!(sh.reply.message, "delete profile failed: cannot delete the last profile");
    profile_outcome(&mut sh, ProfileOp::SaveAs, None, "disk full");
    assert_eq!(sh.reply.message, "save profile failed: disk full");
    let e = profile_outcome(&mut sh, ProfileOp::Reload, Some(Profile::default()), "");
    assert_eq!(e, Effects { apply_visuals: true, ..none() });
    assert_eq!(sh.reply.message, "save profile failed: disk full");
}

#[test]
fn publish_sorts_pressed_controls() {
    let mut sh = shared();
    publish(&mut sh, &vec![s("G2"), s("BTN_BASE"), s("G10")], 3, 4, true, "connected via hid-lg-g15");
    assert_eq!(sh.reply.pressed, vec![s("BTN_BASE"), s("G10"), s("G2")]);
    assert!(sh.reply.connected && sh.reply.ok);
    assert_eq!((sh.reply.x, sh.reply.y), (3, 4));
    assert_eq!(sh.reply.message, "connected via hid-lg-g15");
}

#[test]
fn empty_recording_leaves_profile_alone() {
    let mut sh = shared();
    let before = (sh.profile.bank().bindings.len(), sh.profile.bank().macros.len(), sh.profile.active_bank);
    assert_eq!(toggle_recording(&mut sh, 0), (true, false));
    assert_eq!(toggle_recording(&mut sh, 10), (false, true));
    let after = (sh.profile.bank().bindings.len(), sh.profile.bank().macros.len(), sh.profile.active_bank);
    assert_eq!(before, after);
    assert!(sh.rec_down.is_empty() && sh.rec_recent.is_empty() && sh.rec_last.is_none());
}

#[test]
fn previous_then_next_page_comes_back() {
    for page in 0..4u8 {
        let mut sh = shared();
        sh.profile.lcd_page = page;
        assert!(lcd_button(&mut sh, "KEY_KBD_LCD_MENU1"));
        assert!(lcd_button(&mut sh, "KEY_KBD_LCD_MENU5"));
        assert_eq!(sh.profile.lcd_page, page);
    }
}

#[test]
fn reply_reports_the_profile_after_every_request() {
    let mut sh = shared();
    let reqs = vec![
        Request::SetBank { bank: 2 },
        Request::SetLcdPage { page: 9 },
        Request::SetLcdEnabled { enabled: false },
        Request::SetColor { rgb: [9, 8, 7] },
        Request::SetBank { bank: 0 },
        Request::LcdRefresh,
    ];
    for req in reqs {
        handle_request(&mut sh, req, 5);
        assert_eq!(sh.reply.active_bank, sh.profile.active_bank);
        assert_eq!(sh.reply.lcd_page, sh.profile.lcd_page);
        assert_eq!(sh.reply.lcd_enabled, sh.profile.lcd_enabled);
        assert_eq!(sh.reply.profile_name, sh.profile.name);
    }
    assert_eq!((sh.profile.active_bank, sh.profile.lcd_page, sh.profile.lcd_enabled), (2, 1, false));
}

#[test]
fn stick_directions_settle_at_a_steady_position() {
    for dz in [0u8, 1, 2, 3, 4, 5, 15, 16, 38, 60, 127, 255] {
        for c in [0u8, 1, 100, 127, 254, 255] {
            for v in [0u8, 1, 50, 98, 99, 100, 101, 102, 126, 127, 128, 200, 255] {
                for held in [[false; 4], [true; 4], [true, false, true, false]] {
                    let once = direction_states(dz, c, c, v, v, held);
                    let twice = direction_states(dz, c, c, v, v, once);
                    assert_eq!(once, twice, "dz {dz} c {c} v {v}");
                }
            }
        }
    }
}

#[test]
fn setters_change_only_their_field() {
    let mut sh = shared();
    sh.profile.lcd_enabled = true;
    sh.profile.lcd_page = 2;
    sh.profile.joystick_center_x = Some(99);
    handle_request(&mut sh, Request::SetColor { rgb: [4, 5, 6] }, 0);
    assert_eq!((sh.profile.lcd_enabled, sh.profile.lcd_page, sh.profile.joystick_center_x), (true, 2, Some(99)));
    handle_request(&mut sh, Request::SetJoystickCenter { x: None, y: Some(3) }, 0);
    assert_eq!((sh.profile.color, sh.profile.deadzone, sh.profile.lcd_page), ([4, 5, 6], 38, 2));
    handle_request(&mut sh, Request::SetLcdPage { page: 1 }, 0);
    assert!(sh.profile.lcd_enabled);
    assert_eq!(sh.profile.lcd_image_path, "");
}
