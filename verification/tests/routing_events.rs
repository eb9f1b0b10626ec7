use g13_nexus::config::Profile;
use g13_nexus::daemon::{arm_record_target, recordable_control, start_recording, ControlAction, Shared};
use g13_nexus::labels::configurable;
use g13_nexus::input::{key_control, DeviceKind, InputEvent};
use g13_nexus::ipc::Reply;
use g13_nexus::routing::{
    add_pulse, axis_value, center_from, control_edge, device_event, expire_pulses, key_route,
    monitor_active, needs_rescan, pulse_ms, recorder_active, recorder_edge, visible_pressed,
    ControlEdge, DeviceEvent, KeyRoute,
};

fn s(x: &str) -> String {
    x.to_string()
}

fn shared() -> Shared {
    Shared {
        reply: Reply {
            ok: true,
            message: String::new(),
            connected: true,
            x: 127,
            y: 127,
            center_x: 127,
            center_y: 127,
            pressed: Vec::new(),
            active_bank: 1,
            recording: false,
            record_target: None,
            record_preview: Vec::new(),
            macro_targets: Vec::new(),
            lcd_ok: false,
            lcd_enabled: true,
            lcd_page: 0,
            profile_name: s("Default"),
            profiles: Vec::new(),
        },
        profile: Profile::default(),
        detected_center_x: 127,
        detected_center_y: 127,
        rec_last: None,
        rec_down: Vec::new(),
        rec_recent: Vec::new(),
    }
}

fn ev(type_: u16, code: u16, value: i32) -> InputEvent {
    InputEvent { sec: 0, usec: 0, type_, code, value }
}

#[test]
fn fixed_keys_route() {
    assert_eq!(key_route("KEY_MACRO_PRESET2", true), KeyRoute::Preset(2));
    assert_eq!(key_route("KEY_MACRO_PRESET2", false), KeyRoute::Ignore);
    assert_eq!(key_route("KEY_MACRO_RECORD_START", true), KeyRoute::RecordPressed);
    assert_eq!(key_route("KEY_MACRO_RECORD_START", false), KeyRoute::RecordReleased);
    assert_eq!(key_route("KEY_LIGHTS_TOGGLE", true), KeyRoute::LightsPressed);
    assert_eq!(key_route("KEY_LIGHTS_TOGGLE", false), KeyRoute::Ignore);
    assert_eq!(key_route("G1", false), KeyRoute::Control);
    assert_eq!(key_route("KEY_KBD_LCD_MENU2", true), KeyRoute::Control);
}

#[test]
fn unbound_lcd_key_runs_its_page_function() {
    let mut sh = shared();
    let mut pressed = Vec::new();
    match control_edge(&mut sh, &mut pressed, "KEY_KBD_LCD_MENU2", true) {
        ControlEdge::Menu { action, builtin } => {
            assert!(builtin);
            assert!(matches!(action, ControlAction::Nothing));
        }
        other => panic!("{other:?}"),
    }
    assert_eq!(sh.profile.lcd_page, 1);
    assert!(pressed.is_empty());
    match control_edge(&mut sh, &mut pressed, "KEY_KBD_LCD_MENU2", false) {
        ControlEdge::Menu { builtin, .. } => assert!(!builtin),
        other => panic!("{other:?}"),
    }
    assert_eq!(sh.profile.lcd_page, 1);
}

#[test]
fn bound_lcd_key_runs_its_binding() {
    let mut sh = shared();
    sh.profile.bank_mut().bindings.insert(s("KEY_KBD_LCD_MENU5"), s("KEY_M"));
    let mut pressed = Vec::new();
    match control_edge(&mut sh, &mut pressed, "KEY_KBD_LCD_MENU5", true) {
        ControlEdge::Menu { action: ControlAction::Press { action, down }, builtin } => {
            assert_eq!(action, "KEY_M");
            assert!(down && !builtin);
        }
        other => panic!("{other:?}"),
    }
    assert_eq!(sh.profile.lcd_page, 0);
    assert_eq!(pressed, vec![s("KEY_KBD_LCD_MENU5")]);
}

#[test]
fn waiting_recording_takes_the_pressed_control() {
    let mut sh = shared();
    start_recording(&mut sh);
    let mut pressed = Vec::new();
    assert!(matches!(control_edge(&mut sh, &mut pressed, "KEY_KBD_LCD_MENU1", true), ControlEdge::Armed));
    assert_eq!(sh.reply.record_target.as_deref(), Some("KEY_KBD_LCD_MENU1"));
    assert!(pressed.is_empty());
    assert!(!arm_record_target(&mut sh, "G2"));
    match control_edge(&mut sh, &mut pressed, "G2", true) {
        ControlEdge::Plain(ControlAction::Press { action, .. }) => assert_eq!(action, "KEY_F2"),
        other => panic!("{other:?}"),
    }
}

#[test]
fn device_events_classified() {
    match device_event(DeviceKind::Keypad, &ev(1, 0x290, 1), 10, 20) {
        DeviceEvent::Key { name, down } => assert_eq!((name.as_str(), down), ("G1", true)),
        other => panic!("{other:?}"),
    }
    match device_event(DeviceKind::Keypad, &ev(1, 0x121, 0), 10, 20) {
        DeviceEvent::Key { name, down } => assert_eq!((name.as_str(), down), ("BTN_THUMB", false)),
        other => panic!("{other:?}"),
    }
    assert!(matches!(device_event(DeviceKind::Keypad, &ev(1, 0x290, 2), 10, 20), DeviceEvent::Other));
    assert!(matches!(device_event(DeviceKind::Keypad, &ev(1, 30, 1), 10, 20), DeviceEvent::Other));
    assert!(matches!(device_event(DeviceKind::Keypad, &ev(3, 0, 50), 10, 20), DeviceEvent::Other));
    assert!(matches!(device_event(DeviceKind::Thumbstick, &ev(3, 0, 300), 10, 20), DeviceEvent::Stick { x: 255, y: 20 }));
    assert!(matches!(device_event(DeviceKind::Thumbstick, &ev(3, 1, -4), 10, 20), DeviceEvent::Stick { x: 10, y: 0 }));
    assert!(matches!(device_event(DeviceKind::Thumbstick, &ev(3, 5, 99), 10, 20), DeviceEvent::Stick { x: 10, y: 20 }));
    assert!(matches!(device_event(DeviceKind::Thumbstick, &ev(0, 0, 0), 10, 20), DeviceEvent::Other));
}

#[test]
fn axis_and_center_values() {
    assert_eq!(axis_value(-1), 0);
    assert_eq!(axis_value(128), 128);
    assert_eq!(axis_value(1000), 255);
    assert_eq!(center_from(Some(131)), 131);
    assert_eq!(center_from(Some(-7)), 0);
    assert_eq!(center_from(None), 127);
}

#[test]
fn recorder_takes_named_key_edges() {
    assert_eq!(recorder_edge(&ev(1, 30, 1)), Some((s("KEY_A"), true)));
    assert_eq!(recorder_edge(&ev(1, 30, 0)), Some((s("KEY_A"), false)));
    assert_eq!(recorder_edge(&ev(1, 30, 2)), None);
    assert_eq!(recorder_edge(&ev(1, 500, 1)), None);
    assert_eq!(recorder_edge(&ev(4, 30, 1)), None);
    let mut sh = shared();
    assert!(!recorder_active(&sh));
    start_recording(&mut sh);
    assert!(!recorder_active(&sh));
    assert!(arm_record_target(&mut sh, "G1"));
    assert!(recorder_active(&sh));
    assert!(needs_rescan(false, 0));
    assert!(!needs_rescan(true, 1999));
    assert!(needs_rescan(true, 2000));
}

#[test]
fn lcd_monitor_follows_input_on_page_two() {
    let mut sh = shared();
    assert!(!monitor_active(&sh));
    sh.profile.lcd_page = 2;
    assert!(monitor_active(&sh));
    sh.profile.lcd_enabled = false;
    assert!(!monitor_active(&sh));
}

#[test]
fn key_pulses_show_for_a_moment() {
    assert_eq!(pulse_ms("KEY_KBD_LCD_MENU5"), 320);
    assert_eq!(pulse_ms("KEY_MACRO_PRESET1"), 220);
    let mut pulses: Vec<(String, u64)> = Vec::new();
    add_pulse(&mut pulses, "KEY_MACRO_PRESET1", 100);
    add_pulse(&mut pulses, "KEY_KBD_LCD_MENU5", 150);
    add_pulse(&mut pulses, "KEY_MACRO_PRESET1", 300);
    assert_eq!(pulses.len(), 2);
    assert!(pulses.contains(&(s("KEY_MACRO_PRESET1"), 300)));
    let vis = visible_pressed(&vec![s("G1"), s("KEY_KBD_LCD_MENU5")], &pulses);
    assert_eq!(vis.len(), 3);
    assert!(vis.contains(&s("KEY_MACRO_PRESET1")));
    expire_pulses(&mut pulses, 150);
    assert_eq!(pulses, vec![(s("KEY_MACRO_PRESET1"), 300)]);
    expire_pulses(&mut pulses, 300);
    assert!(pulses.is_empty());
}

#[test]
fn every_programmable_control_can_hold_a_macro() {
    let mut programmable = 0;
    for code in 0u16..=0x300 {
        if let Some(name) = key_control(code) {
            if key_route(&name, true) == KeyRoute::Control {
                assert!(recordable_control(&name), "{name}");
                programmable += 1;
            }
            if recordable_control(&name) {
                assert!(configurable(&name), "{name}");
            }
        }
    }
    assert_eq!(programmable, 22 + 5 + 3);
}
