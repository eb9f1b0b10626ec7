use g13_nexus::ipc::{command_request, default_axis_center, socket_path, Request};
use g13_nexus::leds::{brightness_on, full_brightness, rgb_intensity, set_bank, set_record, toggle_rgb, RGB};

#[test]
fn bank_leds_light_the_selected_bank() {
    let w = set_bank(2);
    assert_eq!(w.len(), 3);
    assert_eq!(w[0].path, "/sys/class/leds/g13:red:macro_preset_1/brightness");
    assert_eq!(w[0].value, "0\n");
    assert_eq!(w[1].path, "/sys/class/leds/g13:red:macro_preset_2/brightness");
    assert_eq!(w[1].value, "1\n");
    assert_eq!(w[2].value, "0\n");
    assert!(set_bank(0).iter().all(|x| x.value == "0\n"));
}

#[test]
fn record_led() {
    let w = set_record(true);
    assert_eq!(w.path, "/sys/class/leds/g13:red:macro_record/brightness");
    assert_eq!(w.value, "1\n");
    assert_eq!(set_record(false).value, "0\n");
}

#[test]
fn backlight_values() {
    assert_eq!(RGB, "/sys/class/leds/g13:rgb:kbd_backlight");
    assert_eq!(rgb_intensity([0, 168, 255]), "0 168 255\n");
    assert!(toggle_rgb("0\n"));
    assert!(!toggle_rgb(" 255 \n"));
    assert!(toggle_rgb("garbage"));
    assert!(toggle_rgb("4294967296"));
    assert!(!toggle_rgb("+1"));
    assert_eq!(brightness_on(" 255\n"), "255\n");
    assert_eq!(full_brightness("255\n"), "255");
}

#[test]
fn socket_location() {
    assert_eq!(socket_path(Some("/run/user/1000".to_string())), "/run/user/1000/g13-nexus.sock");
    assert_eq!(socket_path(None), "/tmp/g13-nexus.sock");
    assert_eq!(default_axis_center(), 127);
}

#[test]
fn command_line_requests() {
    assert!(matches!(command_request(Some("reload".to_string())), Request::Reload));
    assert!(matches!(command_request(Some("status".to_string())), Request::Status));
    assert!(matches!(command_request(Some("other".to_string())), Request::Status));
    assert!(matches!(command_request(None), Request::Status));
}
