use g13_nexus::config::{
    active_name_from, delete_plan, dir, dir_in, first_or_default, initial_profile, join_path,
    list_profiles, migrate_binding_alias, profile_path, profiles_dir, rename_plan,
    safe_file_name, active_path, legacy_path, Bank, LcdAlign, MacroStep, Profile, StoreError,
};
use g13_nexus::strmap::StrMap;

fn s(x: &str) -> String {
    x.to_string()
}

fn binding(p: &Profile, bank: usize, key: &str) -> Option<String> {
    p.banks[bank].bindings.get(key).cloned()
}

#[test]
fn default_profile_bindings() {
    let p = Profile::default();
    assert_eq!(p.name, "Default");
    assert_eq!(p.color, [0, 168, 255]);
    assert_eq!(p.deadzone, 38);
    assert_eq!(p.active_bank, 1);
    assert_eq!(p.joystick_center_x, None);
    for b in 0..3 {
        assert_eq!(binding(&p, b, "G1"), Some(s("KEY_F1")));
        assert_eq!(binding(&p, b, "G12"), Some(s("KEY_F12")));
        assert_eq!(binding(&p, b, "G13"), Some(s("KEY_F1")));
        assert_eq!(binding(&p, b, "G22"), Some(s("KEY_F10")));
        assert_eq!(binding(&p, b, "ABS_Y-"), Some(s("KEY_W")));
        assert_eq!(binding(&p, b, "ABS_X+"), Some(s("KEY_D")));
        assert_eq!(binding(&p, b, "BTN_BASE"), Some(s("KEY_LEFTCTRL")));
        assert_eq!(binding(&p, b, "BTN_BASE2"), Some(s("KEY_SPACE")));
        assert_eq!(binding(&p, b, "BTN_THUMB"), Some(s("KEY_ENTER")));
        assert_eq!(p.banks[b].bindings.len(), 29);
        assert_eq!(p.banks[b].macros.len(), 0);
    }
    assert!(p.lcd_enabled);
    assert_eq!(p.lcd_page, 0);
    assert_eq!(p.lcd_lines, [s("G13 NEXUS"), s("Custom LCD page"), s(""), s("")]);
    assert_eq!(p.lcd_align, [LcdAlign::Left; 4]);
    assert_eq!(LcdAlign::default(), LcdAlign::Left);
}

#[test]
fn bank_selection_clamps() {
    let mut p = Profile::default();
    p.banks[2].bindings.insert(s("G1"), s("KEY_X"));
    p.active_bank = 9;
    assert_eq!(p.bank().bindings.get("G1"), Some(&s("KEY_X")));
    p.active_bank = 0;
    assert_eq!(p.bank().bindings.get("G1"), Some(&s("KEY_F1")));
    p.bank_mut().bindings.insert(s("G2"), s("KEY_Y"));
    assert_eq!(binding(&p, 0, "G2"), Some(s("KEY_Y")));
    assert_eq!(binding(&p, 1, "G2"), Some(s("KEY_F2")));
}

#[test]
fn normalize_clamps_and_migrates() {
    let mut p = Profile::default();
    p.active_bank = 0;
    p.lcd_page = 6;
    p.lcd_text = s("hello");
    p.banks[0].bindings.insert(s("THUMB_LEFT"), s("KEY_Q"));
    p.banks[0].bindings.remove("BTN_BASE");
    p.banks[1].bindings.insert(s("STICK_UP"), s("KEY_Z"));
    p.banks[1].bindings.insert(s("THUMB_BOTTOM"), s("KEY_1"));
    p.banks[2].macros.insert(s("STICK_CLICK"), vec![MacroStep { key: s("KEY_A"), down: true, delay_ms: 0 }]);
    p.normalize();
    assert_eq!(p.active_bank, 1);
    assert_eq!(p.lcd_page, 2);
    assert_eq!(p.lcd_lines[0], "hello");
    assert_eq!(p.lcd_text, "");
    assert_eq!(binding(&p, 0, "BTN_BASE"), Some(s("KEY_Q")));
    assert_eq!(binding(&p, 0, "THUMB_LEFT"), None);
    // An existing new name wins over the old one.
    assert_eq!(binding(&p, 1, "ABS_Y-"), Some(s("KEY_W")));
    assert_eq!(binding(&p, 1, "STICK_UP"), None);
    assert_eq!(binding(&p, 1, "THUMB_BOTTOM"), None);
    assert!(p.banks[2].macros.contains_key("BTN_THUMB"));
    assert!(!p.banks[2].macros.contains_key("STICK_CLICK"));
    let mut q = Profile::default();
    q.active_bank = 200;
    q.normalize();
    assert_eq!(q.active_bank, 3);
}

#[test]
fn normalize_keeps_custom_first_line() {
    let mut p = Profile::default();
    p.lcd_lines[0] = s("MINE");
    p.lcd_text = s("old text");
    p.normalize();
    assert_eq!(p.lcd_lines[0], "MINE");
    assert_eq!(p.lcd_text, "old text");
    let mut q = Profile::default();
    q.lcd_text = s("  \t");
    q.normalize();
    assert_eq!(q.lcd_lines[0], "G13 NEXUS");
}

#[test]
fn normalize_twice_changes_nothing() {
    let mut p = Profile::default();
    p.lcd_page = 7;
    p.lcd_text = s("x");
    p.banks[1].bindings.insert(s("STICK_LEFT"), s("KEY_J"));
    p.banks[1].bindings.remove("ABS_X-");
    p.normalize();
    let once = (p.active_bank, p.lcd_page, p.lcd_lines.clone(), p.lcd_text.clone(), binding(&p, 1, "ABS_X-"), p.banks[1].bindings.len());
    p.normalize();
    let twice = (p.active_bank, p.lcd_page, p.lcd_lines.clone(), p.lcd_text.clone(), binding(&p, 1, "ABS_X-"), p.banks[1].bindings.len());
    assert_eq!(once, twice);
    assert_eq!(once.4, Some(s("KEY_J")));
}

#[test]
fn migrate_alias_moves_and_drops() {
    let mut b = Bank::new();
    b.bindings.insert(s("OLD"), s("KEY_A"));
    migrate_binding_alias(&mut b, "OLD", "NEW");
    assert_eq!(b.bindings.get("NEW"), Some(&s("KEY_A")));
    assert!(!b.bindings.contains_key("OLD"));
    b.bindings.insert(s("OLD"), s("KEY_B"));
    migrate_binding_alias(&mut b, "OLD", "NEW");
    assert_eq!(b.bindings.get("NEW"), Some(&s("KEY_A")));
    assert!(!b.bindings.contains_key("OLD"));
    migrate_binding_alias(&mut b, "GONE", "OTHER");
    assert_eq!(b.bindings.len(), 1);
}

#[test]
fn safe_file_names() {
    assert_eq!(safe_file_name("  My Profile!! "), "My Profile");
    assert_eq!(safe_file_name("../etc/passwd"), "etcpasswd");
    assert_eq!(safe_file_name(""), "Default");
    assert_eq!(safe_file_name("...."), "Default");
    assert_eq!(safe_file_name("émoji ✓ name"), "moji  name");
    assert_eq!(safe_file_name(&"a".repeat(100)), "a".repeat(80));
    assert_eq!(safe_file_name("x.y-z_w"), "x.y-z_w");
}

#[test]
fn clean_names_are_kept_and_unclean_ones_change_again() {
    for n in ["Default", "Gaming", "a.b", "x y", "ab"] {
        assert_eq!(safe_file_name(n), n);
        assert_eq!(safe_file_name(&safe_file_name(n)), safe_file_name(n));
    }
    // A dot stripped at the end can leave a space behind.
    assert_eq!(safe_file_name("a ."), "a ");
    assert_eq!(safe_file_name(&safe_file_name("a .")), "a");
}

#[test]
fn store_paths() {
    assert_eq!(dir_in(Some(s("/home/u/.config"))), "/home/u/.config/g13-nexus");
    assert_eq!(dir_in(Some(s("/home/u/.config/"))), "/home/u/.config/g13-nexus");
    assert_eq!(dir_in(None), "./g13-nexus");
    assert!(dir().ends_with("/g13-nexus"));
    let d = "/home/u/.config/g13-nexus";
    assert_eq!(profiles_dir(d), "/home/u/.config/g13-nexus/profiles");
    assert_eq!(active_path(d), "/home/u/.config/g13-nexus/active-profile");
    assert_eq!(legacy_path(d), "/home/u/.config/g13-nexus/profile.json");
    assert_eq!(profile_path(d, " Race Car! "), "/home/u/.config/g13-nexus/profiles/Race Car.json");
    assert_eq!(join_path("", "x"), "x");
}

#[test]
fn active_name_defaults() {
    assert_eq!(active_name_from(Some(s("  Racing \n"))), "Racing");
    assert_eq!(active_name_from(Some(s(" \n"))), "Default");
    assert_eq!(active_name_from(None), "Default");
}

#[test]
fn rename_plans() {
    assert_eq!(rename_plan("Racing", " Racing ", true), Ok((s("Racing"), false)));
    assert_eq!(rename_plan("Racing", "Flight", false), Ok((s("Flight"), true)));
    assert_eq!(rename_plan("Racing", "Flight", true), Err(StoreError::AlreadyExists));
}

#[test]
fn delete_plans() {
    assert_eq!(delete_plan("A", &vec![s("A")]), Err(StoreError::LastProfile));
    assert_eq!(delete_plan("A", &Vec::new()), Err(StoreError::LastProfile));
    assert_eq!(delete_plan("A", &vec![s("A"), s("B"), s("C")]), Ok(s("B")));
    assert_eq!(delete_plan("B", &vec![s("A"), s("B")]), Ok(s("A")));
}

#[test]
fn store_error_messages() {
    assert_eq!(StoreError::AlreadyExists.message(), "profile already exists");
    assert_eq!(StoreError::LastProfile.message(), "cannot delete the last profile");
    assert_eq!(StoreError::SavedProfileMissing.message(), "saved profile missing");
    assert_eq!(StoreError::NextProfileMissing.message(), "next profile missing");
}

#[test]
fn profile_list_order() {
    let files = vec![
        s("b.json"), s("A.json"), s("x.txt"), s(".json"), s("c.JSON"), s("a.json"), s("d.e.json"),
    ];
    assert_eq!(list_profiles(&files), vec![s("A"), s("a"), s("b"), s("d.e")]);
    assert_eq!(list_profiles(&Vec::new()), Vec::<String>::new());
}

#[test]
fn legacy_profiles_get_three_banks() {
    let mut m = StrMap::new();
    m.insert(s("G1"), s("KEY_Q"));
    m.insert(s("STICK_UP"), s("KEY_W"));
    let p = Profile::from_legacy(s("Old"), [1, 2, 3], 10, m);
    assert_eq!(p.name, "Old");
    assert_eq!(p.color, [1, 2, 3]);
    assert_eq!(p.deadzone, 10);
    assert_eq!(p.active_bank, 1);
    for b in 0..3 {
        assert_eq!(binding(&p, b, "G1"), Some(s("KEY_Q")));
        assert_eq!(binding(&p, b, "ABS_Y-"), Some(s("KEY_W")));
        assert_eq!(binding(&p, b, "STICK_UP"), None);
        assert_eq!(p.banks[b].macros.len(), 0);
    }
    assert_eq!(p.lcd_lines[1], "Custom LCD page");
}

#[test]
fn initial_and_first_profiles() {
    let d = initial_profile(None);
    assert_eq!(d.name, "Default");
    let mut q = Profile::default();
    q.name = s("  ");
    q.deadzone = 5;
    let r = initial_profile(Some(q));
    assert_eq!(r.name, "Default");
    assert_eq!(r.deadzone, 5);
    let mut k = Profile::default();
    k.name = s("Keep");
    assert_eq!(initial_profile(Some(k)).name, "Keep");
    assert_eq!(first_or_default(&vec![s("B"), s("A")]), "B");
    assert_eq!(first_or_default(&Vec::new()), "Default");
}

#[test]
fn saved_form_is_named_and_normalized() {
    let mut p = Profile::default();
    p.lcd_page = 5;
    p.prepare_for_save("../Race");
    assert_eq!(p.name, "Race");
    assert_eq!(p.lcd_page, 1);
    p.set_file_name("  Fly!  ");
    assert_eq!(p.name, "Fly");
}

fn edited() -> Profile {
    let mut p = Profile::default();
    p.active_bank = 9;
    p.lcd_page = 6;
    p.lcd_text = s("HELLO");
    p.banks[2].bindings.remove("ABS_Y-");
    p.banks[2].bindings.insert(s("STICK_UP"), s("KEY_W"));
    p
}

#[test]
fn save_then_load_gives_the_saved_profile() {
    let mut saved = edited();
    saved.prepare_for_save(" Race/Car ");
    // Reading a stored profile normalizes it, then names it by its file.
    let mut loaded = edited();
    loaded.prepare_for_save(" Race/Car ");
    loaded.normalize();
    loaded.set_file_name(" Race/Car ");
    assert_eq!(loaded.name, saved.name);
    assert_eq!(loaded.name, "RaceCar");
    assert_eq!((loaded.active_bank, loaded.lcd_page), (3, 2));
    assert_eq!((saved.active_bank, saved.lcd_page), (3, 2));
    assert_eq!(loaded.lcd_lines, saved.lcd_lines);
    assert_eq!(loaded.lcd_lines[0], "HELLO");
    assert_eq!(loaded.lcd_text, saved.lcd_text);
    for b in 0..3 {
        assert_eq!(loaded.banks[b].bindings.len(), saved.banks[b].bindings.len());
        assert_eq!(binding(&loaded, b, "ABS_Y-"), binding(&saved, b, "ABS_Y-"));
    }
    assert_eq!(binding(&loaded, 2, "ABS_Y-"), Some(s("KEY_W")));
}

#[test]
fn default_banks_hold_twenty_nine_bindings() {
    let p = Profile::default();
    for b in 0..3 {
        assert_eq!(p.banks[b].bindings.len(), 29);
        assert_eq!(p.banks[b].macros.len(), 0);
    }
}

#[test]
fn profile_files_stay_in_the_profiles_directory() {
    for name in ["../../etc/passwd", "/abs/path", "a/b", "..", ".", "", "ok name"] {
        let path = profile_path("/cfg/g13-nexus", name);
        let file = path.strip_prefix("/cfg/g13-nexus/profiles/").expect(&path);
        assert!(!file.contains('/'), "{path}");
        assert!(!file.starts_with('.'), "{path}");
        assert!(file.ends_with(".json"));
    }
}
