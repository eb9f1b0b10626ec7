//! Where each event of the G13 goes while it is connected: which key edges
//! switch banks, record or toggle the backlight, which reach the bindings,
//! how the stick moves, and which keys of other keyboards a recording
//! takes.
use vstd::prelude::*;
use crate::daemon::{
    spec_recordable,
    can_arm, arm_effect, control_effect, lcd_key_effect, set_control, arm_record_target,
    lcd_button, has_mapping, spec_has_mapping, ControlAction, Shared,
};
use crate::input::{
    key_control, lemma_m_key_names, spec_key_control, DeviceKind, InputEvent, ABS_X, ABS_Y, EV_ABS, EV_KEY,
};
use crate::text::{decimal, digit, digits_value, lemma_small_decimal, parse_unsigned, unsigned_body, all_digits, chars_eq, chars_of, contains_chars, has_prefix, starts_with, str_eq, views};
use crate::uinput::{keyname, spec_keyname};

verus! {

/// What a key edge of the G13 does before the shared state is looked at.
#[derive(Debug, Clone, Copy, PartialEq, Eq, Structural)]
pub enum KeyRoute {
    /// An M key went down: switch to this bank.
    Preset(u8),
    /// MR went down: only shown.
    RecordPressed,
    /// MR went up: start or end the recording.
    RecordReleased,
    /// The lighting key went down: backlight on or off.
    LightsPressed,
    /// An M key or the lighting key went up: nothing.
    Ignore,
    /// Any other control: see `control_edge`.
    Control,
}

pub open spec fn spec_key_route(name: Seq<char>, down: bool) -> KeyRoute {
    if name == "KEY_MACRO_PRESET1"@ {
        if down { KeyRoute::Preset(1) } else { KeyRoute::Ignore }
    } else if name == "KEY_MACRO_PRESET2"@ {
        if down { KeyRoute::Preset(2) } else { KeyRoute::Ignore }
    } else if name == "KEY_MACRO_PRESET3"@ {
        if down { KeyRoute::Preset(3) } else { KeyRoute::Ignore }
    } else if name == "KEY_MACRO_RECORD_START"@ {
        if down { KeyRoute::RecordPressed } else { KeyRoute::RecordReleased }
    } else if name == "KEY_LIGHTS_TOGGLE"@ {
        if down { KeyRoute::LightsPressed } else { KeyRoute::Ignore }
    } else {
        KeyRoute::Control
    }
}

/// The route of a key edge of control `name`. The M keys, MR and the
/// lighting key keep their fixed meaning and are never bound; MR acts on
/// its release, so one press gives one toggle.
pub fn key_route(name: &str, down: bool) -> (r: KeyRoute)
    ensures
        r == spec_key_route(name@, down),
{
    if str_eq(name, "KEY_MACRO_PRESET1") {
        if down { KeyRoute::Preset(1) } else { KeyRoute::Ignore }
    } else if str_eq(name, "KEY_MACRO_PRESET2") {
        if down { KeyRoute::Preset(2) } else { KeyRoute::Ignore }
    } else if str_eq(name, "KEY_MACRO_PRESET3") {
        if down { KeyRoute::Preset(3) } else { KeyRoute::Ignore }
    } else if str_eq(name, "KEY_MACRO_RECORD_START") {
        if down { KeyRoute::RecordPressed } else { KeyRoute::RecordReleased }
    } else if str_eq(name, "KEY_LIGHTS_TOGGLE") {
        if down { KeyRoute::LightsPressed } else { KeyRoute::Ignore }
    } else {
        KeyRoute::Control
    }
}

/// M`k` going down selects bank `k`, for each of the three M keys; their
/// release does nothing.
pub proof fn lemma_m_keys_select_their_bank(k: int)
    requires
        1 <= k <= 3,
    ensures
        spec_key_route("KEY_MACRO_PRESET"@ + seq![digit(k)], true) == KeyRoute::Preset(k as u8),
        spec_key_route("KEY_MACRO_PRESET"@ + seq![digit(k)], false) == KeyRoute::Ignore,
{
    reveal_strlit("KEY_MACRO_PRESET");
    reveal_strlit("KEY_MACRO_PRESET1");
    reveal_strlit("KEY_MACRO_PRESET2");
    reveal_strlit("KEY_MACRO_PRESET3");
    let n = "KEY_MACRO_PRESET"@ + seq![digit(k)];
    if k == 1 {
        assert(n =~= "KEY_MACRO_PRESET1"@);
    } else if k == 2 {
        assert(n =~= "KEY_MACRO_PRESET2"@);
        assert(n[16] != "KEY_MACRO_PRESET1"@[16]);
    } else {
        assert(n =~= "KEY_MACRO_PRESET3"@);
        assert(n[16] != "KEY_MACRO_PRESET1"@[16]);
        assert(n[16] != "KEY_MACRO_PRESET2"@[16]);
    }
}

/// Pressing the M key with evdev code 0x2b2 + `k` switches to bank `k`.
pub proof fn lemma_m_key_code_selects_bank(k: int)
    requires
        1 <= k <= 3,
    ensures
        spec_key_control((0x2b2 + k) as u16) is Some,
        spec_key_route(spec_key_control((0x2b2 + k) as u16)->0, true) == KeyRoute::Preset(k as u8),
{
    lemma_m_key_names(k);
    lemma_m_keys_select_their_bank(k);
}

/// MR records on its release and only shows its press; the lighting key
/// toggles the backlight when pressed; every other control goes to its
/// binding or macro.
pub proof fn lemma_fixed_key_routes(name: Seq<char>, down: bool)
    ensures
        spec_key_route("KEY_MACRO_RECORD_START"@, true) == KeyRoute::RecordPressed,
        spec_key_route("KEY_MACRO_RECORD_START"@, false) == KeyRoute::RecordReleased,
        spec_key_route("KEY_LIGHTS_TOGGLE"@, true) == KeyRoute::LightsPressed,
        spec_key_route("KEY_LIGHTS_TOGGLE"@, false) == KeyRoute::Ignore,
        name != "KEY_MACRO_PRESET1"@ && name != "KEY_MACRO_PRESET2"@ && name
            != "KEY_MACRO_PRESET3"@ && name != "KEY_MACRO_RECORD_START"@ && name
            != "KEY_LIGHTS_TOGGLE"@ ==> spec_key_route(name, down) == KeyRoute::Control,
{
    reveal_strlit("KEY_MACRO_PRESET1");
    reveal_strlit("KEY_MACRO_PRESET2");
    reveal_strlit("KEY_MACRO_PRESET3");
    reveal_strlit("KEY_MACRO_RECORD_START");
    reveal_strlit("KEY_LIGHTS_TOGGLE");
    assert("KEY_MACRO_RECORD_START"@.len() != "KEY_MACRO_PRESET1"@.len());
    assert("KEY_LIGHTS_TOGGLE"@[4] != "KEY_MACRO_PRESET1"@[4]);
    assert("KEY_LIGHTS_TOGGLE"@[4] != "KEY_MACRO_PRESET2"@[4]);
    assert("KEY_LIGHTS_TOGGLE"@[4] != "KEY_MACRO_PRESET3"@[4]);
    assert("KEY_LIGHTS_TOGGLE"@.len() != "KEY_MACRO_RECORD_START"@.len());
}

/// Whether `name` is one of the LCD keys.
pub open spec fn is_lcd_key(name: Seq<char>) -> bool {
    has_prefix(name, "KEY_KBD_LCD_MENU"@)
}

/// What a key edge of a programmable control came to.
#[derive(Debug)]
pub enum ControlEdge {
    /// The control became the destination of the recording; it is shown
    /// for a moment.
    Armed,
    /// An LCD key: shown for a moment where it went down; what its binding
    /// sends where it has one, else whether its built-in function ran.
    Menu { action: ControlAction, builtin: bool },
    /// Any other control: what its binding sends.
    Plain(ControlAction),
}

/// A programmable control went down or up. Pressed while a recording waits
/// for its destination, it becomes that destination. An LCD key then runs
/// its binding if the active bank has one, else its built-in function on
/// the press. Any other control runs its binding.
pub fn control_edge(sh: &mut Shared, pressed: &mut Vec<String>, name: &str, down: bool) -> (r:
    ControlEdge)
    requires
        old(sh).wf(),
        views(old(pressed)@).no_duplicates(),
        is_lcd_key(name@) ==> old(sh).profile.lcd_page <= 252,
    ensures
        final(sh).wf(),
        views(final(pressed)@).no_duplicates(),
        match r {
            ControlEdge::Armed => down && can_arm(*old(sh), name@) && arm_effect(
                *final(sh),
                *old(sh),
                name@,
            ) && final(pressed)@ == old(pressed)@,
            ControlEdge::Menu { action, builtin } => {
                &&& !(down && can_arm(*old(sh), name@))
                &&& is_lcd_key(name@)
                &&& if spec_has_mapping(*old(sh), name@) {
                    &&& !builtin
                    &&& control_effect(
                        *final(sh),
                        *old(sh),
                        final(pressed)@,
                        old(pressed)@,
                        name@,
                        down,
                        action,
                    )
                } else {
                    &&& action is Nothing
                    &&& final(pressed)@ == old(pressed)@
                    &&& if down {
                        lcd_key_effect(*final(sh), *old(sh), name@, builtin)
                    } else {
                        !builtin && *final(sh) == *old(sh)
                    }
                }
            },
            ControlEdge::Plain(action) => {
                &&& !(down && can_arm(*old(sh), name@))
                &&& !is_lcd_key(name@)
                &&& control_effect(
                    *final(sh),
                    *old(sh),
                    final(pressed)@,
                    old(pressed)@,
                    name@,
                    down,
                    action,
                )
            },
        },
{
    if down && arm_record_target(sh, name) {
        return ControlEdge::Armed;
    }
    if starts_with(name, "KEY_KBD_LCD_MENU") {
        if has_mapping(sh, name) {
            let action = set_control(sh, pressed, name, down);
            ControlEdge::Menu { action, builtin: false }
        } else if down {
            let builtin = lcd_button(sh, name);
            ControlEdge::Menu { action: ControlAction::Nothing, builtin }
        } else {
            ControlEdge::Menu { action: ControlAction::Nothing, builtin: false }
        }
    } else {
        let action = set_control(sh, pressed, name, down);
        ControlEdge::Plain(action)
    }
}

/// Whether a control edge shows its key for a moment: the control became
/// the recording's destination, or an LCD key went down.
pub fn edge_pulses(edge: &ControlEdge, down: bool) -> (r: bool)
    ensures
        r == match edge {
            ControlEdge::Armed => true,
            ControlEdge::Menu { .. } => down,
            ControlEdge::Plain(_) => false,
        },
{
    match edge {
        ControlEdge::Armed => true,
        ControlEdge::Menu { .. } => down,
        ControlEdge::Plain(_) => false,
    }
}

/// How long a key of the G13 stays shown after a press that the pressed
/// set does not hold: longer for the round next-page key.
pub open spec fn spec_pulse_ms(name: Seq<char>) -> u64 {
    if name == "KEY_KBD_LCD_MENU5"@ {
        320
    } else {
        220
    }
}

pub fn pulse_ms(name: &str) -> (r: u64)
    ensures
        r == spec_pulse_ms(name@),
{
    if str_eq(name, "KEY_KBD_LCD_MENU5") {
        320
    } else {
        220
    }
}

/// A stick reading as the daemon keeps it: clamped to 0..=255.
pub open spec fn axis(v: i32) -> u8 {
    if v < 0 {
        0
    } else if v > 255 {
        255
    } else {
        v as u8
    }
}

pub fn axis_value(v: i32) -> (r: u8)
    ensures
        r == axis(v),
{
    if v < 0 {
        0
    } else if v > 255 {
        255
    } else {
        v as u8
    }
}

/// The stick's resting position on one axis as the device reports it, or
/// the nominal center 127 where it could not be read.
pub fn center_from(v: Option<i32>) -> (r: u8)
    ensures
        r == match v {
            Some(x) => axis(x),
            None => 127,
        },
{
    match v {
        Some(x) => axis_value(x),
        None => 127,
    }
}

/// An event of one of the G13's devices, as the daemon acts on it.
#[derive(Debug)]
pub enum DeviceEvent {
    /// A key edge of a named control (autorepeat left out).
    Key { name: String, down: bool },
    /// The stick's position after an axis event of the thumbstick.
    Stick { x: u8, y: u8 },
    /// Nothing for the daemon.
    Other,
}

/// Whether an event is a key press or release, not an autorepeat.
pub open spec fn is_key_edge(ev: InputEvent) -> bool {
    ev.type_ == EV_KEY && ev.value != 2
}

/// The stick position `(x, y)` after an axis event.
pub open spec fn moved(ev: InputEvent, x: u8, y: u8) -> (u8, u8) {
    if ev.code == ABS_X {
        (axis(ev.value), y)
    } else if ev.code == ABS_Y {
        (x, axis(ev.value))
    } else {
        (x, y)
    }
}

/// What an event read from the G13's `kind` device is, given the stick's
/// position `(x, y)` before it.
pub fn device_event(kind: DeviceKind, ev: &InputEvent, x: u8, y: u8) -> (r: DeviceEvent)
    ensures
        match r {
            DeviceEvent::Key { name, down } => is_key_edge(*ev) && spec_key_control(ev.code) == Some(
                name@,
            ) && down == (ev.value != 0),
            DeviceEvent::Stick { x: nx, y: ny } => !is_key_edge(*ev) && kind
                == DeviceKind::Thumbstick && ev.type_ == EV_ABS && (nx, ny) == moved(*ev, x, y),
            DeviceEvent::Other => (is_key_edge(*ev) && spec_key_control(ev.code) is None) || (
            !is_key_edge(*ev) && !(kind == DeviceKind::Thumbstick && ev.type_ == EV_ABS)),
        },
{
    if ev.type_ == EV_KEY && ev.value != 2 {
        match key_control(ev.code) {
            Some(name) => DeviceEvent::Key { name, down: ev.value != 0 },
            None => DeviceEvent::Other,
        }
    } else if kind == DeviceKind::Thumbstick && ev.type_ == EV_ABS {
        if ev.code == ABS_X {
            DeviceEvent::Stick { x: axis_value(ev.value), y }
        } else if ev.code == ABS_Y {
            DeviceEvent::Stick { x, y: axis_value(ev.value) }
        } else {
            DeviceEvent::Stick { x, y }
        }
    } else {
        DeviceEvent::Other
    }
}

/// A key edge of another keyboard that a recording takes: its key name and
/// whether it went down. Autorepeats and keys without a name are left out.
pub fn recorder_edge(ev: &InputEvent) -> (r: Option<(String, bool)>)
    ensures
        match r {
            Some((name, down)) => is_key_edge(*ev) && spec_keyname(ev.code) == Some(name@) && down
                == (ev.value != 0),
            None => !is_key_edge(*ev) || spec_keyname(ev.code) is None,
        },
{
    if ev.type_ != EV_KEY || ev.value == 2 {
        return None;
    }
    match keyname(ev.code) {
        Some(n) => Some((String::from_str(n), ev.value != 0)),
        None => None,
    }
}

/// Whether the recorder listens to other keyboards: a recording has its
/// destination.
pub fn recorder_active(sh: &Shared) -> (r: bool)
    ensures
        r == (sh.reply.recording && sh.reply.record_target is Some),
{
    sh.reply.recording && sh.reply.record_target.is_some()
}

/// Whether the recorder looks for keyboards again: when it starts
/// listening, and every two seconds while it listens.
pub fn needs_rescan(listening_before: bool, since_scan_ms: u64) -> (r: bool)
    ensures
        r == (!listening_before || since_scan_ms >= 2000),
{
    !listening_before || since_scan_ms >= 2000
}

/// Whether the LCD follows the input: it is on and shows the input monitor
/// page.
pub fn monitor_active(sh: &Shared) -> (r: bool)
    ensures
        r == (sh.profile.lcd_enabled && sh.profile.lcd_page == 2),
{
    sh.profile.lcd_enabled && sh.profile.lcd_page == 2
}

/// The names of the keys shown for a moment.
pub open spec fn pulse_names(v: Seq<(String, u64)>) -> Seq<Seq<char>> {
    v.map_values(|p: (String, u64)| p.0@)
}

/// Whether `v` shows `name` until time `t`.
pub open spec fn shows(v: Seq<(String, u64)>, name: Seq<char>, t: u64) -> bool {
    exists|i: int| 0 <= i < v.len() && (#[trigger] v[i]).0@ == name && v[i].1 == t
}

/// Shows `name` until `until`, in place of any earlier time for it.
pub fn add_pulse(v: &mut Vec<(String, u64)>, name: &str, until: u64)
    requires
        pulse_names(old(v)@).no_duplicates(),
    ensures
        pulse_names(final(v)@).no_duplicates(),
        forall|k: Seq<char>, t: u64|
            #[trigger] shows(final(v)@, k, t) <==> (k == name@ && t == until) || (k != name@
                && shows(old(v)@, k, t)),
{
    let ghost ov = v@;
    let key = chars_of(name);
    let mut out: Vec<(String, u64)> = Vec::new();
    let mut i: usize = 0;
    while i < v.len()
        invariant
            i <= ov.len(),
            v@ == ov,
            key@ == name@,
            pulse_names(ov).no_duplicates(),
            pulse_names(out@).no_duplicates(),
            forall|j: int| 0 <= j < out@.len() ==> exists|m: int| 0 <= m < i && #[trigger] out@[j] == ov[m],
            forall|j: int| 0 <= j < out@.len() ==> (#[trigger] out@[j]).0@ != name@,
            forall|m: int| 0 <= m < i && (#[trigger] ov[m]).0@ != name@ ==> exists|j: int|
                0 <= j < out@.len() && out@[j] == ov[m],
        decreases ov.len() - i,
    {
        if !chars_eq(&chars_of(v[i].0.as_str()), &key) {
            let ghost o0 = out@;
            out.push((v[i].0.clone(), v[i].1));
            proof {
                assert(out@[o0.len() as int] == ov[i as int]);
                assert(pulse_names(out@) =~= pulse_names(o0).push(ov[i as int].0@));
                assert(!pulse_names(o0).contains(ov[i as int].0@)) by {
                    if pulse_names(o0).contains(ov[i as int].0@) {
                        let j = choose|j: int| 0 <= j < o0.len() && pulse_names(o0)[j] == ov[i as int].0@;
                        assert(o0[j] == out@[j]);
                        let m = choose|m: int| 0 <= m < i && out@[j] == ov[m];
                        assert(pulse_names(ov)[m] == pulse_names(ov)[i as int]);
                    }
                }
                assert forall|j: int| 0 <= j < out@.len() implies exists|m: int|
                    0 <= m < i + 1 && #[trigger] out@[j] == ov[m] by {
                    if j < o0.len() {
                        assert(out@[j] == o0[j]);
                    } else {
                        assert(out@[j] == ov[i as int]);
                    }
                }
                assert forall|m: int| 0 <= m < i + 1 && (#[trigger] ov[m]).0@ != name@ implies exists|j: int|
                    0 <= j < out@.len() && out@[j] == ov[m] by {
                    if m < i {
                        let j = choose|j: int| 0 <= j < o0.len() && o0[j] == ov[m];
                        assert(out@[j] == ov[m]);
                    } else {
                        assert(out@[o0.len() as int] == ov[m]);
                    }
                }
            }
        }
        i = i + 1;
    }
    let ghost o1 = out@;
    out.push((String::from_str(name), until));
    proof {
        assert(pulse_names(out@) =~= pulse_names(o1).push(name@));
        assert(!pulse_names(o1).contains(name@)) by {
            if pulse_names(o1).contains(name@) {
                let j = choose|j: int| 0 <= j < o1.len() && pulse_names(o1)[j] == name@;
                assert(o1[j].0@ != name@);
            }
        }
        assert forall|k: Seq<char>, t: u64| #[trigger] shows(out@, k, t) <==> (k == name@ && t == until) || (k != name@
            && shows(ov, k, t)) by {
            if shows(out@, k, t) {
                let j = choose|j: int| 0 <= j < out@.len() && (#[trigger] out@[j]).0@ == k && out@[j].1 == t;
                if j < o1.len() {
                    assert(out@[j] == o1[j]);
                    let m = choose|m: int| 0 <= m < ov.len() && o1[j] == ov[m];
                    assert(ov[m].0@ == k && ov[m].1 == t);
                }
            }
            if k == name@ && t == until {
                assert(out@[o1.len() as int].0@ == k);
            }
            if k != name@ && shows(ov, k, t) {
                let m = choose|m: int| 0 <= m < ov.len() && (#[trigger] ov[m]).0@ == k && ov[m].1 == t;
                let j = choose|j: int| 0 <= j < o1.len() && o1[j] == ov[m];
                assert(out@[j] == o1[j]);
            }
        }
    }
    *v = out;
}

/// Forgets the keys whose time is up at `now`.
pub fn expire_pulses(v: &mut Vec<(String, u64)>, now: u64)
    requires
        pulse_names(old(v)@).no_duplicates(),
    ensures
        pulse_names(final(v)@).no_duplicates(),
        forall|k: Seq<char>, t: u64|
            #[trigger] shows(final(v)@, k, t) <==> shows(old(v)@, k, t) && now < t,
{
    let ghost ov = v@;
    let mut out: Vec<(String, u64)> = Vec::new();
    let mut i: usize = 0;
    while i < v.len()
        invariant
            i <= ov.len(),
            v@ == ov,
            pulse_names(ov).no_duplicates(),
            pulse_names(out@).no_duplicates(),
            forall|j: int| 0 <= j < out@.len() ==> exists|m: int| 0 <= m < i && #[trigger] out@[j] == ov[m],
            forall|j: int| 0 <= j < out@.len() ==> now < (#[trigger] out@[j]).1,
            forall|m: int| 0 <= m < i && now < (#[trigger] ov[m]).1 ==> exists|j: int|
                0 <= j < out@.len() && out@[j] == ov[m],
        decreases ov.len() - i,
    {
        if now < v[i].1 {
            let ghost o0 = out@;
            out.push((v[i].0.clone(), v[i].1));
            proof {
                assert(out@[o0.len() as int] == ov[i as int]);
                assert(pulse_names(out@) =~= pulse_names(o0).push(ov[i as int].0@));
                assert(!pulse_names(o0).contains(ov[i as int].0@)) by {
                    if pulse_names(o0).contains(ov[i as int].0@) {
                        let j = choose|j: int| 0 <= j < o0.len() && pulse_names(o0)[j] == ov[i as int].0@;
                        assert(o0[j] == out@[j]);
                        let m = choose|m: int| 0 <= m < i && out@[j] == ov[m];
                        assert(pulse_names(ov)[m] == pulse_names(ov)[i as int]);
                    }
                }
                assert forall|j: int| 0 <= j < out@.len() implies exists|m: int|
                    0 <= m < i + 1 && #[trigger] out@[j] == ov[m] by {
                    if j < o0.len() {
                        assert(out@[j] == o0[j]);
                    } else {
                        assert(out@[j] == ov[i as int]);
                    }
                }
                assert forall|m: int| 0 <= m < i + 1 && now < (#[trigger] ov[m]).1 implies exists|j: int|
                    0 <= j < out@.len() && out@[j] == ov[m] by {
                    if m < i {
                        let j = choose|j: int| 0 <= j < o0.len() && o0[j] == ov[m];
                        assert(out@[j] == ov[m]);
                    } else {
                        assert(out@[o0.len() as int] == ov[m]);
                    }
                }
            }
        }
        i = i + 1;
    }
    proof {
        assert forall|k: Seq<char>, t: u64| #[trigger] shows(out@, k, t) <==> shows(ov, k, t) && now < t by {
            if shows(out@, k, t) {
                let j = choose|j: int| 0 <= j < out@.len() && (#[trigger] out@[j]).0@ == k && out@[j].1 == t;
                let m = choose|m: int| 0 <= m < ov.len() && out@[j] == ov[m];
                assert(ov[m].0@ == k && ov[m].1 == t);
            }
            if shows(ov, k, t) && now < t {
                let m = choose|m: int| 0 <= m < ov.len() && (#[trigger] ov[m]).0@ == k && ov[m].1 == t;
                let j = choose|j: int| 0 <= j < out@.len() && out@[j] == ov[m];
                assert(out@[j].0@ == k);
            }
        }
    }
    *v = out;
}

/// The controls shown as pressed: those held, and the keys shown for a
/// moment.
pub fn visible_pressed(pressed: &Vec<String>, pulses: &Vec<(String, u64)>) -> (r: Vec<String>)
    requires
        views(pressed@).no_duplicates(),
    ensures
        views(r@).no_duplicates(),
        views(r@).to_set() == views(pressed@).to_set() + pulse_names(pulses@).to_set(),
{
    let mut out: Vec<String> = Vec::new();
    let mut i: usize = 0;
    while i < pressed.len()
        invariant
            i <= pressed@.len(),
            views(pressed@).no_duplicates(),
            out@ == pressed@.take(i as int),
        decreases pressed@.len() - i,
    {
        out.push(pressed[i].clone());
        i = i + 1;
        assert(out@ =~= pressed@.take(i as int));
    }
    assert(pressed@.take(pressed@.len() as int) =~= pressed@);
    let mut j: usize = 0;
    while j < pulses.len()
        invariant
            j <= pulses@.len(),
            views(out@).no_duplicates(),
            views(out@).to_set() == views(pressed@).to_set() + pulse_names(pulses@.take(j as int)).to_set(),
        decreases pulses@.len() - j,
    {
        let n = chars_of(pulses[j].0.as_str());
        let ghost o0 = views(out@);
        assert(pulse_names(pulses@.take(j + 1)) =~= pulse_names(pulses@.take(j as int)).push(n@));
        if !contains_chars(&out, &n) {
            out.push(pulses[j].0.clone());
            assert(views(out@) =~= o0.push(n@));
        }
        proof {
            assert forall|y: Seq<char>| #[trigger] views(out@).to_set().contains(y) == (views(pressed@).to_set() + pulse_names(pulses@.take(j + 1)).to_set()).contains(y) by {
                vstd::seq_lib::lemma_seq_contains_after_push(o0, n@, y);
                vstd::seq_lib::lemma_seq_contains_after_push(pulse_names(pulses@.take(j as int)), n@, y);
                assert(o0.to_set().contains(y) == (views(pressed@).to_set() + pulse_names(pulses@.take(j as int)).to_set()).contains(y));
            }
            assert(views(out@).to_set() =~= views(pressed@).to_set() + pulse_names(pulses@.take(j + 1)).to_set());
        }
        j = j + 1;
    }
    assert(pulses@.take(pulses@.len() as int) =~= pulses@);
    out
}

/// Every programmable control of the G13 (each control that is not an M
/// key, MR or the lighting key) can be the destination of a macro
/// recording.
pub proof fn lemma_programmable_controls_recordable(code: u16, name: Seq<char>)
    requires
        spec_key_control(code) == Some(name),
        spec_key_route(name, true) == KeyRoute::Control,
    ensures
        spec_recordable(name),
{
    reveal_strlit("G");
    reveal_strlit("KEY_KBD_LCD_MENU");
    reveal_strlit("KEY_KBD_LCD_MENU1");
    reveal_strlit("KEY_KBD_LCD_MENU2");
    reveal_strlit("KEY_KBD_LCD_MENU3");
    reveal_strlit("KEY_KBD_LCD_MENU4");
    reveal_strlit("KEY_KBD_LCD_MENU5");
    if crate::input::KEY_MACRO1 <= code <= crate::input::KEY_MACRO22 {
        let k = (code - crate::input::KEY_MACRO1 + 1) as nat;
        lemma_small_decimal(k);
        assert(name == "G"@ + decimal(k));
        assert(name.drop_first() =~= decimal(k));
        assert(name[0] == 'G');
    } else if crate::input::KEY_KBD_LCD_MENU1 <= code <= crate::input::KEY_KBD_LCD_MENU5 {
        let k = (code - crate::input::KEY_KBD_LCD_MENU1 + 1) as nat;
        lemma_small_decimal(k);
        assert(name =~= "KEY_KBD_LCD_MENU"@ + seq![digit(k as int)]);
        if k == 1 {
            assert(name =~= "KEY_KBD_LCD_MENU1"@);
        } else if k == 2 {
            assert(name =~= "KEY_KBD_LCD_MENU2"@);
        } else if k == 3 {
            assert(name =~= "KEY_KBD_LCD_MENU3"@);
        } else if k == 4 {
            assert(name =~= "KEY_KBD_LCD_MENU4"@);
        } else {
            assert(name =~= "KEY_KBD_LCD_MENU5"@);
        }
    }
}

} // verus!
