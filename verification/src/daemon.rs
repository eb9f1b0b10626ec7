//! The daemon's decisions: what a control press does, how a macro is
//! recorded, how requests change the shared state. The daemon itself reads
//! the device, writes uinput, LEDs, the LCD and the profile store, and hands
//! the results back here.
use vstd::prelude::*;
use crate::config::{bank_index, Bank, MacroStep, Profile};
use crate::ipc::{Reply, Request};
use crate::strmap::StrMap;
use crate::text::{
    chars_eq, chars_of, concat_str, digit, parse_unsigned, parse_unsigned_chars, sort_distinct, str_eq,
    strictly_sorted, views,
};

verus! {

/// A key edge seen lately while recording, kept to drop the copy that a
/// second capture path delivers.
#[derive(Debug)]
pub struct RecentEdge {
    pub key: String,
    pub down: bool,
    pub at_ms: u64,
}

/// The state that the daemon's threads share. Times are milliseconds of a
/// monotonic clock.
pub struct Shared {
    pub reply: Reply,
    pub profile: Profile,
    pub detected_center_x: u8,
    pub detected_center_y: u8,
    pub rec_last: Option<u64>,
    pub rec_down: Vec<String>,
    pub rec_recent: Vec<RecentEdge>,
}

/// The edges of a recent-edge list, by key and direction.
pub open spec fn edge_sigs(v: Seq<RecentEdge>) -> Seq<(Seq<char>, bool)> {
    v.map_values(|e: RecentEdge| (e.key@, e.down))
}

/// The time each recent edge was last seen.
pub open spec fn recent_map(v: Seq<RecentEdge>) -> Map<(Seq<char>, bool), u64> {
    Map::new(
        |s: (Seq<char>, bool)| edge_sigs(v).contains(s),
        |s: (Seq<char>, bool)| v[edge_sigs(v).index_of(s)].at_ms,
    )
}

impl Shared {
    /// Held keys and recent edges are sets: nothing in them twice.
    pub open spec fn wf(&self) -> bool {
        &&& views(self.rec_down@).no_duplicates()
        &&& edge_sigs(self.rec_recent@).no_duplicates()
    }

    /// The keys held down during the current recording.
    pub open spec fn held(&self) -> Set<Seq<char>> {
        views(self.rec_down@).to_set()
    }

    /// The bank that the profile's `active_bank` selects.
    pub open spec fn active_bank(&self) -> Bank {
        self.profile.banks@[bank_index(self.profile.active_bank)]
    }
}

/// The keys of the macros that hold at least one step, in key order.
pub open spec fn macro_keys(e: Seq<(String, Vec<MacroStep>)>) -> Seq<Seq<char>>
    decreases e.len(),
{
    if e.len() == 0 {
        Seq::empty()
    } else if e.last().1@.len() > 0 {
        macro_keys(e.drop_last()).push(e.last().0@)
    } else {
        macro_keys(e.drop_last())
    }
}

/// The joystick center in force: the profile's, else the one read from the
/// device.
pub open spec fn spec_effective_center(sh: Shared) -> (u8, u8) {
    (
        match sh.profile.joystick_center_x {
            Some(x) => x,
            None => sh.detected_center_x,
        },
        match sh.profile.joystick_center_y {
            Some(y) => y,
            None => sh.detected_center_y,
        },
    )
}

/// A calibrated center overrides the detected one, axis by axis: where
/// the profile sets a center for an axis the stick is measured from it;
/// only an axis the profile leaves unset falls back to the center read
/// from the device. So the stick directions at (x, y), as
/// `update_directions` gives them, lie around the calibrated center.
pub proof fn lemma_calibrated_center_wins(sh: Shared, c: u8, v: int, held: bool, sign: int)
    ensures
        sh.profile.joystick_center_x == Some(c) ==> spec_effective_center(sh).0 == c,
        sh.profile.joystick_center_y == Some(c) ==> spec_effective_center(sh).1 == c,
        sh.profile.joystick_center_x is None ==> spec_effective_center(sh).0
            == sh.detected_center_x,
        sh.profile.joystick_center_y is None ==> spec_effective_center(sh).1
            == sh.detected_center_y,
        sh.profile.joystick_center_y == Some(c) ==> (direction_active(
            v,
            spec_effective_center(sh).1 as int,
            held,
            sh.profile.deadzone as int,
            sign,
        ) <==> direction_active(v, c as int, held, sh.profile.deadzone as int, sign)),
{
}

/// The fields of the reply that mirror the profile agree with it.
pub open spec fn synced(sh: Shared) -> bool {
    &&& reply_agrees(sh.reply, sh.profile)
    &&& views(sh.reply.macro_targets@) == macro_keys(sh.active_bank().macros.entries())
    &&& (sh.reply.center_x, sh.reply.center_y) == spec_effective_center(sh)
}

/// The reply reports the profile's bank, LCD switch, LCD page and name.
pub open spec fn reply_agrees(r: Reply, p: Profile) -> bool {
    &&& r.active_bank == p.active_bank
    &&& r.lcd_enabled == p.lcd_enabled
    &&& r.lcd_page == p.lcd_page
    &&& r.profile_name == p.name
}

/// The fields of the reply that describe the device and the last message.
pub open spec fn same_status(a: Reply, b: Reply) -> bool {
    &&& a.ok == b.ok
    &&& a.message == b.message
    &&& a.connected == b.connected
    &&& a.x == b.x
    &&& a.y == b.y
    &&& a.pressed == b.pressed
    &&& a.lcd_ok == b.lcd_ok
    &&& a.profiles == b.profiles
}

/// The fields of the reply that describe a recording.
pub open spec fn same_recording(a: Reply, b: Reply) -> bool {
    &&& a.recording == b.recording
    &&& a.record_target == b.record_target
    &&& a.record_preview == b.record_preview
}

/// The recorder's own state is unchanged.
pub open spec fn same_recorder(a: Shared, b: Shared) -> bool {
    &&& a.rec_last == b.rec_last
    &&& a.rec_down == b.rec_down
    &&& a.rec_recent == b.rec_recent
}

/// The recorder's own state is cleared.
pub open spec fn recorder_cleared(a: Shared) -> bool {
    &&& a.rec_last is None
    &&& a.rec_down@.len() == 0
    &&& a.rec_recent@.len() == 0
}

/// The joystick center in force: the profile's, else the one read from the
/// device.
pub fn effective_center(sh: &Shared) -> (r: (u8, u8))
    ensures
        r == spec_effective_center(*sh),
{
    (
        match sh.profile.joystick_center_x {
            Some(x) => x,
            None => sh.detected_center_x,
        },
        match sh.profile.joystick_center_y {
            Some(y) => y,
            None => sh.detected_center_y,
        },
    )
}

/// The keys of the macros of `m` that hold at least one step, in order.
fn macro_targets_of(m: &StrMap<Vec<MacroStep>>) -> (r: Vec<String>)
    ensures
        views(r@) == macro_keys(m.entries()),
{
    let mut r: Vec<String> = Vec::new();
    let mut i: usize = 0;
    while i < m.len()
        invariant
            i <= m.entries().len(),
            views(r@) == macro_keys(m.entries().take(i as int)),
        decreases m.entries().len() - i,
    {
        let k = m.key_at(i);
        let v = m.value_at(i);
        proof {
            assert(m.entries().take(i + 1).drop_last() =~= m.entries().take(i as int));
        }
        if v.len() > 0 {
            r.push(k.clone());
            assert(views(r@) =~= macro_keys(m.entries().take(i as int)).push(k@));
        }
        i = i + 1;
    }
    assert(m.entries().take(m.entries().len() as int) =~= m.entries());
    r
}

/// Copies the profile-derived fields into the reply.
pub fn sync_profile_reply(sh: &mut Shared)
    ensures
        synced(*final(sh)),
        same_status(final(sh).reply, old(sh).reply),
        same_recording(final(sh).reply, old(sh).reply),
        final(sh).profile == old(sh).profile,
        final(sh).detected_center_x == old(sh).detected_center_x,
        final(sh).detected_center_y == old(sh).detected_center_y,
        same_recorder(*final(sh), *old(sh)),
{
    sh.reply.active_bank = sh.profile.active_bank;
    sh.reply.lcd_enabled = sh.profile.lcd_enabled;
    sh.reply.lcd_page = sh.profile.lcd_page;
    sh.reply.profile_name = sh.profile.name.clone();
    let targets = macro_targets_of(&sh.profile.bank().macros);
    sh.reply.macro_targets = targets;
    let (cx, cy) = effective_center(sh);
    sh.reply.center_x = cx;
    sh.reply.center_y = cy;
}

/// What `start_recording` did: `f` is `o` with a fresh recording session.
pub open spec fn start_effect(f: Shared, o: Shared) -> bool {
    &&& f.wf()
    &&& f.reply.recording
    &&& f.reply.record_target is None
    &&& f.reply.record_preview@.len() == 0
    &&& recorder_cleared(f)
    &&& synced(f)
    &&& same_status(f.reply, o.reply)
    &&& f.profile == o.profile
    &&& f.detected_center_x == o.detected_center_x
    &&& f.detected_center_y == o.detected_center_y
}

/// Starts a recording session from a clean state.
pub fn start_recording(sh: &mut Shared)
    ensures
        start_effect(*final(sh), *old(sh)),
{
    sh.reply.recording = true;
    sh.reply.record_target = None;
    sh.reply.record_preview = Vec::new();
    sh.rec_last = None;
    sh.rec_down = Vec::new();
    sh.rec_recent = Vec::new();
    sync_profile_reply(sh);
    assert(views(sh.rec_down@) =~= Seq::<Seq<char>>::empty());
    assert(edge_sigs(sh.rec_recent@) =~= Seq::<(Seq<char>, bool)>::empty());
}

/// The controls that a macro can be recorded onto: G1-G22, the thumb
/// buttons, the stick click, the four stick directions and the LCD keys.
pub open spec fn spec_recordable(n: Seq<char>) -> bool {
    ||| n == "BTN_BASE"@
    ||| n == "BTN_BASE2"@
    ||| n == "BTN_THUMB"@
    ||| n == "ABS_X-"@
    ||| n == "ABS_X+"@
    ||| n == "ABS_Y-"@
    ||| n == "ABS_Y+"@
    ||| (n.len() > 0 && n[0] == 'G' && match parse_unsigned(n.drop_first(), 255) {
        Some(v) => 1 <= v <= 22,
        None => false,
    })
    ||| n == "KEY_KBD_LCD_MENU1"@
    ||| n == "KEY_KBD_LCD_MENU2"@
    ||| n == "KEY_KBD_LCD_MENU3"@
    ||| n == "KEY_KBD_LCD_MENU4"@
    ||| n == "KEY_KBD_LCD_MENU5"@
}

/// Whether a macro can be recorded onto the control `name`.
pub fn recordable_control(name: &str) -> (r: bool)
    ensures
        r == spec_recordable(name@),
{
    if str_eq(name, "BTN_BASE") || str_eq(name, "BTN_BASE2") || str_eq(name, "BTN_THUMB")
        || str_eq(name, "ABS_X-") || str_eq(name, "ABS_X+") || str_eq(name, "ABS_Y-") || str_eq(
        name,
        "ABS_Y+",
    ) {
        return true;
    }
    let v = chars_of(name);
    if v.len() > 0 && v[0] == 'G' {
        let mut rest: Vec<char> = Vec::new();
        let mut i: usize = 1;
        while i < v.len()
            invariant
                1 <= i <= v.len(),
                rest@ == v@.subrange(1, i as int),
            decreases v.len() - i,
        {
            rest.push(v[i]);
            i = i + 1;
            assert(rest@ =~= v@.subrange(1, i as int));
        }
        assert(rest@ =~= name@.drop_first());
        match parse_unsigned_chars(&rest, 255) {
            Some(n) => {
                if 1 <= n && n <= 22 {
                    return true;
                }
            },
            None => {},
        }
    }
    str_eq(name, "KEY_KBD_LCD_MENU1") || str_eq(name, "KEY_KBD_LCD_MENU2") || str_eq(
        name,
        "KEY_KBD_LCD_MENU3",
    ) || str_eq(name, "KEY_KBD_LCD_MENU4") || str_eq(name, "KEY_KBD_LCD_MENU5")
}

/// Banks other than the active one are unchanged, and so is the rest of
/// the profile but its banks.
pub open spec fn only_active_bank_changed(a: Profile, b: Profile) -> bool {
    &&& a.active_bank == b.active_bank
    &&& a.name == b.name
    &&& a.color == b.color
    &&& a.deadzone == b.deadzone
    &&& a.joystick_center_x == b.joystick_center_x
    &&& a.joystick_center_y == b.joystick_center_y
    &&& a.lcd_enabled == b.lcd_enabled
    &&& a.lcd_page == b.lcd_page
    &&& a.lcd_lines == b.lcd_lines
    &&& a.lcd_align == b.lcd_align
    &&& a.lcd_image_path == b.lcd_image_path
    &&& a.lcd_text == b.lcd_text
    &&& a.banks@.len() == b.banks@.len()
    &&& forall|i: int|
        0 <= i < 3 && i != bank_index(b.active_bank) ==> #[trigger] a.banks@[i] == b.banks@[i]
}

/// The active bank after a control became the destination of a recording:
/// its binding is gone and it holds an empty macro.
pub open spec fn armed_bank(a: Bank, b: Bank, name: Seq<char>) -> bool {
    &&& a.bindings.map() == b.bindings.map().remove(name)
    &&& a.macros.map().remove(name) == b.macros.map().remove(name)
    &&& a.macros.map().dom().contains(name)
    &&& a.macros.map()[name]@.len() == 0
}

/// Whether a recording can take `name` as its destination now.
pub open spec fn can_arm(sh: Shared, name: Seq<char>) -> bool {
    sh.reply.recording && sh.reply.record_target is None && spec_recordable(name)
}

/// `new` is `old` after `name` became the destination of the recording:
/// the destination is set, the preview and the recorder are cleared, and in
/// the active bank `name` lost its binding and holds an empty macro.
pub open spec fn arm_effect(new: Shared, old: Shared, name: Seq<char>) -> bool {
    &&& new.wf()
    &&& new.reply.recording
    &&& new.reply.record_target matches Some(t) && t@ == name
    &&& new.reply.record_preview@.len() == 0
    &&& recorder_cleared(new)
    &&& only_active_bank_changed(new.profile, old.profile)
    &&& armed_bank(new.active_bank(), old.active_bank(), name)
    &&& synced(new)
    &&& same_status(new.reply, old.reply)
    &&& new.detected_center_x == old.detected_center_x
    &&& new.detected_center_y == old.detected_center_y
}

/// Makes `name` the destination of the recording in progress, where the
/// recording has none yet and `name` can hold a macro. Gives whether it
/// did.
pub fn arm_record_target(sh: &mut Shared, name: &str) -> (r: bool)
    requires
        old(sh).wf(),
    ensures
        final(sh).wf(),
        r == can_arm(*old(sh), name@),
        !r ==> *final(sh) == *old(sh),
        r ==> arm_effect(*final(sh), *old(sh), name@),
{
    if !sh.reply.recording || sh.reply.record_target.is_some() || !recordable_control(name) {
        return false;
    }
    sh.reply.record_target = Some(String::from_str(name));
    sh.reply.record_preview = Vec::new();
    sh.profile.bank_mut().bindings.remove(name);
    sh.profile.bank_mut().macros.insert(String::from_str(name), Vec::new());
    sh.rec_last = None;
    sh.rec_down = Vec::new();
    sh.rec_recent = Vec::new();
    sync_profile_reply(sh);
    assert(views(sh.rec_down@) =~= Seq::<Seq<char>>::empty());
    assert(edge_sigs(sh.rec_recent@) =~= Seq::<(Seq<char>, bool)>::empty());
    assert(sh.active_bank().macros.map().remove(name@) =~= old(sh).active_bank().macros.map().remove(
        name@,
    ));
    true
}

/// Switches to M bank `bank`, unless a recording has its destination: the
/// bank of a macro being recorded cannot change. Gives `None` where nothing
/// happened, else whether the profile needs saving (the bank changed).
pub fn switch_bank(sh: &mut Shared, bank: u8) -> (r: Option<bool>)
    ensures
        (old(sh).reply.recording && old(sh).reply.record_target is Some) ==> (r is None && *final(sh)
            == *old(sh)),
        !(old(sh).reply.recording && old(sh).reply.record_target is Some) ==> {
            &&& r == Some(old(sh).profile.active_bank != bank)
            &&& final(sh).profile.active_bank == bank
            &&& final(sh).profile.banks == old(sh).profile.banks
            &&& synced(*final(sh))
            &&& same_status(final(sh).reply, old(sh).reply)
            &&& same_recording(final(sh).reply, old(sh).reply)
            &&& same_recorder(*final(sh), *old(sh))
        },
{
    if sh.reply.recording && sh.reply.record_target.is_some() {
        return None;
    }
    if sh.profile.active_bank == bank {
        sync_profile_reply(sh);
        Some(false)
    } else {
        sh.profile.active_bank = bank;
        sync_profile_reply(sh);
        Some(true)
    }
}

/// What the built-in LCD keys do: `new` is `old` after the key `name`
/// was pressed, and `handled` whether it is one of them.
pub open spec fn lcd_key_effect(new: Shared, old: Shared, name: Seq<char>, handled: bool) -> bool {
    let p = old.profile.lcd_page;
    let e = old.profile.lcd_enabled;
    let (page, enabled, h) = if name == "KEY_KBD_LCD_MENU1"@ {
        ((p + 3) % 4, e, true)
    } else if name == "KEY_KBD_LCD_MENU2"@ || name == "KEY_KBD_LCD_MENU5"@ {
        ((p + 1) % 4, e, true)
    } else if name == "KEY_KBD_LCD_MENU3"@ {
        (p as int, !e, true)
    } else if name == "KEY_KBD_LCD_MENU4"@ {
        (0, true, true)
    } else {
        (p as int, e, false)
    };
    &&& handled == h
    &&& !h ==> new == old
    &&& h ==> {
        &&& new.profile.lcd_page == page
        &&& new.profile.lcd_enabled == enabled
        &&& new.profile.banks == old.profile.banks
        &&& new.profile.active_bank == old.profile.active_bank
        &&& new.profile.name == old.profile.name
        &&& synced(new)
        &&& same_status(new.reply, old.reply)
        &&& same_recording(new.reply, old.reply)
        &&& same_recorder(new, old)
    }
}

/// The built-in LCD keys, by the names their evdev codes get
/// (`KEY_KBD_LCD_MENU` and the key's number): MENU1 goes back a page,
/// MENU2 and MENU5 forward, MENU3 switches the display off or on, MENU4
/// goes home to page 0 with the display on. Each of them is handled.
pub proof fn lemma_lcd_key_actions(new: Shared, old: Shared, k: int, handled: bool)
    requires
        1 <= k <= 5,
        lcd_key_effect(new, old, "KEY_KBD_LCD_MENU"@ + seq![digit(k)], handled),
    ensures
        handled,
        k == 1 ==> new.profile.lcd_page == (old.profile.lcd_page + 3) % 4
            && new.profile.lcd_enabled == old.profile.lcd_enabled,
        k == 2 || k == 5 ==> new.profile.lcd_page == (old.profile.lcd_page + 1) % 4
            && new.profile.lcd_enabled == old.profile.lcd_enabled,
        k == 3 ==> new.profile.lcd_page == old.profile.lcd_page && new.profile.lcd_enabled
            == !old.profile.lcd_enabled,
        k == 4 ==> new.profile.lcd_page == 0 && new.profile.lcd_enabled,
{
    reveal_strlit("KEY_KBD_LCD_MENU");
    reveal_strlit("KEY_KBD_LCD_MENU1");
    reveal_strlit("KEY_KBD_LCD_MENU2");
    reveal_strlit("KEY_KBD_LCD_MENU3");
    reveal_strlit("KEY_KBD_LCD_MENU4");
    reveal_strlit("KEY_KBD_LCD_MENU5");
    let n = "KEY_KBD_LCD_MENU"@ + seq![digit(k)];
    assert(n.len() == 17);
    assert(n[16] == digit(k));
    if k == 1 {
        assert(n =~= "KEY_KBD_LCD_MENU1"@);
    } else if k == 2 {
        assert(n =~= "KEY_KBD_LCD_MENU2"@);
        assert(n[16] != "KEY_KBD_LCD_MENU1"@[16]);
    } else if k == 3 {
        assert(n =~= "KEY_KBD_LCD_MENU3"@);
        assert(n[16] != "KEY_KBD_LCD_MENU1"@[16]);
        assert(n[16] != "KEY_KBD_LCD_MENU2"@[16]);
        assert(n[16] != "KEY_KBD_LCD_MENU5"@[16]);
    } else if k == 4 {
        assert(n =~= "KEY_KBD_LCD_MENU4"@);
        assert(n[16] != "KEY_KBD_LCD_MENU1"@[16]);
        assert(n[16] != "KEY_KBD_LCD_MENU2"@[16]);
        assert(n[16] != "KEY_KBD_LCD_MENU3"@[16]);
        assert(n[16] != "KEY_KBD_LCD_MENU5"@[16]);
    } else {
        assert(n =~= "KEY_KBD_LCD_MENU5"@);
        assert(n[16] != "KEY_KBD_LCD_MENU1"@[16]);
    }
}

/// What the built-in LCD keys do where nothing is bound to them: MENU1 the
/// previous page, MENU2 and MENU5 the next, MENU3 display on/off, MENU4 on
/// and the status page. Gives whether `name` was one of them.
pub fn lcd_button(sh: &mut Shared, name: &str) -> (r: bool)
    requires
        name@ == "KEY_KBD_LCD_MENU1"@ ==> old(sh).profile.lcd_page <= 252,
        (name@ == "KEY_KBD_LCD_MENU2"@ || name@ == "KEY_KBD_LCD_MENU5"@) ==> old(
            sh,
        ).profile.lcd_page <= 254,
    ensures
        lcd_key_effect(*final(sh), *old(sh), name@, r),
{
    if str_eq(name, "KEY_KBD_LCD_MENU1") {
        sh.profile.lcd_page = (sh.profile.lcd_page + 3) % 4;
    } else if str_eq(name, "KEY_KBD_LCD_MENU2") || str_eq(name, "KEY_KBD_LCD_MENU5") {
        sh.profile.lcd_page = (sh.profile.lcd_page + 1) % 4;
    } else if str_eq(name, "KEY_KBD_LCD_MENU3") {
        sh.profile.lcd_enabled = !sh.profile.lcd_enabled;
    } else if str_eq(name, "KEY_KBD_LCD_MENU4") {
        sh.profile.lcd_enabled = true;
        sh.profile.lcd_page = 0;
    } else {
        return false;
    }
    sync_profile_reply(sh);
    true
}

/// How far from center the stick must stay, once a direction is active, to
/// keep it: the dead zone less a hysteresis of a quarter of it, between 4
/// and 12; at least 1, but never more than the dead zone itself, so that a
/// held direction is never released where it would be pressed.
pub open spec fn release_zone(deadzone: int) -> int {
    let q = deadzone / 4;
    let h = if q < 4 {
        4
    } else if q > 12 {
        12
    } else {
        q
    };
    let z = if deadzone - h < 1 {
        1
    } else {
        deadzone - h
    };
    if z > deadzone {
        deadzone
    } else {
        z
    }
}

/// Whether a stick direction is active at `v`, with center `c`, where
/// `sign` is -1 for left/up and +1 for right/down: beyond the dead zone, or
/// beyond the release zone for a direction already held.
pub open spec fn direction_active(v: int, c: int, held: bool, deadzone: int, sign: int) -> bool {
    let zone = if held {
        release_zone(deadzone)
    } else {
        deadzone
    };
    if sign < 0 {
        v < c - zone
    } else {
        v > c + zone
    }
}

/// Hysteresis: a direction already held needs no more deflection to stay
/// active than to become active, whatever the dead zone.
pub proof fn lemma_held_direction_sticks(v: int, c: int, deadzone: int, sign: int)
    requires
        deadzone >= 0,
        direction_active(v, c, false, deadzone, sign),
    ensures
        direction_active(v, c, true, deadzone, sign),
        release_zone(deadzone) <= deadzone,
{
}

/// No chatter: at a steady stick position the directions settle after one
/// reading. Feeding back as held what one reading made active gives the
/// same directions again.
pub proof fn lemma_direction_steady(v: int, c: int, held: bool, deadzone: int, sign: int)
    requires
        deadzone >= 0,
    ensures
        direction_active(v, c, direction_active(v, c, held, deadzone, sign), deadzone, sign)
            == direction_active(v, c, held, deadzone, sign),
{
    assert(0 <= release_zone(deadzone) <= deadzone);
}

/// The four stick directions `ABS_X-`, `ABS_X+`, `ABS_Y-`, `ABS_Y+` at
/// stick position `x`, `y`, given which of them are held.
pub fn direction_states(deadzone: u8, center_x: u8, center_y: u8, x: u8, y: u8, held: [bool; 4]) -> (r: [bool; 4])
    ensures
        r@[0] == direction_active(x as int, center_x as int, held@[0], deadzone as int, -1),
        r@[1] == direction_active(x as int, center_x as int, held@[1], deadzone as int, 1),
        r@[2] == direction_active(y as int, center_y as int, held@[2], deadzone as int, -1),
        r@[3] == direction_active(y as int, center_y as int, held@[3], deadzone as int, 1),
{
    let dz = deadzone as i16;
    let q = dz / 4;
    let h: i16 = if q < 4 {
        4
    } else if q > 12 {
        12
    } else {
        q
    };
    let z: i16 = if dz - h < 1 {
        1
    } else {
        dz - h
    };
    let release: i16 = if z > dz {
        dz
    } else {
        z
    };
    let x = x as i16;
    let y = y as i16;
    let cx = center_x as i16;
    let cy = center_y as i16;
    let x_neg = if held[0] {
        x < cx - release
    } else {
        x < cx - dz
    };
    let x_pos = if held[1] {
        x > cx + release
    } else {
        x > cx + dz
    };
    let y_neg = if held[2] {
        y < cy - release
    } else {
        y < cy - dz
    };
    let y_pos = if held[3] {
        y > cy + release
    } else {
        y > cy + dz
    };
    [x_neg, x_pos, y_neg, y_pos]
}

/// Whether a list of strings holds `s`.
pub fn contains_str(v: &Vec<String>, s: &str) -> (r: bool)
    ensures
        r == views(v@).contains(s@),
{
    let k = chars_of(s);
    let mut i: usize = 0;
    while i < v.len()
        invariant
            i <= v@.len(),
            k@ == s@,
            forall|j: int| 0 <= j < i ==> views(v@)[j] != s@,
        decreases v@.len() - i,
    {
        if chars_eq(&chars_of(v[i].as_str()), &k) {
            assert(views(v@)[i as int] == s@);
            return true;
        }
        i = i + 1;
    }
    false
}

/// The stick directions in force after the stick moved to `x`, `y`, given
/// the controls currently pressed.
pub fn update_directions(sh: &Shared, pressed: &Vec<String>, x: u8, y: u8) -> (r: [bool; 4])
    ensures
        ({
            let (cx, cy) = spec_effective_center(*sh);
            let dz = sh.profile.deadzone as int;
            let p = views(pressed@);
            &&& r@[0] == direction_active(x as int, cx as int, p.contains("ABS_X-"@), dz, -1)
            &&& r@[1] == direction_active(x as int, cx as int, p.contains("ABS_X+"@), dz, 1)
            &&& r@[2] == direction_active(y as int, cy as int, p.contains("ABS_Y-"@), dz, -1)
            &&& r@[3] == direction_active(y as int, cy as int, p.contains("ABS_Y+"@), dz, 1)
        }),
{
    let (cx, cy) = effective_center(sh);
    let held = [
        contains_str(pressed, "ABS_X-"),
        contains_str(pressed, "ABS_X+"),
        contains_str(pressed, "ABS_Y-"),
        contains_str(pressed, "ABS_Y+"),
    ];
    direction_states(sh.profile.deadzone, cx, cy, x, y, held)
}

/// Adds `s` to a set of strings; gives whether it was new.
pub fn set_insert(v: &mut Vec<String>, s: &str) -> (r: bool)
    requires
        views(old(v)@).no_duplicates(),
    ensures
        views(final(v)@).no_duplicates(),
        r == !views(old(v)@).contains(s@),
        !r ==> final(v)@ == old(v)@,
        views(final(v)@).to_set() == views(old(v)@).to_set().insert(s@),
{
    if contains_str(v, s) {
        assert(views(v@).to_set() =~= views(v@).to_set().insert(s@));
        return false;
    }
    v.push(String::from_str(s));
    assert(views(v@) =~= views(old(v)@).push(s@));
    assert(views(v@).to_set() =~= views(old(v)@).to_set().insert(s@)) by {
        assert forall|x: Seq<char>| #[trigger] views(v@).contains(x) implies views(old(v)@).contains(x) || x == s@ by {
            let k = choose|k: int| 0 <= k < views(v@).len() && views(v@)[k] == x;
            if k < old(v)@.len() {
                assert(views(old(v)@)[k] == x);
            }
        }
        assert forall|x: Seq<char>| #[trigger] views(old(v)@).contains(x) implies views(v@).contains(x) by {
            let k = choose|k: int| 0 <= k < views(old(v)@).len() && views(old(v)@)[k] == x;
            assert(views(v@)[k] == x);
        }
        assert(views(v@)[views(v@).len() - 1] == s@);
    }
    true
}

/// Takes `s` out of a set of strings; gives whether it was there.
pub fn set_remove(v: &mut Vec<String>, s: &str) -> (r: bool)
    requires
        views(old(v)@).no_duplicates(),
    ensures
        views(final(v)@).no_duplicates(),
        r == views(old(v)@).contains(s@),
        !r ==> final(v)@ == old(v)@,
        views(final(v)@).to_set() == views(old(v)@).to_set().remove(s@),
{
    let k = chars_of(s);
    let mut i: usize = 0;
    while i < v.len()
        invariant
            i <= v@.len(),
            k@ == s@,
            v@ == old(v)@,
            views(old(v)@).no_duplicates(),
            forall|j: int| 0 <= j < i ==> views(v@)[j] != s@,
        decreases v@.len() - i,
    {
        if chars_eq(&chars_of(v[i].as_str()), &k) {
            let ghost ov = views(v@);
            v.remove(i);
            proof {
                let nv = views(v@);
                assert(ov[i as int] == s@);
                assert(nv =~= ov.remove(i as int));
                ov.remove_ensures(i as int);
                assert forall|a: int, b: int| 0 <= a < b < nv.len() implies nv[a] != nv[b] by {
                    let oa = if a < i { a } else { a + 1 };
                    let ob = if b < i { b } else { b + 1 };
                    assert(nv[a] == ov[oa]);
                    assert(nv[b] == ov[ob]);
                }
                assert forall|x: Seq<char>| #[trigger] nv.contains(x) == (ov.contains(x) && x != s@) by {
                    if nv.contains(x) {
                        let m = choose|m: int| 0 <= m < nv.len() && nv[m] == x;
                        let om = if m < i { m } else { m + 1 };
                        assert(ov[om] == x);
                        assert(om != i);
                        assert(ov[om] != ov[i as int]);
                    }
                    if ov.contains(x) && x != s@ {
                        let m = choose|m: int| 0 <= m < ov.len() && ov[m] == x;
                        assert(m != i);
                        if m < i {
                            assert(nv[m] == x);
                        } else {
                            assert(nv[m - 1] == x);
                        }
                    }
                }
                assert(nv.to_set() =~= ov.to_set().remove(s@));
                assert(ov[i as int] == s@);
            }
            return true;
        }
        i = i + 1;
    }
    assert(views(v@).to_set() =~= views(v@).to_set().remove(s@));
    false
}

/// What pressing or releasing a control makes the daemon do.
#[derive(Debug)]
pub enum ControlAction {
    /// Nothing to send.
    Nothing,
    /// Play these macro steps.
    PlayMacro(Vec<MacroStep>),
    /// Press (or release) the keys of this binding.
    Press { action: String, down: bool },
}

/// A copy of a list of macro steps.
pub fn duplicate_steps(v: &Vec<MacroStep>) -> (r: Vec<MacroStep>)
    ensures
        r@ == v@,
{
    let mut r: Vec<MacroStep> = Vec::new();
    let mut i: usize = 0;
    while i < v.len()
        invariant
            i <= v@.len(),
            r@ == v@.take(i as int),
        decreases v@.len() - i,
    {
        r.push(v[i].duplicate());
        i = i + 1;
        assert(r@ =~= v@.take(i as int));
    }
    assert(v@.take(v@.len() as int) =~= v@);
    r
}

/// The set of pressed controls after `name` went down or up.
pub open spec fn pressed_after(p: Set<Seq<char>>, name: Seq<char>, down: bool) -> Set<Seq<char>> {
    if down {
        p.insert(name)
    } else {
        p.remove(name)
    }
}

/// A control went down or up. A change of state either makes the control
/// the destination of a recording waiting for one, or gives what its macro
/// or binding in the active bank sends; a macro plays on the press only.
/// What `set_control` did: `new` and `new_pressed` are `old` and
/// `old_pressed` after `name` went down or up, and `r` what was sent.
pub open spec fn control_effect(
    new: Shared,
    old: Shared,
    new_pressed: Seq<String>,
    old_pressed: Seq<String>,
    name: Seq<char>,
    down: bool,
    r: ControlAction,
) -> bool {
    let changed = down != views(old_pressed).contains(name);
    let b = old.active_bank();
    &&& views(new_pressed).no_duplicates()
    &&& views(new_pressed).to_set() == pressed_after(views(old_pressed).to_set(), name, down)
    &&& if !changed {
        r is Nothing && new == old
    } else if down && can_arm(old, name) {
        r is Nothing && arm_effect(new, old, name)
    } else {
        &&& new == old
        &&& if b.macros.map().dom().contains(name) {
            if down {
                r matches ControlAction::PlayMacro(steps) && steps@ == b.macros.map()[name]@
            } else {
                r is Nothing
            }
        } else if b.bindings.map().dom().contains(name) {
            r matches ControlAction::Press { action, down: d } && action == b.bindings.map()[name]
                && d == down
        } else {
            r is Nothing
        }
    }
}

/// A control went down or up. A change of state either makes the control
/// the destination of a recording waiting for one, or gives what its macro
/// or binding in the active bank sends; a macro plays on the press only.
pub fn set_control(sh: &mut Shared, pressed: &mut Vec<String>, name: &str, down: bool) -> (r:
    ControlAction)
    requires
        old(sh).wf(),
        views(old(pressed)@).no_duplicates(),
    ensures
        final(sh).wf(),
        control_effect(*final(sh), *old(sh), final(pressed)@, old(pressed)@, name@, down, r),
{
    let changed = if down {
        set_insert(pressed, name)
    } else {
        set_remove(pressed, name)
    };
    if !changed {
        return ControlAction::Nothing;
    }
    if down && arm_record_target(sh, name) {
        return ControlAction::Nothing;
    }
    let bank = sh.profile.bank();
    match bank.macros.get(name) {
        Some(steps) => {
            if down {
                ControlAction::PlayMacro(duplicate_steps(steps))
            } else {
                ControlAction::Nothing
            }
        },
        None => match bank.bindings.get(name) {
            Some(action) => ControlAction::Press { action: action.clone(), down },
            None => ControlAction::Nothing,
        },
    }
}

/// The parts of `s` between `+` signs, as `str::split('+')` gives them.
pub open spec fn split_plus(s: Seq<char>) -> Seq<Seq<char>>
    decreases s.len(),
{
    if s.len() == 0 {
        seq![Seq::<char>::empty()]
    } else {
        let r = split_plus(s.drop_last());
        if s.last() == '+' {
            r.push(Seq::<char>::empty())
        } else {
            r.update(r.len() - 1, r.last().push(s.last()))
        }
    }
}

proof fn lemma_split_plus_nonempty(s: Seq<char>)
    ensures
        split_plus(s).len() > 0,
    decreases s.len(),
{
    if s.len() > 0 {
        lemma_split_plus_nonempty(s.drop_last());
    }
}

/// The key codes of the parts that name a key, in order.
pub open spec fn known_codes(parts: Seq<Seq<char>>) -> Seq<u16>
    decreases parts.len(),
{
    if parts.len() == 0 {
        Seq::empty()
    } else {
        let r = known_codes(parts.drop_last());
        match crate::uinput::spec_keycode(parts.last()) {
            Some(c) => r.push(c),
            None => r,
        }
    }
}

/// The key events a binding such as `KEY_LEFTCTRL+KEY_C` sends: on the
/// press each key it names goes down in order, on the release each goes up
/// in reverse order. Parts that name no key are skipped.
pub fn action_events(action: &str, down: bool) -> (r: Vec<(u16, i32)>)
    ensures
        ({
            let codes = known_codes(split_plus(action@));
            &&& r@.len() == codes.len()
            &&& forall|i: int|
                0 <= i < codes.len() ==> #[trigger] r@[i] == if down {
                    (codes[i], 1i32)
                } else {
                    (codes[codes.len() - 1 - i], 0i32)
                }
        }),
{
    let v = chars_of(action);
    let mut codes: Vec<u16> = Vec::new();
    let mut piece: Vec<char> = Vec::new();
    let mut i: usize = 0;
    proof {
        assert(v@.take(0) =~= Seq::<char>::empty());
    }
    while i < v.len()
        invariant
            i <= v@.len(),
            v@ == action@,
            split_plus(v@.take(i as int)).len() > 0,
            codes@ == known_codes(split_plus(v@.take(i as int)).drop_last()),
            piece@ == split_plus(v@.take(i as int)).last(),
        decreases v@.len() - i,
    {
        let ghost before = split_plus(v@.take(i as int));
        proof {
            assert(v@.take(i + 1).drop_last() =~= v@.take(i as int));
            lemma_split_plus_nonempty(v@.take(i + 1));
        }
        if v[i] == '+' {
            let name = crate::text::string_of(&piece);
            match crate::uinput::keycode(name.as_str()) {
                Some(c) => {
                    codes.push(c);
                },
                None => {},
            }
            piece = Vec::new();
            proof {
                let after = split_plus(v@.take(i + 1));
                assert(after == before.push(Seq::<char>::empty()));
                assert(after.drop_last() =~= before);
                assert(before.drop_last().push(before.last()) =~= before);
            }
        } else {
            piece.push(v[i]);
            proof {
                let after = split_plus(v@.take(i + 1));
                assert(after.drop_last() =~= before.drop_last());
            }
        }
        i = i + 1;
    }
    let name = crate::text::string_of(&piece);
    match crate::uinput::keycode(name.as_str()) {
        Some(c) => {
            codes.push(c);
        },
        None => {},
    }
    proof {
        let all = split_plus(v@);
        assert(v@.take(v@.len() as int) =~= v@);
        assert(all.drop_last().push(all.last()) =~= all);
    }
    let mut r: Vec<(u16, i32)> = Vec::new();
    let n = codes.len();
    let mut k: usize = 0;
    while k < n
        invariant
            k <= n,
            n == codes@.len(),
            r@.len() == k,
            forall|j: int|
                0 <= j < k ==> #[trigger] r@[j] == if down {
                    (codes@[j], 1i32)
                } else {
                    (codes@[n - 1 - j], 0i32)
                },
        decreases n - k,
    {
        if down {
            r.push((codes[k], 1));
        } else {
            r.push((codes[n - 1 - k], 0));
        }
        k = k + 1;
    }
    r
}

/// One step of macro playback: wait, then possibly send a key edge.
#[derive(Debug)]
pub struct MacroEvent {
    pub delay_ms: u64,
    pub key: Option<(u16, i32)>,
}

/// The key codes that a macro's steps leave held.
pub open spec fn held_codes(steps: Seq<MacroStep>) -> Set<u16>
    decreases steps.len(),
{
    if steps.len() == 0 {
        Set::empty()
    } else {
        let h = held_codes(steps.drop_last());
        match crate::uinput::spec_keycode(steps.last().key@) {
            Some(c) => if steps.last().down {
                h.insert(c)
            } else {
                h.remove(c)
            },
            None => h,
        }
    }
}

/// `events` and `releases` are how the macro `steps` plays: one event per
/// step with its delay (at most five seconds) and its key edge where the
/// key is known, then a release of each key the steps left down.
pub open spec fn schedule_of(steps: Seq<MacroStep>, events: Seq<MacroEvent>, releases: Seq<u16>) -> bool {
    &&& events.len() == steps.len()
    &&& forall|i: int|
        0 <= i < steps.len() ==> {
            &&& (#[trigger] events[i]).delay_ms == if steps[i].delay_ms < 5000 {
                steps[i].delay_ms
            } else {
                5000
            }
            &&& events[i].key == match crate::uinput::spec_keycode(steps[i].key@) {
                Some(c) => Some((c, if steps[i].down {
                    1i32
                } else {
                    0i32
                })),
                None => None,
            }
        }
    &&& releases.no_duplicates()
    &&& releases.to_set() == held_codes(steps)
}

/// The keys that a run of key events leaves down: value 1 presses a key,
/// any other value lifts it.
pub open spec fn keys_down(events: Seq<MacroEvent>) -> Set<u16>
    decreases events.len(),
{
    if events.len() == 0 {
        Set::empty()
    } else {
        let d = keys_down(events.drop_last());
        match events.last().key {
            Some((c, v)) => if v == 1 {
                d.insert(c)
            } else {
                d.remove(c)
            },
            None => d,
        }
    }
}

proof fn lemma_keys_down_prefix(steps: Seq<MacroStep>, events: Seq<MacroEvent>, releases: Seq<u16>, n: int)
    requires
        schedule_of(steps, events, releases),
        0 <= n <= steps.len(),
    ensures
        keys_down(events.take(n)) == held_codes(steps.take(n)),
    decreases n,
{
    if n > 0 {
        lemma_keys_down_prefix(steps, events, releases, n - 1);
        assert(events.take(n).drop_last() =~= events.take(n - 1));
        assert(steps.take(n).drop_last() =~= steps.take(n - 1));
        assert(events.take(n).last() == events[n - 1]);
        assert(steps.take(n).last() == steps[n - 1]);
    }
}

/// A macro, played with its final releases, leaves no key held down: the
/// releases are exactly the keys its events leave down.
pub proof fn lemma_macro_releases_all(steps: Seq<MacroStep>, events: Seq<MacroEvent>, releases: Seq<u16>)
    requires
        schedule_of(steps, events, releases),
    ensures
        releases.to_set() == keys_down(events),
        keys_down(events).difference(releases.to_set()).is_empty(),
{
    lemma_keys_down_prefix(steps, events, releases, steps.len() as int);
    assert(events.take(events.len() as int) =~= events);
    assert(steps.take(steps.len() as int) =~= steps);
    assert(keys_down(events).difference(releases.to_set()) =~= Set::<u16>::empty());
}

/// How a macro plays: each step waits its delay (at most five seconds) and
/// sends its key edge where the key is known; afterwards every key the
/// macro left down is released, so no modifier stays held.
pub fn macro_schedule(steps: &Vec<MacroStep>) -> (r: (Vec<MacroEvent>, Vec<u16>))
    ensures
        schedule_of(steps@, r.0@, r.1@),
{
    let mut events: Vec<MacroEvent> = Vec::new();
    let mut held: Vec<u16> = Vec::new();
    let mut i: usize = 0;
    while i < steps.len()
        invariant
            i <= steps@.len(),
            events@.len() == i,
            forall|j: int|
                0 <= j < i ==> {
                    &&& (#[trigger] events@[j]).delay_ms == if steps@[j].delay_ms < 5000 {
                        steps@[j].delay_ms
                    } else {
                        5000
                    }
                    &&& events@[j].key == match crate::uinput::spec_keycode(steps@[j].key@) {
                        Some(c) => Some((c, if steps@[j].down {
                            1i32
                        } else {
                            0i32
                        })),
                        None => None,
                    }
                },
            held@.no_duplicates(),
            held@.to_set() == held_codes(steps@.take(i as int)),
        decreases steps@.len() - i,
    {
        let step = &steps[i];
        let delay = if step.delay_ms < 5000 {
            step.delay_ms
        } else {
            5000
        };
        proof {
            assert(steps@.take(i + 1).drop_last() =~= steps@.take(i as int));
        }
        let ghost h0 = held@;
        match crate::uinput::keycode(step.key.as_str()) {
            Some(code) => {
                let value: i32 = if step.down {
                    1
                } else {
                    0
                };
                events.push(MacroEvent { delay_ms: delay, key: Some((code, value)) });
                let mut pos: usize = 0;
                while pos < held.len() && held[pos] != code
                    invariant
                        pos <= held@.len(),
                        held@ == h0,
                        forall|q: int| 0 <= q < pos ==> held@[q] != code,
                    decreases held@.len() - pos,
                {
                    pos = pos + 1;
                }
                if step.down {
                    if pos == held.len() {
                        held.push(code);
                        assert(held@.to_set() =~= h0.to_set().insert(code)) by {
                            assert forall|x: u16| #[trigger] held@.contains(x) implies h0.contains(x) || x == code by {
                                let k = choose|k: int| 0 <= k < held@.len() && held@[k] == x;
                                if k < h0.len() {
                                    assert(h0[k] == x);
                                }
                            }
                            assert forall|x: u16| #[trigger] h0.contains(x) implies held@.contains(x) by {
                                let k = choose|k: int| 0 <= k < h0.len() && h0[k] == x;
                                assert(held@[k] == x);
                            }
                            assert(held@[h0.len() as int] == code);
                        }
                    } else {
                        assert(h0.to_set() =~= h0.to_set().insert(code)) by {
                            assert(h0[pos as int] == code);
                        }
                    }
                } else {
                    if pos < held.len() {
                        held.remove(pos);
                        proof {
                            let nh = held@;
                            h0.remove_ensures(pos as int);
                            assert(nh =~= h0.remove(pos as int));
                            assert forall|a: int, b: int| 0 <= a < b < nh.len() implies nh[a] != nh[b] by {
                                let oa = if a < pos { a } else { a + 1 };
                                let ob = if b < pos { b } else { b + 1 };
                                assert(nh[a] == h0[oa]);
                                assert(nh[b] == h0[ob]);
                            }
                            assert forall|x: u16| #[trigger] nh.contains(x) == (h0.contains(x) && x != code) by {
                                if nh.contains(x) {
                                    let m = choose|m: int| 0 <= m < nh.len() && nh[m] == x;
                                    let om = if m < pos { m } else { m + 1 };
                                    assert(h0[om] == x);
                                    assert(h0[om] != h0[pos as int]);
                                }
                                if h0.contains(x) && x != code {
                                    let m = choose|m: int| 0 <= m < h0.len() && h0[m] == x;
                                    if m < pos {
                                        assert(nh[m] == x);
                                    } else {
                                        assert(nh[m - 1] == x);
                                    }
                                }
                            }
                            assert(nh.to_set() =~= h0.to_set().remove(code));
                        }
                    } else {
                        assert(h0.to_set() =~= h0.to_set().remove(code)) by {
                            assert(!h0.contains(code));
                        }
                    }
                }
            },
            None => {
                events.push(MacroEvent { delay_ms: delay, key: None });
            },
        }
        i = i + 1;
    }
    assert(steps@.take(steps@.len() as int) =~= steps@);
    (events, held)
}

/// `now - then` in milliseconds, zero where `then` is later (a clock that
/// does not go back gives no such case).
pub open spec fn elapsed(now: u64, then: u64) -> u64 {
    if now >= then {
        (now - then) as u64
    } else {
        0
    }
}

/// The recent edges still worth keeping at `now`: those seen within the
/// last two seconds.
pub open spec fn fresh_edges(m: Map<(Seq<char>, bool), u64>, now: u64) -> Map<(Seq<char>, bool), u64> {
    Map::new(|s: (Seq<char>, bool)| m.dom().contains(s) && elapsed(now, m[s]) < 2000, |s: (Seq<char>, bool)| m[s])
}

proof fn lemma_recent_at(v: Seq<RecentEdge>, i: int)
    requires
        edge_sigs(v).no_duplicates(),
        0 <= i < v.len(),
    ensures
        recent_map(v).dom().contains((v[i].key@, v[i].down)),
        recent_map(v)[(v[i].key@, v[i].down)] == v[i].at_ms,
{
    let s = (v[i].key@, v[i].down);
    assert(edge_sigs(v)[i] == s);
    let j = edge_sigs(v).index_of(s);
    assert(edge_sigs(v)[j] == s);
    assert(i == j);
}

/// Whether the edge `key`/`down` was seen less than `window` ms ago.
fn seen_within(v: &Vec<RecentEdge>, key: &str, down: bool, now: u64, window: u64) -> (r: bool)
    requires
        edge_sigs(v@).no_duplicates(),
    ensures
        r == (recent_map(v@).dom().contains((key@, down)) && elapsed(
            now,
            recent_map(v@)[(key@, down)],
        ) < window),
{
    let k = chars_of(key);
    let mut i: usize = 0;
    while i < v.len()
        invariant
            i <= v@.len(),
            k@ == key@,
            edge_sigs(v@).no_duplicates(),
            forall|j: int| 0 <= j < i ==> edge_sigs(v@)[j] != (key@, down),
        decreases v@.len() - i,
    {
        if v[i].down == down && chars_eq(&chars_of(v[i].key.as_str()), &k) {
            proof {
                lemma_recent_at(v@, i as int);
            }
            return now.saturating_sub(v[i].at_ms) < window;
        }
        i = i + 1;
    }
    proof {
        if recent_map(v@).dom().contains((key@, down)) {
            let j = choose|j: int| 0 <= j < edge_sigs(v@).len() && edge_sigs(v@)[j] == (key@, down);
            assert(edge_sigs(v@)[j] == (key@, down));
        }
    }
    false
}

/// Notes the edge `key`/`down` as seen at `now` and forgets edges older
/// than two seconds.
fn note_edge(v: &mut Vec<RecentEdge>, key: &String, down: bool, now: u64)
    requires
        edge_sigs(old(v)@).no_duplicates(),
    ensures
        edge_sigs(final(v)@).no_duplicates(),
        recent_map(final(v)@) == fresh_edges(recent_map(old(v)@).insert((key@, down), now), now),
{
    let k = chars_of(key.as_str());
    let mut out: Vec<RecentEdge> = Vec::new();
    let ghost ov = v@;
    let ghost sig = (key@, down);
    let mut i: usize = 0;
    while i < v.len()
        invariant
            i <= v@.len(),
            v@ == ov,
            k@ == key@,
            sig == (key@, down),
            edge_sigs(ov).no_duplicates(),
            edge_sigs(out@).no_duplicates(),
            forall|j: int|
                0 <= j < out@.len() ==> exists|m: int|
                    0 <= m < i && #[trigger] out@[j] == ov[m],
            forall|m: int|
                0 <= m < i ==> (edge_sigs(ov)[m] != sig && elapsed(now, ov[m].at_ms) < 2000)
                    == edge_sigs(out@).contains(#[trigger] edge_sigs(ov)[m]),
            forall|j: int| 0 <= j < out@.len() ==> edge_sigs(out@)[j] != sig && elapsed(now, (#[trigger] out@[j]).at_ms) < 2000,
        decreases v@.len() - i,
    {
        let e = &v[i];
        let same = e.down == down && chars_eq(&chars_of(e.key.as_str()), &k);
        proof {
            assert(same == (edge_sigs(ov)[i as int] == sig));
        }
        if !same && now.saturating_sub(e.at_ms) < 2000 {
            let ghost o0 = out@;
            out.push(RecentEdge { key: e.key.clone(), down: e.down, at_ms: e.at_ms });
            proof {
                assert(out@[o0.len() as int] == ov[i as int]);
                assert(edge_sigs(out@) =~= edge_sigs(o0).push(edge_sigs(ov)[i as int]));
                assert(!edge_sigs(o0).contains(edge_sigs(ov)[i as int])) by {
                    if edge_sigs(o0).contains(edge_sigs(ov)[i as int]) {
                        let j = choose|j: int| 0 <= j < o0.len() && edge_sigs(o0)[j] == edge_sigs(ov)[i as int];
                        let m = choose|m: int| 0 <= m < i && o0[j] == ov[m];
                        assert(edge_sigs(ov)[m] == edge_sigs(ov)[i as int]);
                    }
                }
                assert forall|m: int|
                    0 <= m < i + 1 implies (edge_sigs(ov)[m] != sig && elapsed(now, ov[m].at_ms) < 2000)
                        == edge_sigs(out@).contains(#[trigger] edge_sigs(ov)[m]) by {
                    if m < i {
                        assert(edge_sigs(ov)[m] != edge_sigs(ov)[i as int]);
                        if edge_sigs(o0).contains(edge_sigs(ov)[m]) {
                            let j = choose|j: int| 0 <= j < o0.len() && edge_sigs(o0)[j] == edge_sigs(ov)[m];
                            assert(edge_sigs(out@)[j] == edge_sigs(ov)[m]);
                        }
                    } else {
                        assert(edge_sigs(out@)[o0.len() as int] == edge_sigs(ov)[m]);
                    }
                }
                assert forall|j: int|
                    0 <= j < out@.len() implies exists|m: int| 0 <= m < i + 1 && #[trigger] out@[j] == ov[m] by {
                    if j < o0.len() {
                        let m = choose|m: int| 0 <= m < i && o0[j] == ov[m];
                        assert(out@[j] == ov[m]);
                    } else {
                        assert(out@[j] == ov[i as int]);
                    }
                }
            }
        } else {
            proof {
                assert forall|m: int|
                    0 <= m < i + 1 implies (edge_sigs(ov)[m] != sig && elapsed(now, ov[m].at_ms) < 2000)
                        == edge_sigs(out@).contains(#[trigger] edge_sigs(ov)[m]) by {
                    if m == i && edge_sigs(out@).contains(edge_sigs(ov)[m]) {
                        let j = choose|j: int| 0 <= j < out@.len() && edge_sigs(out@)[j] == edge_sigs(ov)[m];
                        let q = choose|q: int| 0 <= q < i && out@[j] == ov[q];
                        assert(edge_sigs(ov)[q] == edge_sigs(ov)[m]);
                    }
                }
            }
        }
        i = i + 1;
    }
    let ghost o1 = out@;
    out.push(RecentEdge { key: key.clone(), down, at_ms: now });
    proof {
        let m0 = recent_map(ov);
        let target = fresh_edges(m0.insert(sig, now), now);
        let nv = out@;
        assert(edge_sigs(nv) =~= edge_sigs(o1).push(sig));
        assert(!edge_sigs(o1).contains(sig)) by {
            if edge_sigs(o1).contains(sig) {
                let j = choose|j: int| 0 <= j < o1.len() && edge_sigs(o1)[j] == sig;
                assert(o1[j] == nv[j]);
            }
        }
        assert(edge_sigs(nv).no_duplicates()) by {
            assert forall|a: int, b: int| 0 <= a < b < nv.len() implies edge_sigs(nv)[a] != edge_sigs(nv)[b] by {
                if b == o1.len() {
                    assert(edge_sigs(o1)[a] == edge_sigs(nv)[a]);
                } else {
                    assert(edge_sigs(o1)[a] == edge_sigs(nv)[a]);
                    assert(edge_sigs(o1)[b] == edge_sigs(nv)[b]);
                }
            }
        }
        assert forall|s: (Seq<char>, bool)| #[trigger] recent_map(nv).dom().contains(s) == target.dom().contains(s) by {
            if recent_map(nv).dom().contains(s) && s != sig {
                let j = choose|j: int| 0 <= j < edge_sigs(nv).len() && edge_sigs(nv)[j] == s;
                assert(j < o1.len());
                let m = choose|m: int| 0 <= m < ov.len() && o1[j] == ov[m];
                assert(edge_sigs(ov)[m] == s);
                lemma_recent_at(ov, m);
                assert(nv[j] == o1[j]);
            }
            if target.dom().contains(s) && s != sig {
                let m = choose|m: int| 0 <= m < edge_sigs(ov).len() && edge_sigs(ov)[m] == s;
                lemma_recent_at(ov, m);
                assert(edge_sigs(o1).contains(edge_sigs(ov)[m]));
                let j = choose|j: int| 0 <= j < o1.len() && edge_sigs(o1)[j] == s;
                assert(edge_sigs(nv)[j] == s);
            }
            if s == sig {
                assert(edge_sigs(nv)[o1.len() as int] == s);
            }
        }
        assert forall|s: (Seq<char>, bool)| #[trigger] recent_map(nv).dom().contains(s) implies recent_map(nv)[s] == target[s] by {
            let j = choose|j: int| 0 <= j < edge_sigs(nv).len() && edge_sigs(nv)[j] == s;
            lemma_recent_at(nv, j);
            if s != sig {
                assert(j < o1.len());
                let m = choose|m: int| 0 <= m < ov.len() && o1[j] == ov[m];
                lemma_recent_at(ov, m);
                assert(nv[j] == o1[j]);
            } else {
                assert(j == o1.len());
            }
        }
        assert(recent_map(nv) =~= target);
    }
    *v = out;
}

/// The steps a bank stores for the control `t`; none where it has no macro.
pub open spec fn steps_of(b: Bank, t: Seq<char>) -> Seq<MacroStep> {
    if b.macros.map().dom().contains(t) {
        b.macros.map()[t]@
    } else {
        Seq::empty()
    }
}

/// The delay recorded before an edge at `now`: the time since the previous
/// recorded edge, at most five seconds; zero for the first.
pub open spec fn step_delay(last: Option<u64>, now: u64) -> u64 {
    match last {
        Some(l) => if elapsed(now, l) < 5000 {
            elapsed(now, l)
        } else {
            5000
        },
        None => 0,
    }
}

/// The longest macro the recorder builds.
pub open spec fn max_macro_steps() -> nat {
    4096
}

fn delay_since(last: Option<u64>, now: u64) -> (r: u64)
    ensures
        r == step_delay(last, now),
{
    match last {
        Some(l) => {
            let d = now.saturating_sub(l);
            if d < 5000 {
                d
            } else {
                5000
            }
        },
        None => 0,
    }
}

/// Nothing that recording looks at changed: the profile, the recording
/// fields and the recorder of `f` are those of `o`.
pub open spec fn same_record_state(f: Shared, o: Shared) -> bool {
    &&& f.profile == o.profile
    &&& same_recording(f.reply, o.reply)
    &&& same_recorder(f, o)
    &&& same_status(f.reply, o.reply)
    &&& f.detected_center_x == o.detected_center_x
    &&& f.detected_center_y == o.detected_center_y
}

/// What `record_key_event` did, up to the fields of the reply that mirror
/// the profile: `f` is `o` after the key edge `key`/`down` reached the
/// recorder at `now`, and `r` whether a step was appended.
pub open spec fn recorded(f: Shared, o: Shared, key: Seq<char>, down: bool, now: u64, r: bool) -> bool {
    let sig = (key, down);
    if !(o.reply.recording && o.reply.record_target is Some && crate::uinput::spec_keycode(
        key,
    ) is Some) {
        !r && same_record_state(f, o)
    } else if recent_map(o.rec_recent@).dom().contains(sig) && elapsed(
        now,
        recent_map(o.rec_recent@)[sig],
    ) < 30 {
        !r && same_record_state(f, o)
    } else {
        let t = o.reply.record_target->0@;
        let changed = down != o.held().contains(key);
        let old_steps = steps_of(o.active_bank(), t);
        &&& recent_map(f.rec_recent@) == fresh_edges(
            recent_map(o.rec_recent@).insert(sig, now),
            now,
        )
        &&& f.detected_center_x == o.detected_center_x
        &&& f.detected_center_y == o.detected_center_y
        &&& f.reply.recording == o.reply.recording
        &&& f.reply.record_target == o.reply.record_target
        &&& same_status(f.reply, o.reply)
        &&& if !changed {
            &&& !r
            &&& f.rec_down@ == o.rec_down@
            &&& f.rec_last == o.rec_last
            &&& f.profile == o.profile
            &&& same_recording(f.reply, o.reply)
        } else {
            &&& f.held() == pressed_after(o.held(), key, down)
            &&& f.rec_last == Some(now)
            &&& r == (old_steps.len() < max_macro_steps())
            &&& if r {
                let n = old_steps.len();
                let fs = steps_of(f.active_bank(), t);
                &&& only_active_bank_changed(f.profile, o.profile)
                &&& f.active_bank().bindings == o.active_bank().bindings
                &&& f.active_bank().macros.map().remove(t) == o.active_bank().macros.map().remove(t)
                &&& f.active_bank().macros.map().dom().contains(t)
                &&& fs.len() == n + 1
                &&& fs.take(n as int) == old_steps
                &&& fs[n as int].key@ == key
                &&& fs[n as int].down == down
                &&& fs[n as int].delay_ms == step_delay(o.rec_last, now)
                &&& f.reply.record_preview@ == o.reply.record_preview@.push(fs[n as int])
                &&& synced(f)
            } else {
                &&& f.profile == o.profile
                &&& same_recording(f.reply, o.reply)
            }
        }
    }
}

/// A key edge reached the recorder. It is taken when a recording with a
/// destination runs, the key is known, the same edge did not come in the
/// last 30 ms (the two capture paths may both deliver it), and it changes
/// which keys are held; then it is appended, with its delay, to the
/// destination's macro in the active bank and to the preview, as long as
/// the macro holds fewer than 4096 steps. Gives whether a step was
/// appended.
pub fn record_key_event(sh: &mut Shared, key: String, down: bool, now: u64) -> (r: bool)
    requires
        old(sh).wf(),
    ensures
        final(sh).wf(),
        recorded(*final(sh), *old(sh), key@, down, now, r),
        !r ==> final(sh).reply == old(sh).reply,
{
    let target = match &sh.reply.record_target {
        Some(t) => t.clone(),
        None => {
            return false;
        },
    };
    if !sh.reply.recording || crate::uinput::keycode(key.as_str()).is_none() {
        return false;
    }
    if seen_within(&sh.rec_recent, key.as_str(), down, now, 30) {
        return false;
    }
    note_edge(&mut sh.rec_recent, &key, down, now);
    let changed = if down {
        set_insert(&mut sh.rec_down, key.as_str())
    } else {
        set_remove(&mut sh.rec_down, key.as_str())
    };
    if !changed {
        return false;
    }
    let delay = delay_since(sh.rec_last, now);
    sh.rec_last = Some(now);
    let full = match sh.profile.bank().macros.get(target.as_str()) {
        Some(v) => v.len() >= 4096,
        None => false,
    };
    if full {
        return false;
    }
    let ghost ob = sh.active_bank();
    let bank = sh.profile.bank_mut();
    let taken = bank.macros.remove(target.as_str());
    let mut steps = match taken {
        Some(v) => v,
        None => Vec::new(),
    };
    let ghost n = steps@.len();
    steps.push(MacroStep { key: key.clone(), down, delay_ms: delay });
    let ghost pushed = steps@;
    bank.macros.insert(target, steps);
    sh.reply.record_preview.push(MacroStep { key, down, delay_ms: delay });
    proof {
        assert(pushed.take(n as int) =~= steps_of(ob, target@));
        assert(sh.active_bank().macros.map().remove(target@) =~= ob.macros.map().remove(target@));
    }
    sync_profile_reply(sh);
    true
}

/// The steps that end a recording while keys are still held: one release
/// per held key, in ascending order of key name, the first after the time
/// since the last recorded edge (at most five seconds), the others at once.
pub open spec fn release_tail(tail: Seq<MacroStep>, held: Seq<Seq<char>>, first_delay: u64) -> bool {
    let keys = tail.map_values(|m: MacroStep| m.key@);
    &&& tail.len() == held.len()
    &&& strictly_sorted(keys)
    &&& keys.to_set() == held.to_set()
    &&& forall|i: int|
        0 <= i < tail.len() ==> !(#[trigger] tail[i]).down && tail[i].delay_ms == if i == 0 {
            first_delay
        } else {
            0
        }
}

/// What `finish_recording` did: `f` is `o` once the session ended at
/// `now`, and `r` whether the profile needs saving.
pub open spec fn finish_effect(f: Shared, o: Shared, now: u64, persist: bool, r: bool) -> bool {
    &&& f.wf()
    &&& r == (persist && o.reply.record_target is Some)
    &&& !f.reply.recording
    &&& f.reply.record_target is None
    &&& f.reply.record_preview@.len() == 0
    &&& recorder_cleared(f)
    &&& synced(f)
    &&& same_status(f.reply, o.reply)
    &&& f.detected_center_x == o.detected_center_x
    &&& f.detected_center_y == o.detected_center_y
    &&& if o.reply.record_target is Some && o.rec_down@.len() > 0 {
        let t = o.reply.record_target->0@;
        let old_steps = steps_of(o.active_bank(), t);
        let fs = steps_of(f.active_bank(), t);
        &&& only_active_bank_changed(f.profile, o.profile)
        &&& f.active_bank().bindings == o.active_bank().bindings
        &&& f.active_bank().macros.map().remove(t) == o.active_bank().macros.map().remove(t)
        &&& f.active_bank().macros.map().dom().contains(t)
        &&& fs.len() >= old_steps.len()
        &&& fs.take(old_steps.len() as int) == old_steps
        &&& release_tail(
            fs.skip(old_steps.len() as int),
            views(o.rec_down@),
            step_delay(o.rec_last, now),
        )
    } else {
        f.profile == o.profile
    }
}

/// Ends the recording session. Keys still held get release steps on the
/// destination's macro; the session state is cleared in full. Gives whether
/// the profile needs saving: `persist` asked for it and there was a
/// destination.
pub fn finish_recording(sh: &mut Shared, now: u64, persist: bool) -> (r: bool)
    requires
        old(sh).wf(),
    ensures
        finish_effect(*final(sh), *old(sh), now, persist, r),
{
    let saved = match &sh.reply.record_target {
        Some(target) => {
            let target = target.clone();
            let held = sort_distinct(&sh.rec_down);
            if held.len() > 0 {
                let first = delay_since(sh.rec_last, now);
                let ghost ob = sh.active_bank();
                let bank = sh.profile.bank_mut();
                let mut steps = match bank.macros.remove(target.as_str()) {
                    Some(v) => v,
                    None => Vec::new(),
                };
                let ghost base = steps@;
                let mut i: usize = 0;
                while i < held.len()
                    invariant
                        i <= held@.len(),
                        steps@.len() == base.len() + i,
                        steps@.take(base.len() as int) == base,
                        forall|j: int|
                            0 <= j < i ==> {
                                &&& (#[trigger] steps@[base.len() + j]).key@ == held@[j]@
                                &&& !steps@[base.len() + j].down
                                &&& steps@[base.len() + j].delay_ms == if j == 0 {
                                    first
                                } else {
                                    0
                                }
                            },
                    decreases held@.len() - i,
                {
                    let d: u64 = if i == 0 {
                        first
                    } else {
                        0
                    };
                    let ghost s0 = steps@;
                    steps.push(MacroStep { key: held[i].clone(), down: false, delay_ms: d });
                    proof {
                        assert(steps@.take(base.len() as int) =~= s0.take(base.len() as int));
                        assert forall|j: int| 0 <= j < i implies #[trigger] steps@[base.len() + j] == s0[base.len() + j] by {}
                    }
                    i = i + 1;
                }
                let ghost fin = steps@;
                bank.macros.insert(target, steps);
                proof {
                    let tail = fin.skip(base.len() as int);
                    let keys = tail.map_values(|m: MacroStep| m.key@);
                    assert forall|j: int| 0 <= j < held@.len() implies #[trigger] keys[j] == views(held@)[j] by {
                        assert(tail[j] == fin[base.len() + j]);
                    }
                    assert(keys =~= views(held@));
                    assert forall|j: int| 0 <= j < tail.len() implies !(#[trigger] tail[j]).down && tail[j].delay_ms == if j == 0 {
                        first
                    } else {
                        0
                    } by {
                        assert(tail[j] == fin[base.len() + j]);
                    }
                    assert(base =~= steps_of(ob, target@));
                }
            }
            persist
        },
        None => false,
    };
    sh.reply.recording = false;
    sh.reply.record_target = None;
    sh.reply.record_preview = Vec::new();
    sh.rec_last = None;
    sh.rec_down = Vec::new();
    sh.rec_recent = Vec::new();
    sync_profile_reply(sh);
    assert(views(sh.rec_down@) =~= Seq::<Seq<char>>::empty());
    assert(edge_sigs(sh.rec_recent@) =~= Seq::<(Seq<char>, bool)>::empty());
    proof {
        let o = *old(sh);
        let f = *sh;
        if o.reply.record_target is Some && o.rec_down@.len() > 0 {
            let t = o.reply.record_target->0@;
            let old_steps = steps_of(o.active_bank(), t);
            let fs = steps_of(f.active_bank(), t);
            assert(only_active_bank_changed(f.profile, o.profile));
            assert(f.active_bank().bindings == o.active_bank().bindings);
            assert(f.active_bank().macros.map().remove(t) == o.active_bank().macros.map().remove(t));
            assert(f.active_bank().macros.map().dom().contains(t));
            assert(fs.len() >= old_steps.len());
            assert(fs.take(old_steps.len() as int) == old_steps);
            assert(release_tail(
                fs.skip(old_steps.len() as int),
                views(o.rec_down@),
                step_delay(o.rec_last, now),
            ));
        } else {
            assert(f.profile == o.profile);
        }
    }
    saved
}

/// The MR key: stops a running recording (which then needs saving) or
/// starts a new one. Gives whether a recording runs afterwards and whether
/// the profile needs saving.
pub fn toggle_recording(sh: &mut Shared, now: u64) -> (r: (bool, bool))
    requires
        old(sh).wf(),
    ensures
        final(sh).wf(),
        r.0 == !old(sh).reply.recording,
        r.1 == old(sh).reply.recording,
        if old(sh).reply.recording {
            finish_effect(*final(sh), *old(sh), now, false, false)
        } else {
            start_effect(*final(sh), *old(sh))
        },
{
    if sh.reply.recording {
        finish_recording(sh, now, false);
        (false, true)
    } else {
        start_recording(sh);
        (true, false)
    }
}

/// The outside work a request leaves for the daemon, done in this order:
/// save the profile, set the backlight color, apply the visuals (colour,
/// bank and MR LEDs, LCD), redraw the LCD, list the profiles again.
#[derive(Debug, Clone, Copy, PartialEq, Eq, Structural)]
pub struct Effects {
    pub save: bool,
    pub set_rgb: bool,
    pub apply_visuals: bool,
    pub refresh_lcd: bool,
    pub refresh_profiles: bool,
}

pub open spec fn fx(save: bool, set_rgb: bool, apply_visuals: bool, refresh_lcd: bool, refresh_profiles: bool) -> Effects {
    Effects { save, set_rgb, apply_visuals, refresh_lcd, refresh_profiles }
}

/// The requests that need the profile store first; `profile_outcome`
/// takes their result. `Status` is answered from the status cache.
pub open spec fn is_store_request(req: Request) -> bool {
    match req {
        Request::Status | Request::Reload | Request::LoadProfile { .. } | Request::SaveProfileAs {
            ..
        } | Request::RenameProfile { .. } | Request::DeleteProfile => true,
        _ => false,
    }
}

/// Carries out a request that needs nothing from outside, and gives what
/// the daemon must do next.
pub fn handle_request(sh: &mut Shared, req: Request, now: u64) -> (e: Effects)
    requires
        old(sh).wf(),
        !is_store_request(req),
    ensures
        final(sh).wf(),
        synced(*final(sh)),
        reply_agrees(final(sh).reply, final(sh).profile),
        same_status(final(sh).reply, old(sh).reply),
        final(sh).detected_center_x == old(sh).detected_center_x,
        final(sh).detected_center_y == old(sh).detected_center_y,
        ({
            let o = *old(sh);
            let f = *final(sh);
            let p = f.profile;
            let q = o.profile;
            let kept = same_recording(f.reply, o.reply) && same_recorder(f, o);
            match req {
                Request::SetColor { rgb } => e == fx(true, true, false, false, false) && p == (
                Profile { color: rgb, ..q }) && kept,
                Request::SetDeadzone { value } => e == fx(true, false, false, false, false) && p == (
                Profile { deadzone: value, ..q }) && kept,
                Request::SetJoystickCenter { x, y } => e == fx(true, false, false, false, false)
                    && p == (Profile { joystick_center_x: x, joystick_center_y: y, ..q }) && kept,
                Request::SetBinding { key, action } => {
                    let b = f.active_bank();
                    let ob = o.active_bank();
                    &&& e == fx(true, false, false, false, false)
                    &&& only_active_bank_changed(p, q)
                    &&& b.macros.map() == ob.macros.map().remove(key@)
                    &&& if crate::text::trim(action@).len() == 0 {
                        b.bindings.map() == ob.bindings.map().remove(key@)
                    } else {
                        b.bindings.map() == ob.bindings.map().insert(key@, action)
                    }
                    &&& same_recording(f.reply, o.reply)
                    &&& same_recorder(f, o)
                },
                Request::SetBank { bank } => {
                    let ok = 1 <= bank <= 3 && o.reply.record_target is None;
                    &&& e == fx(ok, false, ok, false, false)
                    &&& p == (Profile {
                        active_bank: if ok {
                            bank
                        } else {
                            q.active_bank
                        },
                        ..q
                    })
                    &&& same_recording(f.reply, o.reply)
                    &&& same_recorder(f, o)
                },
                Request::SetLcdEnabled { enabled } => e == fx(true, false, false, true, false)
                    && p == (Profile { lcd_enabled: enabled, ..q }) && kept,
                Request::SetLcdPage { page } => e == fx(true, false, false, true, false) && p == (
                Profile { lcd_page: page % 4, ..q }) && kept,
                Request::SetLcdLines { lines } => e == fx(true, false, false, true, false) && p == (
                Profile { lcd_lines: lines, ..q }) && kept,
                Request::SetLcdAlign { align } => e == fx(true, false, false, true, false) && p == (
                Profile { lcd_align: align, ..q }) && kept,
                Request::SetLcdImage { path } => e == fx(true, false, false, true, false) && p == (
                Profile { lcd_image_path: path, ..q }) && kept,
                Request::SetLcdImageTransform => e == fx(true, false, false, true, false) && p
                    == q && same_recording(f.reply, o.reply) && same_recorder(f, o),
                Request::LcdRefresh => e == fx(false, false, false, true, false) && p == q
                    && same_recording(f.reply, o.reply) && same_recorder(f, o),
                Request::RecordToggle => {
                    &&& e == fx(o.reply.recording && o.reply.record_target is Some, false, true, false, false)
                    &&& if o.reply.recording {
                        finish_effect(f, o, now, true, e.save)
                    } else {
                        start_effect(f, o)
                    }
                },
                Request::RecordTarget { key } => if can_arm(o, key@) {
                    e == fx(true, false, false, true, false) && arm_effect(f, o, key@)
                } else {
                    e == fx(false, false, false, false, false) && p == q && same_recording(
                        f.reply,
                        o.reply,
                    ) && same_recorder(f, o)
                },
                Request::RecordEvent { key, down } => e == fx(false, false, false, false, false)
                    && exists|r: bool| recorded(f, o, key@, down, now, r),
                _ => true,
            }
        }),
{
    let none = Effects {
        save: false,
        set_rgb: false,
        apply_visuals: false,
        refresh_lcd: false,
        refresh_profiles: false,
    };
    let save_only = Effects { save: true, ..none };
    let save_lcd = Effects { save: true, refresh_lcd: true, ..none };
    let ghost mut rec_event = false;
    let ghost mut rec_key = Seq::<char>::empty();
    let ghost mut rec_down = false;
    let ghost mut rec_r = false;
    let e = match req {
        Request::SetColor { rgb } => {
            sh.profile.color = rgb;
            Effects { save: true, set_rgb: true, ..none }
        },
        Request::SetDeadzone { value } => {
            sh.profile.deadzone = value;
            save_only
        },
        Request::SetJoystickCenter { x, y } => {
            sh.profile.joystick_center_x = x;
            sh.profile.joystick_center_y = y;
            save_only
        },
        Request::SetBinding { key, action } => {
            let blank = crate::text::trim_chars(&chars_of(action.as_str())).len() == 0;
            let bank = sh.profile.bank_mut();
            bank.macros.remove(key.as_str());
            if blank {
                bank.bindings.remove(key.as_str());
            } else {
                bank.bindings.insert(key, action);
            }
            save_only
        },
        Request::SetBank { bank } => {
            if 1 <= bank && bank <= 3 && sh.reply.record_target.is_none() {
                sh.profile.active_bank = bank;
                Effects { save: true, apply_visuals: true, ..none }
            } else {
                none
            }
        },
        Request::SetLcdEnabled { enabled } => {
            sh.profile.lcd_enabled = enabled;
            save_lcd
        },
        Request::SetLcdPage { page } => {
            sh.profile.lcd_page = page % 4;
            save_lcd
        },
        Request::SetLcdLines { lines } => {
            sh.profile.lcd_lines = lines;
            save_lcd
        },
        Request::SetLcdAlign { align } => {
            sh.profile.lcd_align = align;
            save_lcd
        },
        Request::SetLcdImage { path } => {
            sh.profile.lcd_image_path = path;
            save_lcd
        },
        Request::SetLcdImageTransform => save_lcd,
        Request::LcdRefresh => Effects { refresh_lcd: true, ..none },
        Request::RecordToggle => {
            let save = if sh.reply.recording {
                finish_recording(sh, now, true)
            } else {
                start_recording(sh);
                false
            };
            Effects { save, apply_visuals: true, ..none }
        },
        Request::RecordTarget { key } => {
            if arm_record_target(sh, key.as_str()) {
                save_lcd
            } else {
                none
            }
        },
        Request::RecordEvent { key, down } => {
            proof {
                rec_key = key@;
                rec_down = down;
                rec_event = true;
            }
            let r = record_key_event(sh, key, down, now);
            proof {
                rec_r = r;
            }
            none
        },
        _ => none,
    };
    let ghost before_sync = *sh;
    sync_profile_reply(sh);
    proof {
        if rec_event {
            assert(recorded(before_sync, *old(sh), rec_key, rec_down, now, rec_r));
            assert(recorded(*sh, *old(sh), rec_key, rec_down, now, rec_r));
        }
    }
    e
}

/// The store operations that replace the profile in use.
#[derive(Debug, Clone, Copy, PartialEq, Eq, Structural)]
pub enum ProfileOp {
    Reload,
    Load,
    SaveAs,
    Rename,
    Delete,
}

/// The message the daemon gives for a store operation: on success the
/// profile's name, on failure the requested name (for a load) or the
/// store's error.
pub open spec fn op_message(op: ProfileOp, ok: bool, detail: Seq<char>) -> Seq<char> {
    match op {
        ProfileOp::Reload => Seq::empty(),
        ProfileOp::Load => if ok {
            "profile loaded: "@ + detail
        } else {
            "profile not found: "@ + detail
        },
        ProfileOp::SaveAs => if ok {
            "profile saved: "@ + detail
        } else {
            "save profile failed: "@ + detail
        },
        ProfileOp::Rename => if ok {
            "profile renamed: "@ + detail
        } else {
            "rename profile failed: "@ + detail
        },
        ProfileOp::Delete => if ok {
            "profile loaded: "@ + detail
        } else {
            "delete profile failed: "@ + detail
        },
    }
}

/// Takes the result of a store operation: on success the profile it gave
/// replaces the one in use; `detail` is the requested name (load) or the
/// store's error (others) for a failure.
pub fn profile_outcome(sh: &mut Shared, op: ProfileOp, result: Option<Profile>, detail: &str) -> (e: Effects)
    requires
        old(sh).wf(),
    ensures
        final(sh).wf(),
        synced(*final(sh)),
        reply_agrees(final(sh).reply, final(sh).profile),
        same_recording(final(sh).reply, old(sh).reply),
        same_recorder(*final(sh), *old(sh)),
        final(sh).reply.ok == old(sh).reply.ok,
        final(sh).reply.connected == old(sh).reply.connected,
        final(sh).reply.x == old(sh).reply.x,
        final(sh).reply.y == old(sh).reply.y,
        final(sh).reply.pressed == old(sh).reply.pressed,
        final(sh).reply.lcd_ok == old(sh).reply.lcd_ok,
        final(sh).reply.profiles == old(sh).reply.profiles,
        match result {
            Some(p) => {
                &&& final(sh).profile == p
                &&& e == fx(false, false, true, false, op != ProfileOp::Reload)
                &&& op == ProfileOp::Reload ==> final(sh).reply.message == old(sh).reply.message
                &&& op != ProfileOp::Reload ==> final(sh).reply.message@ == op_message(op, true, p.name@)
            },
            None => {
                &&& final(sh).profile == old(sh).profile
                &&& e == fx(false, false, false, false, false)
                &&& op == ProfileOp::Reload ==> final(sh).reply.message == old(sh).reply.message
                &&& op != ProfileOp::Reload ==> final(sh).reply.message@ == op_message(op, false, detail@)
            },
        },
{
    let none = Effects {
        save: false,
        set_rgb: false,
        apply_visuals: false,
        refresh_lcd: false,
        refresh_profiles: false,
    };
    let e = match result {
        Some(p) => {
            sh.profile = p;
            let msg_prefix = match op {
                ProfileOp::Reload => "",
                ProfileOp::Load => "profile loaded: ",
                ProfileOp::SaveAs => "profile saved: ",
                ProfileOp::Rename => "profile renamed: ",
                ProfileOp::Delete => "profile loaded: ",
            };
            if op != ProfileOp::Reload {
                sh.reply.message = concat_str(msg_prefix, sh.profile.name.as_str());
            }
            Effects { apply_visuals: true, refresh_profiles: op != ProfileOp::Reload, ..none }
        },
        None => {
            let msg_prefix = match op {
                ProfileOp::Reload => "",
                ProfileOp::Load => "profile not found: ",
                ProfileOp::SaveAs => "save profile failed: ",
                ProfileOp::Rename => "rename profile failed: ",
                ProfileOp::Delete => "delete profile failed: ",
            };
            if op != ProfileOp::Reload {
                sh.reply.message = concat_str(msg_prefix, detail);
            }
            none
        },
    };
    sync_profile_reply(sh);
    e
}

/// Publishes the device state in the reply: connection, message, stick
/// position and the pressed controls in ascending order.
pub fn publish(sh: &mut Shared, pressed: &Vec<String>, x: u8, y: u8, connected: bool, message: &str)
    requires
        views(pressed@).no_duplicates(),
    ensures
        final(sh).reply.ok == connected,
        final(sh).reply.connected == connected,
        final(sh).reply.message@ == message@,
        final(sh).reply.x == x,
        final(sh).reply.y == y,
        strictly_sorted(views(final(sh).reply.pressed@)),
        views(final(sh).reply.pressed@).to_set() == views(pressed@).to_set(),
        final(sh).reply.pressed@.len() == pressed@.len(),
        final(sh).reply.lcd_ok == old(sh).reply.lcd_ok,
        final(sh).reply.profiles == old(sh).reply.profiles,
        same_recording(final(sh).reply, old(sh).reply),
        same_recorder(*final(sh), *old(sh)),
        final(sh).profile == old(sh).profile,
        synced(*final(sh)),
{
    let sorted = sort_distinct(pressed);
    sh.reply.ok = connected;
    sh.reply.message = String::from_str(message);
    sh.reply.connected = connected;
    sh.reply.x = x;
    sh.reply.y = y;
    sh.reply.pressed = sorted;
    sync_profile_reply(sh);
}

/// Whether the active bank binds `name` to keys or to a macro.
pub open spec fn spec_has_mapping(sh: Shared, name: Seq<char>) -> bool {
    sh.active_bank().bindings.map().dom().contains(name) || sh.active_bank().macros.map().dom().contains(
        name,
    )
}

pub fn has_mapping(sh: &Shared, name: &str) -> (r: bool)
    ensures
        r == spec_has_mapping(*sh, name@),
{
    let bank = sh.profile.bank();
    bank.bindings.contains_key(name) || bank.macros.contains_key(name)
}

/// The LCD's previous-page key undoes its next-page key, and the other way
/// round: on a page in 0..=3, LCD1 then LCD2 (or LCD5) comes back to it.
pub proof fn lemma_previous_then_next_page(s0: Shared, s1: Shared, s2: Shared, next: Seq<char>)
    requires
        s0.profile.lcd_page < 4,
        next == "KEY_KBD_LCD_MENU2"@ || next == "KEY_KBD_LCD_MENU5"@,
        lcd_key_effect(s1, s0, "KEY_KBD_LCD_MENU1"@, true),
        lcd_key_effect(s2, s1, next, true),
    ensures
        s2.profile.lcd_page == s0.profile.lcd_page,
        s2.profile.lcd_enabled == s0.profile.lcd_enabled,
{
    reveal_strlit("KEY_KBD_LCD_MENU1");
    reveal_strlit("KEY_KBD_LCD_MENU2");
    reveal_strlit("KEY_KBD_LCD_MENU5");
    assert("KEY_KBD_LCD_MENU2"@ != "KEY_KBD_LCD_MENU1"@) by {
        assert("KEY_KBD_LCD_MENU2"@[16] != "KEY_KBD_LCD_MENU1"@[16]);
    }
    assert("KEY_KBD_LCD_MENU5"@ != "KEY_KBD_LCD_MENU1"@) by {
        assert("KEY_KBD_LCD_MENU5"@[16] != "KEY_KBD_LCD_MENU1"@[16]);
    }
}

/// A recording started and stopped again before any control became its
/// destination leaves the profile as it was, and the recorder idle.
pub proof fn lemma_empty_recording_keeps_profile(s0: Shared, s1: Shared, s2: Shared, now: u64, persist: bool, saved: bool)
    requires
        start_effect(s1, s0),
        finish_effect(s2, s1, now, persist, saved),
    ensures
        s2.profile == s0.profile,
        !s2.reply.recording,
        s2.reply.record_target is None,
        recorder_cleared(s2),
        !saved,
{
}

} // verus!
