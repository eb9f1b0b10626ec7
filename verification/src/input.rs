//! The G13's controls as the kernel's evdev nodes report them: the event
//! codes, the control names the daemon gives them, the byte layout of an
//! input event, and the choice of nodes among those the system lists.
use vstd::prelude::*;
use crate::text::{
    chars_eq, chars_of, concat_chars, concat_str, decimal, decimal_chars, digit, has_prefix,
    lemma_small_decimal, lower_all,
    lower_chars, sorted_set, starts_with, strictly_sorted, trim, trim_chars, views,
};

verus! {

pub const EV_KEY: u16 = 0x01;
pub const EV_ABS: u16 = 0x03;
pub const ABS_X: u16 = 0x00;
pub const ABS_Y: u16 = 0x01;

pub const KEY_LIGHTS_TOGGLE: u16 = 0x21e;

pub const BTN_THUMB: u16 = 0x121;
pub const BTN_BASE: u16 = 0x126;
pub const BTN_BASE2: u16 = 0x127;

pub const KEY_MACRO1: u16 = 0x290;
pub const KEY_MACRO22: u16 = 0x2a5;
pub const KEY_MACRO_RECORD_START: u16 = 0x2b0;
pub const KEY_MACRO_PRESET1: u16 = 0x2b3;
pub const KEY_MACRO_PRESET2: u16 = 0x2b4;
pub const KEY_MACRO_PRESET3: u16 = 0x2b5;
pub const KEY_KBD_LCD_MENU1: u16 = 0x2b8;
pub const KEY_KBD_LCD_MENU4: u16 = 0x2bb;
pub const KEY_KBD_LCD_MENU5: u16 = 0x2bc;

/// Which of the G13's two evdev devices a node is.
#[derive(Debug, Clone, Copy, PartialEq, Eq, Structural)]
pub enum DeviceKind {
    Keypad,
    Thumbstick,
}

/// The control name of a key code of the G13: `G1` to `G22`, the M and MR
/// keys, the LCD menu keys, the lighting key and the three stick buttons.
pub open spec fn spec_key_control(code: u16) -> Option<Seq<char>> {
    if KEY_MACRO1 <= code <= KEY_MACRO22 {
        Some("G"@ + decimal((code - KEY_MACRO1 + 1) as nat))
    } else if code == KEY_LIGHTS_TOGGLE {
        Some("KEY_LIGHTS_TOGGLE"@)
    } else if code == KEY_MACRO_PRESET1 {
        Some("KEY_MACRO_PRESET1"@)
    } else if code == KEY_MACRO_PRESET2 {
        Some("KEY_MACRO_PRESET2"@)
    } else if code == KEY_MACRO_PRESET3 {
        Some("KEY_MACRO_PRESET3"@)
    } else if code == KEY_MACRO_RECORD_START {
        Some("KEY_MACRO_RECORD_START"@)
    } else if KEY_KBD_LCD_MENU1 <= code <= KEY_KBD_LCD_MENU5 {
        Some("KEY_KBD_LCD_MENU"@ + decimal((code - KEY_KBD_LCD_MENU1 + 1) as nat))
    } else if code == BTN_BASE {
        Some("BTN_BASE"@)
    } else if code == BTN_BASE2 {
        Some("BTN_BASE2"@)
    } else if code == BTN_THUMB {
        Some("BTN_THUMB"@)
    } else {
        None
    }
}

/// The control name of a key code, or `None` for a code that is not one of
/// the G13's controls.
pub fn key_control(code: u16) -> (r: Option<String>)
    ensures
        match r {
            Some(s) => spec_key_control(code) == Some(s@),
            None => spec_key_control(code) is None,
        },
{
    if KEY_MACRO1 <= code && code <= KEY_MACRO22 {
        return Some(concat_chars("G", &decimal_chars((code - KEY_MACRO1 + 1) as u64)));
    }
    if code == KEY_LIGHTS_TOGGLE {
        Some(String::from_str("KEY_LIGHTS_TOGGLE"))
    } else if code == KEY_MACRO_PRESET1 {
        Some(String::from_str("KEY_MACRO_PRESET1"))
    } else if code == KEY_MACRO_PRESET2 {
        Some(String::from_str("KEY_MACRO_PRESET2"))
    } else if code == KEY_MACRO_PRESET3 {
        Some(String::from_str("KEY_MACRO_PRESET3"))
    } else if code == KEY_MACRO_RECORD_START {
        Some(String::from_str("KEY_MACRO_RECORD_START"))
    } else if KEY_KBD_LCD_MENU1 <= code && code <= KEY_KBD_LCD_MENU5 {
        Some(concat_chars("KEY_KBD_LCD_MENU", &decimal_chars((code - KEY_KBD_LCD_MENU1 + 1) as u64)))
    } else if code == BTN_BASE {
        Some(String::from_str("BTN_BASE"))
    } else if code == BTN_BASE2 {
        Some(String::from_str("BTN_BASE2"))
    } else if code == BTN_THUMB {
        Some(String::from_str("BTN_THUMB"))
    } else {
        None
    }
}

/// The G keys: evdev codes 0x290 to 0x2a5 (`KEY_MACRO1` to `KEY_MACRO22`)
/// are `G1` to `G22`, in order.
pub proof fn lemma_g_key_names(n: int)
    requires
        1 <= n <= 22,
    ensures
        spec_key_control((0x28f + n) as u16) == Some(seq!['G'] + decimal(n as nat)),
{
    reveal_strlit("G");
    assert("G"@ =~= seq!['G']);
}

/// The M keys: evdev codes 0x2b3, 0x2b4 and 0x2b5 (`KEY_MACRO_PRESET1` to
/// `KEY_MACRO_PRESET3`) are M1, M2 and M3, each named
/// `KEY_MACRO_PRESET` followed by its own number.
pub proof fn lemma_m_key_names(k: int)
    requires
        1 <= k <= 3,
    ensures
        spec_key_control((0x2b2 + k) as u16) == Some("KEY_MACRO_PRESET"@ + seq![digit(k)]),
{
    reveal_strlit("KEY_MACRO_PRESET");
    reveal_strlit("KEY_MACRO_PRESET1");
    reveal_strlit("KEY_MACRO_PRESET2");
    reveal_strlit("KEY_MACRO_PRESET3");
    if k == 1 {
        assert("KEY_MACRO_PRESET1"@ =~= "KEY_MACRO_PRESET"@ + seq![digit(k)]);
    } else if k == 2 {
        assert("KEY_MACRO_PRESET2"@ =~= "KEY_MACRO_PRESET"@ + seq![digit(k)]);
    } else {
        assert("KEY_MACRO_PRESET3"@ =~= "KEY_MACRO_PRESET"@ + seq![digit(k)]);
    }
}

/// The LCD keys: evdev codes 0x2b8 to 0x2bc (`KEY_KBD_LCD_MENU1` to
/// `KEY_KBD_LCD_MENU5`) are named `KEY_KBD_LCD_MENU` followed by their own
/// number.
pub proof fn lemma_lcd_key_names(k: int)
    requires
        1 <= k <= 5,
    ensures
        spec_key_control((0x2b7 + k) as u16) == Some("KEY_KBD_LCD_MENU"@ + seq![digit(k)]),
{
    lemma_small_decimal(k as nat);
}

/// The other controls, by their evdev codes: MR (`KEY_MACRO_RECORD_START`,
/// 0x2b0), the lighting key (`KEY_LIGHTS_TOGGLE`, 0x21e) and the stick
/// buttons `BTN_THUMB` (0x121), `BTN_BASE` (0x126) and `BTN_BASE2` (0x127).
/// No other code is a control of the G13.
pub proof fn lemma_other_control_names(code: u16)
    ensures
        spec_key_control(0x2b0) == Some("KEY_MACRO_RECORD_START"@),
        spec_key_control(0x21e) == Some("KEY_LIGHTS_TOGGLE"@),
        spec_key_control(0x121) == Some("BTN_THUMB"@),
        spec_key_control(0x126) == Some("BTN_BASE"@),
        spec_key_control(0x127) == Some("BTN_BASE2"@),
        spec_key_control(code) is Some <==> (0x290 <= code <= 0x2a5 || 0x2b3 <= code <= 0x2b5 || 0x2b8
            <= code <= 0x2bc || code == 0x2b0 || code == 0x21e || code == 0x121 || code == 0x126
            || code == 0x127),
{
}

/// One event of the evdev protocol: its time stamp, type, code and value.
#[derive(Debug, Clone, Copy, PartialEq, Eq, Structural)]
pub struct InputEvent {
    pub sec: i64,
    pub usec: i64,
    pub type_: u16,
    pub code: u16,
    pub value: i32,
}

/// The size of an input event as the 64-bit Linux ABI lays it out: two
/// 64-bit time fields, the type and the code in 16 bits each, the value in
/// 32 bits, all little-endian.
pub const EVENT_SIZE: usize = 24;

/// The little-endian 16-bit number at `b[i..i + 2]`.
pub open spec fn u16_at(b: Seq<u8>, i: int) -> u16 {
    (b[i] as u16) | ((b[i + 1] as u16) << 8u16)
}

/// The little-endian 32-bit number at `b[i..i + 4]`.
pub open spec fn u32_at(b: Seq<u8>, i: int) -> u32 {
    (b[i] as u32) | ((b[i + 1] as u32) << 8u32) | ((b[i + 2] as u32) << 16u32) | ((b[i + 3] as u32)
        << 24u32)
}

/// The little-endian 64-bit number at `b[i..i + 8]`.
pub open spec fn u64_at(b: Seq<u8>, i: int) -> u64 {
    (u32_at(b, i) as u64) | ((u32_at(b, i + 4) as u64) << 32u64)
}

/// The event whose bytes start at `b[i]`.
pub open spec fn event_at(b: Seq<u8>, i: int) -> InputEvent {
    InputEvent {
        sec: u64_at(b, i) as i64,
        usec: u64_at(b, i + 8) as i64,
        type_: u16_at(b, i + 16),
        code: u16_at(b, i + 18),
        value: u32_at(b, i + 20) as i32,
    }
}

/// The two bytes of `x`, low byte first.
pub open spec fn u16_bytes(x: u16) -> Seq<u8> {
    seq![(x & 0xff) as u8, (x >> 8u16) as u8]
}

/// The four bytes of `x`, low byte first.
pub open spec fn u32_bytes(x: u32) -> Seq<u8> {
    seq![
        (x & 0xff) as u8,
        ((x >> 8u32) & 0xff) as u8,
        ((x >> 16u32) & 0xff) as u8,
        (x >> 24u32) as u8,
    ]
}

/// The eight bytes of `x`, low byte first.
pub open spec fn u64_bytes(x: u64) -> Seq<u8> {
    u32_bytes((x & 0xffff_ffff) as u32) + u32_bytes((x >> 32u64) as u32)
}

/// The bytes of an event.
pub open spec fn event_bytes(e: InputEvent) -> Seq<u8> {
    u64_bytes(e.sec as u64) + u64_bytes(e.usec as u64) + u16_bytes(e.type_) + u16_bytes(e.code)
        + u32_bytes(e.value as u32)
}

fn read_u16(b: &[u8], i: usize) -> (r: u16)
    requires
        i + 2 <= b@.len(),
    ensures
        r == u16_at(b@, i as int),
{
    (b[i] as u16) | ((b[i + 1] as u16) << 8u16)
}

fn read_u32(b: &[u8], i: usize) -> (r: u32)
    requires
        i + 4 <= b@.len(),
    ensures
        r == u32_at(b@, i as int),
{
    (b[i] as u32) | ((b[i + 1] as u32) << 8u32) | ((b[i + 2] as u32) << 16u32) | ((b[i + 3] as u32)
        << 24u32)
}

fn read_u64(b: &[u8], i: usize) -> (r: u64)
    requires
        i + 8 <= b@.len(),
    ensures
        r == u64_at(b@, i as int),
{
    let n = b.len();
    assert(i + 4 <= n);
    (read_u32(b, i) as u64) | ((read_u32(b, i + 4) as u64) << 32u64)
}

/// The events in what a read from an evdev node gave: one for each whole
/// 24 bytes, in order; bytes after the last whole event are ignored.
pub fn decode_events(buf: &[u8]) -> (r: Vec<InputEvent>)
    ensures
        r@.len() == buf@.len() / 24,
        forall|i: int| 0 <= i < r@.len() ==> #[trigger] r@[i] == event_at(buf@, 24 * i),
{
    let mut r: Vec<InputEvent> = Vec::new();
    let mut off: usize = 0;
    let n = buf.len();
    while EVENT_SIZE <= n - off
        invariant
            off == 24 * r@.len(),
            off <= buf@.len(),
            n == buf@.len(),
            forall|i: int| 0 <= i < r@.len() ==> #[trigger] r@[i] == event_at(buf@, 24 * i),
        decreases buf@.len() - off,
    {
        let ev = InputEvent {
            sec: #[verifier::truncate] (read_u64(buf, off) as i64),
            usec: #[verifier::truncate] (read_u64(buf, off + 8) as i64),
            type_: read_u16(buf, off + 16),
            code: read_u16(buf, off + 18),
            value: #[verifier::truncate] (read_u32(buf, off + 20) as i32),
        };
        r.push(ev);
        off = off + EVENT_SIZE;
    }
    r
}

fn push_u16(v: &mut Vec<u8>, x: u16)
    ensures
        final(v)@ == old(v)@ + u16_bytes(x),
{
    v.push((x & 0xff) as u8);
    v.push((x >> 8u16) as u8);
    assert(final(v)@ =~= old(v)@ + u16_bytes(x));
}

fn push_u32(v: &mut Vec<u8>, x: u32)
    ensures
        final(v)@ == old(v)@ + u32_bytes(x),
{
    v.push((x & 0xff) as u8);
    v.push(((x >> 8u32) & 0xff) as u8);
    v.push(((x >> 16u32) & 0xff) as u8);
    v.push((x >> 24u32) as u8);
    assert(final(v)@ =~= old(v)@ + u32_bytes(x));
}

fn push_u64(v: &mut Vec<u8>, x: u64)
    ensures
        final(v)@ == old(v)@ + u64_bytes(x),
{
    push_u32(v, (x & 0xffff_ffff) as u32);
    push_u32(v, (x >> 32u64) as u32);
    assert(final(v)@ =~= old(v)@ + u64_bytes(x));
}

/// The bytes of an event, as a write to an evdev or uinput node takes them.
pub fn encode_event(e: &InputEvent) -> (r: Vec<u8>)
    ensures
        r@ == event_bytes(*e),
        r@.len() == EVENT_SIZE,
{
    let mut v: Vec<u8> = Vec::new();
    push_u64(&mut v, e.sec as u64);
    push_u64(&mut v, e.usec as u64);
    push_u16(&mut v, e.type_);
    push_u16(&mut v, e.code);
    push_u32(&mut v, e.value as u32);
    assert(v@ =~= event_bytes(*e));
    v
}

proof fn lemma_u16_bytes(x: u16)
    ensures
        u16_at(u16_bytes(x), 0) == x,
{
    let b = u16_bytes(x);
    let b0 = b[0];
    let b1 = b[1];
    assert(b0 == (x & 0xff) as u8 && b1 == (x >> 8u16) as u8);
    assert(((x & 0xff) as u8) as u16 | ((((x >> 8u16) as u8) as u16) << 8u16) == x) by (bit_vector);
}

proof fn lemma_u32_bytes(x: u32)
    ensures
        u32_at(u32_bytes(x), 0) == x,
{
    assert(((x & 0xff) as u8) as u32 | (((((x >> 8u32) & 0xff) as u8) as u32) << 8u32) | (((((x
        >> 16u32) & 0xff) as u8) as u32) << 16u32) | ((((x >> 24u32) as u8) as u32) << 24u32) == x)
        by (bit_vector);
}

proof fn lemma_u64_bytes(x: u64)
    ensures
        u64_at(u64_bytes(x), 0) == x,
{
    let lo = (x & 0xffff_ffff) as u32;
    let hi = (x >> 32u64) as u32;
    lemma_u32_bytes(lo);
    lemma_u32_bytes(hi);
    let b = u64_bytes(x);
    assert(b.subrange(0, 4) =~= u32_bytes(lo));
    assert(b.subrange(4, 8) =~= u32_bytes(hi));
    assert(u32_at(b, 0) == u32_at(u32_bytes(lo), 0));
    assert(u32_at(b, 4) == u32_at(u32_bytes(hi), 0));
    assert((((x & 0xffff_ffff) as u32) as u64) | ((((x >> 32u64) as u32) as u64) << 32u64) == x)
        by (bit_vector);
}

/// Decoding the bytes of an event gives the event back.
pub proof fn lemma_event_round_trip(e: InputEvent)
    ensures
        event_at(event_bytes(e), 0) == e,
        event_bytes(e).len() == EVENT_SIZE,
{
    let b = event_bytes(e);
    let sec = e.sec as u64;
    let usec = e.usec as u64;
    let val = e.value as u32;
    lemma_u64_bytes(sec);
    lemma_u64_bytes(usec);
    lemma_u16_bytes(e.type_);
    lemma_u16_bytes(e.code);
    lemma_u32_bytes(val);
    assert(b.subrange(0, 8) =~= u64_bytes(sec));
    assert(b.subrange(8, 16) =~= u64_bytes(usec));
    assert(b.subrange(16, 18) =~= u16_bytes(e.type_));
    assert(b.subrange(18, 20) =~= u16_bytes(e.code));
    assert(b.subrange(20, 24) =~= u32_bytes(val));
    assert(u64_at(b, 0) == u64_at(u64_bytes(sec), 0));
    assert(u64_at(b, 8) == u64_at(u64_bytes(usec), 0));
    assert(u16_at(b, 16) == u16_at(u16_bytes(e.type_), 0));
    assert(u16_at(b, 18) == u16_at(u16_bytes(e.code), 0));
    assert(u32_at(b, 20) == u32_at(u32_bytes(val), 0));
    let s = e.sec;
    let us = e.usec;
    let v = e.value;
    assert((s as u64) as i64 == s) by (bit_vector);
    assert((us as u64) as i64 == us) by (bit_vector);
    assert((v as u32) as i32 == v) by (bit_vector);
}

/// The bytes of several events, one after the other.
pub open spec fn events_bytes(es: Seq<InputEvent>) -> Seq<u8>
    decreases es.len(),
{
    if es.len() == 0 {
        Seq::empty()
    } else {
        events_bytes(es.drop_last()) + event_bytes(es.last())
    }
}

proof fn lemma_event_at_window(b: Seq<u8>, off: int)
    requires
        0 <= off,
        off + 24 <= b.len(),
    ensures
        event_at(b, off) == event_at(b.subrange(off, off + 24), 0),
{
    let w = b.subrange(off, off + 24);
    assert forall|k: int| 0 <= k < 24 implies #[trigger] w[k] == b[off + k] by {}
    assert(w[0] == b[off] && w[1] == b[off + 1] && w[2] == b[off + 2] && w[3] == b[off + 3]);
    assert(w[4] == b[off + 4] && w[5] == b[off + 5] && w[6] == b[off + 6] && w[7] == b[off + 7]);
    assert(w[8] == b[off + 8] && w[9] == b[off + 9] && w[10] == b[off + 10] && w[11] == b[off
        + 11]);
    assert(w[12] == b[off + 12] && w[13] == b[off + 13] && w[14] == b[off + 14] && w[15] == b[off
        + 15]);
    assert(w[16] == b[off + 16] && w[17] == b[off + 17] && w[18] == b[off + 18] && w[19] == b[off
        + 19]);
    assert(w[20] == b[off + 20] && w[21] == b[off + 21] && w[22] == b[off + 22] && w[23] == b[off
        + 23]);
}

proof fn lemma_events_bytes_windows(es: Seq<InputEvent>)
    ensures
        events_bytes(es).len() == 24 * es.len(),
        forall|i: int|
            0 <= i < es.len() ==> #[trigger] events_bytes(es).subrange(24 * i, 24 * i + 24)
                == event_bytes(es[i]),
    decreases es.len(),
{
    if es.len() > 0 {
        let pre = es.drop_last();
        lemma_events_bytes_windows(pre);
        lemma_event_round_trip(es.last());
        let a = events_bytes(pre);
        let b = events_bytes(es);
        assert(b == a + event_bytes(es.last()));
        assert forall|i: int| 0 <= i < es.len() implies #[trigger] b.subrange(24 * i, 24 * i + 24)
            == event_bytes(es[i]) by {
            if i < es.len() - 1 {
                assert(b.subrange(24 * i, 24 * i + 24) =~= a.subrange(24 * i, 24 * i + 24));
                assert(pre[i] == es[i]);
            } else {
                assert(b.subrange(24 * i, 24 * i + 24) =~= event_bytes(es.last()));
            }
        }
    }
}

/// Decoding the bytes of several events, one after the other, gives the
/// events back in order: `decode_events` on them returns `es`.
pub proof fn lemma_events_round_trip(es: Seq<InputEvent>)
    ensures
        events_bytes(es).len() / 24 == es.len(),
        forall|i: int| 0 <= i < es.len() ==> #[trigger] event_at(events_bytes(es), 24 * i) == es[i],
{
    lemma_events_bytes_windows(es);
    assert forall|i: int| 0 <= i < es.len() implies #[trigger] event_at(events_bytes(es), 24 * i)
        == es[i] by {
        lemma_event_at_window(events_bytes(es), 24 * i);
        assert(events_bytes(es).subrange(24 * i, 24 * i + 24) == event_bytes(es[i]));
        lemma_event_round_trip(es[i]);
    }
}

/// Whether an entry of `/sys/class/input` is an event node (its name
/// begins with `event`).
pub fn is_event_node(name: &str) -> (r: bool)
    ensures
        r == has_prefix(name@, "event"@),
{
    starts_with(name, "event")
}

/// The characters of an optional string.
pub open spec fn opt_view(o: Option<String>) -> Option<Seq<char>> {
    match o {
        Some(s) => Some(s@),
        None => None,
    }
}

/// Whether a USB id file held `want`, once trimmed and made lower-case.
pub open spec fn id_is(v: Option<Seq<char>>, want: Seq<char>) -> bool {
    match v {
        Some(s) => lower_all(trim(s)) == want,
        None => false,
    }
}

/// Whether a device directory carries the G13's USB ids, vendor `046d` and
/// product `c21c`.
pub open spec fn g13_ids(vendor: Option<Seq<char>>, product: Option<Seq<char>>) -> bool {
    id_is(vendor, "046d"@) && id_is(product, "c21c"@)
}

fn id_matches(v: &Option<String>, want: &str) -> (r: bool)
    ensures
        r == id_is(opt_view(*v), want@),
{
    match v {
        Some(s) => chars_eq(&lower_chars(&trim_chars(&chars_of(s.as_str()))), &chars_of(want)),
        None => false,
    }
}

/// Whether an event node belongs to the G13, given the `idVendor` and
/// `idProduct` files read in its device directory and in each directory
/// above it (`None` where a file could not be read): it does where one of
/// them carries the G13's ids.
pub fn belongs_to_g13(ancestors: &Vec<(Option<String>, Option<String>)>) -> (r: bool)
    ensures
        r == exists|i: int|
            0 <= i < ancestors@.len() && #[trigger] g13_ids(
                opt_view(ancestors@[i].0),
                opt_view(ancestors@[i].1),
            ),
{
    let mut i: usize = 0;
    while i < ancestors.len()
        invariant
            i <= ancestors@.len(),
            forall|k: int|
                0 <= k < i ==> !#[trigger] g13_ids(
                    opt_view(ancestors@[k].0),
                    opt_view(ancestors@[k].1),
                ),
        decreases ancestors@.len() - i,
    {
        if id_matches(&ancestors[i].0, "046d") && id_matches(&ancestors[i].1, "c21c") {
            assert(g13_ids(opt_view(ancestors@[i as int].0), opt_view(ancestors@[i as int].1)));
            return true;
        }
        i = i + 1;
    }
    false
}

/// The name the daemon gives its own uinput device.
pub open spec fn virtual_keyboard_name() -> Seq<char> {
    "G13 Nexus Virtual Keyboard"@
}

/// Whether the recorder listens to an event node: an event node that is
/// not the G13's, whose device is not the daemon's own virtual keyboard,
/// and that reports key capabilities.
pub open spec fn spec_keyboard_candidate(
    name: Seq<char>,
    g13: bool,
    dev_name: Seq<char>,
    has_key_caps: bool,
) -> bool {
    has_prefix(name, "event"@) && !g13 && trim(dev_name) != virtual_keyboard_name()
        && has_key_caps
}

pub fn keyboard_candidate(name: &str, g13: bool, dev_name: &str, has_key_caps: bool) -> (r: bool)
    ensures
        r == spec_keyboard_candidate(name@, g13, dev_name@, has_key_caps),
{
    if !is_event_node(name) || g13 {
        return false;
    }
    let t = trim_chars(&chars_of(dev_name));
    if chars_eq(&t, &chars_of("G13 Nexus Virtual Keyboard")) {
        return false;
    }
    has_key_caps
}

/// The device file of an event node.
pub open spec fn event_path(name: Seq<char>) -> Seq<char> {
    "/dev/input/"@ + name
}

/// The device files of the named event nodes, each once, in ascending
/// order.
pub fn node_paths(names: &Vec<String>) -> (r: Vec<String>)
    ensures
        strictly_sorted(views(r@)),
        forall|p: Seq<char>|
            #[trigger] views(r@).contains(p) <==> exists|i: int|
                0 <= i < names@.len() && p == event_path(#[trigger] names@[i]@),
{
    let mut paths: Vec<String> = Vec::new();
    let mut i: usize = 0;
    while i < names.len()
        invariant
            i <= names@.len(),
            paths@.len() == i,
            forall|k: int| 0 <= k < i ==> #[trigger] paths@[k]@ == event_path(names@[k]@),
        decreases names@.len() - i,
    {
        paths.push(concat_str("/dev/input/", names[i].as_str()));
        i = i + 1;
    }
    let r = sorted_set(&paths);
    assert forall|p: Seq<char>| #[trigger] views(r@).contains(p) <==> exists|i: int|
        0 <= i < names@.len() && p == event_path(#[trigger] names@[i]@) by {
        assert(views(r@).to_set().contains(p) == views(paths@).to_set().contains(p));
        if views(paths@).contains(p) {
            let k = choose|k: int| 0 <= k < views(paths@).len() && views(paths@)[k] == p;
            assert(p == event_path(names@[k]@));
        }
        if exists|i: int| 0 <= i < names@.len() && p == event_path(#[trigger] names@[i]@) {
            let k = choose|k: int| 0 <= k < names@.len() && p == event_path(#[trigger] names@[k]@);
            assert(views(paths@)[k] == p);
        }
    }
    r
}

/// The kind of a G13 node by its device name, trimmed.
pub open spec fn spec_device_kind(dev_name: Seq<char>) -> Option<DeviceKind> {
    let t = trim(dev_name);
    if t == "Logitech G13 Gaming Keypad"@ {
        Some(DeviceKind::Keypad)
    } else if t == "Logitech G13 Thumbstick"@ {
        Some(DeviceKind::Thumbstick)
    } else {
        None
    }
}

pub fn device_kind(dev_name: &str) -> (r: Option<DeviceKind>)
    ensures
        r == spec_device_kind(dev_name@),
{
    let t = trim_chars(&chars_of(dev_name));
    if chars_eq(&t, &chars_of("Logitech G13 Gaming Keypad")) {
        Some(DeviceKind::Keypad)
    } else if chars_eq(&t, &chars_of("Logitech G13 Thumbstick")) {
        Some(DeviceKind::Thumbstick)
    } else {
        None
    }
}

/// The device file of the last node of kind `k` among `(device file,
/// device name)` pairs.
pub open spec fn last_of_kind(nodes: Seq<(String, String)>, k: DeviceKind) -> Option<Seq<char>>
    decreases nodes.len(),
{
    if nodes.len() == 0 {
        None
    } else if spec_device_kind(nodes.last().1@) == Some(k) {
        Some(nodes.last().0@)
    } else {
        last_of_kind(nodes.drop_last(), k)
    }
}

/// The keypad and thumbstick nodes among the G13's event nodes, given as
/// `(device file, device name)` pairs in the order the system lists them:
/// for each kind the last node of that kind, or `None` where a kind is
/// missing.
pub fn discover(nodes: &Vec<(String, String)>) -> (r: Option<(String, String)>)
    ensures
        match r {
            Some((k, s)) => last_of_kind(nodes@, DeviceKind::Keypad) == Some(k@) && last_of_kind(
                nodes@,
                DeviceKind::Thumbstick,
            ) == Some(s@),
            None => last_of_kind(nodes@, DeviceKind::Keypad) is None || last_of_kind(
                nodes@,
                DeviceKind::Thumbstick,
            ) is None,
        },
{
    let mut keypad: Option<String> = None;
    let mut stick: Option<String> = None;
    let mut i: usize = 0;
    while i < nodes.len()
        invariant
            i <= nodes@.len(),
            opt_view(keypad) == last_of_kind(nodes@.take(i as int), DeviceKind::Keypad),
            opt_view(stick) == last_of_kind(nodes@.take(i as int), DeviceKind::Thumbstick),
        decreases nodes@.len() - i,
    {
        assert(nodes@.take(i + 1).drop_last() =~= nodes@.take(i as int));
        assert(nodes@.take(i + 1).last() == nodes@[i as int]);
        match device_kind(nodes[i].1.as_str()) {
            Some(DeviceKind::Keypad) => {
                keypad = Some(nodes[i].0.clone());
            },
            Some(DeviceKind::Thumbstick) => {
                stick = Some(nodes[i].0.clone());
            },
            None => {},
        }
        i = i + 1;
    }
    assert(nodes@.take(nodes@.len() as int) =~= nodes@);
    match (keypad, stick) {
        (Some(k), Some(s)) => Some((k, s)),
        _ => None,
    }
}

} // verus!
