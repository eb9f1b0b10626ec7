//! The G13's lights as the Linux LED class exposes them: the RGB backlight
//! and the M1-M3 and MR indicators. The daemon writes what these functions
//! give.
use vstd::prelude::*;
use crate::text::{chars_of, decimal, decimal_chars, extend_chars, parse_unsigned, parse_unsigned_chars, string_of, trim, trim_chars};

verus! {

/// The LED-class directory of the RGB backlight.
pub const RGB: &'static str = "/sys/class/leds/g13:rgb:kbd_backlight";

/// A value to write to a file of the LED class.
#[derive(Debug)]
pub struct LedWrite {
    pub path: String,
    pub value: String,
}

/// The brightness file of LED `name`.
pub open spec fn brightness_path(name: Seq<char>) -> Seq<char> {
    "/sys/class/leds/"@ + name + "/brightness"@
}

/// The value that turns an indicator on or off.
pub open spec fn on_off(on: bool) -> Seq<char> {
    if on {
        "1\n"@
    } else {
        "0\n"@
    }
}

fn led(name: &Vec<char>, on: bool) -> (w: LedWrite)
    ensures
        w.path@ == brightness_path(name@),
        w.value@ == on_off(on),
{
    let mut p = chars_of("/sys/class/leds/");
    extend_chars(&mut p, name);
    let tail = chars_of("/brightness");
    extend_chars(&mut p, &tail);
    LedWrite {
        path: string_of(&p),
        value: if on {
            String::from_str("1\n")
        } else {
            String::from_str("0\n")
        },
    }
}

/// The M1-M3 indicators: the one of `bank` on, the others off.
pub fn set_bank(bank: u8) -> (r: Vec<LedWrite>)
    ensures
        r@.len() == 3,
        forall|i: int|
            0 <= i < 3 ==> (#[trigger] r@[i]).path@ == brightness_path(
                "g13:red:macro_preset_"@ + decimal((i + 1) as nat),
            ) && r@[i].value@ == on_off(i + 1 == bank),
{
    let mut r: Vec<LedWrite> = Vec::new();
    let mut i: u64 = 1;
    while i <= 3
        invariant
            1 <= i <= 4,
            r@.len() == i - 1,
            forall|j: int|
                0 <= j < i - 1 ==> (#[trigger] r@[j]).path@ == brightness_path(
                    "g13:red:macro_preset_"@ + decimal((j + 1) as nat),
                ) && r@[j].value@ == on_off(j + 1 == bank),
        decreases 4 - i,
    {
        let mut name = chars_of("g13:red:macro_preset_");
        extend_chars(&mut name, &decimal_chars(i));
        r.push(led(&name, i == bank as u64));
        i = i + 1;
    }
    r
}

/// The MR indicator on or off.
pub fn set_record(on: bool) -> (w: LedWrite)
    ensures
        w.path@ == brightness_path("g13:red:macro_record"@),
        w.value@ == on_off(on),
{
    led(&chars_of("g13:red:macro_record"), on)
}

/// The backlight color as the `multi_intensity` file takes it: red, green
/// and blue in decimal, separated by spaces, then a newline.
pub fn rgb_intensity(rgb: [u8; 3]) -> (s: String)
    ensures
        s@ == decimal(rgb@[0] as nat) + seq![' '] + decimal(rgb@[1] as nat) + seq![' '] + decimal(
            rgb@[2] as nat,
        ) + seq!['\n'],
{
    let mut v = decimal_chars(rgb[0] as u64);
    v.push(' ');
    extend_chars(&mut v, &decimal_chars(rgb[1] as u64));
    v.push(' ');
    extend_chars(&mut v, &decimal_chars(rgb[2] as u64));
    v.push('\n');
    string_of(&v)
}

/// Whether the lighting key turns the backlight on, given the contents of
/// its `brightness` file: on where it reads as 0 or not as a number, else
/// off.
pub fn toggle_rgb(current: &str) -> (on: bool)
    ensures
        on == match parse_unsigned(trim(current@), 0xffff_ffff) {
            Some(n) => n == 0,
            None => true,
        },
{
    let t = trim_chars(&chars_of(current));
    match parse_unsigned_chars(&t, 0xffff_ffff) {
        Some(n) => n == 0,
        None => true,
    }
}

/// The value that turns the backlight on: the maximum brightness trimmed,
/// then a newline.
pub fn brightness_on(max: &str) -> (s: String)
    ensures
        s@ == trim(max@) + seq!['\n'],
{
    let mut v = trim_chars(&chars_of(max));
    v.push('\n');
    string_of(&v)
}

/// The brightness that setting a color writes: the maximum brightness
/// trimmed.
pub fn full_brightness(max: &str) -> (s: String)
    ensures
        s@ == trim(max@),
{
    string_of(&trim_chars(&chars_of(max)))
}

} // verus!
