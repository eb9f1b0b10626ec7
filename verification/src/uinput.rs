//! Key names of the Linux input layer that the daemon emits through uinput,
//! and the byte layout of the events it writes there.
use vstd::prelude::*;
use crate::text::{chars_eq, chars_of, is_ws, parse_unsigned, parse_unsigned_chars, trim, trim_chars, trim_end, trim_start};
use crate::input::{encode_event, event_bytes, u16_bytes, InputEvent, EV_KEY};

verus! {


/// The prefix `KEY_` that every emitted key name carries.
pub open spec fn key_prefix() -> Seq<char> {
    seq!['K', 'E', 'Y', '_']
}

/// The key table: for each supported Linux key code, its name after `KEY_`.
pub open spec fn key_suffix(code: u16) -> Option<Seq<char>> {
    match code {
        1 => Some(seq!['E', 'S', 'C']),
        2 => Some(seq!['1']),
        3 => Some(seq!['2']),
        4 => Some(seq!['3']),
        5 => Some(seq!['4']),
        6 => Some(seq!['5']),
        7 => Some(seq!['6']),
        8 => Some(seq!['7']),
        9 => Some(seq!['8']),
        10 => Some(seq!['9']),
        11 => Some(seq!['0']),
        12 => Some(seq!['M', 'I', 'N', 'U', 'S']),
        13 => Some(seq!['E', 'Q', 'U', 'A', 'L']),
        14 => Some(seq!['B', 'A', 'C', 'K', 'S', 'P', 'A', 'C', 'E']),
        15 => Some(seq!['T', 'A', 'B']),
        16 => Some(seq!['Q']),
        17 => Some(seq!['W']),
        18 => Some(seq!['E']),
        19 => Some(seq!['R']),
        20 => Some(seq!['T']),
        21 => Some(seq!['Y']),
        22 => Some(seq!['U']),
        23 => Some(seq!['I']),
        24 => Some(seq!['O']),
        25 => Some(seq!['P']),
        26 => Some(seq!['L', 'E', 'F', 'T', 'B', 'R', 'A', 'C', 'E']),
        27 => Some(seq!['R', 'I', 'G', 'H', 'T', 'B', 'R', 'A', 'C', 'E']),
        28 => Some(seq!['E', 'N', 'T', 'E', 'R']),
        29 => Some(seq!['L', 'E', 'F', 'T', 'C', 'T', 'R', 'L']),
        30 => Some(seq!['A']),
        31 => Some(seq!['S']),
        32 => Some(seq!['D']),
        33 => Some(seq!['F']),
        34 => Some(seq!['G']),
        35 => Some(seq!['H']),
        36 => Some(seq!['J']),
        37 => Some(seq!['K']),
        38 => Some(seq!['L']),
        39 => Some(seq!['S', 'E', 'M', 'I', 'C', 'O', 'L', 'O', 'N']),
        40 => Some(seq!['A', 'P', 'O', 'S', 'T', 'R', 'O', 'P', 'H', 'E']),
        41 => Some(seq!['G', 'R', 'A', 'V', 'E']),
        42 => Some(seq!['L', 'E', 'F', 'T', 'S', 'H', 'I', 'F', 'T']),
        43 => Some(seq!['B', 'A', 'C', 'K', 'S', 'L', 'A', 'S', 'H']),
        44 => Some(seq!['Z']),
        45 => Some(seq!['X']),
        46 => Some(seq!['C']),
        47 => Some(seq!['V']),
        48 => Some(seq!['B']),
        49 => Some(seq!['N']),
        50 => Some(seq!['M']),
        51 => Some(seq!['C', 'O', 'M', 'M', 'A']),
        52 => Some(seq!['D', 'O', 'T']),
        53 => Some(seq!['S', 'L', 'A', 'S', 'H']),
        54 => Some(seq!['R', 'I', 'G', 'H', 'T', 'S', 'H', 'I', 'F', 'T']),
        56 => Some(seq!['L', 'E', 'F', 'T', 'A', 'L', 'T']),
        57 => Some(seq!['S', 'P', 'A', 'C', 'E']),
        58 => Some(seq!['C', 'A', 'P', 'S', 'L', 'O', 'C', 'K']),
        59 => Some(seq!['F', '1']),
        60 => Some(seq!['F', '2']),
        61 => Some(seq!['F', '3']),
        62 => Some(seq!['F', '4']),
        63 => Some(seq!['F', '5']),
        64 => Some(seq!['F', '6']),
        65 => Some(seq!['F', '7']),
        66 => Some(seq!['F', '8']),
        67 => Some(seq!['F', '9']),
        68 => Some(seq!['F', '1', '0']),
        87 => Some(seq!['F', '1', '1']),
        88 => Some(seq!['F', '1', '2']),
        97 => Some(seq!['R', 'I', 'G', 'H', 'T', 'C', 'T', 'R', 'L']),
        100 => Some(seq!['R', 'I', 'G', 'H', 'T', 'A', 'L', 'T']),
        102 => Some(seq!['H', 'O', 'M', 'E']),
        103 => Some(seq!['U', 'P']),
        104 => Some(seq!['P', 'A', 'G', 'E', 'U', 'P']),
        105 => Some(seq!['L', 'E', 'F', 'T']),
        106 => Some(seq!['R', 'I', 'G', 'H', 'T']),
        107 => Some(seq!['E', 'N', 'D']),
        108 => Some(seq!['D', 'O', 'W', 'N']),
        109 => Some(seq!['P', 'A', 'G', 'E', 'D', 'O', 'W', 'N']),
        110 => Some(seq!['I', 'N', 'S', 'E', 'R', 'T']),
        111 => Some(seq!['D', 'E', 'L', 'E', 'T', 'E']),
        125 => Some(seq!['L', 'E', 'F', 'T', 'M', 'E', 'T', 'A']),
        126 => Some(seq!['R', 'I', 'G', 'H', 'T', 'M', 'E', 'T', 'A']),
        _ => None,
    }
}

/// The full `KEY_...` name of a key code, if the table has one.
pub open spec fn spec_keyname(code: u16) -> Option<Seq<char>> {
    match key_suffix(code) {
        Some(s) => Some(key_prefix() + s),
        None => None,
    }
}

/// A key name trimmed of whitespace, without a leading `KEY_`.
pub open spec fn bare_key_name(name: Seq<char>) -> Seq<char> {
    let t = trim(name);
    if t.len() >= 4 && t.take(4) == key_prefix() {
        t.skip(4)
    } else {
        t
    }
}

/// The code whose table name (after `KEY_`) is `n`, if any.
pub open spec fn table_code(n: Seq<char>) -> Option<u16> {
    if exists|c: u16| key_suffix(c) == Some(n) {
        Some(choose|c: u16| key_suffix(c) == Some(n))
    } else {
        None
    }
}

/// The key code a binding names: a table name, with or without `KEY_`, or
/// else a decimal code.
pub open spec fn spec_keycode(name: Seq<char>) -> Option<u16> {
    let n = bare_key_name(name);
    match table_code(n) {
        Some(c) => Some(c),
        None => match parse_unsigned(n, 65535) {
            Some(v) => Some(v as u16),
            None => None,
        },
    }
}

/// Length, first and last character of a name: enough to tell the table's
/// names apart.
pub open spec fn fingerprint(s: Seq<char>) -> (nat, char, char) {
    (s.len(), s[0], s[s.len() - 1])
}

/// The fingerprint of each table name, written out.
pub open spec fn key_fingerprint(code: u16) -> Option<(nat, char, char)> {
    match code {
        1 => Some((3nat, 'E', 'C')),
        2 => Some((1nat, '1', '1')),
        3 => Some((1nat, '2', '2')),
        4 => Some((1nat, '3', '3')),
        5 => Some((1nat, '4', '4')),
        6 => Some((1nat, '5', '5')),
        7 => Some((1nat, '6', '6')),
        8 => Some((1nat, '7', '7')),
        9 => Some((1nat, '8', '8')),
        10 => Some((1nat, '9', '9')),
        11 => Some((1nat, '0', '0')),
        12 => Some((5nat, 'M', 'S')),
        13 => Some((5nat, 'E', 'L')),
        14 => Some((9nat, 'B', 'E')),
        15 => Some((3nat, 'T', 'B')),
        16 => Some((1nat, 'Q', 'Q')),
        17 => Some((1nat, 'W', 'W')),
        18 => Some((1nat, 'E', 'E')),
        19 => Some((1nat, 'R', 'R')),
        20 => Some((1nat, 'T', 'T')),
        21 => Some((1nat, 'Y', 'Y')),
        22 => Some((1nat, 'U', 'U')),
        23 => Some((1nat, 'I', 'I')),
        24 => Some((1nat, 'O', 'O')),
        25 => Some((1nat, 'P', 'P')),
        26 => Some((9nat, 'L', 'E')),
        27 => Some((10nat, 'R', 'E')),
        28 => Some((5nat, 'E', 'R')),
        29 => Some((8nat, 'L', 'L')),
        30 => Some((1nat, 'A', 'A')),
        31 => Some((1nat, 'S', 'S')),
        32 => Some((1nat, 'D', 'D')),
        33 => Some((1nat, 'F', 'F')),
        34 => Some((1nat, 'G', 'G')),
        35 => Some((1nat, 'H', 'H')),
        36 => Some((1nat, 'J', 'J')),
        37 => Some((1nat, 'K', 'K')),
        38 => Some((1nat, 'L', 'L')),
        39 => Some((9nat, 'S', 'N')),
        40 => Some((10nat, 'A', 'E')),
        41 => Some((5nat, 'G', 'E')),
        42 => Some((9nat, 'L', 'T')),
        43 => Some((9nat, 'B', 'H')),
        44 => Some((1nat, 'Z', 'Z')),
        45 => Some((1nat, 'X', 'X')),
        46 => Some((1nat, 'C', 'C')),
        47 => Some((1nat, 'V', 'V')),
        48 => Some((1nat, 'B', 'B')),
        49 => Some((1nat, 'N', 'N')),
        50 => Some((1nat, 'M', 'M')),
        51 => Some((5nat, 'C', 'A')),
        52 => Some((3nat, 'D', 'T')),
        53 => Some((5nat, 'S', 'H')),
        54 => Some((10nat, 'R', 'T')),
        56 => Some((7nat, 'L', 'T')),
        57 => Some((5nat, 'S', 'E')),
        58 => Some((8nat, 'C', 'K')),
        59 => Some((2nat, 'F', '1')),
        60 => Some((2nat, 'F', '2')),
        61 => Some((2nat, 'F', '3')),
        62 => Some((2nat, 'F', '4')),
        63 => Some((2nat, 'F', '5')),
        64 => Some((2nat, 'F', '6')),
        65 => Some((2nat, 'F', '7')),
        66 => Some((2nat, 'F', '8')),
        67 => Some((2nat, 'F', '9')),
        68 => Some((3nat, 'F', '0')),
        87 => Some((3nat, 'F', '1')),
        88 => Some((3nat, 'F', '2')),
        97 => Some((9nat, 'R', 'L')),
        100 => Some((8nat, 'R', 'T')),
        102 => Some((4nat, 'H', 'E')),
        103 => Some((2nat, 'U', 'P')),
        104 => Some((6nat, 'P', 'P')),
        105 => Some((4nat, 'L', 'T')),
        106 => Some((5nat, 'R', 'T')),
        107 => Some((3nat, 'E', 'D')),
        108 => Some((4nat, 'D', 'N')),
        109 => Some((8nat, 'P', 'N')),
        110 => Some((6nat, 'I', 'T')),
        111 => Some((6nat, 'D', 'E')),
        125 => Some((8nat, 'L', 'A')),
        126 => Some((9nat, 'R', 'A')),
        _ => None,
    }
}

proof fn lemma_key_fingerprint(c: u16)
    requires
        key_suffix(c) is Some,
    ensures
        key_fingerprint(c) == Some(fingerprint(key_suffix(c)->0)),
{
}

/// No two codes of the table share a name.
pub proof fn lemma_key_suffix_injective(a: u16, b: u16)
    requires
        key_suffix(a) is Some,
        key_suffix(a) == key_suffix(b),
    ensures
        a == b,
{
    lemma_key_fingerprint(a);
    lemma_key_fingerprint(b);
}

/// The Linux name of a key code (`KEY_...`), for the codes of the table.
pub fn keyname(code: u16) -> (r: Option<&'static str>)
    ensures
        match r {
            Some(s) => spec_keyname(code) == Some(s@),
            None => spec_keyname(code) is None,
        },
{
    match code {
        1 => {
            proof {
                reveal_strlit("KEY_ESC");
            }
            Some("KEY_ESC")
        },
        2 => {
            proof {
                reveal_strlit("KEY_1");
            }
            Some("KEY_1")
        },
        3 => {
            proof {
                reveal_strlit("KEY_2");
            }
            Some("KEY_2")
        },
        4 => {
            proof {
                reveal_strlit("KEY_3");
            }
            Some("KEY_3")
        },
        5 => {
            proof {
                reveal_strlit("KEY_4");
            }
            Some("KEY_4")
        },
        6 => {
            proof {
                reveal_strlit("KEY_5");
            }
            Some("KEY_5")
        },
        7 => {
            proof {
                reveal_strlit("KEY_6");
            }
            Some("KEY_6")
        },
        8 => {
            proof {
                reveal_strlit("KEY_7");
            }
            Some("KEY_7")
        },
        9 => {
            proof {
                reveal_strlit("KEY_8");
            }
            Some("KEY_8")
        },
        10 => {
            proof {
                reveal_strlit("KEY_9");
            }
            Some("KEY_9")
        },
        11 => {
            proof {
                reveal_strlit("KEY_0");
            }
            Some("KEY_0")
        },
        12 => {
            proof {
                reveal_strlit("KEY_MINUS");
            }
            Some("KEY_MINUS")
        },
        13 => {
            proof {
                reveal_strlit("KEY_EQUAL");
            }
            Some("KEY_EQUAL")
        },
        14 => {
            proof {
                reveal_strlit("KEY_BACKSPACE");
            }
            Some("KEY_BACKSPACE")
        },
        15 => {
            proof {
                reveal_strlit("KEY_TAB");
            }
            Some("KEY_TAB")
        },
        16 => {
            proof {
                reveal_strlit("KEY_Q");
            }
            Some("KEY_Q")
        },
        17 => {
            proof {
                reveal_strlit("KEY_W");
            }
            Some("KEY_W")
        },
        18 => {
            proof {
                reveal_strlit("KEY_E");
            }
            Some("KEY_E")
        },
        19 => {
            proof {
                reveal_strlit("KEY_R");
            }
            Some("KEY_R")
        },
        20 => {
            proof {
                reveal_strlit("KEY_T");
            }
            Some("KEY_T")
        },
        21 => {
            proof {
                reveal_strlit("KEY_Y");
            }
            Some("KEY_Y")
        },
        22 => {
            proof {
                reveal_strlit("KEY_U");
            }
            Some("KEY_U")
        },
        23 => {
            proof {
                reveal_strlit("KEY_I");
            }
            Some("KEY_I")
        },
        24 => {
            proof {
                reveal_strlit("KEY_O");
            }
            Some("KEY_O")
        },
        25 => {
            proof {
                reveal_strlit("KEY_P");
            }
            Some("KEY_P")
        },
        26 => {
            proof {
                reveal_strlit("KEY_LEFTBRACE");
            }
            Some("KEY_LEFTBRACE")
        },
        27 => {
            proof {
                reveal_strlit("KEY_RIGHTBRACE");
            }
            Some("KEY_RIGHTBRACE")
        },
        28 => {
            proof {
                reveal_strlit("KEY_ENTER");
            }
            Some("KEY_ENTER")
        },
        29 => {
            proof {
                reveal_strlit("KEY_LEFTCTRL");
            }
            Some("KEY_LEFTCTRL")
        },
        30 => {
            proof {
                reveal_strlit("KEY_A");
            }
            Some("KEY_A")
        },
        31 => {
            proof {
                reveal_strlit("KEY_S");
            }
            Some("KEY_S")
        },
        32 => {
            proof {
                reveal_strlit("KEY_D");
            }
            Some("KEY_D")
        },
        33 => {
            proof {
                reveal_strlit("KEY_F");
            }
            Some("KEY_F")
        },
        34 => {
            proof {
                reveal_strlit("KEY_G");
            }
            Some("KEY_G")
        },
        35 => {
            proof {
                reveal_strlit("KEY_H");
            }
            Some("KEY_H")
        },
        36 => {
            proof {
                reveal_strlit("KEY_J");
            }
            Some("KEY_J")
        },
        37 => {
            proof {
                reveal_strlit("KEY_K");
            }
            Some("KEY_K")
        },
        38 => {
            proof {
                reveal_strlit("KEY_L");
            }
            Some("KEY_L")
        },
        39 => {
            proof {
                reveal_strlit("KEY_SEMICOLON");
            }
            Some("KEY_SEMICOLON")
        },
        40 => {
            proof {
                reveal_strlit("KEY_APOSTROPHE");
            }
            Some("KEY_APOSTROPHE")
        },
        41 => {
            proof {
                reveal_strlit("KEY_GRAVE");
            }
            Some("KEY_GRAVE")
        },
        42 => {
            proof {
                reveal_strlit("KEY_LEFTSHIFT");
            }
            Some("KEY_LEFTSHIFT")
        },
        43 => {
            proof {
                reveal_strlit("KEY_BACKSLASH");
            }
            Some("KEY_BACKSLASH")
        },
        44 => {
            proof {
                reveal_strlit("KEY_Z");
            }
            Some("KEY_Z")
        },
        45 => {
            proof {
                reveal_strlit("KEY_X");
            }
            Some("KEY_X")
        },
        46 => {
            proof {
                reveal_strlit("KEY_C");
            }
            Some("KEY_C")
        },
        47 => {
            proof {
                reveal_strlit("KEY_V");
            }
            Some("KEY_V")
        },
        48 => {
            proof {
                reveal_strlit("KEY_B");
            }
            Some("KEY_B")
        },
        49 => {
            proof {
                reveal_strlit("KEY_N");
            }
            Some("KEY_N")
        },
        50 => {
            proof {
                reveal_strlit("KEY_M");
            }
            Some("KEY_M")
        },
        51 => {
            proof {
                reveal_strlit("KEY_COMMA");
            }
            Some("KEY_COMMA")
        },
        52 => {
            proof {
                reveal_strlit("KEY_DOT");
            }
            Some("KEY_DOT")
        },
        53 => {
            proof {
                reveal_strlit("KEY_SLASH");
            }
            Some("KEY_SLASH")
        },
        54 => {
            proof {
                reveal_strlit("KEY_RIGHTSHIFT");
            }
            Some("KEY_RIGHTSHIFT")
        },
        56 => {
            proof {
                reveal_strlit("KEY_LEFTALT");
            }
            Some("KEY_LEFTALT")
        },
        57 => {
            proof {
                reveal_strlit("KEY_SPACE");
            }
            Some("KEY_SPACE")
        },
        58 => {
            proof {
                reveal_strlit("KEY_CAPSLOCK");
            }
            Some("KEY_CAPSLOCK")
        },
        59 => {
            proof {
                reveal_strlit("KEY_F1");
            }
            Some("KEY_F1")
        },
        60 => {
            proof {
                reveal_strlit("KEY_F2");
            }
            Some("KEY_F2")
        },
        61 => {
            proof {
                reveal_strlit("KEY_F3");
            }
            Some("KEY_F3")
        },
        62 => {
            proof {
                reveal_strlit("KEY_F4");
            }
            Some("KEY_F4")
        },
        63 => {
            proof {
                reveal_strlit("KEY_F5");
            }
            Some("KEY_F5")
        },
        64 => {
            proof {
                reveal_strlit("KEY_F6");
            }
            Some("KEY_F6")
        },
        65 => {
            proof {
                reveal_strlit("KEY_F7");
            }
            Some("KEY_F7")
        },
        66 => {
            proof {
                reveal_strlit("KEY_F8");
            }
            Some("KEY_F8")
        },
        67 => {
            proof {
                reveal_strlit("KEY_F9");
            }
            Some("KEY_F9")
        },
        68 => {
            proof {
                reveal_strlit("KEY_F10");
            }
            Some("KEY_F10")
        },
        87 => {
            proof {
                reveal_strlit("KEY_F11");
            }
            Some("KEY_F11")
        },
        88 => {
            proof {
                reveal_strlit("KEY_F12");
            }
            Some("KEY_F12")
        },
        97 => {
            proof {
                reveal_strlit("KEY_RIGHTCTRL");
            }
            Some("KEY_RIGHTCTRL")
        },
        100 => {
            proof {
                reveal_strlit("KEY_RIGHTALT");
            }
            Some("KEY_RIGHTALT")
        },
        102 => {
            proof {
                reveal_strlit("KEY_HOME");
            }
            Some("KEY_HOME")
        },
        103 => {
            proof {
                reveal_strlit("KEY_UP");
            }
            Some("KEY_UP")
        },
        104 => {
            proof {
                reveal_strlit("KEY_PAGEUP");
            }
            Some("KEY_PAGEUP")
        },
        105 => {
            proof {
                reveal_strlit("KEY_LEFT");
            }
            Some("KEY_LEFT")
        },
        106 => {
            proof {
                reveal_strlit("KEY_RIGHT");
            }
            Some("KEY_RIGHT")
        },
        107 => {
            proof {
                reveal_strlit("KEY_END");
            }
            Some("KEY_END")
        },
        108 => {
            proof {
                reveal_strlit("KEY_DOWN");
            }
            Some("KEY_DOWN")
        },
        109 => {
            proof {
                reveal_strlit("KEY_PAGEDOWN");
            }
            Some("KEY_PAGEDOWN")
        },
        110 => {
            proof {
                reveal_strlit("KEY_INSERT");
            }
            Some("KEY_INSERT")
        },
        111 => {
            proof {
                reveal_strlit("KEY_DELETE");
            }
            Some("KEY_DELETE")
        },
        125 => {
            proof {
                reveal_strlit("KEY_LEFTMETA");
            }
            Some("KEY_LEFTMETA")
        },
        126 => {
            proof {
                reveal_strlit("KEY_RIGHTMETA");
            }
            Some("KEY_RIGHTMETA")
        },
        _ => None,
    }
}

/// Codes outside 1..=126 have no table name.
proof fn lemma_key_suffix_range(c: u16)
    requires
        key_suffix(c) is Some,
    ensures
        1 <= c <= 126,
{
}

/// The key code that a binding names: a table name, with or without the
/// `KEY_` prefix and surrounding whitespace, or else a decimal code.
pub fn keycode(name: &str) -> (r: Option<u16>)
    ensures
        r == spec_keycode(name@),
{
    let t = trim_chars(&chars_of(name));
    let prefix: Vec<char> = vec!['K', 'E', 'Y', '_'];
    let mut n: Vec<char> = Vec::new();
    let has_prefix = t.len() >= 4 && t[0] == prefix[0] && t[1] == prefix[1] && t[2] == prefix[2]
        && t[3] == prefix[3];
    proof {
        if t.len() >= 4 {
            if has_prefix {
                assert(t@.take(4) =~= key_prefix());
            } else {
                assert(t@.take(4) != key_prefix()) by {
                    if t@.take(4) == key_prefix() {
                        assert(t@.take(4)[0] == 'K');
                        assert(t@.take(4)[1] == 'E');
                        assert(t@.take(4)[2] == 'Y');
                        assert(t@.take(4)[3] == '_');
                    }
                }
            }
        }
    }
    let start: usize = if has_prefix {
        4
    } else {
        0
    };
    let mut i: usize = start;
    while i < t.len()
        invariant
            start <= i <= t.len(),
            n@ == t@.subrange(start as int, i as int),
        decreases t.len() - i,
    {
        n.push(t[i]);
        i = i + 1;
        assert(n@ =~= t@.subrange(start as int, i as int));
    }
    assert(n@ =~= bare_key_name(name@));
    let mut code: u16 = 1;
    while code < 127
        invariant
            1 <= code <= 127,
            n@ == bare_key_name(name@),
            forall|c: u16| 1 <= c < code ==> key_suffix(c) != Some(n@),
        decreases 127 - code,
    {
        match keyname(code) {
            Some(full) => {
                let cs = chars_of(full);
                let mut suffix: Vec<char> = Vec::new();
                let mut k: usize = 4;
                assert(cs@.len() >= 4);
                while k < cs.len()
                    invariant
                        4 <= k <= cs.len(),
                        suffix@ == cs@.subrange(4, k as int),
                    decreases cs.len() - k,
                {
                    suffix.push(cs[k]);
                    k = k + 1;
                    assert(suffix@ =~= cs@.subrange(4, k as int));
                }
                assert(suffix@ =~= key_suffix(code)->0);
                if chars_eq(&suffix, &n) {
                    proof {
                        assert(key_suffix(code) == Some(n@));
                        let c = choose|c: u16| key_suffix(c) == Some(n@);
                        lemma_key_suffix_injective(code, c);
                    }
                    return Some(code);
                }
            },
            None => {},
        }
        code = code + 1;
    }
    proof {
        assert forall|c: u16| key_suffix(c) != Some(n@) by {
            if key_suffix(c) == Some(n@) {
                lemma_key_suffix_range(c);
            }
        }
    }
    match parse_unsigned_chars(&n, 65535) {
        Some(v) => Some(v as u16),
        None => None,
    }
}

/// Table names are made of upper-case ASCII letters and digits.
proof fn lemma_key_suffix_chars(c: u16)
    requires
        key_suffix(c) is Some,
    ensures
        key_suffix(c)->0.len() > 0,
        forall|i: int|
            0 <= i < key_suffix(c)->0.len() ==> ('A' <= #[trigger] key_suffix(c)->0[i] <= 'Z' || '0'
                <= key_suffix(c)->0[i] <= '9'),
{
}

/// A name that `keyname` gives back names the same code again: what the
/// recorder stores is what playback presses.
pub proof fn lemma_keycode_keyname(code: u16)
    requires
        spec_keyname(code) is Some,
    ensures
        spec_keycode(spec_keyname(code)->0) == Some(code),
{
    let name = spec_keyname(code)->0;
    let s = key_suffix(code)->0;
    lemma_key_suffix_chars(code);
    assert(name =~= key_prefix() + s);
    assert(!crate::text::is_ws(name[0]));
    assert(!crate::text::is_ws(name[name.len() - 1])) by {
        assert(name[name.len() - 1] == s[s.len() - 1]);
    }
    assert(crate::text::trim_start(name) == name);
    assert(crate::text::trim_end(name) == name);
    assert(name.take(4) =~= key_prefix());
    assert(name.skip(4) =~= s);
    assert(bare_key_name(name) == s);
    assert(exists|c: u16| key_suffix(c) == Some(s));
    let c = choose|c: u16| key_suffix(c) == Some(s);
    lemma_key_suffix_injective(code, c);
}

proof fn lemma_trim_start_len(s: Seq<char>)
    ensures
        trim_start(s).len() <= s.len(),
        s.len() > 0 && is_ws(s[0]) ==> trim_start(s).len() < s.len(),
    decreases s.len(),
{
    if s.len() > 0 && is_ws(s[0]) {
        lemma_trim_start_len(s.drop_first());
    }
}

proof fn lemma_trim_end_len(s: Seq<char>)
    ensures
        trim_end(s).len() <= s.len(),
        s.len() > 0 && is_ws(s.last()) ==> trim_end(s).len() < s.len(),
    decreases s.len(),
{
    if s.len() > 0 && is_ws(s.last()) {
        lemma_trim_end_len(s.drop_last());
    }
}

/// A trimmed text neither starts nor ends with whitespace.
proof fn lemma_trimmed_ends(s: Seq<char>)
    requires
        trim(s) == s,
        s.len() > 0,
    ensures
        !is_ws(s[0]),
        !is_ws(s.last()),
{
    lemma_trim_start_len(s);
    lemma_trim_end_len(trim_start(s));
    if !is_ws(s[0]) {
        assert(trim_start(s) == s);
        lemma_trim_end_len(s);
    }
}

/// The `KEY_` prefix is optional: a trimmed name that does not itself
/// start with `KEY_` names the same key code with the prefix as without.
pub proof fn lemma_keycode_prefix_optional(s: Seq<char>)
    requires
        trim(s) == s,
        !(s.len() >= 4 && s.take(4) == key_prefix()),
    ensures
        spec_keycode(key_prefix() + s) == spec_keycode(s),
{
    let n = key_prefix() + s;
    assert(n.len() >= 4);
    assert(n[0] == 'K');
    assert(!is_ws(n[0]));
    if s.len() > 0 {
        lemma_trimmed_ends(s);
        assert(n.last() == s.last());
    }
    assert(!is_ws(n.last()));
    assert(trim_start(n) == n);
    assert(trim_end(n) == n);
    assert(n.take(4) =~= key_prefix());
    assert(n.skip(4) =~= s);
    assert(bare_key_name(n) == s);
    assert(bare_key_name(s) == s);
}

proof fn lemma_table_entry(code: u16, name: Seq<char>)
    requires
        key_suffix(code) is Some,
        name =~= key_prefix() + key_suffix(code)->0,
    ensures
        spec_keyname(code) == Some(name),
        spec_keycode(name) == Some(code),
{
    lemma_keycode_keyname(code);
}

/// The key table agrees with the kernel's input event codes, codes 1
/// to 12: each name below is read as its code, and the code named by it.
#[verifier::rlimit(40)]
pub proof fn lemma_key_table_1()
    ensures
        spec_keyname(1) == Some("KEY_ESC"@),
        spec_keycode("KEY_ESC"@) == Some(1u16),
        spec_keyname(2) == Some("KEY_1"@),
        spec_keycode("KEY_1"@) == Some(2u16),
        spec_keyname(3) == Some("KEY_2"@),
        spec_keycode("KEY_2"@) == Some(3u16),
        spec_keyname(4) == Some("KEY_3"@),
        spec_keycode("KEY_3"@) == Some(4u16),
        spec_keyname(5) == Some("KEY_4"@),
        spec_keycode("KEY_4"@) == Some(5u16),
        spec_keyname(6) == Some("KEY_5"@),
        spec_keycode("KEY_5"@) == Some(6u16),
        spec_keyname(7) == Some("KEY_6"@),
        spec_keycode("KEY_6"@) == Some(7u16),
        spec_keyname(8) == Some("KEY_7"@),
        spec_keycode("KEY_7"@) == Some(8u16),
        spec_keyname(9) == Some("KEY_8"@),
        spec_keycode("KEY_8"@) == Some(9u16),
        spec_keyname(10) == Some("KEY_9"@),
        spec_keycode("KEY_9"@) == Some(10u16),
        spec_keyname(11) == Some("KEY_0"@),
        spec_keycode("KEY_0"@) == Some(11u16),
        spec_keyname(12) == Some("KEY_MINUS"@),
        spec_keycode("KEY_MINUS"@) == Some(12u16),
{
    assert(spec_keyname(1) == Some("KEY_ESC"@) && spec_keycode("KEY_ESC"@) == Some(1u16)) by {
        reveal_strlit("KEY_ESC");
        lemma_table_entry(1, "KEY_ESC"@);
    }
    assert(spec_keyname(2) == Some("KEY_1"@) && spec_keycode("KEY_1"@) == Some(2u16)) by {
        reveal_strlit("KEY_1");
        lemma_table_entry(2, "KEY_1"@);
    }
    assert(spec_keyname(3) == Some("KEY_2"@) && spec_keycode("KEY_2"@) == Some(3u16)) by {
        reveal_strlit("KEY_2");
        lemma_table_entry(3, "KEY_2"@);
    }
    assert(spec_keyname(4) == Some("KEY_3"@) && spec_keycode("KEY_3"@) == Some(4u16)) by {
        reveal_strlit("KEY_3");
        lemma_table_entry(4, "KEY_3"@);
    }
    assert(spec_keyname(5) == Some("KEY_4"@) && spec_keycode("KEY_4"@) == Some(5u16)) by {
        reveal_strlit("KEY_4");
        lemma_table_entry(5, "KEY_4"@);
    }
    assert(spec_keyname(6) == Some("KEY_5"@) && spec_keycode("KEY_5"@) == Some(6u16)) by {
        reveal_strlit("KEY_5");
        lemma_table_entry(6, "KEY_5"@);
    }
    assert(spec_keyname(7) == Some("KEY_6"@) && spec_keycode("KEY_6"@) == Some(7u16)) by {
        reveal_strlit("KEY_6");
        lemma_table_entry(7, "KEY_6"@);
    }
    assert(spec_keyname(8) == Some("KEY_7"@) && spec_keycode("KEY_7"@) == Some(8u16)) by {
        reveal_strlit("KEY_7");
        lemma_table_entry(8, "KEY_7"@);
    }
    assert(spec_keyname(9) == Some("KEY_8"@) && spec_keycode("KEY_8"@) == Some(9u16)) by {
        reveal_strlit("KEY_8");
        lemma_table_entry(9, "KEY_8"@);
    }
    assert(spec_keyname(10) == Some("KEY_9"@) && spec_keycode("KEY_9"@) == Some(10u16)) by {
        reveal_strlit("KEY_9");
        lemma_table_entry(10, "KEY_9"@);
    }
    assert(spec_keyname(11) == Some("KEY_0"@) && spec_keycode("KEY_0"@) == Some(11u16)) by {
        reveal_strlit("KEY_0");
        lemma_table_entry(11, "KEY_0"@);
    }
    assert(spec_keyname(12) == Some("KEY_MINUS"@) && spec_keycode("KEY_MINUS"@) == Some(12u16)) by {
        reveal_strlit("KEY_MINUS");
        lemma_table_entry(12, "KEY_MINUS"@);
    }
}

/// The key table agrees with the kernel's input event codes, codes 13
/// to 24: each name below is read as its code, and the code named by it.
#[verifier::rlimit(40)]
pub proof fn lemma_key_table_2()
    ensures
        spec_keyname(13) == Some("KEY_EQUAL"@),
        spec_keycode("KEY_EQUAL"@) == Some(13u16),
        spec_keyname(14) == Some("KEY_BACKSPACE"@),
        spec_keycode("KEY_BACKSPACE"@) == Some(14u16),
        spec_keyname(15) == Some("KEY_TAB"@),
        spec_keycode("KEY_TAB"@) == Some(15u16),
        spec_keyname(16) == Some("KEY_Q"@),
        spec_keycode("KEY_Q"@) == Some(16u16),
        spec_keyname(17) == Some("KEY_W"@),
        spec_keycode("KEY_W"@) == Some(17u16),
        spec_keyname(18) == Some("KEY_E"@),
        spec_keycode("KEY_E"@) == Some(18u16),
        spec_keyname(19) == Some("KEY_R"@),
        spec_keycode("KEY_R"@) == Some(19u16),
        spec_keyname(20) == Some("KEY_T"@),
        spec_keycode("KEY_T"@) == Some(20u16),
        spec_keyname(21) == Some("KEY_Y"@),
        spec_keycode("KEY_Y"@) == Some(21u16),
        spec_keyname(22) == Some("KEY_U"@),
        spec_keycode("KEY_U"@) == Some(22u16),
        spec_keyname(23) == Some("KEY_I"@),
        spec_keycode("KEY_I"@) == Some(23u16),
        spec_keyname(24) == Some("KEY_O"@),
        spec_keycode("KEY_O"@) == Some(24u16),
{
    assert(spec_keyname(13) == Some("KEY_EQUAL"@) && spec_keycode("KEY_EQUAL"@) == Some(13u16)) by {
        reveal_strlit("KEY_EQUAL");
        lemma_table_entry(13, "KEY_EQUAL"@);
    }
    assert(spec_keyname(14) == Some("KEY_BACKSPACE"@) && spec_keycode("KEY_BACKSPACE"@) == Some(14u16)) by {
        reveal_strlit("KEY_BACKSPACE");
        lemma_table_entry(14, "KEY_BACKSPACE"@);
    }
    assert(spec_keyname(15) == Some("KEY_TAB"@) && spec_keycode("KEY_TAB"@) == Some(15u16)) by {
        reveal_strlit("KEY_TAB");
        lemma_table_entry(15, "KEY_TAB"@);
    }
    assert(spec_keyname(16) == Some("KEY_Q"@) && spec_keycode("KEY_Q"@) == Some(16u16)) by {
        reveal_strlit("KEY_Q");
        lemma_table_entry(16, "KEY_Q"@);
    }
    assert(spec_keyname(17) == Some("KEY_W"@) && spec_keycode("KEY_W"@) == Some(17u16)) by {
        reveal_strlit("KEY_W");
        lemma_table_entry(17, "KEY_W"@);
    }
    assert(spec_keyname(18) == Some("KEY_E"@) && spec_keycode("KEY_E"@) == Some(18u16)) by {
        reveal_strlit("KEY_E");
        lemma_table_entry(18, "KEY_E"@);
    }
    assert(spec_keyname(19) == Some("KEY_R"@) && spec_keycode("KEY_R"@) == Some(19u16)) by {
        reveal_strlit("KEY_R");
        lemma_table_entry(19, "KEY_R"@);
    }
    assert(spec_keyname(20) == Some("KEY_T"@) && spec_keycode("KEY_T"@) == Some(20u16)) by {
        reveal_strlit("KEY_T");
        lemma_table_entry(20, "KEY_T"@);
    }
    assert(spec_keyname(21) == Some("KEY_Y"@) && spec_keycode("KEY_Y"@) == Some(21u16)) by {
        reveal_strlit("KEY_Y");
        lemma_table_entry(21, "KEY_Y"@);
    }
    assert(spec_keyname(22) == Some("KEY_U"@) && spec_keycode("KEY_U"@) == Some(22u16)) by {
        reveal_strlit("KEY_U");
        lemma_table_entry(22, "KEY_U"@);
    }
    assert(spec_keyname(23) == Some("KEY_I"@) && spec_keycode("KEY_I"@) == Some(23u16)) by {
        reveal_strlit("KEY_I");
        lemma_table_entry(23, "KEY_I"@);
    }
    assert(spec_keyname(24) == Some("KEY_O"@) && spec_keycode("KEY_O"@) == Some(24u16)) by {
        reveal_strlit("KEY_O");
        lemma_table_entry(24, "KEY_O"@);
    }
}

/// The key table agrees with the kernel's input event codes, codes 25
/// to 36: each name below is read as its code, and the code named by it.
#[verifier::rlimit(40)]
pub proof fn lemma_key_table_3()
    ensures
        spec_keyname(25) == Some("KEY_P"@),
        spec_keycode("KEY_P"@) == Some(25u16),
        spec_keyname(26) == Some("KEY_LEFTBRACE"@),
        spec_keycode("KEY_LEFTBRACE"@) == Some(26u16),
        spec_keyname(27) == Some("KEY_RIGHTBRACE"@),
        spec_keycode("KEY_RIGHTBRACE"@) == Some(27u16),
        spec_keyname(28) == Some("KEY_ENTER"@),
        spec_keycode("KEY_ENTER"@) == Some(28u16),
        spec_keyname(29) == Some("KEY_LEFTCTRL"@),
        spec_keycode("KEY_LEFTCTRL"@) == Some(29u16),
        spec_keyname(30) == Some("KEY_A"@),
        spec_keycode("KEY_A"@) == Some(30u16),
        spec_keyname(31) == Some("KEY_S"@),
        spec_keycode("KEY_S"@) == Some(31u16),
        spec_keyname(32) == Some("KEY_D"@),
        spec_keycode("KEY_D"@) == Some(32u16),
        spec_keyname(33) == Some("KEY_F"@),
        spec_keycode("KEY_F"@) == Some(33u16),
        spec_keyname(34) == Some("KEY_G"@),
        spec_keycode("KEY_G"@) == Some(34u16),
        spec_keyname(35) == Some("KEY_H"@),
        spec_keycode("KEY_H"@) == Some(35u16),
        spec_keyname(36) == Some("KEY_J"@),
        spec_keycode("KEY_J"@) == Some(36u16),
{
    assert(spec_keyname(25) == Some("KEY_P"@) && spec_keycode("KEY_P"@) == Some(25u16)) by {
        reveal_strlit("KEY_P");
        lemma_table_entry(25, "KEY_P"@);
    }
    assert(spec_keyname(26) == Some("KEY_LEFTBRACE"@) && spec_keycode("KEY_LEFTBRACE"@) == Some(26u16)) by {
        reveal_strlit("KEY_LEFTBRACE");
        lemma_table_entry(26, "KEY_LEFTBRACE"@);
    }
    assert(spec_keyname(27) == Some("KEY_RIGHTBRACE"@) && spec_keycode("KEY_RIGHTBRACE"@) == Some(27u16)) by {
        reveal_strlit("KEY_RIGHTBRACE");
        lemma_table_entry(27, "KEY_RIGHTBRACE"@);
    }
    assert(spec_keyname(28) == Some("KEY_ENTER"@) && spec_keycode("KEY_ENTER"@) == Some(28u16)) by {
        reveal_strlit("KEY_ENTER");
        lemma_table_entry(28, "KEY_ENTER"@);
    }
    assert(spec_keyname(29) == Some("KEY_LEFTCTRL"@) && spec_keycode("KEY_LEFTCTRL"@) == Some(29u16)) by {
        reveal_strlit("KEY_LEFTCTRL");
        lemma_table_entry(29, "KEY_LEFTCTRL"@);
    }
    assert(spec_keyname(30) == Some("KEY_A"@) && spec_keycode("KEY_A"@) == Some(30u16)) by {
        reveal_strlit("KEY_A");
        lemma_table_entry(30, "KEY_A"@);
    }
    assert(spec_keyname(31) == Some("KEY_S"@) && spec_keycode("KEY_S"@) == Some(31u16)) by {
        reveal_strlit("KEY_S");
        lemma_table_entry(31, "KEY_S"@);
    }
    assert(spec_keyname(32) == Some("KEY_D"@) && spec_keycode("KEY_D"@) == Some(32u16)) by {
        reveal_strlit("KEY_D");
        lemma_table_entry(32, "KEY_D"@);
    }
    assert(spec_keyname(33) == Some("KEY_F"@) && spec_keycode("KEY_F"@) == Some(33u16)) by {
        reveal_strlit("KEY_F");
        lemma_table_entry(33, "KEY_F"@);
    }
    assert(spec_keyname(34) == Some("KEY_G"@) && spec_keycode("KEY_G"@) == Some(34u16)) by {
        reveal_strlit("KEY_G");
        lemma_table_entry(34, "KEY_G"@);
    }
    assert(spec_keyname(35) == Some("KEY_H"@) && spec_keycode("KEY_H"@) == Some(35u16)) by {
        reveal_strlit("KEY_H");
        lemma_table_entry(35, "KEY_H"@);
    }
    assert(spec_keyname(36) == Some("KEY_J"@) && spec_keycode("KEY_J"@) == Some(36u16)) by {
        reveal_strlit("KEY_J");
        lemma_table_entry(36, "KEY_J"@);
    }
}

/// The key table agrees with the kernel's input event codes, codes 37
/// to 48: each name below is read as its code, and the code named by it.
#[verifier::rlimit(40)]
pub proof fn lemma_key_table_4()
    ensures
        spec_keyname(37) == Some("KEY_K"@),
        spec_keycode("KEY_K"@) == Some(37u16),
        spec_keyname(38) == Some("KEY_L"@),
        spec_keycode("KEY_L"@) == Some(38u16),
        spec_keyname(39) == Some("KEY_SEMICOLON"@),
        spec_keycode("KEY_SEMICOLON"@) == Some(39u16),
        spec_keyname(40) == Some("KEY_APOSTROPHE"@),
        spec_keycode("KEY_APOSTROPHE"@) == Some(40u16),
        spec_keyname(41) == Some("KEY_GRAVE"@),
        spec_keycode("KEY_GRAVE"@) == Some(41u16),
        spec_keyname(42) == Some("KEY_LEFTSHIFT"@),
        spec_keycode("KEY_LEFTSHIFT"@) == Some(42u16),
        spec_keyname(43) == Some("KEY_BACKSLASH"@),
        spec_keycode("KEY_BACKSLASH"@) == Some(43u16),
        spec_keyname(44) == Some("KEY_Z"@),
        spec_keycode("KEY_Z"@) == Some(44u16),
        spec_keyname(45) == Some("KEY_X"@),
        spec_keycode("KEY_X"@) == Some(45u16),
        spec_keyname(46) == Some("KEY_C"@),
        spec_keycode("KEY_C"@) == Some(46u16),
        spec_keyname(47) == Some("KEY_V"@),
        spec_keycode("KEY_V"@) == Some(47u16),
        spec_keyname(48) == Some("KEY_B"@),
        spec_keycode("KEY_B"@) == Some(48u16),
{
    assert(spec_keyname(37) == Some("KEY_K"@) && spec_keycode("KEY_K"@) == Some(37u16)) by {
        reveal_strlit("KEY_K");
        lemma_table_entry(37, "KEY_K"@);
    }
    assert(spec_keyname(38) == Some("KEY_L"@) && spec_keycode("KEY_L"@) == Some(38u16)) by {
        reveal_strlit("KEY_L");
        lemma_table_entry(38, "KEY_L"@);
    }
    assert(spec_keyname(39) == Some("KEY_SEMICOLON"@) && spec_keycode("KEY_SEMICOLON"@) == Some(39u16)) by {
        reveal_strlit("KEY_SEMICOLON");
        lemma_table_entry(39, "KEY_SEMICOLON"@);
    }
    assert(spec_keyname(40) == Some("KEY_APOSTROPHE"@) && spec_keycode("KEY_APOSTROPHE"@) == Some(40u16)) by {
        reveal_strlit("KEY_APOSTROPHE");
        lemma_table_entry(40, "KEY_APOSTROPHE"@);
    }
    assert(spec_keyname(41) == Some("KEY_GRAVE"@) && spec_keycode("KEY_GRAVE"@) == Some(41u16)) by {
        reveal_strlit("KEY_GRAVE");
        lemma_table_entry(41, "KEY_GRAVE"@);
    }
    assert(spec_keyname(42) == Some("KEY_LEFTSHIFT"@) && spec_keycode("KEY_LEFTSHIFT"@) == Some(42u16)) by {
        reveal_strlit("KEY_LEFTSHIFT");
        lemma_table_entry(42, "KEY_LEFTSHIFT"@);
    }
    assert(spec_keyname(43) == Some("KEY_BACKSLASH"@) && spec_keycode("KEY_BACKSLASH"@) == Some(43u16)) by {
        reveal_strlit("KEY_BACKSLASH");
        lemma_table_entry(43, "KEY_BACKSLASH"@);
    }
    assert(spec_keyname(44) == Some("KEY_Z"@) && spec_keycode("KEY_Z"@) == Some(44u16)) by {
        reveal_strlit("KEY_Z");
        lemma_table_entry(44, "KEY_Z"@);
    }
    assert(spec_keyname(45) == Some("KEY_X"@) && spec_keycode("KEY_X"@) == Some(45u16)) by {
        reveal_strlit("KEY_X");
        lemma_table_entry(45, "KEY_X"@);
    }
    assert(spec_keyname(46) == Some("KEY_C"@) && spec_keycode("KEY_C"@) == Some(46u16)) by {
        reveal_strlit("KEY_C");
        lemma_table_entry(46, "KEY_C"@);
    }
    assert(spec_keyname(47) == Some("KEY_V"@) && spec_keycode("KEY_V"@) == Some(47u16)) by {
        reveal_strlit("KEY_V");
        lemma_table_entry(47, "KEY_V"@);
    }
    assert(spec_keyname(48) == Some("KEY_B"@) && spec_keycode("KEY_B"@) == Some(48u16)) by {
        reveal_strlit("KEY_B");
        lemma_table_entry(48, "KEY_B"@);
    }
}

/// The key table agrees with the kernel's input event codes, codes 49
/// to 61: each name below is read as its code, and the code named by it.
#[verifier::rlimit(40)]
pub proof fn lemma_key_table_5()
    ensures
        spec_keyname(49) == Some("KEY_N"@),
        spec_keycode("KEY_N"@) == Some(49u16),
        spec_keyname(50) == Some("KEY_M"@),
        spec_keycode("KEY_M"@) == Some(50u16),
        spec_keyname(51) == Some("KEY_COMMA"@),
        spec_keycode("KEY_COMMA"@) == Some(51u16),
        spec_keyname(52) == Some("KEY_DOT"@),
        spec_keycode("KEY_DOT"@) == Some(52u16),
        spec_keyname(53) == Some("KEY_SLASH"@),
        spec_keycode("KEY_SLASH"@) == Some(53u16),
        spec_keyname(54) == Some("KEY_RIGHTSHIFT"@),
        spec_keycode("KEY_RIGHTSHIFT"@) == Some(54u16),
        spec_keyname(56) == Some("KEY_LEFTALT"@),
        spec_keycode("KEY_LEFTALT"@) == Some(56u16),
        spec_keyname(57) == Some("KEY_SPACE"@),
        spec_keycode("KEY_SPACE"@) == Some(57u16),
        spec_keyname(58) == Some("KEY_CAPSLOCK"@),
        spec_keycode("KEY_CAPSLOCK"@) == Some(58u16),
        spec_keyname(59) == Some("KEY_F1"@),
        spec_keycode("KEY_F1"@) == Some(59u16),
        spec_keyname(60) == Some("KEY_F2"@),
        spec_keycode("KEY_F2"@) == Some(60u16),
        spec_keyname(61) == Some("KEY_F3"@),
        spec_keycode("KEY_F3"@) == Some(61u16),
{
    assert(spec_keyname(49) == Some("KEY_N"@) && spec_keycode("KEY_N"@) == Some(49u16)) by {
        reveal_strlit("KEY_N");
        lemma_table_entry(49, "KEY_N"@);
    }
    assert(spec_keyname(50) == Some("KEY_M"@) && spec_keycode("KEY_M"@) == Some(50u16)) by {
        reveal_strlit("KEY_M");
        lemma_table_entry(50, "KEY_M"@);
    }
    assert(spec_keyname(51) == Some("KEY_COMMA"@) && spec_keycode("KEY_COMMA"@) == Some(51u16)) by {
        reveal_strlit("KEY_COMMA");
        lemma_table_entry(51, "KEY_COMMA"@);
    }
    assert(spec_keyname(52) == Some("KEY_DOT"@) && spec_keycode("KEY_DOT"@) == Some(52u16)) by {
        reveal_strlit("KEY_DOT");
        lemma_table_entry(52, "KEY_DOT"@);
    }
    assert(spec_keyname(53) == Some("KEY_SLASH"@) && spec_keycode("KEY_SLASH"@) == Some(53u16)) by {
        reveal_strlit("KEY_SLASH");
        lemma_table_entry(53, "KEY_SLASH"@);
    }
    assert(spec_keyname(54) == Some("KEY_RIGHTSHIFT"@) && spec_keycode("KEY_RIGHTSHIFT"@) == Some(54u16)) by {
        reveal_strlit("KEY_RIGHTSHIFT");
        lemma_table_entry(54, "KEY_RIGHTSHIFT"@);
    }
    assert(spec_keyname(56) == Some("KEY_LEFTALT"@) && spec_keycode("KEY_LEFTALT"@) == Some(56u16)) by {
        reveal_strlit("KEY_LEFTALT");
        lemma_table_entry(56, "KEY_LEFTALT"@);
    }
    assert(spec_keyname(57) == Some("KEY_SPACE"@) && spec_keycode("KEY_SPACE"@) == Some(57u16)) by {
        reveal_strlit("KEY_SPACE");
        lemma_table_entry(57, "KEY_SPACE"@);
    }
    assert(spec_keyname(58) == Some("KEY_CAPSLOCK"@) && spec_keycode("KEY_CAPSLOCK"@) == Some(58u16)) by {
        reveal_strlit("KEY_CAPSLOCK");
        lemma_table_entry(58, "KEY_CAPSLOCK"@);
    }
    assert(spec_keyname(59) == Some("KEY_F1"@) && spec_keycode("KEY_F1"@) == Some(59u16)) by {
        reveal_strlit("KEY_F1");
        lemma_table_entry(59, "KEY_F1"@);
    }
    assert(spec_keyname(60) == Some("KEY_F2"@) && spec_keycode("KEY_F2"@) == Some(60u16)) by {
        reveal_strlit("KEY_F2");
        lemma_table_entry(60, "KEY_F2"@);
    }
    assert(spec_keyname(61) == Some("KEY_F3"@) && spec_keycode("KEY_F3"@) == Some(61u16)) by {
        reveal_strlit("KEY_F3");
        lemma_table_entry(61, "KEY_F3"@);
    }
}

/// The key table agrees with the kernel's input event codes, codes 62
/// to 102: each name below is read as its code, and the code named by it.
#[verifier::rlimit(40)]
pub proof fn lemma_key_table_6()
    ensures
        spec_keyname(62) == Some("KEY_F4"@),
        spec_keycode("KEY_F4"@) == Some(62u16),
        spec_keyname(63) == Some("KEY_F5"@),
        spec_keycode("KEY_F5"@) == Some(63u16),
        spec_keyname(64) == Some("KEY_F6"@),
        spec_keycode("KEY_F6"@) == Some(64u16),
        spec_keyname(65) == Some("KEY_F7"@),
        spec_keycode("KEY_F7"@) == Some(65u16),
        spec_keyname(66) == Some("KEY_F8"@),
        spec_keycode("KEY_F8"@) == Some(66u16),
        spec_keyname(67) == Some("KEY_F9"@),
        spec_keycode("KEY_F9"@) == Some(67u16),
        spec_keyname(68) == Some("KEY_F10"@),
        spec_keycode("KEY_F10"@) == Some(68u16),
        spec_keyname(87) == Some("KEY_F11"@),
        spec_keycode("KEY_F11"@) == Some(87u16),
        spec_keyname(88) == Some("KEY_F12"@),
        spec_keycode("KEY_F12"@) == Some(88u16),
        spec_keyname(97) == Some("KEY_RIGHTCTRL"@),
        spec_keycode("KEY_RIGHTCTRL"@) == Some(97u16),
        spec_keyname(100) == Some("KEY_RIGHTALT"@),
        spec_keycode("KEY_RIGHTALT"@) == Some(100u16),
        spec_keyname(102) == Some("KEY_HOME"@),
        spec_keycode("KEY_HOME"@) == Some(102u16),
{
    assert(spec_keyname(62) == Some("KEY_F4"@) && spec_keycode("KEY_F4"@) == Some(62u16)) by {
        reveal_strlit("KEY_F4");
        lemma_table_entry(62, "KEY_F4"@);
    }
    assert(spec_keyname(63) == Some("KEY_F5"@) && spec_keycode("KEY_F5"@) == Some(63u16)) by {
        reveal_strlit("KEY_F5");
        lemma_table_entry(63, "KEY_F5"@);
    }
    assert(spec_keyname(64) == Some("KEY_F6"@) && spec_keycode("KEY_F6"@) == Some(64u16)) by {
        reveal_strlit("KEY_F6");
        lemma_table_entry(64, "KEY_F6"@);
    }
    assert(spec_keyname(65) == Some("KEY_F7"@) && spec_keycode("KEY_F7"@) == Some(65u16)) by {
        reveal_strlit("KEY_F7");
        lemma_table_entry(65, "KEY_F7"@);
    }
    assert(spec_keyname(66) == Some("KEY_F8"@) && spec_keycode("KEY_F8"@) == Some(66u16)) by {
        reveal_strlit("KEY_F8");
        lemma_table_entry(66, "KEY_F8"@);
    }
    assert(spec_keyname(67) == Some("KEY_F9"@) && spec_keycode("KEY_F9"@) == Some(67u16)) by {
        reveal_strlit("KEY_F9");
        lemma_table_entry(67, "KEY_F9"@);
    }
    assert(spec_keyname(68) == Some("KEY_F10"@) && spec_keycode("KEY_F10"@) == Some(68u16)) by {
        reveal_strlit("KEY_F10");
        lemma_table_entry(68, "KEY_F10"@);
    }
    assert(spec_keyname(87) == Some("KEY_F11"@) && spec_keycode("KEY_F11"@) == Some(87u16)) by {
        reveal_strlit("KEY_F11");
        lemma_table_entry(87, "KEY_F11"@);
    }
    assert(spec_keyname(88) == Some("KEY_F12"@) && spec_keycode("KEY_F12"@) == Some(88u16)) by {
        reveal_strlit("KEY_F12");
        lemma_table_entry(88, "KEY_F12"@);
    }
    assert(spec_keyname(97) == Some("KEY_RIGHTCTRL"@) && spec_keycode("KEY_RIGHTCTRL"@) == Some(97u16)) by {
        reveal_strlit("KEY_RIGHTCTRL");
        lemma_table_entry(97, "KEY_RIGHTCTRL"@);
    }
    assert(spec_keyname(100) == Some("KEY_RIGHTALT"@) && spec_keycode("KEY_RIGHTALT"@) == Some(100u16)) by {
        reveal_strlit("KEY_RIGHTALT");
        lemma_table_entry(100, "KEY_RIGHTALT"@);
    }
    assert(spec_keyname(102) == Some("KEY_HOME"@) && spec_keycode("KEY_HOME"@) == Some(102u16)) by {
        reveal_strlit("KEY_HOME");
        lemma_table_entry(102, "KEY_HOME"@);
    }
}

/// The key table agrees with the kernel's input event codes, codes 103
/// to 126: each name below is read as its code, and the code named by it.
#[verifier::rlimit(40)]
pub proof fn lemma_key_table_7()
    ensures
        spec_keyname(103) == Some("KEY_UP"@),
        spec_keycode("KEY_UP"@) == Some(103u16),
        spec_keyname(104) == Some("KEY_PAGEUP"@),
        spec_keycode("KEY_PAGEUP"@) == Some(104u16),
        spec_keyname(105) == Some("KEY_LEFT"@),
        spec_keycode("KEY_LEFT"@) == Some(105u16),
        spec_keyname(106) == Some("KEY_RIGHT"@),
        spec_keycode("KEY_RIGHT"@) == Some(106u16),
        spec_keyname(107) == Some("KEY_END"@),
        spec_keycode("KEY_END"@) == Some(107u16),
        spec_keyname(108) == Some("KEY_DOWN"@),
        spec_keycode("KEY_DOWN"@) == Some(108u16),
        spec_keyname(109) == Some("KEY_PAGEDOWN"@),
        spec_keycode("KEY_PAGEDOWN"@) == Some(109u16),
        spec_keyname(110) == Some("KEY_INSERT"@),
        spec_keycode("KEY_INSERT"@) == Some(110u16),
        spec_keyname(111) == Some("KEY_DELETE"@),
        spec_keycode("KEY_DELETE"@) == Some(111u16),
        spec_keyname(125) == Some("KEY_LEFTMETA"@),
        spec_keycode("KEY_LEFTMETA"@) == Some(125u16),
        spec_keyname(126) == Some("KEY_RIGHTMETA"@),
        spec_keycode("KEY_RIGHTMETA"@) == Some(126u16),
{
    assert(spec_keyname(103) == Some("KEY_UP"@) && spec_keycode("KEY_UP"@) == Some(103u16)) by {
        reveal_strlit("KEY_UP");
        lemma_table_entry(103, "KEY_UP"@);
    }
    assert(spec_keyname(104) == Some("KEY_PAGEUP"@) && spec_keycode("KEY_PAGEUP"@) == Some(104u16)) by {
        reveal_strlit("KEY_PAGEUP");
        lemma_table_entry(104, "KEY_PAGEUP"@);
    }
    assert(spec_keyname(105) == Some("KEY_LEFT"@) && spec_keycode("KEY_LEFT"@) == Some(105u16)) by {
        reveal_strlit("KEY_LEFT");
        lemma_table_entry(105, "KEY_LEFT"@);
    }
    assert(spec_keyname(106) == Some("KEY_RIGHT"@) && spec_keycode("KEY_RIGHT"@) == Some(106u16)) by {
        reveal_strlit("KEY_RIGHT");
        lemma_table_entry(106, "KEY_RIGHT"@);
    }
    assert(spec_keyname(107) == Some("KEY_END"@) && spec_keycode("KEY_END"@) == Some(107u16)) by {
        reveal_strlit("KEY_END");
        lemma_table_entry(107, "KEY_END"@);
    }
    assert(spec_keyname(108) == Some("KEY_DOWN"@) && spec_keycode("KEY_DOWN"@) == Some(108u16)) by {
        reveal_strlit("KEY_DOWN");
        lemma_table_entry(108, "KEY_DOWN"@);
    }
    assert(spec_keyname(109) == Some("KEY_PAGEDOWN"@) && spec_keycode("KEY_PAGEDOWN"@) == Some(109u16)) by {
        reveal_strlit("KEY_PAGEDOWN");
        lemma_table_entry(109, "KEY_PAGEDOWN"@);
    }
    assert(spec_keyname(110) == Some("KEY_INSERT"@) && spec_keycode("KEY_INSERT"@) == Some(110u16)) by {
        reveal_strlit("KEY_INSERT");
        lemma_table_entry(110, "KEY_INSERT"@);
    }
    assert(spec_keyname(111) == Some("KEY_DELETE"@) && spec_keycode("KEY_DELETE"@) == Some(111u16)) by {
        reveal_strlit("KEY_DELETE");
        lemma_table_entry(111, "KEY_DELETE"@);
    }
    assert(spec_keyname(125) == Some("KEY_LEFTMETA"@) && spec_keycode("KEY_LEFTMETA"@) == Some(125u16)) by {
        reveal_strlit("KEY_LEFTMETA");
        lemma_table_entry(125, "KEY_LEFTMETA"@);
    }
    assert(spec_keyname(126) == Some("KEY_RIGHTMETA"@) && spec_keycode("KEY_RIGHTMETA"@) == Some(126u16)) by {
        reveal_strlit("KEY_RIGHTMETA");
        lemma_table_entry(126, "KEY_RIGHTMETA"@);
    }
}

/// The key table names exactly these kernel key codes and no others.
pub proof fn lemma_key_table_codes(code: u16)
    ensures
        spec_keyname(code) is Some <==> (code == 1 || code == 2 || code == 3 || code == 4 || code == 5 || code == 6 || code == 7 || code == 8 || code == 9 || code == 10 || code == 11 || code == 12 || code == 13 || code == 14 || code == 15 || code == 16 || code == 17 || code == 18 || code == 19 || code == 20 || code == 21 || code == 22 || code == 23 || code == 24 || code == 25 || code == 26 || code == 27 || code == 28 || code == 29 || code == 30 || code == 31 || code == 32 || code == 33 || code == 34 || code == 35 || code == 36 || code == 37 || code == 38 || code == 39 || code == 40 || code == 41 || code == 42 || code == 43 || code == 44 || code == 45 || code == 46 || code == 47 || code == 48 || code == 49 || code == 50 || code == 51 || code == 52 || code == 53 || code == 54 || code == 56 || code == 57 || code == 58 || code == 59 || code == 60 || code == 61 || code == 62 || code == 63 || code == 64 || code == 65 || code == 66 || code == 67 || code == 68 || code == 87 || code == 88 || code == 97 || code == 100 || code == 102 || code == 103 || code == 104 || code == 105 || code == 106 || code == 107 || code == 108 || code == 109 || code == 110 || code == 111 || code == 125 || code == 126),
{
}

pub const EV_SYN: u16 = 0x00;
pub const SYN_REPORT: u16 = 0x00;

/// The highest key code the virtual keyboard enables; it enables every
/// code from 1 up to it.
pub const MAX_KEY_CODE: u16 = 767;

/// An event as written to uinput: the time stamp left zero for the kernel
/// to fill in.
pub open spec fn emitted(event_type: u16, code: u16, value: i32) -> InputEvent {
    InputEvent { sec: 0, usec: 0, type_: event_type, code, value }
}

/// The bytes of one event written to uinput.
pub fn emit_bytes(event_type: u16, code: u16, value: i32) -> (r: Vec<u8>)
    ensures
        r@ == event_bytes(emitted(event_type, code, value)),
{
    encode_event(&InputEvent { sec: 0, usec: 0, type_: event_type, code, value })
}

/// The two writes that press (`value` 1) or release (`value` 0) a key of
/// the virtual keyboard: the key event, then a report that ends the batch.
pub fn key_reports(code: u16, value: i32) -> (r: Vec<Vec<u8>>)
    ensures
        r@.len() == 2,
        r@[0]@ == event_bytes(emitted(EV_KEY, code, value)),
        r@[1]@ == event_bytes(emitted(EV_SYN, SYN_REPORT, 0)),
{
    let mut r: Vec<Vec<u8>> = Vec::new();
    r.push(emit_bytes(EV_KEY, code, value));
    r.push(emit_bytes(EV_SYN, SYN_REPORT, 0));
    r
}

/// The name under which the virtual keyboard appears.
pub open spec fn device_name() -> Seq<char> {
    "G13 Nexus Virtual Keyboard"@
}

/// The 80-byte name field of the uinput setup record: the name, then zero
/// bytes.
pub open spec fn name_field() -> Seq<u8> {
    Seq::new(80, |i: int| if i < device_name().len() { device_name()[i] as u8 } else { 0u8 })
}

/// The setup record written to `/dev/uinput` before the device is created
/// (`struct uinput_user_dev`): the name, the id (USB bus, vendor 0x1234,
/// product 0x5678, version 0x0200), and zero for the force-feedback count
/// and the four tables of axis limits.
pub open spec fn setup_record() -> Seq<u8> {
    name_field() + u16_bytes(0x03) + u16_bytes(0x1234) + u16_bytes(0x5678) + u16_bytes(0x0200)
        + Seq::new(1028, |i: int| 0u8)
}

fn push_zeros(v: &mut Vec<u8>, n: usize)
    ensures
        final(v)@ == old(v)@ + Seq::new(n as nat, |i: int| 0u8),
{
    let ghost o = v@;
    let mut k: usize = 0;
    while k < n
        invariant
            k <= n,
            v@ == o + Seq::new(k as nat, |i: int| 0u8),
        decreases n - k,
    {
        v.push(0u8);
        k = k + 1;
        assert(v@ =~= o + Seq::new(k as nat, |i: int| 0u8));
    }
}

fn push_u16_le(v: &mut Vec<u8>, x: u16)
    ensures
        final(v)@ == old(v)@ + u16_bytes(x),
{
    v.push((x & 0xff) as u8);
    v.push((x >> 8u16) as u8);
    assert(final(v)@ =~= old(v)@ + u16_bytes(x));
}

/// The bytes of the uinput setup record.
pub fn setup_bytes() -> (r: Vec<u8>)
    ensures
        r@ == setup_record(),
        r@.len() == 1116,
{
    let name = "G13 Nexus Virtual Keyboard";
    proof {
        reveal_strlit("G13 Nexus Virtual Keyboard");
    }
    let cs = chars_of(name);
    let mut v: Vec<u8> = Vec::new();
    let mut i: usize = 0;
    while i < cs.len()
        invariant
            i <= cs@.len(),
            cs@ == device_name(),
            cs@.len() == 26,
            v@ == name_field().take(i as int),
        decreases cs@.len() - i,
    {
        v.push(cs[i] as u8);
        i = i + 1;
        assert(v@ =~= name_field().take(i as int));
    }
    push_zeros(&mut v, 80 - cs.len());
    assert(v@ =~= name_field());
    push_u16_le(&mut v, 0x03);
    push_u16_le(&mut v, 0x1234);
    push_u16_le(&mut v, 0x5678);
    push_u16_le(&mut v, 0x0200);
    push_zeros(&mut v, 1028);
    v
}

} // verus!
