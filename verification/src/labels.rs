//! What the configuration window shows and sends: which controls it lets
//! the user bind, how it names the keys of a macro, and which key names it
//! sends for the keys pressed in it while a recording waits for input.
use vstd::prelude::*;
use crate::config::{bank_index, MacroStep, Profile};
use crate::daemon::spec_recordable;
use crate::ipc::Reply;
use crate::uinput::{key_prefix, key_suffix, lemma_keycode_keyname, spec_keycode, spec_keyname};
use crate::text::{
    decimal, decimal_chars, lower_all, lower_chars, chars_eq, extend_chars,
    chars_of, contains_chars, concat_chars, concat_str, has_prefix, is_digit, parse_unsigned, parse_unsigned_chars,
    starts_with, str_eq, string_of, to_upper, upper, views, digits_value, lemma_digits_value_prefix,
};

verus! {

/// Whether the window lets the user bind `name`: the M keys, MR and the
/// lighting key keep their fixed functions.
pub open spec fn spec_configurable(name: Seq<char>) -> bool {
    !(has_prefix(name, "KEY_MACRO_PRESET"@) || name == "KEY_MACRO_RECORD_START"@ || name
        == "KEY_LIGHTS_TOGGLE"@)
}

pub fn configurable(name: &str) -> (r: bool)
    ensures
        r == spec_configurable(name@),
{
    !(starts_with(name, "KEY_MACRO_PRESET") || str_eq(name, "KEY_MACRO_RECORD_START") || str_eq(
        name,
        "KEY_LIGHTS_TOGGLE",
    ))
}

/// The readable names of the keys that have one.
pub open spec fn label_table(key: Seq<char>) -> Option<Seq<char>> {
    if key == "KEY_LEFTCTRL"@ {
        Some("Left Ctrl"@)
    } else if key == "KEY_RIGHTCTRL"@ {
        Some("Right Ctrl"@)
    } else if key == "KEY_LEFTSHIFT"@ {
        Some("Left Shift"@)
    } else if key == "KEY_RIGHTSHIFT"@ {
        Some("Right Shift"@)
    } else if key == "KEY_LEFTALT"@ {
        Some("Left Alt"@)
    } else if key == "KEY_RIGHTALT"@ {
        Some("Right Alt"@)
    } else if key == "KEY_LEFTMETA"@ {
        Some("Left Meta"@)
    } else if key == "KEY_RIGHTMETA"@ {
        Some("Right Meta"@)
    } else if key == "KEY_SPACE"@ {
        Some("Space"@)
    } else if key == "KEY_ENTER"@ {
        Some("Enter"@)
    } else if key == "KEY_TAB"@ {
        Some("Tab"@)
    } else if key == "KEY_ESC"@ {
        Some("Escape"@)
    } else if key == "KEY_BACKSPACE"@ {
        Some("Backspace"@)
    } else if key == "KEY_DELETE"@ {
        Some("Delete"@)
    } else if key == "KEY_INSERT"@ {
        Some("Insert"@)
    } else if key == "KEY_HOME"@ {
        Some("Home"@)
    } else if key == "KEY_END"@ {
        Some("End"@)
    } else if key == "KEY_PAGEUP"@ {
        Some("Page Up"@)
    } else if key == "KEY_PAGEDOWN"@ {
        Some("Page Down"@)
    } else if key == "KEY_UP"@ {
        Some("Up"@)
    } else if key == "KEY_DOWN"@ {
        Some("Down"@)
    } else if key == "KEY_LEFT"@ {
        Some("Left"@)
    } else if key == "KEY_RIGHT"@ {
        Some("Right"@)
    } else if key == "KEY_MINUS"@ {
        Some("-"@)
    } else if key == "KEY_EQUAL"@ {
        Some("="@)
    } else if key == "KEY_COMMA"@ {
        Some(","@)
    } else if key == "KEY_DOT"@ {
        Some("."@)
    } else if key == "KEY_SEMICOLON"@ {
        Some(";"@)
    } else if key == "KEY_APOSTROPHE"@ {
        Some("'"@)
    } else if key == "KEY_BACKSLASH"@ {
        Some("\\"@)
    } else if key == "KEY_SLASH"@ {
        Some("/"@)
    } else if key == "KEY_LEFTBRACE"@ {
        Some("["@)
    } else if key == "KEY_RIGHTBRACE"@ {
        Some("]"@)
    } else if key == "KEY_GRAVE"@ {
        Some("`"@)
    } else {
        None
    }
}

fn table_label(key: &str) -> (r: Option<String>)
    ensures
        match r {
            Some(l) => label_table(key@) == Some(l@),
            None => label_table(key@) is None,
        },
{
    if str_eq(key, "KEY_LEFTCTRL") {
        Some(String::from_str("Left Ctrl"))
    } else if str_eq(key, "KEY_RIGHTCTRL") {
        Some(String::from_str("Right Ctrl"))
    } else if str_eq(key, "KEY_LEFTSHIFT") {
        Some(String::from_str("Left Shift"))
    } else if str_eq(key, "KEY_RIGHTSHIFT") {
        Some(String::from_str("Right Shift"))
    } else if str_eq(key, "KEY_LEFTALT") {
        Some(String::from_str("Left Alt"))
    } else if str_eq(key, "KEY_RIGHTALT") {
        Some(String::from_str("Right Alt"))
    } else if str_eq(key, "KEY_LEFTMETA") {
        Some(String::from_str("Left Meta"))
    } else if str_eq(key, "KEY_RIGHTMETA") {
        Some(String::from_str("Right Meta"))
    } else if str_eq(key, "KEY_SPACE") {
        Some(String::from_str("Space"))
    } else if str_eq(key, "KEY_ENTER") {
        Some(String::from_str("Enter"))
    } else if str_eq(key, "KEY_TAB") {
        Some(String::from_str("Tab"))
    } else if str_eq(key, "KEY_ESC") {
        Some(String::from_str("Escape"))
    } else if str_eq(key, "KEY_BACKSPACE") {
        Some(String::from_str("Backspace"))
    } else if str_eq(key, "KEY_DELETE") {
        Some(String::from_str("Delete"))
    } else if str_eq(key, "KEY_INSERT") {
        Some(String::from_str("Insert"))
    } else if str_eq(key, "KEY_HOME") {
        Some(String::from_str("Home"))
    } else if str_eq(key, "KEY_END") {
        Some(String::from_str("End"))
    } else if str_eq(key, "KEY_PAGEUP") {
        Some(String::from_str("Page Up"))
    } else if str_eq(key, "KEY_PAGEDOWN") {
        Some(String::from_str("Page Down"))
    } else if str_eq(key, "KEY_UP") {
        Some(String::from_str("Up"))
    } else if str_eq(key, "KEY_DOWN") {
        Some(String::from_str("Down"))
    } else if str_eq(key, "KEY_LEFT") {
        Some(String::from_str("Left"))
    } else if str_eq(key, "KEY_RIGHT") {
        Some(String::from_str("Right"))
    } else if str_eq(key, "KEY_MINUS") {
        Some(String::from_str("-"))
    } else if str_eq(key, "KEY_EQUAL") {
        Some(String::from_str("="))
    } else if str_eq(key, "KEY_COMMA") {
        Some(String::from_str(","))
    } else if str_eq(key, "KEY_DOT") {
        Some(String::from_str("."))
    } else if str_eq(key, "KEY_SEMICOLON") {
        Some(String::from_str(";"))
    } else if str_eq(key, "KEY_APOSTROPHE") {
        Some(String::from_str("'"))
    } else if str_eq(key, "KEY_BACKSLASH") {
        Some(String::from_str("\\"))
    } else if str_eq(key, "KEY_SLASH") {
        Some(String::from_str("/"))
    } else if str_eq(key, "KEY_LEFTBRACE") {
        Some(String::from_str("["))
    } else if str_eq(key, "KEY_RIGHTBRACE") {
        Some(String::from_str("]"))
    } else if str_eq(key, "KEY_GRAVE") {
        Some(String::from_str("`"))
    } else {
        None
    }
}

/// `s` with every `_` made a space.
pub open spec fn spaced(s: Seq<char>) -> Seq<char> {
    s.map_values(|c: char| if c == '_' { ' ' } else { c })
}

/// How a macro step names its key: the readable name where the key has
/// one, else the key name without `KEY_` and with spaces for `_`.
pub open spec fn spec_macro_key_label(key: Seq<char>) -> Seq<char> {
    match label_table(key) {
        Some(l) => l,
        None => spaced(
            if has_prefix(key, "KEY_"@) {
                key.skip(4)
            } else {
                key
            },
        ),
    }
}

pub fn macro_key_label(key: &str) -> (r: String)
    ensures
        r@ == spec_macro_key_label(key@),
{
    if let Some(l) = table_label(key) {
        return l;
    }
    let v = chars_of(key);
    let has = starts_with(key, "KEY_");
    proof {
        reveal_strlit("KEY_");
    }
    let start: usize = if has { 4 } else { 0 };
    let ghost body = if has { key@.skip(4) } else { key@ };
    let mut out: Vec<char> = Vec::new();
    let mut i: usize = start;
    while i < v.len()
        invariant
            start <= i <= v@.len(),
            v@ == key@,
            body == key@.skip(start as int),
            out@ == spaced(body.take(i - start)),
        decreases v@.len() - i,
    {
        let c = v[i];
        out.push(if c == '_' { ' ' } else { c });
        i = i + 1;
        assert(out@ =~= spaced(body.take(i - start)));
    }
    assert(body.take(v@.len() - start) =~= body);
    string_of(&out)
}

/// The key names of the keys the window knows by name (`egui::Key` as its
/// debug form writes them).
pub open spec fn named_key_table(name: Seq<char>) -> Option<Seq<char>> {
    if name == "Escape"@ {
        Some("KEY_ESC"@)
    } else if name == "Tab"@ {
        Some("KEY_TAB"@)
    } else if name == "Backspace"@ {
        Some("KEY_BACKSPACE"@)
    } else if name == "Enter"@ {
        Some("KEY_ENTER"@)
    } else if name == "Space"@ {
        Some("KEY_SPACE"@)
    } else if name == "Insert"@ {
        Some("KEY_INSERT"@)
    } else if name == "Delete"@ {
        Some("KEY_DELETE"@)
    } else if name == "Home"@ {
        Some("KEY_HOME"@)
    } else if name == "End"@ {
        Some("KEY_END"@)
    } else if name == "PageUp"@ {
        Some("KEY_PAGEUP"@)
    } else if name == "PageDown"@ {
        Some("KEY_PAGEDOWN"@)
    } else if name == "ArrowUp"@ {
        Some("KEY_UP"@)
    } else if name == "ArrowDown"@ {
        Some("KEY_DOWN"@)
    } else if name == "ArrowLeft"@ {
        Some("KEY_LEFT"@)
    } else if name == "ArrowRight"@ {
        Some("KEY_RIGHT"@)
    } else if name == "Minus"@ {
        Some("KEY_MINUS"@)
    } else if name == "Equals"@ {
        Some("KEY_EQUAL"@)
    } else if name == "PlusEquals"@ {
        Some("KEY_EQUAL"@)
    } else if name == "Comma"@ {
        Some("KEY_COMMA"@)
    } else if name == "Period"@ {
        Some("KEY_DOT"@)
    } else if name == "Dot"@ {
        Some("KEY_DOT"@)
    } else if name == "Semicolon"@ {
        Some("KEY_SEMICOLON"@)
    } else if name == "Quote"@ {
        Some("KEY_APOSTROPHE"@)
    } else if name == "Apostrophe"@ {
        Some("KEY_APOSTROPHE"@)
    } else if name == "Backslash"@ {
        Some("KEY_BACKSLASH"@)
    } else if name == "Slash"@ {
        Some("KEY_SLASH"@)
    } else if name == "OpenBracket"@ {
        Some("KEY_LEFTBRACE"@)
    } else if name == "CloseBracket"@ {
        Some("KEY_RIGHTBRACE"@)
    } else if name == "Backtick"@ {
        Some("KEY_GRAVE"@)
    } else if name == "Grave"@ {
        Some("KEY_GRAVE"@)
    } else {
        None
    }
}

fn named_key(name: &str) -> (r: Option<String>)
    ensures
        match r {
            Some(l) => named_key_table(name@) == Some(l@),
            None => named_key_table(name@) is None,
        },
{
    if str_eq(name, "Escape") {
        Some(String::from_str("KEY_ESC"))
    } else if str_eq(name, "Tab") {
        Some(String::from_str("KEY_TAB"))
    } else if str_eq(name, "Backspace") {
        Some(String::from_str("KEY_BACKSPACE"))
    } else if str_eq(name, "Enter") {
        Some(String::from_str("KEY_ENTER"))
    } else if str_eq(name, "Space") {
        Some(String::from_str("KEY_SPACE"))
    } else if str_eq(name, "Insert") {
        Some(String::from_str("KEY_INSERT"))
    } else if str_eq(name, "Delete") {
        Some(String::from_str("KEY_DELETE"))
    } else if str_eq(name, "Home") {
        Some(String::from_str("KEY_HOME"))
    } else if str_eq(name, "End") {
        Some(String::from_str("KEY_END"))
    } else if str_eq(name, "PageUp") {
        Some(String::from_str("KEY_PAGEUP"))
    } else if str_eq(name, "PageDown") {
        Some(String::from_str("KEY_PAGEDOWN"))
    } else if str_eq(name, "ArrowUp") {
        Some(String::from_str("KEY_UP"))
    } else if str_eq(name, "ArrowDown") {
        Some(String::from_str("KEY_DOWN"))
    } else if str_eq(name, "ArrowLeft") {
        Some(String::from_str("KEY_LEFT"))
    } else if str_eq(name, "ArrowRight") {
        Some(String::from_str("KEY_RIGHT"))
    } else if str_eq(name, "Minus") {
        Some(String::from_str("KEY_MINUS"))
    } else if str_eq(name, "Equals") {
        Some(String::from_str("KEY_EQUAL"))
    } else if str_eq(name, "PlusEquals") {
        Some(String::from_str("KEY_EQUAL"))
    } else if str_eq(name, "Comma") {
        Some(String::from_str("KEY_COMMA"))
    } else if str_eq(name, "Period") {
        Some(String::from_str("KEY_DOT"))
    } else if str_eq(name, "Dot") {
        Some(String::from_str("KEY_DOT"))
    } else if str_eq(name, "Semicolon") {
        Some(String::from_str("KEY_SEMICOLON"))
    } else if str_eq(name, "Quote") {
        Some(String::from_str("KEY_APOSTROPHE"))
    } else if str_eq(name, "Apostrophe") {
        Some(String::from_str("KEY_APOSTROPHE"))
    } else if str_eq(name, "Backslash") {
        Some(String::from_str("KEY_BACKSLASH"))
    } else if str_eq(name, "Slash") {
        Some(String::from_str("KEY_SLASH"))
    } else if str_eq(name, "OpenBracket") {
        Some(String::from_str("KEY_LEFTBRACE"))
    } else if str_eq(name, "CloseBracket") {
        Some(String::from_str("KEY_RIGHTBRACE"))
    } else if str_eq(name, "Backtick") {
        Some(String::from_str("KEY_GRAVE"))
    } else if str_eq(name, "Grave") {
        Some(String::from_str("KEY_GRAVE"))
    } else {
        None
    }
}

pub open spec fn is_ascii_letter(c: char) -> bool {
    ('a' <= c <= 'z') || ('A' <= c <= 'Z')
}

/// The Linux key name of a key pressed in the window, given the key's name
/// as `egui` writes it: a letter `KEY_` and the capital, `Num0` to `Num9`
/// `KEY_` and the digit, `F1` to `F12` `KEY_` and the name, and the named
/// keys of `named_key_table`; `None` for the others.
pub open spec fn spec_egui_key(name: Seq<char>) -> Option<Seq<char>> {
    if name.len() == 1 && is_ascii_letter(name[0]) {
        Some("KEY_"@ + seq![upper(name[0])])
    } else if has_prefix(name, "Num"@) && name.len() == 4 && is_digit(name[3]) {
        Some("KEY_"@ + name.skip(3))
    } else if name.len() > 0 && name[0] == 'F' && match parse_unsigned(name.drop_first(), 255) {
        Some(n) => 1 <= n <= 12,
        None => false,
    } {
        Some("KEY_"@ + name)
    } else {
        named_key_table(name)
    }
}

proof fn lemma_suffix_names_key(k: Seq<char>, c: u16)
    requires
        key_suffix(c) is Some,
        k =~= key_prefix() + key_suffix(c)->0,
    ensures
        spec_keycode(k) is Some,
        spec_keyname(spec_keycode(k)->0) == Some(k),
{
    lemma_keycode_keyname(c);
}

/// The number after `F` that the window maps: `1` to `12`, written without
/// a sign or a leading zero, is one or two digits.
proof fn lemma_function_key_digits(body: Seq<char>)
    requires
        parse_unsigned(body, 255) matches Some(n) && 1 <= n <= 12,
        body.len() > 0,
        body[0] != '+',
        body[0] != '0',
    ensures
        body.len() == 1 ==> '1' <= body[0] <= '9',
        body.len() == 2 ==> body[0] == '1' && '0' <= body[1] <= '2',
        body.len() <= 2,
{
    reveal_with_fuel(digits_value, 4);
    assert(is_digit(body[0]));
    if body.len() >= 2 {
        assert(is_digit(body[1]));
    }
    if body.len() >= 3 {
        assert(is_digit(body[2]));
        lemma_digits_value_prefix(body, 3);
        let t = body.take(3);
        assert(t.drop_last() =~= body.take(2));
        assert(body.take(2).drop_last() =~= body.take(1));
        assert(body.take(1).drop_last() =~= Seq::<char>::empty());
    } else if body.len() == 2 {
        assert(body.drop_last().drop_last() =~= Seq::<char>::empty());
    } else {
        assert(body.drop_last() =~= Seq::<char>::empty());
    }
}

/// Every key that the window hands the recorder is a name that the daemon
/// takes: `keycode` reads a code from it, and `keyname` gives the same
/// name back for that code. (Names `F` followed by a sign or a leading
/// zero, which no key of the window has, are left out.)
pub proof fn lemma_egui_key_names_a_key(name: Seq<char>)
    requires
        spec_egui_key(name) is Some,
        !(name.len() > 1 && name[0] == 'F' && (name[1] == '+' || name[1] == '0')),
    ensures
        spec_keycode(spec_egui_key(name)->0) is Some,
        spec_keyname(spec_keycode(spec_egui_key(name)->0)->0) == spec_egui_key(name),
{
    let k = spec_egui_key(name)->0;
    reveal_strlit("KEY_");
    reveal_strlit("Num");
    if name.len() == 1 && is_ascii_letter(name[0]) {
        let l = upper(name[0]);
        assert('A' <= l <= 'Z');
        assert(k =~= key_prefix() + seq![l]);
        if l == 'A' {
            lemma_suffix_names_key(k, 30);
        } else if l == 'B' {
            lemma_suffix_names_key(k, 48);
        } else if l == 'C' {
            lemma_suffix_names_key(k, 46);
        } else if l == 'D' {
            lemma_suffix_names_key(k, 32);
        } else if l == 'E' {
            lemma_suffix_names_key(k, 18);
        } else if l == 'F' {
            lemma_suffix_names_key(k, 33);
        } else if l == 'G' {
            lemma_suffix_names_key(k, 34);
        } else if l == 'H' {
            lemma_suffix_names_key(k, 35);
        } else if l == 'I' {
            lemma_suffix_names_key(k, 23);
        } else if l == 'J' {
            lemma_suffix_names_key(k, 36);
        } else if l == 'K' {
            lemma_suffix_names_key(k, 37);
        } else if l == 'L' {
            lemma_suffix_names_key(k, 38);
        } else if l == 'M' {
            lemma_suffix_names_key(k, 50);
        } else if l == 'N' {
            lemma_suffix_names_key(k, 49);
        } else if l == 'O' {
            lemma_suffix_names_key(k, 24);
        } else if l == 'P' {
            lemma_suffix_names_key(k, 25);
        } else if l == 'Q' {
            lemma_suffix_names_key(k, 16);
        } else if l == 'R' {
            lemma_suffix_names_key(k, 19);
        } else if l == 'S' {
            lemma_suffix_names_key(k, 31);
        } else if l == 'T' {
            lemma_suffix_names_key(k, 20);
        } else if l == 'U' {
            lemma_suffix_names_key(k, 22);
        } else if l == 'V' {
            lemma_suffix_names_key(k, 47);
        } else if l == 'W' {
            lemma_suffix_names_key(k, 17);
        } else if l == 'X' {
            lemma_suffix_names_key(k, 45);
        } else if l == 'Y' {
            lemma_suffix_names_key(k, 21);
        } else if l == 'Z' {
            lemma_suffix_names_key(k, 44);
        }
    } else if has_prefix(name, "Num"@) && name.len() == 4 && is_digit(name[3]) {
        let d = name[3];
        assert(k =~= key_prefix() + seq![d]);
        if d == '0' {
            lemma_suffix_names_key(k, 11);
        } else if d == '1' {
            lemma_suffix_names_key(k, 2);
        } else if d == '2' {
            lemma_suffix_names_key(k, 3);
        } else if d == '3' {
            lemma_suffix_names_key(k, 4);
        } else if d == '4' {
            lemma_suffix_names_key(k, 5);
        } else if d == '5' {
            lemma_suffix_names_key(k, 6);
        } else if d == '6' {
            lemma_suffix_names_key(k, 7);
        } else if d == '7' {
            lemma_suffix_names_key(k, 8);
        } else if d == '8' {
            lemma_suffix_names_key(k, 9);
        } else if d == '9' {
            lemma_suffix_names_key(k, 10);
        }
    } else if name.len() > 0 && name[0] == 'F' && match parse_unsigned(name.drop_first(), 255) {
        Some(n) => 1 <= n <= 12,
        None => false,
    } {
        let body = name.drop_first();
        lemma_function_key_digits(body);
        if body.len() == 1 {
            assert(k =~= key_prefix() + seq!['F', body[0]]);
            if body[0] == '1' {
                lemma_suffix_names_key(k, 59);
            } else if body[0] == '2' {
                lemma_suffix_names_key(k, 60);
            } else if body[0] == '3' {
                lemma_suffix_names_key(k, 61);
            } else if body[0] == '4' {
                lemma_suffix_names_key(k, 62);
            } else if body[0] == '5' {
                lemma_suffix_names_key(k, 63);
            } else if body[0] == '6' {
                lemma_suffix_names_key(k, 64);
            } else if body[0] == '7' {
                lemma_suffix_names_key(k, 65);
            } else if body[0] == '8' {
                lemma_suffix_names_key(k, 66);
            } else if body[0] == '9' {
                lemma_suffix_names_key(k, 67);
            }
        } else {
            assert(k =~= key_prefix() + seq!['F', body[0], body[1]]);
            if body[1] == '0' {
                lemma_suffix_names_key(k, 68);
            } else if body[1] == '1' {
                lemma_suffix_names_key(k, 87);
            } else if body[1] == '2' {
                lemma_suffix_names_key(k, 88);
            }
        }
    } else {
        if name == "Escape"@ {
            reveal_strlit("KEY_ESC");
            lemma_suffix_names_key(k, 1);
        } else if name == "Tab"@ {
            reveal_strlit("KEY_TAB");
            lemma_suffix_names_key(k, 15);
        } else if name == "Backspace"@ {
            reveal_strlit("KEY_BACKSPACE");
            lemma_suffix_names_key(k, 14);
        } else if name == "Enter"@ {
            reveal_strlit("KEY_ENTER");
            lemma_suffix_names_key(k, 28);
        } else if name == "Space"@ {
            reveal_strlit("KEY_SPACE");
            lemma_suffix_names_key(k, 57);
        } else if name == "Insert"@ {
            reveal_strlit("KEY_INSERT");
            lemma_suffix_names_key(k, 110);
        } else if name == "Delete"@ {
            reveal_strlit("KEY_DELETE");
            lemma_suffix_names_key(k, 111);
        } else if name == "Home"@ {
            reveal_strlit("KEY_HOME");
            lemma_suffix_names_key(k, 102);
        } else if name == "End"@ {
            reveal_strlit("KEY_END");
            lemma_suffix_names_key(k, 107);
        } else if name == "PageUp"@ {
            reveal_strlit("KEY_PAGEUP");
            lemma_suffix_names_key(k, 104);
        } else if name == "PageDown"@ {
            reveal_strlit("KEY_PAGEDOWN");
            lemma_suffix_names_key(k, 109);
        } else if name == "ArrowUp"@ {
            reveal_strlit("KEY_UP");
            lemma_suffix_names_key(k, 103);
        } else if name == "ArrowDown"@ {
            reveal_strlit("KEY_DOWN");
            lemma_suffix_names_key(k, 108);
        } else if name == "ArrowLeft"@ {
            reveal_strlit("KEY_LEFT");
            lemma_suffix_names_key(k, 105);
        } else if name == "ArrowRight"@ {
            reveal_strlit("KEY_RIGHT");
            lemma_suffix_names_key(k, 106);
        } else if name == "Minus"@ {
            reveal_strlit("KEY_MINUS");
            lemma_suffix_names_key(k, 12);
        } else if name == "Equals"@ {
            reveal_strlit("KEY_EQUAL");
            lemma_suffix_names_key(k, 13);
        } else if name == "PlusEquals"@ {
            reveal_strlit("KEY_EQUAL");
            lemma_suffix_names_key(k, 13);
        } else if name == "Comma"@ {
            reveal_strlit("KEY_COMMA");
            lemma_suffix_names_key(k, 51);
        } else if name == "Period"@ {
            reveal_strlit("KEY_DOT");
            lemma_suffix_names_key(k, 52);
        } else if name == "Dot"@ {
            reveal_strlit("KEY_DOT");
            lemma_suffix_names_key(k, 52);
        } else if name == "Semicolon"@ {
            reveal_strlit("KEY_SEMICOLON");
            lemma_suffix_names_key(k, 39);
        } else if name == "Quote"@ {
            reveal_strlit("KEY_APOSTROPHE");
            lemma_suffix_names_key(k, 40);
        } else if name == "Apostrophe"@ {
            reveal_strlit("KEY_APOSTROPHE");
            lemma_suffix_names_key(k, 40);
        } else if name == "Backslash"@ {
            reveal_strlit("KEY_BACKSLASH");
            lemma_suffix_names_key(k, 43);
        } else if name == "Slash"@ {
            reveal_strlit("KEY_SLASH");
            lemma_suffix_names_key(k, 53);
        } else if name == "OpenBracket"@ {
            reveal_strlit("KEY_LEFTBRACE");
            lemma_suffix_names_key(k, 26);
        } else if name == "CloseBracket"@ {
            reveal_strlit("KEY_RIGHTBRACE");
            lemma_suffix_names_key(k, 27);
        } else if name == "Backtick"@ {
            reveal_strlit("KEY_GRAVE");
            lemma_suffix_names_key(k, 41);
        } else if name == "Grave"@ {
            reveal_strlit("KEY_GRAVE");
            lemma_suffix_names_key(k, 41);
        }
    }
}

/// The named keys of the window, each with the Linux key it sends
/// (part 1).
pub proof fn lemma_named_window_keys_1()
    ensures
        spec_egui_key("Escape"@) == Some("KEY_ESC"@),
        spec_egui_key("Tab"@) == Some("KEY_TAB"@),
        spec_egui_key("Backspace"@) == Some("KEY_BACKSPACE"@),
        spec_egui_key("Enter"@) == Some("KEY_ENTER"@),
        spec_egui_key("Space"@) == Some("KEY_SPACE"@),
        spec_egui_key("Insert"@) == Some("KEY_INSERT"@),
        spec_egui_key("Delete"@) == Some("KEY_DELETE"@),
        spec_egui_key("Home"@) == Some("KEY_HOME"@),
        spec_egui_key("End"@) == Some("KEY_END"@),
        spec_egui_key("PageUp"@) == Some("KEY_PAGEUP"@),
{
    assert(spec_egui_key("Escape"@) == Some("KEY_ESC"@)) by {
        reveal_strlit("Escape");
        reveal_strlit("Tab");
        reveal_strlit("Backspace");
        reveal_strlit("Enter");
        reveal_strlit("Space");
        reveal_strlit("Insert");
        reveal_strlit("Delete");
        reveal_strlit("Home");
        reveal_strlit("End");
        reveal_strlit("PageUp");
        reveal_strlit("PageDown");
        reveal_strlit("ArrowUp");
        reveal_strlit("ArrowDown");
        reveal_strlit("ArrowLeft");
        reveal_strlit("ArrowRight");
        reveal_strlit("Minus");
        reveal_strlit("Equals");
        reveal_strlit("PlusEquals");
        reveal_strlit("Comma");
        reveal_strlit("Period");
        reveal_strlit("Dot");
        reveal_strlit("Semicolon");
        reveal_strlit("Quote");
        reveal_strlit("Apostrophe");
        reveal_strlit("Backslash");
        reveal_strlit("Slash");
        reveal_strlit("OpenBracket");
        reveal_strlit("CloseBracket");
        reveal_strlit("Backtick");
        reveal_strlit("Grave");
        reveal_strlit("Num");
    }
    assert(spec_egui_key("Tab"@) == Some("KEY_TAB"@)) by {
        reveal_strlit("Escape");
        reveal_strlit("Tab");
        reveal_strlit("Backspace");
        reveal_strlit("Enter");
        reveal_strlit("Space");
        reveal_strlit("Insert");
        reveal_strlit("Delete");
        reveal_strlit("Home");
        reveal_strlit("End");
        reveal_strlit("PageUp");
        reveal_strlit("PageDown");
        reveal_strlit("ArrowUp");
        reveal_strlit("ArrowDown");
        reveal_strlit("ArrowLeft");
        reveal_strlit("ArrowRight");
        reveal_strlit("Minus");
        reveal_strlit("Equals");
        reveal_strlit("PlusEquals");
        reveal_strlit("Comma");
        reveal_strlit("Period");
        reveal_strlit("Dot");
        reveal_strlit("Semicolon");
        reveal_strlit("Quote");
        reveal_strlit("Apostrophe");
        reveal_strlit("Backslash");
        reveal_strlit("Slash");
        reveal_strlit("OpenBracket");
        reveal_strlit("CloseBracket");
        reveal_strlit("Backtick");
        reveal_strlit("Grave");
        reveal_strlit("Num");
    }
    assert(spec_egui_key("Backspace"@) == Some("KEY_BACKSPACE"@)) by {
        reveal_strlit("Escape");
        reveal_strlit("Tab");
        reveal_strlit("Backspace");
        reveal_strlit("Enter");
        reveal_strlit("Space");
        reveal_strlit("Insert");
        reveal_strlit("Delete");
        reveal_strlit("Home");
        reveal_strlit("End");
        reveal_strlit("PageUp");
        reveal_strlit("PageDown");
        reveal_strlit("ArrowUp");
        reveal_strlit("ArrowDown");
        reveal_strlit("ArrowLeft");
        reveal_strlit("ArrowRight");
        reveal_strlit("Minus");
        reveal_strlit("Equals");
        reveal_strlit("PlusEquals");
        reveal_strlit("Comma");
        reveal_strlit("Period");
        reveal_strlit("Dot");
        reveal_strlit("Semicolon");
        reveal_strlit("Quote");
        reveal_strlit("Apostrophe");
        reveal_strlit("Backslash");
        reveal_strlit("Slash");
        reveal_strlit("OpenBracket");
        reveal_strlit("CloseBracket");
        reveal_strlit("Backtick");
        reveal_strlit("Grave");
        reveal_strlit("Num");
    }
    assert(spec_egui_key("Enter"@) == Some("KEY_ENTER"@)) by {
        reveal_strlit("Escape");
        reveal_strlit("Tab");
        reveal_strlit("Backspace");
        reveal_strlit("Enter");
        reveal_strlit("Space");
        reveal_strlit("Insert");
        reveal_strlit("Delete");
        reveal_strlit("Home");
        reveal_strlit("End");
        reveal_strlit("PageUp");
        reveal_strlit("PageDown");
        reveal_strlit("ArrowUp");
        reveal_strlit("ArrowDown");
        reveal_strlit("ArrowLeft");
        reveal_strlit("ArrowRight");
        reveal_strlit("Minus");
        reveal_strlit("Equals");
        reveal_strlit("PlusEquals");
        reveal_strlit("Comma");
        reveal_strlit("Period");
        reveal_strlit("Dot");
        reveal_strlit("Semicolon");
        reveal_strlit("Quote");
        reveal_strlit("Apostrophe");
        reveal_strlit("Backslash");
        reveal_strlit("Slash");
        reveal_strlit("OpenBracket");
        reveal_strlit("CloseBracket");
        reveal_strlit("Backtick");
        reveal_strlit("Grave");
        reveal_strlit("Num");
    }
    assert(spec_egui_key("Space"@) == Some("KEY_SPACE"@)) by {
        reveal_strlit("Escape");
        reveal_strlit("Tab");
        reveal_strlit("Backspace");
        reveal_strlit("Enter");
        reveal_strlit("Space");
        reveal_strlit("Insert");
        reveal_strlit("Delete");
        reveal_strlit("Home");
        reveal_strlit("End");
        reveal_strlit("PageUp");
        reveal_strlit("PageDown");
        reveal_strlit("ArrowUp");
        reveal_strlit("ArrowDown");
        reveal_strlit("ArrowLeft");
        reveal_strlit("ArrowRight");
        reveal_strlit("Minus");
        reveal_strlit("Equals");
        reveal_strlit("PlusEquals");
        reveal_strlit("Comma");
        reveal_strlit("Period");
        reveal_strlit("Dot");
        reveal_strlit("Semicolon");
        reveal_strlit("Quote");
        reveal_strlit("Apostrophe");
        reveal_strlit("Backslash");
        reveal_strlit("Slash");
        reveal_strlit("OpenBracket");
        reveal_strlit("CloseBracket");
        reveal_strlit("Backtick");
        reveal_strlit("Grave");
        reveal_strlit("Num");
    }
    assert(spec_egui_key("Insert"@) == Some("KEY_INSERT"@)) by {
        reveal_strlit("Escape");
        reveal_strlit("Tab");
        reveal_strlit("Backspace");
        reveal_strlit("Enter");
        reveal_strlit("Space");
        reveal_strlit("Insert");
        reveal_strlit("Delete");
        reveal_strlit("Home");
        reveal_strlit("End");
        reveal_strlit("PageUp");
        reveal_strlit("PageDown");
        reveal_strlit("ArrowUp");
        reveal_strlit("ArrowDown");
        reveal_strlit("ArrowLeft");
        reveal_strlit("ArrowRight");
        reveal_strlit("Minus");
        reveal_strlit("Equals");
        reveal_strlit("PlusEquals");
        reveal_strlit("Comma");
        reveal_strlit("Period");
        reveal_strlit("Dot");
        reveal_strlit("Semicolon");
        reveal_strlit("Quote");
        reveal_strlit("Apostrophe");
        reveal_strlit("Backslash");
        reveal_strlit("Slash");
        reveal_strlit("OpenBracket");
        reveal_strlit("CloseBracket");
        reveal_strlit("Backtick");
        reveal_strlit("Grave");
        reveal_strlit("Num");
    }
    assert(spec_egui_key("Delete"@) == Some("KEY_DELETE"@)) by {
        reveal_strlit("Escape");
        reveal_strlit("Tab");
        reveal_strlit("Backspace");
        reveal_strlit("Enter");
        reveal_strlit("Space");
        reveal_strlit("Insert");
        reveal_strlit("Delete");
        reveal_strlit("Home");
        reveal_strlit("End");
        reveal_strlit("PageUp");
        reveal_strlit("PageDown");
        reveal_strlit("ArrowUp");
        reveal_strlit("ArrowDown");
        reveal_strlit("ArrowLeft");
        reveal_strlit("ArrowRight");
        reveal_strlit("Minus");
        reveal_strlit("Equals");
        reveal_strlit("PlusEquals");
        reveal_strlit("Comma");
        reveal_strlit("Period");
        reveal_strlit("Dot");
        reveal_strlit("Semicolon");
        reveal_strlit("Quote");
        reveal_strlit("Apostrophe");
        reveal_strlit("Backslash");
        reveal_strlit("Slash");
        reveal_strlit("OpenBracket");
        reveal_strlit("CloseBracket");
        reveal_strlit("Backtick");
        reveal_strlit("Grave");
        reveal_strlit("Num");
    }
    assert(spec_egui_key("Home"@) == Some("KEY_HOME"@)) by {
        reveal_strlit("Escape");
        reveal_strlit("Tab");
        reveal_strlit("Backspace");
        reveal_strlit("Enter");
        reveal_strlit("Space");
        reveal_strlit("Insert");
        reveal_strlit("Delete");
        reveal_strlit("Home");
        reveal_strlit("End");
        reveal_strlit("PageUp");
        reveal_strlit("PageDown");
        reveal_strlit("ArrowUp");
        reveal_strlit("ArrowDown");
        reveal_strlit("ArrowLeft");
        reveal_strlit("ArrowRight");
        reveal_strlit("Minus");
        reveal_strlit("Equals");
        reveal_strlit("PlusEquals");
        reveal_strlit("Comma");
        reveal_strlit("Period");
        reveal_strlit("Dot");
        reveal_strlit("Semicolon");
        reveal_strlit("Quote");
        reveal_strlit("Apostrophe");
        reveal_strlit("Backslash");
        reveal_strlit("Slash");
        reveal_strlit("OpenBracket");
        reveal_strlit("CloseBracket");
        reveal_strlit("Backtick");
        reveal_strlit("Grave");
        reveal_strlit("Num");
    }
    assert(spec_egui_key("End"@) == Some("KEY_END"@)) by {
        reveal_strlit("Escape");
        reveal_strlit("Tab");
        reveal_strlit("Backspace");
        reveal_strlit("Enter");
        reveal_strlit("Space");
        reveal_strlit("Insert");
        reveal_strlit("Delete");
        reveal_strlit("Home");
        reveal_strlit("End");
        reveal_strlit("PageUp");
        reveal_strlit("PageDown");
        reveal_strlit("ArrowUp");
        reveal_strlit("ArrowDown");
        reveal_strlit("ArrowLeft");
        reveal_strlit("ArrowRight");
        reveal_strlit("Minus");
        reveal_strlit("Equals");
        reveal_strlit("PlusEquals");
        reveal_strlit("Comma");
        reveal_strlit("Period");
        reveal_strlit("Dot");
        reveal_strlit("Semicolon");
        reveal_strlit("Quote");
        reveal_strlit("Apostrophe");
        reveal_strlit("Backslash");
        reveal_strlit("Slash");
        reveal_strlit("OpenBracket");
        reveal_strlit("CloseBracket");
        reveal_strlit("Backtick");
        reveal_strlit("Grave");
        reveal_strlit("Num");
    }
    assert(spec_egui_key("PageUp"@) == Some("KEY_PAGEUP"@)) by {
        reveal_strlit("Escape");
        reveal_strlit("Tab");
        reveal_strlit("Backspace");
        reveal_strlit("Enter");
        reveal_strlit("Space");
        reveal_strlit("Insert");
        reveal_strlit("Delete");
        reveal_strlit("Home");
        reveal_strlit("End");
        reveal_strlit("PageUp");
        reveal_strlit("PageDown");
        reveal_strlit("ArrowUp");
        reveal_strlit("ArrowDown");
        reveal_strlit("ArrowLeft");
        reveal_strlit("ArrowRight");
        reveal_strlit("Minus");
        reveal_strlit("Equals");
        reveal_strlit("PlusEquals");
        reveal_strlit("Comma");
        reveal_strlit("Period");
        reveal_strlit("Dot");
        reveal_strlit("Semicolon");
        reveal_strlit("Quote");
        reveal_strlit("Apostrophe");
        reveal_strlit("Backslash");
        reveal_strlit("Slash");
        reveal_strlit("OpenBracket");
        reveal_strlit("CloseBracket");
        reveal_strlit("Backtick");
        reveal_strlit("Grave");
        reveal_strlit("Num");
    }
}

/// The named keys of the window, each with the Linux key it sends
/// (part 2).
pub proof fn lemma_named_window_keys_2()
    ensures
        spec_egui_key("PageDown"@) == Some("KEY_PAGEDOWN"@),
        spec_egui_key("ArrowUp"@) == Some("KEY_UP"@),
        spec_egui_key("ArrowDown"@) == Some("KEY_DOWN"@),
        spec_egui_key("ArrowLeft"@) == Some("KEY_LEFT"@),
        spec_egui_key("ArrowRight"@) == Some("KEY_RIGHT"@),
        spec_egui_key("Minus"@) == Some("KEY_MINUS"@),
        spec_egui_key("Equals"@) == Some("KEY_EQUAL"@),
        spec_egui_key("PlusEquals"@) == Some("KEY_EQUAL"@),
        spec_egui_key("Comma"@) == Some("KEY_COMMA"@),
        spec_egui_key("Period"@) == Some("KEY_DOT"@),
{
    assert(spec_egui_key("PageDown"@) == Some("KEY_PAGEDOWN"@)) by {
        reveal_strlit("Escape");
        reveal_strlit("Tab");
        reveal_strlit("Backspace");
        reveal_strlit("Enter");
        reveal_strlit("Space");
        reveal_strlit("Insert");
        reveal_strlit("Delete");
        reveal_strlit("Home");
        reveal_strlit("End");
        reveal_strlit("PageUp");
        reveal_strlit("PageDown");
        reveal_strlit("ArrowUp");
        reveal_strlit("ArrowDown");
        reveal_strlit("ArrowLeft");
        reveal_strlit("ArrowRight");
        reveal_strlit("Minus");
        reveal_strlit("Equals");
        reveal_strlit("PlusEquals");
        reveal_strlit("Comma");
        reveal_strlit("Period");
        reveal_strlit("Dot");
        reveal_strlit("Semicolon");
        reveal_strlit("Quote");
        reveal_strlit("Apostrophe");
        reveal_strlit("Backslash");
        reveal_strlit("Slash");
        reveal_strlit("OpenBracket");
        reveal_strlit("CloseBracket");
        reveal_strlit("Backtick");
        reveal_strlit("Grave");
        reveal_strlit("Num");
    }
    assert(spec_egui_key("ArrowUp"@) == Some("KEY_UP"@)) by {
        reveal_strlit("Escape");
        reveal_strlit("Tab");
        reveal_strlit("Backspace");
        reveal_strlit("Enter");
        reveal_strlit("Space");
        reveal_strlit("Insert");
        reveal_strlit("Delete");
        reveal_strlit("Home");
        reveal_strlit("End");
        reveal_strlit("PageUp");
        reveal_strlit("PageDown");
        reveal_strlit("ArrowUp");
        reveal_strlit("ArrowDown");
        reveal_strlit("ArrowLeft");
        reveal_strlit("ArrowRight");
        reveal_strlit("Minus");
        reveal_strlit("Equals");
        reveal_strlit("PlusEquals");
        reveal_strlit("Comma");
        reveal_strlit("Period");
        reveal_strlit("Dot");
        reveal_strlit("Semicolon");
        reveal_strlit("Quote");
        reveal_strlit("Apostrophe");
        reveal_strlit("Backslash");
        reveal_strlit("Slash");
        reveal_strlit("OpenBracket");
        reveal_strlit("CloseBracket");
        reveal_strlit("Backtick");
        reveal_strlit("Grave");
        reveal_strlit("Num");
    }
    assert(spec_egui_key("ArrowDown"@) == Some("KEY_DOWN"@)) by {
        reveal_strlit("Escape");
        reveal_strlit("Tab");
        reveal_strlit("Backspace");
        reveal_strlit("Enter");
        reveal_strlit("Space");
        reveal_strlit("Insert");
        reveal_strlit("Delete");
        reveal_strlit("Home");
        reveal_strlit("End");
        reveal_strlit("PageUp");
        reveal_strlit("PageDown");
        reveal_strlit("ArrowUp");
        reveal_strlit("ArrowDown");
        reveal_strlit("ArrowLeft");
        reveal_strlit("ArrowRight");
        reveal_strlit("Minus");
        reveal_strlit("Equals");
        reveal_strlit("PlusEquals");
        reveal_strlit("Comma");
        reveal_strlit("Period");
        reveal_strlit("Dot");
        reveal_strlit("Semicolon");
        reveal_strlit("Quote");
        reveal_strlit("Apostrophe");
        reveal_strlit("Backslash");
        reveal_strlit("Slash");
        reveal_strlit("OpenBracket");
        reveal_strlit("CloseBracket");
        reveal_strlit("Backtick");
        reveal_strlit("Grave");
        reveal_strlit("Num");
    }
    assert(spec_egui_key("ArrowLeft"@) == Some("KEY_LEFT"@)) by {
        reveal_strlit("ArrowLeft");
        reveal_strlit("ArrowDown");
        assert("ArrowLeft"@[5] != "ArrowDown"@[5]);
        reveal_strlit("Escape");
        reveal_strlit("Tab");
        reveal_strlit("Backspace");
        reveal_strlit("Enter");
        reveal_strlit("Space");
        reveal_strlit("Insert");
        reveal_strlit("Delete");
        reveal_strlit("Home");
        reveal_strlit("End");
        reveal_strlit("PageUp");
        reveal_strlit("PageDown");
        reveal_strlit("ArrowUp");
        reveal_strlit("ArrowDown");
        reveal_strlit("ArrowLeft");
        reveal_strlit("ArrowRight");
        reveal_strlit("Minus");
        reveal_strlit("Equals");
        reveal_strlit("PlusEquals");
        reveal_strlit("Comma");
        reveal_strlit("Period");
        reveal_strlit("Dot");
        reveal_strlit("Semicolon");
        reveal_strlit("Quote");
        reveal_strlit("Apostrophe");
        reveal_strlit("Backslash");
        reveal_strlit("Slash");
        reveal_strlit("OpenBracket");
        reveal_strlit("CloseBracket");
        reveal_strlit("Backtick");
        reveal_strlit("Grave");
        reveal_strlit("Num");
    }
    assert(spec_egui_key("ArrowRight"@) == Some("KEY_RIGHT"@)) by {
        reveal_strlit("Escape");
        reveal_strlit("Tab");
        reveal_strlit("Backspace");
        reveal_strlit("Enter");
        reveal_strlit("Space");
        reveal_strlit("Insert");
        reveal_strlit("Delete");
        reveal_strlit("Home");
        reveal_strlit("End");
        reveal_strlit("PageUp");
        reveal_strlit("PageDown");
        reveal_strlit("ArrowUp");
        reveal_strlit("ArrowDown");
        reveal_strlit("ArrowLeft");
        reveal_strlit("ArrowRight");
        reveal_strlit("Minus");
        reveal_strlit("Equals");
        reveal_strlit("PlusEquals");
        reveal_strlit("Comma");
        reveal_strlit("Period");
        reveal_strlit("Dot");
        reveal_strlit("Semicolon");
        reveal_strlit("Quote");
        reveal_strlit("Apostrophe");
        reveal_strlit("Backslash");
        reveal_strlit("Slash");
        reveal_strlit("OpenBracket");
        reveal_strlit("CloseBracket");
        reveal_strlit("Backtick");
        reveal_strlit("Grave");
        reveal_strlit("Num");
    }
    assert(spec_egui_key("Minus"@) == Some("KEY_MINUS"@)) by {
        reveal_strlit("Escape");
        reveal_strlit("Tab");
        reveal_strlit("Backspace");
        reveal_strlit("Enter");
        reveal_strlit("Space");
        reveal_strlit("Insert");
        reveal_strlit("Delete");
        reveal_strlit("Home");
        reveal_strlit("End");
        reveal_strlit("PageUp");
        reveal_strlit("PageDown");
        reveal_strlit("ArrowUp");
        reveal_strlit("ArrowDown");
        reveal_strlit("ArrowLeft");
        reveal_strlit("ArrowRight");
        reveal_strlit("Minus");
        reveal_strlit("Equals");
        reveal_strlit("PlusEquals");
        reveal_strlit("Comma");
        reveal_strlit("Period");
        reveal_strlit("Dot");
        reveal_strlit("Semicolon");
        reveal_strlit("Quote");
        reveal_strlit("Apostrophe");
        reveal_strlit("Backslash");
        reveal_strlit("Slash");
        reveal_strlit("OpenBracket");
        reveal_strlit("CloseBracket");
        reveal_strlit("Backtick");
        reveal_strlit("Grave");
        reveal_strlit("Num");
    }
    assert(spec_egui_key("Equals"@) == Some("KEY_EQUAL"@)) by {
        reveal_strlit("Escape");
        reveal_strlit("Tab");
        reveal_strlit("Backspace");
        reveal_strlit("Enter");
        reveal_strlit("Space");
        reveal_strlit("Insert");
        reveal_strlit("Delete");
        reveal_strlit("Home");
        reveal_strlit("End");
        reveal_strlit("PageUp");
        reveal_strlit("PageDown");
        reveal_strlit("ArrowUp");
        reveal_strlit("ArrowDown");
        reveal_strlit("ArrowLeft");
        reveal_strlit("ArrowRight");
        reveal_strlit("Minus");
        reveal_strlit("Equals");
        reveal_strlit("PlusEquals");
        reveal_strlit("Comma");
        reveal_strlit("Period");
        reveal_strlit("Dot");
        reveal_strlit("Semicolon");
        reveal_strlit("Quote");
        reveal_strlit("Apostrophe");
        reveal_strlit("Backslash");
        reveal_strlit("Slash");
        reveal_strlit("OpenBracket");
        reveal_strlit("CloseBracket");
        reveal_strlit("Backtick");
        reveal_strlit("Grave");
        reveal_strlit("Num");
    }
    assert(spec_egui_key("PlusEquals"@) == Some("KEY_EQUAL"@)) by {
        reveal_strlit("Escape");
        reveal_strlit("Tab");
        reveal_strlit("Backspace");
        reveal_strlit("Enter");
        reveal_strlit("Space");
        reveal_strlit("Insert");
        reveal_strlit("Delete");
        reveal_strlit("Home");
        reveal_strlit("End");
        reveal_strlit("PageUp");
        reveal_strlit("PageDown");
        reveal_strlit("ArrowUp");
        reveal_strlit("ArrowDown");
        reveal_strlit("ArrowLeft");
        reveal_strlit("ArrowRight");
        reveal_strlit("Minus");
        reveal_strlit("Equals");
        reveal_strlit("PlusEquals");
        reveal_strlit("Comma");
        reveal_strlit("Period");
        reveal_strlit("Dot");
        reveal_strlit("Semicolon");
        reveal_strlit("Quote");
        reveal_strlit("Apostrophe");
        reveal_strlit("Backslash");
        reveal_strlit("Slash");
        reveal_strlit("OpenBracket");
        reveal_strlit("CloseBracket");
        reveal_strlit("Backtick");
        reveal_strlit("Grave");
        reveal_strlit("Num");
    }
    assert(spec_egui_key("Comma"@) == Some("KEY_COMMA"@)) by {
        reveal_strlit("Escape");
        reveal_strlit("Tab");
        reveal_strlit("Backspace");
        reveal_strlit("Enter");
        reveal_strlit("Space");
        reveal_strlit("Insert");
        reveal_strlit("Delete");
        reveal_strlit("Home");
        reveal_strlit("End");
        reveal_strlit("PageUp");
        reveal_strlit("PageDown");
        reveal_strlit("ArrowUp");
        reveal_strlit("ArrowDown");
        reveal_strlit("ArrowLeft");
        reveal_strlit("ArrowRight");
        reveal_strlit("Minus");
        reveal_strlit("Equals");
        reveal_strlit("PlusEquals");
        reveal_strlit("Comma");
        reveal_strlit("Period");
        reveal_strlit("Dot");
        reveal_strlit("Semicolon");
        reveal_strlit("Quote");
        reveal_strlit("Apostrophe");
        reveal_strlit("Backslash");
        reveal_strlit("Slash");
        reveal_strlit("OpenBracket");
        reveal_strlit("CloseBracket");
        reveal_strlit("Backtick");
        reveal_strlit("Grave");
        reveal_strlit("Num");
    }
    assert(spec_egui_key("Period"@) == Some("KEY_DOT"@)) by {
        reveal_strlit("Escape");
        reveal_strlit("Tab");
        reveal_strlit("Backspace");
        reveal_strlit("Enter");
        reveal_strlit("Space");
        reveal_strlit("Insert");
        reveal_strlit("Delete");
        reveal_strlit("Home");
        reveal_strlit("End");
        reveal_strlit("PageUp");
        reveal_strlit("PageDown");
        reveal_strlit("ArrowUp");
        reveal_strlit("ArrowDown");
        reveal_strlit("ArrowLeft");
        reveal_strlit("ArrowRight");
        reveal_strlit("Minus");
        reveal_strlit("Equals");
        reveal_strlit("PlusEquals");
        reveal_strlit("Comma");
        reveal_strlit("Period");
        reveal_strlit("Dot");
        reveal_strlit("Semicolon");
        reveal_strlit("Quote");
        reveal_strlit("Apostrophe");
        reveal_strlit("Backslash");
        reveal_strlit("Slash");
        reveal_strlit("OpenBracket");
        reveal_strlit("CloseBracket");
        reveal_strlit("Backtick");
        reveal_strlit("Grave");
        reveal_strlit("Num");
    }
}

/// The named keys of the window, each with the Linux key it sends
/// (part 3).
pub proof fn lemma_named_window_keys_3()
    ensures
        spec_egui_key("Dot"@) == Some("KEY_DOT"@),
        spec_egui_key("Semicolon"@) == Some("KEY_SEMICOLON"@),
        spec_egui_key("Quote"@) == Some("KEY_APOSTROPHE"@),
        spec_egui_key("Apostrophe"@) == Some("KEY_APOSTROPHE"@),
        spec_egui_key("Backslash"@) == Some("KEY_BACKSLASH"@),
        spec_egui_key("Slash"@) == Some("KEY_SLASH"@),
        spec_egui_key("OpenBracket"@) == Some("KEY_LEFTBRACE"@),
        spec_egui_key("CloseBracket"@) == Some("KEY_RIGHTBRACE"@),
        spec_egui_key("Backtick"@) == Some("KEY_GRAVE"@),
        spec_egui_key("Grave"@) == Some("KEY_GRAVE"@),
{
    assert(spec_egui_key("Dot"@) == Some("KEY_DOT"@)) by {
        reveal_strlit("Escape");
        reveal_strlit("Tab");
        reveal_strlit("Backspace");
        reveal_strlit("Enter");
        reveal_strlit("Space");
        reveal_strlit("Insert");
        reveal_strlit("Delete");
        reveal_strlit("Home");
        reveal_strlit("End");
        reveal_strlit("PageUp");
        reveal_strlit("PageDown");
        reveal_strlit("ArrowUp");
        reveal_strlit("ArrowDown");
        reveal_strlit("ArrowLeft");
        reveal_strlit("ArrowRight");
        reveal_strlit("Minus");
        reveal_strlit("Equals");
        reveal_strlit("PlusEquals");
        reveal_strlit("Comma");
        reveal_strlit("Period");
        reveal_strlit("Dot");
        reveal_strlit("Semicolon");
        reveal_strlit("Quote");
        reveal_strlit("Apostrophe");
        reveal_strlit("Backslash");
        reveal_strlit("Slash");
        reveal_strlit("OpenBracket");
        reveal_strlit("CloseBracket");
        reveal_strlit("Backtick");
        reveal_strlit("Grave");
        reveal_strlit("Num");
    }
    assert(spec_egui_key("Semicolon"@) == Some("KEY_SEMICOLON"@)) by {
        reveal_strlit("Escape");
        reveal_strlit("Tab");
        reveal_strlit("Backspace");
        reveal_strlit("Enter");
        reveal_strlit("Space");
        reveal_strlit("Insert");
        reveal_strlit("Delete");
        reveal_strlit("Home");
        reveal_strlit("End");
        reveal_strlit("PageUp");
        reveal_strlit("PageDown");
        reveal_strlit("ArrowUp");
        reveal_strlit("ArrowDown");
        reveal_strlit("ArrowLeft");
        reveal_strlit("ArrowRight");
        reveal_strlit("Minus");
        reveal_strlit("Equals");
        reveal_strlit("PlusEquals");
        reveal_strlit("Comma");
        reveal_strlit("Period");
        reveal_strlit("Dot");
        reveal_strlit("Semicolon");
        reveal_strlit("Quote");
        reveal_strlit("Apostrophe");
        reveal_strlit("Backslash");
        reveal_strlit("Slash");
        reveal_strlit("OpenBracket");
        reveal_strlit("CloseBracket");
        reveal_strlit("Backtick");
        reveal_strlit("Grave");
        reveal_strlit("Num");
    }
    assert(spec_egui_key("Quote"@) == Some("KEY_APOSTROPHE"@)) by {
        reveal_strlit("Escape");
        reveal_strlit("Tab");
        reveal_strlit("Backspace");
        reveal_strlit("Enter");
        reveal_strlit("Space");
        reveal_strlit("Insert");
        reveal_strlit("Delete");
        reveal_strlit("Home");
        reveal_strlit("End");
        reveal_strlit("PageUp");
        reveal_strlit("PageDown");
        reveal_strlit("ArrowUp");
        reveal_strlit("ArrowDown");
        reveal_strlit("ArrowLeft");
        reveal_strlit("ArrowRight");
        reveal_strlit("Minus");
        reveal_strlit("Equals");
        reveal_strlit("PlusEquals");
        reveal_strlit("Comma");
        reveal_strlit("Period");
        reveal_strlit("Dot");
        reveal_strlit("Semicolon");
        reveal_strlit("Quote");
        reveal_strlit("Apostrophe");
        reveal_strlit("Backslash");
        reveal_strlit("Slash");
        reveal_strlit("OpenBracket");
        reveal_strlit("CloseBracket");
        reveal_strlit("Backtick");
        reveal_strlit("Grave");
        reveal_strlit("Num");
    }
    assert(spec_egui_key("Apostrophe"@) == Some("KEY_APOSTROPHE"@)) by {
        reveal_strlit("Escape");
        reveal_strlit("Tab");
        reveal_strlit("Backspace");
        reveal_strlit("Enter");
        reveal_strlit("Space");
        reveal_strlit("Insert");
        reveal_strlit("Delete");
        reveal_strlit("Home");
        reveal_strlit("End");
        reveal_strlit("PageUp");
        reveal_strlit("PageDown");
        reveal_strlit("ArrowUp");
        reveal_strlit("ArrowDown");
        reveal_strlit("ArrowLeft");
        reveal_strlit("ArrowRight");
        reveal_strlit("Minus");
        reveal_strlit("Equals");
        reveal_strlit("PlusEquals");
        reveal_strlit("Comma");
        reveal_strlit("Period");
        reveal_strlit("Dot");
        reveal_strlit("Semicolon");
        reveal_strlit("Quote");
        reveal_strlit("Apostrophe");
        reveal_strlit("Backslash");
        reveal_strlit("Slash");
        reveal_strlit("OpenBracket");
        reveal_strlit("CloseBracket");
        reveal_strlit("Backtick");
        reveal_strlit("Grave");
        reveal_strlit("Num");
    }
    assert(spec_egui_key("Backslash"@) == Some("KEY_BACKSLASH"@)) by {
        reveal_strlit("Backslash");
        reveal_strlit("Backspace");
        assert("Backslash"@[5] != "Backspace"@[5]);
        reveal_strlit("Escape");
        reveal_strlit("Tab");
        reveal_strlit("Backspace");
        reveal_strlit("Enter");
        reveal_strlit("Space");
        reveal_strlit("Insert");
        reveal_strlit("Delete");
        reveal_strlit("Home");
        reveal_strlit("End");
        reveal_strlit("PageUp");
        reveal_strlit("PageDown");
        reveal_strlit("ArrowUp");
        reveal_strlit("ArrowDown");
        reveal_strlit("ArrowLeft");
        reveal_strlit("ArrowRight");
        reveal_strlit("Minus");
        reveal_strlit("Equals");
        reveal_strlit("PlusEquals");
        reveal_strlit("Comma");
        reveal_strlit("Period");
        reveal_strlit("Dot");
        reveal_strlit("Semicolon");
        reveal_strlit("Quote");
        reveal_strlit("Apostrophe");
        reveal_strlit("Backslash");
        reveal_strlit("Slash");
        reveal_strlit("OpenBracket");
        reveal_strlit("CloseBracket");
        reveal_strlit("Backtick");
        reveal_strlit("Grave");
        reveal_strlit("Num");
    }
    assert(spec_egui_key("Slash"@) == Some("KEY_SLASH"@)) by {
        reveal_strlit("Escape");
        reveal_strlit("Tab");
        reveal_strlit("Backspace");
        reveal_strlit("Enter");
        reveal_strlit("Space");
        reveal_strlit("Insert");
        reveal_strlit("Delete");
        reveal_strlit("Home");
        reveal_strlit("End");
        reveal_strlit("PageUp");
        reveal_strlit("PageDown");
        reveal_strlit("ArrowUp");
        reveal_strlit("ArrowDown");
        reveal_strlit("ArrowLeft");
        reveal_strlit("ArrowRight");
        reveal_strlit("Minus");
        reveal_strlit("Equals");
        reveal_strlit("PlusEquals");
        reveal_strlit("Comma");
        reveal_strlit("Period");
        reveal_strlit("Dot");
        reveal_strlit("Semicolon");
        reveal_strlit("Quote");
        reveal_strlit("Apostrophe");
        reveal_strlit("Backslash");
        reveal_strlit("Slash");
        reveal_strlit("OpenBracket");
        reveal_strlit("CloseBracket");
        reveal_strlit("Backtick");
        reveal_strlit("Grave");
        reveal_strlit("Num");
    }
    assert(spec_egui_key("OpenBracket"@) == Some("KEY_LEFTBRACE"@)) by {
        reveal_strlit("Escape");
        reveal_strlit("Tab");
        reveal_strlit("Backspace");
        reveal_strlit("Enter");
        reveal_strlit("Space");
        reveal_strlit("Insert");
        reveal_strlit("Delete");
        reveal_strlit("Home");
        reveal_strlit("End");
        reveal_strlit("PageUp");
        reveal_strlit("PageDown");
        reveal_strlit("ArrowUp");
        reveal_strlit("ArrowDown");
        reveal_strlit("ArrowLeft");
        reveal_strlit("ArrowRight");
        reveal_strlit("Minus");
        reveal_strlit("Equals");
        reveal_strlit("PlusEquals");
        reveal_strlit("Comma");
        reveal_strlit("Period");
        reveal_strlit("Dot");
        reveal_strlit("Semicolon");
        reveal_strlit("Quote");
        reveal_strlit("Apostrophe");
        reveal_strlit("Backslash");
        reveal_strlit("Slash");
        reveal_strlit("OpenBracket");
        reveal_strlit("CloseBracket");
        reveal_strlit("Backtick");
        reveal_strlit("Grave");
        reveal_strlit("Num");
    }
    assert(spec_egui_key("CloseBracket"@) == Some("KEY_RIGHTBRACE"@)) by {
        reveal_strlit("Escape");
        reveal_strlit("Tab");
        reveal_strlit("Backspace");
        reveal_strlit("Enter");
        reveal_strlit("Space");
        reveal_strlit("Insert");
        reveal_strlit("Delete");
        reveal_strlit("Home");
        reveal_strlit("End");
        reveal_strlit("PageUp");
        reveal_strlit("PageDown");
        reveal_strlit("ArrowUp");
        reveal_strlit("ArrowDown");
        reveal_strlit("ArrowLeft");
        reveal_strlit("ArrowRight");
        reveal_strlit("Minus");
        reveal_strlit("Equals");
        reveal_strlit("PlusEquals");
        reveal_strlit("Comma");
        reveal_strlit("Period");
        reveal_strlit("Dot");
        reveal_strlit("Semicolon");
        reveal_strlit("Quote");
        reveal_strlit("Apostrophe");
        reveal_strlit("Backslash");
        reveal_strlit("Slash");
        reveal_strlit("OpenBracket");
        reveal_strlit("CloseBracket");
        reveal_strlit("Backtick");
        reveal_strlit("Grave");
        reveal_strlit("Num");
    }
    assert(spec_egui_key("Backtick"@) == Some("KEY_GRAVE"@)) by {
        reveal_strlit("Escape");
        reveal_strlit("Tab");
        reveal_strlit("Backspace");
        reveal_strlit("Enter");
        reveal_strlit("Space");
        reveal_strlit("Insert");
        reveal_strlit("Delete");
        reveal_strlit("Home");
        reveal_strlit("End");
        reveal_strlit("PageUp");
        reveal_strlit("PageDown");
        reveal_strlit("ArrowUp");
        reveal_strlit("ArrowDown");
        reveal_strlit("ArrowLeft");
        reveal_strlit("ArrowRight");
        reveal_strlit("Minus");
        reveal_strlit("Equals");
        reveal_strlit("PlusEquals");
        reveal_strlit("Comma");
        reveal_strlit("Period");
        reveal_strlit("Dot");
        reveal_strlit("Semicolon");
        reveal_strlit("Quote");
        reveal_strlit("Apostrophe");
        reveal_strlit("Backslash");
        reveal_strlit("Slash");
        reveal_strlit("OpenBracket");
        reveal_strlit("CloseBracket");
        reveal_strlit("Backtick");
        reveal_strlit("Grave");
        reveal_strlit("Num");
    }
    assert(spec_egui_key("Grave"@) == Some("KEY_GRAVE"@)) by {
        reveal_strlit("Escape");
        reveal_strlit("Tab");
        reveal_strlit("Backspace");
        reveal_strlit("Enter");
        reveal_strlit("Space");
        reveal_strlit("Insert");
        reveal_strlit("Delete");
        reveal_strlit("Home");
        reveal_strlit("End");
        reveal_strlit("PageUp");
        reveal_strlit("PageDown");
        reveal_strlit("ArrowUp");
        reveal_strlit("ArrowDown");
        reveal_strlit("ArrowLeft");
        reveal_strlit("ArrowRight");
        reveal_strlit("Minus");
        reveal_strlit("Equals");
        reveal_strlit("PlusEquals");
        reveal_strlit("Comma");
        reveal_strlit("Period");
        reveal_strlit("Dot");
        reveal_strlit("Semicolon");
        reveal_strlit("Quote");
        reveal_strlit("Apostrophe");
        reveal_strlit("Backslash");
        reveal_strlit("Slash");
        reveal_strlit("OpenBracket");
        reveal_strlit("CloseBracket");
        reveal_strlit("Backtick");
        reveal_strlit("Grave");
        reveal_strlit("Num");
    }
}

pub fn egui_key_to_linux(name: &str) -> (r: Option<String>)
    ensures
        match r {
            Some(k) => spec_egui_key(name@) == Some(k@),
            None => spec_egui_key(name@) is None,
        },
{
    let v = chars_of(name);
    proof {
        reveal_strlit("Num");
    }
    if v.len() == 1 && (('a' <= v[0] && v[0] <= 'z') || ('A' <= v[0] && v[0] <= 'Z')) {
        let mut t: Vec<char> = Vec::new();
        t.push(to_upper(v[0]));
        return Some(concat_chars("KEY_", &t));
    }
    if starts_with(name, "Num") && v.len() == 4 && '0' <= v[3] && v[3] <= '9' {
        let mut t: Vec<char> = Vec::new();
        t.push(v[3]);
        assert(t@ =~= name@.skip(3));
        return Some(concat_chars("KEY_", &t));
    }
    if v.len() > 0 && v[0] == 'F' {
        let mut rest: Vec<char> = Vec::new();
        let mut i: usize = 1;
        while i < v.len()
            invariant
                1 <= i <= v@.len(),
                rest@ == v@.subrange(1, i as int),
            decreases v@.len() - i,
        {
            rest.push(v[i]);
            i = i + 1;
            assert(rest@ =~= v@.subrange(1, i as int));
        }
        assert(rest@ =~= name@.drop_first());
        match parse_unsigned_chars(&rest, 255) {
            Some(n) => {
                if 1 <= n && n <= 12 {
                    return Some(concat_str("KEY_", name));
                }
            },
            None => {},
        }
    }
    named_key(name)
}

/// Whether the status shows `name` as the destination of the recording in
/// progress.
pub fn is_record_target(status: &Option<Reply>, name: &str) -> (r: bool)
    ensures
        r == match status {
            Some(s) => s.recording && (s.record_target matches Some(t) && t@ == name@),
            None => false,
        },
{
    match status {
        Some(s) => s.recording && match &s.record_target {
            Some(t) => str_eq(t.as_str(), name),
            None => false,
        },
        None => false,
    }
}

/// Whether `name` carries a macro with steps: as the daemon's status says,
/// or, without a status, as the active bank of the profile says.
pub fn macro_bound(status: &Option<Reply>, profile: &Profile, name: &str) -> (r: bool)
    ensures
        r == match status {
            Some(s) => views(s.macro_targets@).contains(name@),
            None => {
                let b = profile.banks@[bank_index(profile.active_bank)];
                b.macros.map().dom().contains(name@) && b.macros.map()[name@]@.len() > 0
            },
        },
{
    match status {
        Some(s) => contains_chars(&s.macro_targets, &chars_of(name)),
        None => match profile.bank().macros.get(name) {
            Some(steps) => steps.len() > 0,
            None => false,
        },
    }
}

/// The text of the binding editor once `key` is selected: the binding of
/// `key` in the active bank, or nothing.
pub fn binding_text(profile: &Profile, key: &str) -> (r: String)
    ensures
        ({
            let b = profile.banks@[bank_index(profile.active_bank)];
            r@ == if b.bindings.map().dom().contains(key@) {
                b.bindings.map()[key@]@
            } else {
                Seq::<char>::empty()
            }
        }),
{
    match profile.bank().bindings.get(key) {
        Some(a) => a.clone(),
        None => String::new(),
    }
}

/// The key names of the modifiers in the order the window tracks them:
/// Ctrl, Shift, Alt, Meta.
pub open spec fn modifier_key(i: int) -> Seq<char> {
    if i == 0 {
        "KEY_LEFTCTRL"@
    } else if i == 1 {
        "KEY_LEFTSHIFT"@
    } else if i == 2 {
        "KEY_LEFTALT"@
    } else {
        "KEY_LEFTMETA"@
    }
}

/// The edges for the first `n` modifiers, as `(key name, down)`: one for
/// each modifier whose state differs between `before` and `now`.
pub open spec fn edges_upto(before: Seq<bool>, now: Seq<bool>, n: int) -> Seq<(Seq<char>, bool)>
    decreases n,
{
    if n <= 0 {
        Seq::empty()
    } else if before[n - 1] != now[n - 1] {
        edges_upto(before, now, n - 1).push((modifier_key(n - 1), now[n - 1]))
    } else {
        edges_upto(before, now, n - 1)
    }
}

/// The edges as `(key name, down)` pairs.
pub open spec fn edge_views(r: Seq<(String, bool)>) -> Seq<(Seq<char>, bool)> {
    r.map_values(|e: (String, bool)| (e.0@, e.1))
}

/// The edges the window sends for its modifiers: one for each modifier
/// whose state changed since the last frame, in the order Ctrl, Shift,
/// Alt, Meta.
pub fn modifier_edges(before: [bool; 4], now: [bool; 4]) -> (r: Vec<(String, bool)>)
    ensures
        edge_views(r@) == edges_upto(before@, now@, 4),
{
    let mut r: Vec<(String, bool)> = Vec::new();
    let mut i: usize = 0;
    while i < 4
        invariant
            i <= 4,
            edge_views(r@) == edges_upto(before@, now@, i as int),
        decreases 4 - i,
    {
        if before[i] != now[i] {
            let name = if i == 0 {
                String::from_str("KEY_LEFTCTRL")
            } else if i == 1 {
                String::from_str("KEY_LEFTSHIFT")
            } else if i == 2 {
                String::from_str("KEY_LEFTALT")
            } else {
                String::from_str("KEY_LEFTMETA")
            };
            let ghost before_r = edge_views(r@);
            r.push((name, now[i]));
            assert(edge_views(r@) =~= before_r.push((modifier_key(i as int), now@[i as int])));
        }
        i = i + 1;
    }
    r
}

/// Every control that a macro can be recorded onto is one the window lets
/// the user bind.
pub proof fn lemma_recordable_is_configurable(name: Seq<char>)
    requires
        spec_recordable(name),
    ensures
        spec_configurable(name),
{
    reveal_strlit("KEY_MACRO_PRESET");
    reveal_strlit("KEY_MACRO_RECORD_START");
    reveal_strlit("KEY_LIGHTS_TOGGLE");
    reveal_strlit("BTN_BASE");
    reveal_strlit("BTN_BASE2");
    reveal_strlit("BTN_THUMB");
    reveal_strlit("ABS_X-");
    reveal_strlit("ABS_X+");
    reveal_strlit("ABS_Y-");
    reveal_strlit("ABS_Y+");
    reveal_strlit("KEY_KBD_LCD_MENU1");
    reveal_strlit("KEY_KBD_LCD_MENU2");
    reveal_strlit("KEY_KBD_LCD_MENU3");
    reveal_strlit("KEY_KBD_LCD_MENU4");
    reveal_strlit("KEY_KBD_LCD_MENU5");
    if name.len() > 0 && (name[0] == 'B' || name[0] == 'A' || name[0] == 'G') {
        assert(name[0] != "KEY_MACRO_RECORD_START"@[0]);
        assert(name[0] != "KEY_LIGHTS_TOGGLE"@[0]);
        if has_prefix(name, "KEY_MACRO_PRESET"@) {
            assert(name.take(16)[0] == name[0]);
        }
    } else {
        assert(name.len() == 17 && name[4] == 'K');
        assert(name[4] != "KEY_MACRO_RECORD_START"@[4]);
        assert(name[4] != "KEY_LIGHTS_TOGGLE"@[4]);
        if has_prefix(name, "KEY_MACRO_PRESET"@) {
            assert(name.take(16)[4] == name[4]);
        }
    }
}

/// How a control of the window's G13 picture is drawn.
#[derive(Debug, Clone, Copy, PartialEq, Eq, Structural)]
pub enum Look {
    /// MR while a recording runs.
    Recording,
    /// Held on the device now.
    Live,
    /// The M key of the active bank, or the control being edited.
    Selected,
    /// Anything else.
    Idle,
}

/// Whether the status shows `name` held down.
pub open spec fn live_in(status: Option<Reply>, name: Seq<char>) -> bool {
    match status {
        Some(s) => views(s.pressed@).contains(name),
        None => false,
    }
}

/// The look of a key of the picture (the M keys, MR, the LCD keys, the G
/// keys and the thumb buttons).
pub open spec fn spec_button_look(status: Option<Reply>, profile_bank: u8, selected: Seq<char>, name: Seq<char>) -> Look {
    let bank = match status {
        Some(s) => s.active_bank,
        None => profile_bank,
    };
    let recording = name == "KEY_MACRO_RECORD_START"@ && match status {
        Some(s) => s.recording,
        None => false,
    };
    let bank_key = (name == "KEY_MACRO_PRESET1"@ && bank == 1) || (name == "KEY_MACRO_PRESET2"@ && bank
        == 2) || (name == "KEY_MACRO_PRESET3"@ && bank == 3);
    if recording {
        Look::Recording
    } else if live_in(status, name) {
        Look::Live
    } else if bank_key || selected == name {
        Look::Selected
    } else {
        Look::Idle
    }
}

pub fn button_look(status: &Option<Reply>, profile_bank: u8, selected: &str, name: &str) -> (r: Look)
    ensures
        r == spec_button_look(*status, profile_bank, selected@, name@),
{
    let bank = match status {
        Some(s) => s.active_bank,
        None => profile_bank,
    };
    let recording = str_eq(name, "KEY_MACRO_RECORD_START") && match status {
        Some(s) => s.recording,
        None => false,
    };
    let bank_key = (str_eq(name, "KEY_MACRO_PRESET1") && bank == 1) || (str_eq(name, "KEY_MACRO_PRESET2")
        && bank == 2) || (str_eq(name, "KEY_MACRO_PRESET3") && bank == 3);
    let live = match status {
        Some(s) => contains_chars(&s.pressed, &chars_of(name)),
        None => false,
    };
    if recording {
        Look::Recording
    } else if live {
        Look::Live
    } else if bank_key || str_eq(selected, name) {
        Look::Selected
    } else {
        Look::Idle
    }
}

/// The look of the round LCD key, the stick directions and the stick
/// click: held, being edited, or neither.
pub fn zone_look(status: &Option<Reply>, selected: &str, name: &str) -> (r: Look)
    ensures
        r == if live_in(*status, name@) {
            Look::Live
        } else if selected@ == name@ {
            Look::Selected
        } else {
            Look::Idle
        },
{
    let live = match status {
        Some(s) => contains_chars(&s.pressed, &chars_of(name)),
        None => false,
    };
    if live {
        Look::Live
    } else if str_eq(selected, name) {
        Look::Selected
    } else {
        Look::Idle
    }
}

/// What a click on a key of the picture does.
#[derive(Debug, Clone, Copy, PartialEq, Eq, Structural)]
pub enum Click {
    /// MR: start or stop a recording.
    ToggleRecording,
    /// An M key: switch to its bank.
    SetBank(u8),
    /// A programmable control: edit its binding.
    Select,
    /// Nothing (the lighting key).
    Nothing,
}

pub fn button_click(name: &str) -> (r: Click)
    ensures
        r == if name@ == "KEY_MACRO_RECORD_START"@ {
            Click::ToggleRecording
        } else if name@ == "KEY_MACRO_PRESET1"@ {
            Click::SetBank(1)
        } else if name@ == "KEY_MACRO_PRESET2"@ {
            Click::SetBank(2)
        } else if name@ == "KEY_MACRO_PRESET3"@ {
            Click::SetBank(3)
        } else if spec_configurable(name@) {
            Click::Select
        } else {
            Click::Nothing
        },
{
    if str_eq(name, "KEY_MACRO_RECORD_START") {
        Click::ToggleRecording
    } else if str_eq(name, "KEY_MACRO_PRESET1") {
        Click::SetBank(1)
    } else if str_eq(name, "KEY_MACRO_PRESET2") {
        Click::SetBank(2)
    } else if str_eq(name, "KEY_MACRO_PRESET3") {
        Click::SetBank(3)
    } else if configurable(name) {
        Click::Select
    } else {
        Click::Nothing
    }
}

/// What the window takes from a fresh status: the daemon's bank, whether
/// the profile must be read again (its name or LCD state differ from the
/// status), and the first held control it lets the user bind, to select
/// where another is selected.
pub struct PollUpdate {
    pub bank: u8,
    pub reload: bool,
    pub select: Option<String>,
}

/// The first string of `v` that names a control the window lets the user
/// bind, if any.
pub open spec fn first_configurable(v: Seq<Seq<char>>) -> Option<Seq<char>>
    decreases v.len(),
{
    if v.len() == 0 {
        None
    } else if spec_configurable(v[0]) {
        Some(v[0])
    } else {
        first_configurable(v.drop_first())
    }
}

pub fn poll_update(profile: &Profile, selected: &str, status: &Reply) -> (r: PollUpdate)
    ensures
        r.bank == status.active_bank,
        r.reload == (profile.lcd_page != status.lcd_page || profile.lcd_enabled != status.lcd_enabled
            || profile.name@ != status.profile_name@),
        match first_configurable(views(status.pressed@)) {
            Some(k) => if k == selected@ {
                r.select is None
            } else {
                r.select matches Some(n) && n@ == k
            },
            None => r.select is None,
        },
{
    let reload = profile.lcd_page != status.lcd_page || profile.lcd_enabled != status.lcd_enabled
        || !str_eq(profile.name.as_str(), status.profile_name.as_str());
    let mut i: usize = 0;
    proof {
        assert(views(status.pressed@).skip(0) =~= views(status.pressed@));
    }
    while i < status.pressed.len() && !configurable(status.pressed[i].as_str())
        invariant
            i <= status.pressed@.len(),
            first_configurable(views(status.pressed@)) == first_configurable(
                views(status.pressed@).skip(i as int),
            ),
        decreases status.pressed@.len() - i,
    {
        assert(views(status.pressed@).skip(i as int).drop_first() =~= views(status.pressed@).skip(
            i + 1,
        ));
        i = i + 1;
    }
    let found = if i < status.pressed.len() {
        assert(views(status.pressed@).skip(i as int)[0] == status.pressed@[i as int]@);
        Some(status.pressed[i].clone())
    } else {
        assert(views(status.pressed@).skip(i as int).len() == 0);
        None
    };
    let select = match found {
        Some(k) => if str_eq(k.as_str(), selected) {
            None
        } else {
            Some(k)
        },
        None => None,
    };
    PollUpdate { bank: status.active_bank, reload, select }
}

/// A count of at least three digits, with leading zeros (`{:03}`).
pub open spec fn padded(n: nat) -> Seq<char> {
    if n < 10 {
        seq!['0', '0'] + decimal(n)
    } else if n < 100 {
        seq!['0'] + decimal(n)
    } else {
        decimal(n)
    }
}

/// One row of the recording window: the step's number (counted from 1),
/// `DOWN` or `UP`, its key's label, and its delay as `+N ms`.
pub fn preview_row(index: u64, step: &MacroStep) -> (r: (String, String, String, String))
    requires
        index < u64::MAX,
    ensures
        r.0@ == padded((index + 1) as nat),
        r.1@ == if step.down {
            "DOWN"@
        } else {
            "UP"@
        },
        r.2@ == spec_macro_key_label(step.key@),
        r.3@ == "+"@ + decimal(step.delay_ms as nat) + " ms"@,
{
    let n = index + 1;
    let digits = decimal_chars(n);
    let mut num: Vec<char> = Vec::new();
    if n < 10 {
        num.push('0');
        num.push('0');
    } else if n < 100 {
        num.push('0');
    }
    extend_chars(&mut num, &digits);
    proof {
        if n < 10 {
            assert(num@ =~= seq!['0', '0'] + decimal(n as nat));
        } else if n < 100 {
            assert(num@ =~= seq!['0'] + decimal(n as nat));
        } else {
            assert(num@ =~= decimal(n as nat));
        }
    }
    let edge = if step.down {
        String::from_str("DOWN")
    } else {
        String::from_str("UP")
    };
    let mut delay = chars_of("+");
    extend_chars(&mut delay, &decimal_chars(step.delay_ms));
    let tail = chars_of(" ms");
    extend_chars(&mut delay, &tail);
    (string_of(&num), edge, macro_key_label(step.key.as_str()), string_of(&delay))
}

/// The profile count under the profile list: `1 profile`, `N profiles`.
pub fn profile_count(n: u64) -> (r: String)
    ensures
        r@ == decimal(n as nat) + if n == 1 {
            " profile"@
        } else {
            " profiles"@
        },
{
    let mut v = decimal_chars(n);
    let tail = if n == 1 {
        chars_of(" profile")
    } else {
        chars_of(" profiles")
    };
    extend_chars(&mut v, &tail);
    string_of(&v)
}

/// The characters of `s` after its last `c`; all of `s` where it has no
/// `c`.
pub open spec fn tail_after(s: Seq<char>, c: char) -> Seq<char>
    decreases s.len(),
{
    if s.len() == 0 || s.last() == c {
        Seq::empty()
    } else {
        tail_after(s.drop_last(), c).push(s.last())
    }
}

/// The file name of a path, as `Path::file_name` gives it: the last part
/// between slashes that is neither empty nor `.`; none where there is no
/// such part, or it is `..`.
pub open spec fn path_file_name(p: Seq<char>) -> Option<Seq<char>>
    decreases p.len(),
{
    if p.len() == 0 {
        None
    } else if p.last() == '/' || tail_after(p, '/') == seq!['.'] {
        path_file_name(p.drop_last())
    } else if tail_after(p, '/') == seq!['.', '.'] {
        None
    } else {
        Some(tail_after(p, '/'))
    }
}

/// The extension of a path, as `Path::extension` gives it: what follows
/// the last dot of the file name, where that dot is not its first
/// character.
pub open spec fn path_extension(p: Seq<char>) -> Option<Seq<char>> {
    match path_file_name(p) {
        Some(f) => if tail_after(f, '.').len() + 1 < f.len() {
            Some(tail_after(f, '.'))
        } else {
            None
        },
        None => None,
    }
}

/// Whether a file dropped on the window is taken as the LCD image: its
/// extension is `png`, `jpg`, `jpeg` or `bmp`, in any case.
pub open spec fn spec_supported_image(p: Seq<char>) -> bool {
    match path_extension(p) {
        Some(e) => {
            let l = lower_all(e);
            l == "png"@ || l == "jpg"@ || l == "jpeg"@ || l == "bmp"@
        },
        None => false,
    }
}

proof fn lemma_tail_after(s: Seq<char>, c: char, i: int)
    requires
        0 <= i <= s.len(),
        forall|k: int| i <= k < s.len() ==> s[k] != c,
    ensures
        tail_after(s, c) == tail_after(s.take(i), c) + s.skip(i),
    decreases s.len() - i,
{
    if i < s.len() {
        lemma_tail_after(s.drop_last(), c, i);
        assert(s.drop_last().take(i) =~= s.take(i));
        assert(s.drop_last().skip(i).push(s.last()) =~= s.skip(i));
    } else {
        assert(s.skip(i) =~= Seq::<char>::empty());
        assert(s.take(i) =~= s);
    }
}

/// Where the characters of `v[..end]` after its last `c` start.
fn tail_start(v: &Vec<char>, end: usize, c: char) -> (start: usize)
    requires
        end <= v@.len(),
    ensures
        start <= end,
        v@.subrange(start as int, end as int) == tail_after(v@.take(end as int), c),
        forall|k: int| start <= k < end ==> v@[k] != c,
        start > 0 ==> v@[start - 1] == c,
{
    let mut start = end;
    while start > 0 && v[start - 1] != c
        invariant
            start <= end <= v@.len(),
            forall|k: int| start <= k < end ==> v@[k] != c,
        decreases start,
    {
        start = start - 1;
    }
    proof {
        let s = v@.take(end as int);
        lemma_tail_after(s, c, start as int);
        assert(s.take(start as int) =~= v@.take(start as int));
        assert(s.skip(start as int) =~= v@.subrange(start as int, end as int));
        if start > 0 {
            assert(v@.take(start as int).last() == c);
        } else {
            assert(v@.take(0) =~= Seq::<char>::empty());
        }
    }
    start
}

/// Where the file name of the path `v` lies in it, as `path_file_name`
/// finds it.
fn file_name_range(v: &Vec<char>) -> (r: Option<(usize, usize)>)
    ensures
        match r {
            Some((a, b)) => a <= b <= v@.len() && path_file_name(v@) == Some(
                v@.subrange(a as int, b as int),
            ),
            None => path_file_name(v@) is None,
        },
{
    let mut end: usize = v.len();
    assert(v@.take(end as int) =~= v@);
    loop
        invariant
            end <= v@.len(),
            path_file_name(v@.take(end as int)) == path_file_name(v@),
        decreases end,
    {
        if end == 0 {
            return None;
        }
        proof {
            assert(v@.take(end as int).drop_last() =~= v@.take(end - 1));
            assert(v@.take(end as int).last() == v@[end - 1]);
        }
        if v[end - 1] == '/' {
            end = end - 1;
        } else {
            let start = tail_start(v, end, '/');
            let ghost seg = v@.subrange(start as int, end as int);
            if end - start == 1 && v[start] == '.' {
                assert(seg =~= seq!['.']);
                end = end - 1;
            } else if end - start == 2 && v[start] == '.' && v[start + 1] == '.' {
                assert(seg =~= seq!['.', '.']);
                return None;
            } else {
                proof {
                    if seg == seq!['.'] {
                        assert(seg[0] == '.');
                    }
                    if seg == seq!['.', '.'] {
                        assert(seg[0] == '.' && seg[1] == '.');
                    }
                }
                return Some((start, end));
            }
        }
    }
}

/// Whether a file dropped on the window is taken as the LCD image.
pub fn supported_image(path: &str) -> (r: bool)
    ensures
        r == spec_supported_image(path@),
{
    let v = chars_of(path);
    match file_name_range(&v) {
        None => false,
        Some((a, b)) => {
            let ghost f = v@.subrange(a as int, b as int);
            let d = tail_start(&v, b, '.');
            proof {
                if d <= a {
                    lemma_tail_after(f, '.', 0);
                    assert(f.take(0) =~= Seq::<char>::empty());
                    assert(f.skip(0) =~= f);
                } else {
                    lemma_tail_after(f, '.', d - a);
                    assert(f.take(d - a).last() == '.');
                    assert(f.skip(d - a) =~= v@.subrange(d as int, b as int));
                }
            }
            if d <= a || d - 1 == a {
                false
            } else {
                let mut e: Vec<char> = Vec::new();
                let mut i = d;
                while i < b
                    invariant
                        d <= i <= b <= v@.len(),
                        e@ == v@.subrange(d as int, i as int),
                    decreases b - i,
                {
                    e.push(v[i]);
                    i = i + 1;
                    assert(e@ =~= v@.subrange(d as int, i as int));
                }
                let l = lower_chars(&e);
                chars_eq(&l, &chars_of("png")) || chars_eq(&l, &chars_of("jpg")) || chars_eq(
                    &l,
                    &chars_of("jpeg"),
                ) || chars_eq(&l, &chars_of("bmp"))
            }
        },
    }
}

} // verus!
