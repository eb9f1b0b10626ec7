//! Profiles: named sets of three M banks of bindings and macros, with the
//! lighting, LCD and joystick settings that go with them, and the naming
//! rules of the profile store on disk.
//!
//! The LCD image transform (scale, zoom, anchor) is floating point and is
//! kept beside a profile by the application, not in it.
use vstd::prelude::*;
use crate::strmap::StrMap;
use crate::text::{
    chars_of, concat_chars, concat_str, decimal, decimal_chars, is_ws, lemma_small_decimal,
    sort_by_lower, sorted_by_lower, stable_sort_by_lower, str_eq, string_of, trim, trim_chars, trim_end,
    trim_start, views,
};

verus! {

/// Alignment of one custom LCD line.
#[derive(Debug, Clone, Copy, PartialEq, Eq, Structural)]
pub enum LcdAlign {
    Left,
    Center,
    Right,
}

impl Default for LcdAlign {
    fn default() -> (r: Self)
        ensures
            r == LcdAlign::Left,
    {
        LcdAlign::Left
    }
}

/// One recorded key edge of a macro, with the delay before it.
#[derive(Debug)]
pub struct MacroStep {
    pub key: String,
    pub down: bool,
    pub delay_ms: u64,
}

impl MacroStep {
    /// An identical step.
    pub fn duplicate(&self) -> (r: MacroStep)
        ensures
            r == *self,
    {
        MacroStep { key: self.key.clone(), down: self.down, delay_ms: self.delay_ms }
    }
}

/// The bindings (control name to action) and macros (control name to
/// steps) of one M bank.
pub struct Bank {
    pub bindings: StrMap<String>,
    pub macros: StrMap<Vec<MacroStep>>,
}

impl Bank {
    /// A bank with no binding and no macro.
    pub fn new() -> (b: Bank)
        ensures
            b.bindings.map() == Map::<Seq<char>, String>::empty(),
            b.macros.map() == Map::<Seq<char>, Vec<MacroStep>>::empty(),
    {
        Bank { bindings: StrMap::new(), macros: StrMap::new() }
    }
}

/// The values of a string map, taken by their characters.
pub open spec fn string_map(m: Map<Seq<char>, String>) -> Map<Seq<char>, Seq<char>> {
    m.map_values(|s: String| s@)
}

/// A profile: everything that is saved per name.
pub struct Profile {
    pub name: String,
    pub color: [u8; 3],
    pub deadzone: u8,
    pub joystick_center_x: Option<u8>,
    pub joystick_center_y: Option<u8>,
    pub active_bank: u8,
    pub banks: [Bank; 3],
    pub lcd_enabled: bool,
    pub lcd_page: u8,
    pub lcd_lines: [String; 4],
    pub lcd_align: [LcdAlign; 4],
    pub lcd_image_path: String,
    pub lcd_text: String,
}

/// `active_bank` brought into 1..=3.
pub open spec fn clamp_bank(b: u8) -> u8 {
    if b < 1 {
        1
    } else if b > 3 {
        3
    } else {
        b
    }
}

/// The index in `banks` of the bank that `active_bank` selects.
pub open spec fn bank_index(b: u8) -> int {
    clamp_bank(b) - 1
}

pub fn default_lcd_enabled() -> (r: bool)
    ensures
        r,
{
    true
}

pub fn default_lcd_page() -> (r: u8)
    ensures
        r == 0,
{
    0
}

pub fn default_lcd_align() -> (r: [LcdAlign; 4])
    ensures
        r@ == seq![LcdAlign::Left, LcdAlign::Left, LcdAlign::Left, LcdAlign::Left],
{
    [LcdAlign::Left, LcdAlign::Left, LcdAlign::Left, LcdAlign::Left]
}

pub fn default_lcd_image_path() -> (r: String)
    ensures
        r@ == Seq::<char>::empty(),
{
    String::new()
}

/// The four custom LCD lines of a new profile.
pub open spec fn default_lines() -> Seq<Seq<char>> {
    seq!["G13 NEXUS"@, "Custom LCD page"@, Seq::<char>::empty(), Seq::<char>::empty()]
}

pub fn default_lcd_lines() -> (r: [String; 4])
    ensures
        r@.map_values(|s: String| s@) == default_lines(),
{
    let r = [
        String::from_str("G13 NEXUS"),
        String::from_str("Custom LCD page"),
        String::new(),
        String::new(),
    ];
    assert(r@.map_values(|s: String| s@) =~= default_lines());
    r
}

/// `KEY_F1` .. `KEY_F12` for G`n`: the G keys cycle through F1-F12.
pub open spec fn default_g_action(n: nat) -> Seq<char> {
    "KEY_F"@ + decimal(((n - 1) as nat % 12) + 1)
}

/// The bindings of G1..G`n` in a new profile.
pub open spec fn default_g_bindings(n: nat) -> Map<Seq<char>, Seq<char>>
    decreases n,
{
    if n == 0 {
        Map::empty()
    } else {
        default_g_bindings((n - 1) as nat).insert(seq!['G'] + decimal(n), default_g_action(n))
    }
}

/// Every bank of a new profile binds G1-G22 to F keys and the stick, thumb
/// buttons and stick click to movement keys.
pub open spec fn default_bindings() -> Map<Seq<char>, Seq<char>> {
    default_g_bindings(22).insert("ABS_Y-"@, "KEY_W"@).insert("ABS_Y+"@, "KEY_S"@).insert(
        "ABS_X-"@,
        "KEY_A"@,
    ).insert("ABS_X+"@, "KEY_D"@).insert("BTN_BASE"@, "KEY_LEFTCTRL"@).insert(
        "BTN_BASE2"@,
        "KEY_SPACE"@,
    ).insert("BTN_THUMB"@, "KEY_ENTER"@)
}

proof fn lemma_default_g_bindings(n: nat)
    requires
        n <= 22,
    ensures
        default_g_bindings(n).dom().finite(),
        default_g_bindings(n).dom().len() == n,
        forall|k: Seq<char>|
            #[trigger] default_g_bindings(n).dom().contains(k) ==> k.len() > 0 && k[0] == 'G'
                && exists|m: nat| 1 <= m <= n && k == seq!['G'] + decimal(m),
    decreases n,
{
    if n > 0 {
        let p = (n - 1) as nat;
        lemma_default_g_bindings(p);
        let key = seq!['G'] + decimal(n);
        if default_g_bindings(p).dom().contains(key) {
            let m = choose|m: nat| 1 <= m <= p && key == seq!['G'] + decimal(m);
            assert(decimal(m) =~= key.drop_first());
            assert(decimal(n) =~= key.drop_first());
            lemma_small_decimal(m);
            lemma_small_decimal(n);
        }
        assert forall|k: Seq<char>| #[trigger] default_g_bindings(n).dom().contains(k) implies k.len()
            > 0 && k[0] == 'G' && exists|m: nat| 1 <= m <= n && k == seq!['G'] + decimal(m) by {
            if k == key {
                assert(key[0] == 'G');
            }
        }
    }
}

/// Each bank of a new profile has 29 bindings: G1 to G22 and seven for the
/// stick and the buttons.
pub proof fn lemma_default_binding_count()
    ensures
        default_bindings().dom().finite(),
        default_bindings().dom().len() == 29,
{
    lemma_default_g_bindings(22);
    reveal_strlit("ABS_Y-");
    reveal_strlit("ABS_Y+");
    reveal_strlit("ABS_X-");
    reveal_strlit("ABS_X+");
    reveal_strlit("BTN_BASE");
    reveal_strlit("BTN_BASE2");
    reveal_strlit("BTN_THUMB");
    let g = default_g_bindings(22);
    let m1 = g.insert("ABS_Y-"@, "KEY_W"@);
    let m2 = m1.insert("ABS_Y+"@, "KEY_S"@);
    let m3 = m2.insert("ABS_X-"@, "KEY_A"@);
    let m4 = m3.insert("ABS_X+"@, "KEY_D"@);
    let m5 = m4.insert("BTN_BASE"@, "KEY_LEFTCTRL"@);
    let m6 = m5.insert("BTN_BASE2"@, "KEY_SPACE"@);
    assert(!g.dom().contains("ABS_Y-"@));
    assert(!m1.dom().contains("ABS_Y+"@)) by {
        assert(!g.dom().contains("ABS_Y+"@));
        assert("ABS_Y+"@[5] != "ABS_Y-"@[5]);
    }
    assert(!m2.dom().contains("ABS_X-"@)) by {
        assert(!g.dom().contains("ABS_X-"@));
        assert("ABS_X-"@[4] != "ABS_Y-"@[4]);
    }
    assert(!m3.dom().contains("ABS_X+"@)) by {
        assert(!g.dom().contains("ABS_X+"@));
        assert("ABS_X+"@[4] != "ABS_Y-"@[4]);
        assert("ABS_X+"@[5] != "ABS_X-"@[5]);
    }
    assert(!m4.dom().contains("BTN_BASE"@)) by {
        assert(!g.dom().contains("BTN_BASE"@));
    }
    assert(!m5.dom().contains("BTN_BASE2"@)) by {
        assert(!g.dom().contains("BTN_BASE2"@));
        assert("BTN_BASE2"@.len() != "BTN_BASE"@.len());
    }
    assert(!m6.dom().contains("BTN_THUMB"@)) by {
        assert(!g.dom().contains("BTN_THUMB"@));
        assert("BTN_THUMB"@[4] != "BTN_BASE"@[4]);
        assert("BTN_THUMB"@[4] != "BTN_BASE2"@[4]);
    }
}

fn insert_pair(m: &mut StrMap<String>, key: &str, value: &str)
    ensures
        string_map(final(m).map()) == string_map(old(m).map()).insert(key@, value@),
{
    m.insert(String::from_str(key), String::from_str(value));
    assert(string_map(m.map()) =~= string_map(old(m).map()).insert(key@, value@));
}

/// A bank of a new profile.
fn default_bank() -> (b: Bank)
    ensures
        string_map(b.bindings.map()) == default_bindings(),
        b.macros.map() == Map::<Seq<char>, Vec<MacroStep>>::empty(),
{
    let mut bank = Bank::new();
    let mut i: u64 = 1;
    assert(string_map(bank.bindings.map()) =~= default_g_bindings(0));
    while i <= 22
        invariant
            1 <= i <= 23,
            string_map(bank.bindings.map()) == default_g_bindings((i - 1) as nat),
            bank.macros.map() == Map::<Seq<char>, Vec<MacroStep>>::empty(),
        decreases 23 - i,
    {
        let key = concat_chars("G", &decimal_chars(i));
        let action = concat_chars("KEY_F", &decimal_chars(((i - 1) % 12) + 1));
        proof {
            reveal_strlit("G");
            assert("G"@ =~= seq!['G']);
        }
        let ghost before = bank.bindings.map();
        bank.bindings.insert(key, action);
        assert(string_map(bank.bindings.map()) =~= string_map(before).insert(
            seq!['G'] + decimal(i as nat),
            default_g_action(i as nat),
        ));
        i = i + 1;
    }
    insert_pair(&mut bank.bindings, "ABS_Y-", "KEY_W");
    insert_pair(&mut bank.bindings, "ABS_Y+", "KEY_S");
    insert_pair(&mut bank.bindings, "ABS_X-", "KEY_A");
    insert_pair(&mut bank.bindings, "ABS_X+", "KEY_D");
    insert_pair(&mut bank.bindings, "BTN_BASE", "KEY_LEFTCTRL");
    insert_pair(&mut bank.bindings, "BTN_BASE2", "KEY_SPACE");
    insert_pair(&mut bank.bindings, "BTN_THUMB", "KEY_ENTER");
    bank
}

/// The profile that a fresh installation starts from.
pub open spec fn is_default_profile(p: Profile) -> bool {
    &&& p.name@ == "Default"@
    &&& p.color@ == seq![0u8, 168u8, 255u8]
    &&& p.deadzone == 38
    &&& p.joystick_center_x is None
    &&& p.joystick_center_y is None
    &&& p.active_bank == 1
    &&& forall|b: int|
        0 <= b < 3 ==> string_map(#[trigger] p.banks@[b].bindings.map()) == default_bindings()
            && p.banks@[b].macros.map() == Map::<Seq<char>, Vec<MacroStep>>::empty()
    &&& p.lcd_enabled
    &&& p.lcd_page == 0
    &&& p.lcd_lines@.map_values(|s: String| s@) == default_lines()
    &&& p.lcd_align@ == seq![LcdAlign::Left, LcdAlign::Left, LcdAlign::Left, LcdAlign::Left]
    &&& p.lcd_image_path@ == Seq::<char>::empty()
    &&& p.lcd_text@ == Seq::<char>::empty()
}

impl Default for Profile {
    fn default() -> (p: Self)
        ensures
            is_default_profile(p),
    {
        let b0 = default_bank();
        let b1 = default_bank();
        let b2 = default_bank();
        let p = Profile {
            name: String::from_str("Default"),
            color: [0, 168, 255],
            deadzone: 38,
            joystick_center_x: None,
            joystick_center_y: None,
            active_bank: 1,
            banks: [b0, b1, b2],
            lcd_enabled: true,
            lcd_page: 0,
            lcd_lines: default_lcd_lines(),
            lcd_align: default_lcd_align(),
            lcd_image_path: default_lcd_image_path(),
            lcd_text: String::new(),
        };
        assert(p.color@ =~= seq![0u8, 168u8, 255u8]);
        p
    }
}

/// A bank's map after a control was renamed from `from` to `to`: an entry
/// under `to` wins and the one under `from` goes; else the `from` entry
/// moves to `to`.
pub open spec fn migrate<V>(m: Map<Seq<char>, V>, from: Seq<char>, to: Seq<char>) -> Map<
    Seq<char>,
    V,
> {
    if m.dom().contains(to) {
        m.remove(from)
    } else if m.dom().contains(from) {
        m.remove(from).insert(to, m[from])
    } else {
        m
    }
}

fn migrate_map<V>(m: &mut StrMap<V>, from: &str, to: &str)
    ensures
        final(m).map() == migrate(old(m).map(), from@, to@),
{
    if !m.contains_key(to) {
        match m.remove(from) {
            Some(value) => {
                m.insert(String::from_str(to), value);
            },
            None => {},
        }
    } else {
        m.remove(from);
    }
}

/// Moves bindings and macros stored under an old control name to the name
/// used now.
pub fn migrate_binding_alias(bank: &mut Bank, from: &str, to: &str)
    ensures
        final(bank).bindings.map() == migrate(old(bank).bindings.map(), from@, to@),
        final(bank).macros.map() == migrate(old(bank).macros.map(), from@, to@),
{
    migrate_map(&mut bank.bindings, from, to);
    migrate_map(&mut bank.macros, from, to);
}

/// A bank's map after all old control names were renamed and the retired
/// `THUMB_BOTTOM` control dropped.
pub open spec fn normalized_map<V>(m: Map<Seq<char>, V>) -> Map<Seq<char>, V> {
    migrate(
        migrate(
            migrate(
                migrate(
                    migrate(
                        migrate(migrate(m, "THUMB_LEFT"@, "BTN_BASE"@), "THUMB_RIGHT"@, "BTN_BASE2"@),
                        "STICK_CLICK"@,
                        "BTN_THUMB"@,
                    ),
                    "STICK_UP"@,
                    "ABS_Y-"@,
                ),
                "STICK_DOWN"@,
                "ABS_Y+"@,
            ),
            "STICK_LEFT"@,
            "ABS_X-"@,
        ),
        "STICK_RIGHT"@,
        "ABS_X+"@,
    ).remove("THUMB_BOTTOM"@)
}

proof fn lemma_migrate_shape<V>(m: Map<Seq<char>, V>, from: Seq<char>, to: Seq<char>)
    requires
        from != to,
    ensures
        !migrate(m, from, to).dom().contains(from),
        forall|k: Seq<char>|
            k != to && #[trigger] migrate(m, from, to).dom().contains(k) ==> m.dom().contains(k),
        !m.dom().contains(from) ==> migrate(m, from, to) == m,
{
    if !m.dom().contains(from) {
        assert(m.remove(from) =~= m);
    }
}

/// Renaming the old control names is done once and for all: doing it again
/// changes nothing.
pub proof fn lemma_normalized_map_idempotent<V>(m: Map<Seq<char>, V>)
    ensures
        normalized_map(normalized_map(m)) == normalized_map(m),
{
    reveal_strlit("THUMB_LEFT");
    reveal_strlit("THUMB_RIGHT");
    reveal_strlit("STICK_CLICK");
    reveal_strlit("STICK_UP");
    reveal_strlit("STICK_DOWN");
    reveal_strlit("STICK_LEFT");
    reveal_strlit("STICK_RIGHT");
    reveal_strlit("THUMB_BOTTOM");
    reveal_strlit("BTN_BASE");
    reveal_strlit("BTN_BASE2");
    reveal_strlit("BTN_THUMB");
    reveal_strlit("ABS_Y-");
    reveal_strlit("ABS_Y+");
    reveal_strlit("ABS_X-");
    reveal_strlit("ABS_X+");
    assert("THUMB_LEFT"@[0] == 'T' && "THUMB_RIGHT"@[0] == 'T' && "THUMB_BOTTOM"@[0] == 'T');
    assert("STICK_CLICK"@[0] == 'S' && "STICK_UP"@[0] == 'S' && "STICK_DOWN"@[0] == 'S');
    assert("STICK_LEFT"@[0] == 'S' && "STICK_RIGHT"@[0] == 'S');
    assert("BTN_BASE"@[0] == 'B' && "BTN_BASE2"@[0] == 'B' && "BTN_THUMB"@[0] == 'B');
    assert("ABS_Y-"@[0] == 'A' && "ABS_Y+"@[0] == 'A' && "ABS_X-"@[0] == 'A' && "ABS_X+"@[0]
        == 'A');
    let m1 = migrate(m, "THUMB_LEFT"@, "BTN_BASE"@);
    let m2 = migrate(m1, "THUMB_RIGHT"@, "BTN_BASE2"@);
    let m3 = migrate(m2, "STICK_CLICK"@, "BTN_THUMB"@);
    let m4 = migrate(m3, "STICK_UP"@, "ABS_Y-"@);
    let m5 = migrate(m4, "STICK_DOWN"@, "ABS_Y+"@);
    let m6 = migrate(m5, "STICK_LEFT"@, "ABS_X-"@);
    let m7 = migrate(m6, "STICK_RIGHT"@, "ABS_X+"@);
    let n = m7.remove("THUMB_BOTTOM"@);
    lemma_migrate_shape(m, "THUMB_LEFT"@, "BTN_BASE"@);
    lemma_migrate_shape(m1, "THUMB_RIGHT"@, "BTN_BASE2"@);
    lemma_migrate_shape(m2, "STICK_CLICK"@, "BTN_THUMB"@);
    lemma_migrate_shape(m3, "STICK_UP"@, "ABS_Y-"@);
    lemma_migrate_shape(m4, "STICK_DOWN"@, "ABS_Y+"@);
    lemma_migrate_shape(m5, "STICK_LEFT"@, "ABS_X-"@);
    lemma_migrate_shape(m6, "STICK_RIGHT"@, "ABS_X+"@);
    assert(n == normalized_map(m));
    assert(!n.dom().contains("THUMB_LEFT"@));
    assert(!n.dom().contains("THUMB_RIGHT"@));
    assert(!n.dom().contains("STICK_CLICK"@));
    assert(!n.dom().contains("STICK_UP"@));
    assert(!n.dom().contains("STICK_DOWN"@));
    assert(!n.dom().contains("STICK_LEFT"@));
    assert(!n.dom().contains("STICK_RIGHT"@));
    assert(!n.dom().contains("THUMB_BOTTOM"@));
    lemma_migrate_shape(n, "THUMB_LEFT"@, "BTN_BASE"@);
    lemma_migrate_shape(n, "THUMB_RIGHT"@, "BTN_BASE2"@);
    lemma_migrate_shape(n, "STICK_CLICK"@, "BTN_THUMB"@);
    lemma_migrate_shape(n, "STICK_UP"@, "ABS_Y-"@);
    lemma_migrate_shape(n, "STICK_DOWN"@, "ABS_Y+"@);
    lemma_migrate_shape(n, "STICK_LEFT"@, "ABS_X-"@);
    lemma_migrate_shape(n, "STICK_RIGHT"@, "ABS_X+"@);
    assert(n.remove("THUMB_BOTTOM"@) =~= n);
}

fn normalize_bank(bank: &mut Bank)
    ensures
        final(bank).bindings.map() == normalized_map(old(bank).bindings.map()),
        final(bank).macros.map() == normalized_map(old(bank).macros.map()),
{
    migrate_binding_alias(bank, "THUMB_LEFT", "BTN_BASE");
    migrate_binding_alias(bank, "THUMB_RIGHT", "BTN_BASE2");
    migrate_binding_alias(bank, "STICK_CLICK", "BTN_THUMB");
    migrate_binding_alias(bank, "STICK_UP", "ABS_Y-");
    migrate_binding_alias(bank, "STICK_DOWN", "ABS_Y+");
    migrate_binding_alias(bank, "STICK_LEFT", "ABS_X-");
    migrate_binding_alias(bank, "STICK_RIGHT", "ABS_X+");
    bank.bindings.remove("THUMB_BOTTOM");
    bank.macros.remove("THUMB_BOTTOM");
}

/// Whether a stored `lcd_text` (the old single custom line) replaces the
/// first custom line: it is not blank and that line is still the default.
pub open spec fn moves_lcd_text(p: Profile) -> bool {
    trim(p.lcd_text@).len() > 0 && p.lcd_lines@[0]@ == "G13 NEXUS"@
}

/// What `normalize` makes of a profile `o`: `n`, but for the name.
pub open spec fn normalize_rest(n: Profile, o: Profile) -> bool {
    &&& n.active_bank == clamp_bank(o.active_bank)
    &&& n.lcd_page == o.lcd_page % 4
    &&& moves_lcd_text(o) ==> n.lcd_lines@ == o.lcd_lines@.update(0, o.lcd_text) && n.lcd_text@
        == Seq::<char>::empty()
    &&& !moves_lcd_text(o) ==> n.lcd_lines == o.lcd_lines && n.lcd_text == o.lcd_text
    &&& forall|b: int|
        #![trigger n.banks@[b]]
        0 <= b < 3 ==> n.banks@[b].bindings.map() == normalized_map(o.banks@[b].bindings.map())
            && n.banks@[b].macros.map() == normalized_map(o.banks@[b].macros.map())
    &&& n.color == o.color
    &&& n.deadzone == o.deadzone
    &&& n.joystick_center_x == o.joystick_center_x
    &&& n.joystick_center_y == o.joystick_center_y
    &&& n.lcd_enabled == o.lcd_enabled
    &&& n.lcd_align == o.lcd_align
    &&& n.lcd_image_path == o.lcd_image_path
}

/// What `normalize` makes of a profile `o`: `n`.
pub open spec fn normalize_effect(n: Profile, o: Profile) -> bool {
    normalize_rest(n, o) && n.name == o.name
}

impl Profile {
    /// The bank that `active_bank` selects, a value out of 1..=3 taken to
    /// the nearest bank.
    pub fn bank(&self) -> (b: &Bank)
        ensures
            *b == self.banks@[bank_index(self.active_bank)],
    {
        let i: usize = if self.active_bank < 1 {
            0
        } else if self.active_bank > 3 {
            2
        } else {
            (self.active_bank - 1) as usize
        };
        &self.banks[i]
    }

    /// The bank that `active_bank` selects, to change it.
    pub fn bank_mut(&mut self) -> (b: &mut Bank)
        ensures
            *b == old(self).banks@[bank_index(old(self).active_bank)],
            final(self).banks@ == old(self).banks@.update(
                bank_index(old(self).active_bank),
                *final(b),
            ),
            final(self).active_bank == old(self).active_bank,
            final(self).name == old(self).name,
            final(self).color == old(self).color,
            final(self).deadzone == old(self).deadzone,
            final(self).joystick_center_x == old(self).joystick_center_x,
            final(self).joystick_center_y == old(self).joystick_center_y,
            final(self).lcd_enabled == old(self).lcd_enabled,
            final(self).lcd_page == old(self).lcd_page,
            final(self).lcd_lines == old(self).lcd_lines,
            final(self).lcd_align == old(self).lcd_align,
            final(self).lcd_image_path == old(self).lcd_image_path,
            final(self).lcd_text == old(self).lcd_text,
    {
        let i: usize = if self.active_bank < 1 {
            0
        } else if self.active_bank > 3 {
            2
        } else {
            (self.active_bank - 1) as usize
        };
        &mut self.banks[i]
    }

    /// Brings a loaded profile into shape: bank in 1..=3, page in 0..=3, an
    /// old single custom text moved into the first line, old control names
    /// renamed in every bank.
    pub fn normalize(&mut self)
        ensures
            normalize_effect(*final(self), *old(self)),
    {
        self.active_bank = if self.active_bank < 1 {
            1
        } else if self.active_bank > 3 {
            3
        } else {
            self.active_bank
        };
        self.lcd_page = self.lcd_page % 4;
        let blank = trim_chars(&chars_of(self.lcd_text.as_str())).len() == 0;
        if !blank && str_eq(self.lcd_lines[0].as_str(), "G13 NEXUS") {
            let t = self.lcd_text.clone();
            self.lcd_lines[0] = t;
            self.lcd_text = String::new();
        }
        let mut i: usize = 0;
        while i < 3
            invariant
                i <= 3,
                forall|b: int|
                    #![trigger self.banks@[b]]
                    0 <= b < i ==> self.banks@[b].bindings.map() == normalized_map(
                        old(self).banks@[b].bindings.map(),
                    ) && self.banks@[b].macros.map() == normalized_map(
                        old(self).banks@[b].macros.map(),
                    ),
                forall|b: int| #![trigger self.banks@[b]] i <= b < 3 ==> self.banks@[b] == old(self).banks@[b],
                self.active_bank == clamp_bank(old(self).active_bank),
                self.lcd_page == old(self).lcd_page % 4,
                moves_lcd_text(*old(self)) ==> self.lcd_lines@ == old(self).lcd_lines@.update(
                    0,
                    old(self).lcd_text,
                ) && self.lcd_text@ == Seq::<char>::empty(),
                !moves_lcd_text(*old(self)) ==> self.lcd_lines == old(self).lcd_lines
                    && self.lcd_text == old(self).lcd_text,
                self.name == old(self).name,
                self.color == old(self).color,
                self.deadzone == old(self).deadzone,
                self.joystick_center_x == old(self).joystick_center_x,
                self.joystick_center_y == old(self).joystick_center_y,
                self.lcd_enabled == old(self).lcd_enabled,
                self.lcd_align == old(self).lcd_align,
                self.lcd_image_path == old(self).lcd_image_path,
            decreases 3 - i,
        {
            normalize_bank(&mut self.banks[i]);
            i = i + 1;
        }
    }
}

/// Normalizing is done once and for all: a normalized profile normalized
/// again keeps every field, and its banks keep their bindings and macros.
/// So a profile that was saved (saving normalizes) loads back (loading
/// normalizes) as it was saved.
pub proof fn lemma_normalize_idempotent(p0: Profile, p1: Profile, p2: Profile)
    requires
        normalize_effect(p1, p0),
        normalize_effect(p2, p1),
    ensures
        p2.active_bank == p1.active_bank,
        p2.lcd_page == p1.lcd_page,
        p2.lcd_lines == p1.lcd_lines,
        p2.lcd_text == p1.lcd_text,
        p2.name == p1.name,
        p2.color == p1.color,
        p2.deadzone == p1.deadzone,
        p2.joystick_center_x == p1.joystick_center_x,
        p2.joystick_center_y == p1.joystick_center_y,
        p2.lcd_enabled == p1.lcd_enabled,
        p2.lcd_align == p1.lcd_align,
        p2.lcd_image_path == p1.lcd_image_path,
        forall|b: int|
            #![trigger p2.banks@[b]]
            0 <= b < 3 ==> p2.banks@[b].bindings.map() == p1.banks@[b].bindings.map()
                && p2.banks@[b].macros.map() == p1.banks@[b].macros.map(),
{
    if moves_lcd_text(p0) {
        assert(trim(p1.lcd_text@) =~= Seq::<char>::empty());
        assert(!moves_lcd_text(p1));
    } else {
        assert(!moves_lcd_text(p1));
    }
    assert forall|b: int|
        #![trigger p2.banks@[b]]
        0 <= b < 3 implies p2.banks@[b].bindings.map() == p1.banks@[b].bindings.map()
            && p2.banks@[b].macros.map() == p1.banks@[b].macros.map() by {
        lemma_normalized_map_idempotent(p0.banks@[b].bindings.map());
        lemma_normalized_map_idempotent(p0.banks@[b].macros.map());
    }
}

impl Profile {
    /// A profile in the format of earlier versions, which had one set of
    /// bindings: every bank gets those bindings and no macro, everything
    /// else its default; then normalized.
    pub fn from_legacy(name: String, color: [u8; 3], deadzone: u8, bindings: StrMap<String>) -> (p:
        Profile)
        ensures
            p.name == name,
            p.color == color,
            p.deadzone == deadzone,
            p.joystick_center_x is None,
            p.joystick_center_y is None,
            p.active_bank == 1,
            forall|b: int|
                #![trigger p.banks@[b]]
                0 <= b < 3 ==> p.banks@[b].bindings.map() == normalized_map(bindings.map())
                    && p.banks@[b].macros.map() == Map::<Seq<char>, Vec<MacroStep>>::empty(),
            p.lcd_enabled,
            p.lcd_page == 0,
            p.lcd_lines@.map_values(|s: String| s@) == default_lines(),
            p.lcd_align@ == seq![LcdAlign::Left, LcdAlign::Left, LcdAlign::Left, LcdAlign::Left],
            p.lcd_image_path@ == Seq::<char>::empty(),
            p.lcd_text@ == Seq::<char>::empty(),
    {
        let b0 = Bank { bindings: bindings.duplicate(), macros: StrMap::new() };
        let b1 = Bank { bindings: bindings.duplicate(), macros: StrMap::new() };
        let b2 = Bank { bindings, macros: StrMap::new() };
        let mut p = Profile {
            name,
            color,
            deadzone,
            joystick_center_x: None,
            joystick_center_y: None,
            active_bank: 1,
            banks: [b0, b1, b2],
            lcd_enabled: true,
            lcd_page: 0,
            lcd_lines: default_lcd_lines(),
            lcd_align: default_lcd_align(),
            lcd_image_path: String::new(),
            lcd_text: String::new(),
        };
        let ghost before = p;
        assert(!moves_lcd_text(before)) by {
            assert(trim(before.lcd_text@) =~= Seq::<char>::empty());
        }
        p.normalize();
        assert(normalized_map(Map::<Seq<char>, Vec<MacroStep>>::empty()) =~= Map::<
            Seq<char>,
            Vec<MacroStep>,
        >::empty());
        p
    }

    /// The form in which a profile is written under `name`: named by the
    /// safe file name of `name`, and normalized.
    pub fn prepare_for_save(&mut self, name: &str)
        ensures
            final(self).name@ == spec_safe_file_name(name@),
            normalize_rest(*final(self), *old(self)),
    {
        self.normalize();
        self.name = safe_file_name(name);
    }

    /// Gives the profile the file name it is stored under (`load_named`).
    pub fn set_file_name(&mut self, name: &str)
        ensures
            final(self).name@ == spec_safe_file_name(name@),
            *final(self) == (Profile { name: final(self).name, ..*old(self) }),
    {
        self.name = safe_file_name(name);
    }
}

/// Saving then loading gives back what was saved: a profile put in the
/// form that `prepare_for_save` gives it for `name`, read back (reading
/// normalizes) and named by `set_file_name` for the same `name`, has every
/// field of the written profile, which is `p` normalized under the safe
/// file name of `name`.
pub proof fn lemma_save_then_load(p: Profile, saved: Profile, read: Profile, loaded: Profile, name: Seq<char>)
    requires
        saved.name@ == spec_safe_file_name(name),
        normalize_rest(saved, p),
        normalize_effect(read, saved),
        loaded.name@ == spec_safe_file_name(name),
        loaded == (Profile { name: loaded.name, ..read }),
    ensures
        loaded.name@ == saved.name@,
        loaded.active_bank == saved.active_bank,
        loaded.lcd_page == saved.lcd_page,
        loaded.lcd_lines == saved.lcd_lines,
        loaded.lcd_text == saved.lcd_text,
        loaded.color == saved.color,
        loaded.deadzone == saved.deadzone,
        loaded.joystick_center_x == saved.joystick_center_x,
        loaded.joystick_center_y == saved.joystick_center_y,
        loaded.lcd_enabled == saved.lcd_enabled,
        loaded.lcd_align == saved.lcd_align,
        loaded.lcd_image_path == saved.lcd_image_path,
        forall|b: int|
            #![trigger loaded.banks@[b]]
            0 <= b < 3 ==> loaded.banks@[b].bindings.map() == saved.banks@[b].bindings.map()
                && loaded.banks@[b].macros.map() == saved.banks@[b].macros.map(),
        normalize_rest(loaded, p),
{
    let p0 = Profile { name: saved.name, ..p };
    assert(moves_lcd_text(p0) == moves_lcd_text(p));
    assert(normalize_effect(saved, p0));
    lemma_normalize_idempotent(p0, saved, read);
    assert(loaded.banks == read.banks);
}

/// The profile a new store starts from: the one of the earlier
/// single-profile file where it could be read, else the default; named
/// `Default` where its name is blank.
pub fn initial_profile(legacy: Option<Profile>) -> (p: Profile)
    ensures
        match legacy {
            Some(q) => if trim(q.name@).len() > 0 {
                p == q
            } else {
                p.name@ == "Default"@ && p == (Profile { name: p.name, ..q })
            },
            None => is_default_profile(p),
        },
{
    let mut p = match legacy {
        Some(q) => q,
        None => Profile::default(),
    };
    if trim_chars(&chars_of(p.name.as_str())).len() == 0 {
        p.name = String::from_str("Default");
    }
    p
}

/// The profile that becomes active where none is: the first of `names`,
/// else `Default`.
pub fn first_or_default(names: &Vec<String>) -> (r: String)
    ensures
        names@.len() > 0 ==> r == names@[0],
        names@.len() == 0 ==> r@ == "Default"@,
{
    if names.len() > 0 {
        names[0].clone()
    } else {
        String::from_str("Default")
    }
}

/// The profile name a file in the profiles directory stands for: its name
/// without the `.json` extension; `None` for a file without that
/// extension (`Path::extension` and `Path::file_stem`: a name that is only
/// `.json` has none).
pub open spec fn json_stem(file: Seq<char>) -> Option<Seq<char>> {
    if file.len() > 5 && file.skip(file.len() - 5) == ".json"@ {
        Some(file.take(file.len() - 5))
    } else {
        None
    }
}

/// The profile names that files stand for, in the order of the files.
pub open spec fn json_stems(files: Seq<Seq<char>>) -> Seq<Seq<char>>
    decreases files.len(),
{
    if files.len() == 0 {
        Seq::empty()
    } else {
        match json_stem(files.last()) {
            Some(n) => json_stems(files.drop_last()).push(n),
            None => json_stems(files.drop_last()),
        }
    }
}

fn stem_of(file: &str) -> (r: Option<String>)
    ensures
        match r {
            Some(n) => json_stem(file@) == Some(n@),
            None => json_stem(file@) is None,
        },
{
    let v = chars_of(file);
    let ext = chars_of(".json");
    proof {
        reveal_strlit(".json");
    }
    if v.len() <= 5 {
        return None;
    }
    let mut i: usize = 0;
    let start = v.len() - 5;
    while i < 5
        invariant
            i <= 5,
            start == v@.len() - 5,
            start + 5 == v.len(),
            v@ == file@,
            ext@ == ".json"@,
            ext@.len() == 5,
            forall|k: int| 0 <= k < i ==> v@[start + k] == ext@[k],
        decreases 5 - i,
    {
        if v[start + i] != ext[i] {
            assert(v@.skip(start as int)[i as int] != ".json"@[i as int]);
            return None;
        }
        i = i + 1;
    }
    assert(v@.skip(start as int) =~= ".json"@);
    let mut n: Vec<char> = Vec::new();
    let mut k: usize = 0;
    while k < start
        invariant
            k <= start,
            start < v@.len(),
            n@ == v@.take(k as int),
        decreases start - k,
    {
        n.push(v[k]);
        k = k + 1;
        assert(n@ =~= v@.take(k as int));
    }
    Some(string_of(&n))
}

/// The profile names in the profiles directory, given the names of the
/// files there: the names of the `.json` files without the extension,
/// ordered by their ASCII lower-case form, names of the same form in the
/// order of the files.
pub fn list_profiles(files: &Vec<String>) -> (r: Vec<String>)
    ensures
        views(r@) == stable_sort_by_lower(json_stems(views(files@))),
        sorted_by_lower(views(r@)),
        views(r@).to_multiset() == json_stems(views(files@)).to_multiset(),
{
    let mut names: Vec<String> = Vec::new();
    let mut i: usize = 0;
    while i < files.len()
        invariant
            i <= files@.len(),
            views(names@) == json_stems(views(files@.take(i as int))),
        decreases files@.len() - i,
    {
        let ghost before = views(names@);
        assert(views(files@.take(i + 1)).drop_last() =~= views(files@.take(i as int)));
        assert(views(files@.take(i + 1)).last() == files@[i as int]@);
        match stem_of(files[i].as_str()) {
            Some(n) => {
                names.push(n);
                assert(views(names@) =~= before.push(names@.last()@));
            },
            None => {},
        }
        i = i + 1;
    }
    assert(files@.take(files@.len() as int) =~= files@);
    sort_by_lower(&names)
}

/// The characters a profile file name keeps: ASCII letters and digits,
/// space, `-`, `_` and `.`.
pub open spec fn file_name_char(c: char) -> bool {
    ('a' <= c <= 'z') || ('A' <= c <= 'Z') || ('0' <= c <= '9') || c == ' ' || c == '-' || c
        == '_' || c == '.'
}

/// The characters of `s` that a file name keeps, in order.
pub open spec fn keep_file_name_chars(s: Seq<char>) -> Seq<char>
    decreases s.len(),
{
    if s.len() == 0 {
        s
    } else if file_name_char(s.last()) {
        keep_file_name_chars(s.drop_last()).push(s.last())
    } else {
        keep_file_name_chars(s.drop_last())
    }
}

/// `s` without leading dots.
pub open spec fn strip_dots_start(s: Seq<char>) -> Seq<char>
    decreases s.len(),
{
    if s.len() > 0 && s[0] == '.' {
        strip_dots_start(s.drop_first())
    } else {
        s
    }
}

/// `s` without trailing dots.
pub open spec fn strip_dots_end(s: Seq<char>) -> Seq<char>
    decreases s.len(),
{
    if s.len() > 0 && s.last() == '.' {
        strip_dots_end(s.drop_last())
    } else {
        s
    }
}

/// The file name (without `.json`) under which a profile name is stored:
/// the name trimmed, cut down to the characters a file name keeps, trimmed
/// again and stripped of dots at both ends, then at most 80 characters;
/// `Default` where nothing is left.
pub open spec fn spec_safe_file_name(name: Seq<char>) -> Seq<char> {
    let f = strip_dots_end(strip_dots_start(trim(keep_file_name_chars(trim(name)))));
    if f.len() == 0 {
        "Default"@
    } else if f.len() <= 80 {
        f
    } else {
        f.take(80)
    }
}

/// A name that is already a safe file name: 1 to 80 characters a file
/// name keeps, neither first nor last a space or a dot.
pub open spec fn clean_file_name(s: Seq<char>) -> bool {
    &&& 0 < s.len() <= 80
    &&& forall|i: int| 0 <= i < s.len() ==> file_name_char(#[trigger] s[i])
    &&& s[0] != ' ' && s[0] != '.'
    &&& s.last() != ' ' && s.last() != '.'
}

proof fn lemma_keep_all(s: Seq<char>)
    requires
        forall|i: int| 0 <= i < s.len() ==> file_name_char(#[trigger] s[i]),
    ensures
        keep_file_name_chars(s) == s,
    decreases s.len(),
{
    if s.len() > 0 {
        assert(file_name_char(s[s.len() - 1]));
        lemma_keep_all(s.drop_last());
        assert(s.drop_last().push(s.last()) =~= s);
    }
}

/// A clean file name is its own safe file name. So a profile stored under
/// such a name is found again under it; a name whose safe form ends in a
/// space or a dot is not (its safe form changes once more).
pub proof fn lemma_safe_file_name_fixed(s: Seq<char>)
    requires
        clean_file_name(s),
    ensures
        spec_safe_file_name(s) == s,
{
    assert(!is_ws(s[0])) by {
        assert(file_name_char(s[0]));
    }
    assert(!is_ws(s.last())) by {
        assert(file_name_char(s[s.len() - 1]));
    }
    assert(trim_start(s) == s);
    assert(trim_end(s) == s);
    lemma_keep_all(s);
    assert(strip_dots_start(s) == s);
    assert(strip_dots_end(s) == s);
}

fn strip_dots(v: &Vec<char>) -> (r: Vec<char>)
    ensures
        r@ == strip_dots_end(strip_dots_start(v@)),
{
    let mut i: usize = 0;
    proof {
        assert(v@.skip(0) =~= v@);
    }
    while i < v.len() && v[i] == '.'
        invariant
            i <= v.len(),
            strip_dots_start(v@) == strip_dots_start(v@.skip(i as int)),
        decreases v.len() - i,
    {
        proof {
            assert(v@.skip(i as int).drop_first() =~= v@.skip(i + 1));
        }
        i = i + 1;
    }
    let ghost st = v@.skip(i as int);
    assert(strip_dots_start(st) == st);
    let mut j: usize = v.len();
    proof {
        assert(st.take(st.len() as int) =~= st);
    }
    while j > i && v[j - 1] == '.'
        invariant
            i <= j <= v.len(),
            st == v@.skip(i as int),
            strip_dots_end(st) == strip_dots_end(st.take(j - i)),
        decreases j,
    {
        proof {
            assert(st.take(j - i).drop_last() =~= st.take(j - i - 1));
        }
        j = j - 1;
    }
    let ghost res = st.take(j - i);
    assert(strip_dots_end(res) == res);
    let mut r: Vec<char> = Vec::new();
    let mut k: usize = i;
    while k < j
        invariant
            i <= k <= j <= v.len(),
            r@ == v@.subrange(i as int, k as int),
        decreases j - k,
    {
        r.push(v[k]);
        k = k + 1;
        assert(r@ =~= v@.subrange(i as int, k as int));
    }
    assert(r@ =~= res);
    r
}

/// Every character of `s` is one a file name keeps.
pub open spec fn file_name_chars_only(s: Seq<char>) -> bool {
    forall|i: int| 0 <= i < s.len() ==> file_name_char(#[trigger] s[i])
}

proof fn lemma_keep_only(s: Seq<char>)
    ensures
        file_name_chars_only(keep_file_name_chars(s)),
    decreases s.len(),
{
    if s.len() > 0 {
        lemma_keep_only(s.drop_last());
    }
}

proof fn lemma_only_trim_start(s: Seq<char>)
    requires
        file_name_chars_only(s),
    ensures
        file_name_chars_only(trim_start(s)),
    decreases s.len(),
{
    if s.len() > 0 && is_ws(s[0]) {
        assert(file_name_chars_only(s.drop_first())) by {
            assert forall|i: int| 0 <= i < s.drop_first().len() implies file_name_char(#[trigger] s.drop_first()[i]) by {
                assert(s.drop_first()[i] == s[i + 1]);
            }
        }
        lemma_only_trim_start(s.drop_first());
    }
}

proof fn lemma_only_trim_end(s: Seq<char>)
    requires
        file_name_chars_only(s),
    ensures
        file_name_chars_only(trim_end(s)),
    decreases s.len(),
{
    if s.len() > 0 && is_ws(s.last()) {
        lemma_only_trim_end(s.drop_last());
    }
}

proof fn lemma_only_strip_dots(s: Seq<char>)
    requires
        file_name_chars_only(s),
    ensures
        file_name_chars_only(strip_dots_start(s)),
        strip_dots_start(s).len() > 0 ==> strip_dots_start(s)[0] != '.',
    decreases s.len(),
{
    if s.len() > 0 && s[0] == '.' {
        assert(file_name_chars_only(s.drop_first())) by {
            assert forall|i: int| 0 <= i < s.drop_first().len() implies file_name_char(#[trigger] s.drop_first()[i]) by {
                assert(s.drop_first()[i] == s[i + 1]);
            }
        }
        lemma_only_strip_dots(s.drop_first());
    }
}

proof fn lemma_only_strip_dots_end(s: Seq<char>)
    requires
        file_name_chars_only(s),
        s.len() > 0 ==> s[0] != '.',
    ensures
        file_name_chars_only(strip_dots_end(s)),
        strip_dots_end(s).len() > 0 ==> strip_dots_end(s)[0] != '.',
    decreases s.len(),
{
    if s.len() > 0 && s.last() == '.' {
        lemma_only_strip_dots_end(s.drop_last());
    }
}

/// A profile file always lies directly in the profiles directory: its
/// name, the safe file name with `.json`, has no `/` and does not start
/// with a dot (so it is neither `.` nor `..`), and the path is the
/// profiles directory, one `/`, and that name.
pub proof fn lemma_profile_file_in_profiles_dir(dir: Seq<char>, name: Seq<char>)
    ensures
        ({
            let f = spec_safe_file_name(name) + ".json"@;
            let d = path_join(dir, "profiles"@);
            &&& f.len() > 5
            &&& forall|i: int| 0 <= i < f.len() ==> #[trigger] f[i] != '/'
            &&& f[0] != '.'
            &&& path_join(d, f) == d + seq!['/'] + f
        }),
{
    reveal_strlit(".json");
    reveal_strlit("Default");
    reveal_strlit("profiles");
    let t = trim(name);
    let k = keep_file_name_chars(t);
    lemma_keep_only(t);
    lemma_only_trim_start(k);
    lemma_only_trim_end(trim_start(k));
    let g = strip_dots_start(trim(k));
    lemma_only_strip_dots(trim(k));
    lemma_only_strip_dots_end(g);
    let s0 = spec_safe_file_name(name);
    assert(file_name_chars_only(s0) && s0.len() > 0 && s0[0] != '.') by {
        let e = strip_dots_end(g);
        if e.len() == 0 {
            assert(file_name_chars_only("Default"@));
        } else if e.len() > 80 {
            assert(file_name_chars_only(e.take(80))) by {
                assert forall|i: int| 0 <= i < e.take(80).len() implies file_name_char(#[trigger] e.take(80)[i]) by {
                    assert(e.take(80)[i] == e[i]);
                }
            }
        }
    }
    let f = s0 + ".json"@;
    assert forall|i: int| 0 <= i < f.len() implies #[trigger] f[i] != '/' by {
        if i < s0.len() {
            assert(f[i] == s0[i]);
            assert(file_name_char(s0[i]));
        }
    }
    let d = path_join(dir, "profiles"@);
    assert(d.len() > 0 && d.last() == 's') by {
        if dir.len() == 0 {
        } else if dir.last() == '/' {
            assert(d.last() == "profiles"@.last());
        } else {
            assert(d.last() == "profiles"@.last());
        }
    }
}

/// The file name (without `.json`) under which a profile name is stored.
pub fn safe_file_name(name: &str) -> (r: String)
    ensures
        r@ == spec_safe_file_name(name@),
{
    let t = trim_chars(&chars_of(name));
    let mut kept: Vec<char> = Vec::new();
    let mut i: usize = 0;
    while i < t.len()
        invariant
            i <= t.len(),
            kept@ == keep_file_name_chars(t@.take(i as int)),
        decreases t.len() - i,
    {
        let c = t[i];
        proof {
            assert(t@.take(i + 1).drop_last() =~= t@.take(i as int));
        }
        if ('a' <= c && c <= 'z') || ('A' <= c && c <= 'Z') || ('0' <= c && c <= '9') || c == ' '
            || c == '-' || c == '_' || c == '.' {
            kept.push(c);
        }
        i = i + 1;
    }
    assert(t@.take(t.len() as int) =~= t@);
    let f = strip_dots(&trim_chars(&kept));
    if f.len() == 0 {
        String::from_str("Default")
    } else if f.len() <= 80 {
        string_of(&f)
    } else {
        let mut g: Vec<char> = Vec::new();
        let mut k: usize = 0;
        while k < 80
            invariant
                k <= 80,
                80 < f.len(),
                g@ == f@.take(k as int),
            decreases 80 - k,
        {
            g.push(f[k]);
            k = k + 1;
            assert(g@ =~= f@.take(k as int));
        }
        string_of(&g)
    }
}

/// `b` appended to the path `a`, as `PathBuf::join` does it for a relative
/// `b`.
pub open spec fn path_join(a: Seq<char>, b: Seq<char>) -> Seq<char> {
    if a.len() == 0 {
        b
    } else if a.last() == '/' {
        a + b
    } else {
        a + seq!['/'] + b
    }
}

pub fn join_path(a: &str, b: &str) -> (r: String)
    ensures
        r@ == path_join(a@, b@),
{
    let av = chars_of(a);
    let bv = chars_of(b);
    if av.len() == 0 {
        string_of(&bv)
    } else if av[av.len() - 1] == '/' {
        concat_str(a, b)
    } else {
        let mut v = av;
        v.push('/');
        let mut w = v.clone();
        crate::text::extend_chars(&mut w, &bv);
        assert(w@ =~= a@ + seq!['/'] + b@);
        string_of(&w)
    }
}

/// The user's configuration directory as the `dirs` crate finds it
/// (`dirs::config_dir`), as text. Trusted, with nothing claimed of the
/// result: it depends on the platform and the environment, and `None`
/// means the crate found none. A path that is not valid UTF-8 comes back
/// with its invalid parts replaced.
#[verifier::external_body]
fn config_dir() -> (r: Option<String>) {
    dirs::config_dir().map(|p| p.to_string_lossy().into_owned())
}

/// The directory of the profile store below a configuration directory
/// (`None`: there is none, and the current directory stands in).
pub fn dir_in(config_dir: Option<String>) -> (r: String)
    ensures
        r@ == path_join(
            match config_dir {
                Some(c) => c@,
                None => "."@,
            },
            "g13-nexus"@,
        ),
{
    match config_dir {
        Some(c) => join_path(c.as_str(), "g13-nexus"),
        None => join_path(".", "g13-nexus"),
    }
}

/// The directory of the profile store: `g13-nexus` below the user's
/// configuration directory, or below the current directory where there is
/// none.
pub fn dir() -> (r: String)
    ensures
        exists|base: Seq<char>| r@ == path_join(base, "g13-nexus"@),
{
    let found = config_dir();
    let ghost seen = found;
    let ghost base = match seen {
        Some(c) => c@,
        None => "."@,
    };
    let r = dir_in(found);
    assert(r@ == path_join(base, "g13-nexus"@));
    r
}

/// The directory that holds one `.json` file per profile, in the store
/// directory `dir`.
pub fn profiles_dir(dir: &str) -> (r: String)
    ensures
        r@ == path_join(dir@, "profiles"@),
{
    join_path(dir, "profiles")
}

/// The file that names the active profile.
pub fn active_path(dir: &str) -> (r: String)
    ensures
        r@ == path_join(dir@, "active-profile"@),
{
    join_path(dir, "active-profile")
}

/// The single-profile file of earlier versions.
pub fn legacy_path(dir: &str) -> (r: String)
    ensures
        r@ == path_join(dir@, "profile.json"@),
{
    join_path(dir, "profile.json")
}

/// The file that holds the profile called `name`: its safe file name with
/// `.json`, in the profiles directory.
pub fn profile_path(dir: &str, name: &str) -> (r: String)
    ensures
        r@ == path_join(path_join(dir@, "profiles"@), spec_safe_file_name(name@) + ".json"@),
{
    let d = profiles_dir(dir);
    let f = safe_file_name(name);
    let file = concat_str(f.as_str(), ".json");
    join_path(d.as_str(), file.as_str())
}

/// The active profile's name, from the contents of the active-profile file
/// (`None` where it could not be read): the trimmed contents, or `Default`
/// where they are missing or blank.
pub fn active_name_from(contents: Option<String>) -> (r: String)
    ensures
        r@ == match contents {
            Some(c) => if trim(c@).len() > 0 {
                trim(c@)
            } else {
                "Default"@
            },
            None => "Default"@,
        },
{
    match contents {
        Some(c) => {
            let t = trim_chars(&chars_of(c.as_str()));
            if t.len() > 0 {
                string_of(&t)
            } else {
                String::from_str("Default")
            }
        },
        None => String::from_str("Default"),
    }
}

/// Why a change to the profile store was refused.
#[derive(Debug, Clone, Copy, PartialEq, Eq, Structural)]
pub enum StoreError {
    /// A rename onto the name of another existing profile.
    AlreadyExists,
    /// Deleting the only profile.
    LastProfile,
    /// A profile that was just written could not be read back.
    SavedProfileMissing,
    /// The profile to switch to after a delete could not be read.
    NextProfileMissing,
}

impl StoreError {
    /// The message the store gives for the error.
    pub fn message(&self) -> (r: String)
        ensures
            r@ == match *self {
                StoreError::AlreadyExists => "profile already exists"@,
                StoreError::LastProfile => "cannot delete the last profile"@,
                StoreError::SavedProfileMissing => "saved profile missing"@,
                StoreError::NextProfileMissing => "next profile missing"@,
            },
    {
        match self {
            StoreError::AlreadyExists => String::from_str("profile already exists"),
            StoreError::LastProfile => String::from_str("cannot delete the last profile"),
            StoreError::SavedProfileMissing => String::from_str("saved profile missing"),
            StoreError::NextProfileMissing => String::from_str("next profile missing"),
        }
    }
}

/// What renaming the active profile `current` to `new_name` does: the file
/// name it is saved under, and whether the old file goes. `target_exists`
/// says whether a profile file under the new file name exists already.
pub fn rename_plan(current: &str, new_name: &str, target_exists: bool) -> (r: Result<
    (String, bool),
    StoreError,
>)
    ensures
        ({
            let target = spec_safe_file_name(new_name@);
            match r {
                Ok((name, remove_old)) => !(target != current@ && target_exists) && name@ == target
                    && remove_old == (target != current@),
                Err(e) => target != current@ && target_exists && e == StoreError::AlreadyExists,
            }
        }),
{
    let target = safe_file_name(new_name);
    let same = str_eq(target.as_str(), current);
    if !same && target_exists {
        return Err(StoreError::AlreadyExists);
    }
    Ok((target, !same))
}

/// Which profile becomes active when the active profile `current` is
/// deleted from the list `all`: the first other one; none where `current`
/// is the only profile.
pub fn delete_plan(current: &str, all: &Vec<String>) -> (r: Result<String, StoreError>)
    requires
        all@.len() > 1 ==> exists|i: int| 0 <= i < all@.len() && all@[i]@ != current@,
    ensures
        all@.len() <= 1 ==> r == Err::<String, StoreError>(StoreError::LastProfile),
        all@.len() > 1 ==> match r {
            Ok(n) => exists|i: int|
                0 <= i < all@.len() && n@ == all@[i]@ && all@[i]@ != current@ && forall|j: int|
                    0 <= j < i ==> (#[trigger] all@[j])@ == current@,
            Err(_) => false,
        },
{
    if all.len() <= 1 {
        return Err(StoreError::LastProfile);
    }
    let mut i: usize = 0;
    while i < all.len()
        invariant
            i <= all@.len(),
            all@.len() > 1,
            exists|k: int| 0 <= k < all@.len() && all@[k]@ != current@,
            forall|j: int| 0 <= j < i ==> (#[trigger] all@[j])@ == current@,
        decreases all@.len() - i,
    {
        if !str_eq(all[i].as_str(), current) {
            return Ok(all[i].clone());
        }
        i = i + 1;
    }
    proof {
        let k = choose|k: int| 0 <= k < all@.len() && all@[k]@ != current@;
        assert(all@[k]@ == current@);
    }
    Err(StoreError::LastProfile)
}

} // verus!
