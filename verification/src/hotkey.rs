//! Hotkey handling: parsing modifier and key names from configuration
//! text, and the binding state machine of the actor thread that owns
//! the platform hotkey backend. At most one combination is bound at a
//! time; registering a new one always unregisters the old one first.

use vstd::prelude::*;

verus! {

/// A set of modifier keys.
#[derive(Clone, Copy, Debug, PartialEq, Eq, Structural)]
pub struct ModifierSet {
    pub control: bool,
    pub alt: bool,
    pub shift: bool,
    pub meta: bool,
}

impl ModifierSet {
    /// The empty modifier set.
    pub fn none() -> (r: ModifierSet)
        ensures
            r == (ModifierSet { control: false, alt: false, shift: false, meta: false }),
    {
        ModifierSet { control: false, alt: false, shift: false, meta: false }
    }

    /// The union of two modifier sets, as combining two parsed
    /// modifier names does.
    pub fn union(self, other: ModifierSet) -> (r: ModifierSet)
        ensures
            r.control == (self.control || other.control),
            r.alt == (self.alt || other.alt),
            r.shift == (self.shift || other.shift),
            r.meta == (self.meta || other.meta),
    {
        ModifierSet {
            control: self.control || other.control,
            alt: self.alt || other.alt,
            shift: self.shift || other.shift,
            meta: self.meta || other.meta,
        }
    }
}

/// A key that can take part in a hotkey combination.
#[derive(Clone, Copy, Debug, PartialEq, Eq, Structural)]
pub enum KeyCode {
    F1,
    F2,
    F3,
    F4,
    F5,
    F6,
    F7,
    F8,
    F9,
    F10,
    F11,
    F12,
    KeyA,
    KeyB,
    KeyC,
    KeyD,
    KeyE,
    KeyF,
    KeyG,
    KeyH,
    KeyI,
    KeyJ,
    KeyK,
    KeyL,
    KeyM,
    KeyN,
    KeyO,
    KeyP,
    KeyQ,
    KeyR,
    KeyS,
    KeyT,
    KeyU,
    KeyV,
    KeyW,
    KeyX,
    KeyY,
    KeyZ,
    Space,
}

/// An ASCII capital letter.
pub open spec fn is_upper(c: char) -> bool {
    'A' <= c && c <= 'Z'
}

/// The two characters are equal up to ASCII letter case.
pub open spec fn char_eq_ci(a: char, b: char) -> bool {
    a == b || (is_upper(a) && a as u32 + 32 == b as u32) || (is_upper(b) && b as u32 + 32
        == a as u32)
}

/// The two texts are equal up to ASCII letter case.
pub open spec fn eq_ci(s: Seq<char>, w: Seq<char>) -> bool {
    s.len() == w.len() && forall|i: int| 0 <= i < s.len() ==> char_eq_ci(s[i], w[i])
}

fn char_ci(a: char, b: char) -> (r: bool)
    ensures
        r == char_eq_ci(a, b),
{
    if a == b {
        true
    } else {
        let au = a as u32;
        let bu = b as u32;
        ('A' <= a && a <= 'Z' && au + 32 == bu) || ('A' <= b && b <= 'Z' && bu + 32 == au)
    }
}

/// Compares two texts ignoring ASCII letter case.
fn eq_ignore_case(s: &str, w: &str) -> (r: bool)
    ensures
        r == eq_ci(s@, w@),
{
    let n = s.unicode_len();
    let m = w.unicode_len();
    if n != m {
        return false;
    }
    let mut i: usize = 0;
    while i < n
        invariant
            0 <= i <= n,
            n == s@.len(),
            n == w@.len(),
            forall|k: int| 0 <= k < i ==> char_eq_ci(s@[k], w@[k]),
        decreases n - i,
    {
        let a = s.get_char(i);
        let b = w.get_char(i);
        if !char_ci(a, b) {
            return false;
        }
        i = i + 1;
    }
    true
}

/// Input character `a` uppercases to keyword character `k`: the same
/// character, its ASCII lowercase, or one of the two non-ASCII letters
/// whose uppercase is an ASCII letter — dotless i for `I` and long s
/// for `S`.
pub open spec fn char_matches_key(a: char, k: char) -> bool {
    a == k || (is_upper(k) && a as u32 == k as u32 + 32) || (a == '\u{0131}' && k == 'I') || (a
        == '\u{017f}' && k == 'S')
}

/// The input uppercases, character for character, to the keyword.
pub open spec fn matches_key_word(s: Seq<char>, w: Seq<char>) -> bool {
    s.len() == w.len() && forall|i: int| 0 <= i < s.len() ==> char_matches_key(s[i], w[i])
}

fn char_key(a: char, k: char) -> (r: bool)
    ensures
        r == char_matches_key(a, k),
{
    if a == k {
        true
    } else {
        let au = a as u32;
        let ku = k as u32;
        ('A' <= k && k <= 'Z' && au == ku + 32) || (a == '\u{0131}' && k == 'I') || (a
            == '\u{017f}' && k == 'S')
    }
}

/// Whether the input uppercases to the given keyword.
fn matches_keyword(s: &str, w: &str) -> (r: bool)
    ensures
        r == matches_key_word(s@, w@),
{
    let n = s.unicode_len();
    let m = w.unicode_len();
    if n != m {
        return false;
    }
    let mut i: usize = 0;
    while i < n
        invariant
            0 <= i <= n,
            n == s@.len(),
            n == w@.len(),
            forall|k: int| 0 <= k < i ==> char_matches_key(s@[k], w@[k]),
        decreases n - i,
    {
        let a = s.get_char(i);
        let b = w.get_char(i);
        if !char_key(a, b) {
            return false;
        }
        i = i + 1;
    }
    true
}

/// The modifier set a configuration word names, matched ignoring ASCII
/// letter case.
pub open spec fn spec_parse_modifier(s: Seq<char>) -> Option<ModifierSet> {
    if eq_ci(s, "ctrl"@) || eq_ci(s, "control"@) {
        Some(ModifierSet { control: true, alt: false, shift: false, meta: false })
    } else if eq_ci(s, "alt"@) {
        Some(ModifierSet { control: false, alt: true, shift: false, meta: false })
    } else if eq_ci(s, "shift"@) {
        Some(ModifierSet { control: false, alt: false, shift: true, meta: false })
    } else if eq_ci(s, "super"@) || eq_ci(s, "win"@) || eq_ci(s, "cmd"@) || eq_ci(s, "meta"@) {
        Some(ModifierSet { control: false, alt: false, shift: false, meta: true })
    } else {
        None
    }
}

/// Parses a modifier name: `ctrl`/`control`, `alt`, `shift`, or
/// `super`/`win`/`cmd`/`meta`, in any letter case.
pub fn parse_modifier(modifier: &str) -> (r: Option<ModifierSet>)
    ensures
        r == spec_parse_modifier(modifier@),
{
    if eq_ignore_case(modifier, "ctrl") || eq_ignore_case(modifier, "control") {
        Some(ModifierSet { control: true, alt: false, shift: false, meta: false })
    } else if eq_ignore_case(modifier, "alt") {
        Some(ModifierSet { control: false, alt: true, shift: false, meta: false })
    } else if eq_ignore_case(modifier, "shift") {
        Some(ModifierSet { control: false, alt: false, shift: true, meta: false })
    } else if eq_ignore_case(modifier, "super") || eq_ignore_case(modifier, "win")
        || eq_ignore_case(modifier, "cmd") || eq_ignore_case(modifier, "meta") {
        Some(ModifierSet { control: false, alt: false, shift: false, meta: true })
    } else {
        None
    }
}

/// The key a configuration word names: the word uppercases to one of
/// the key names.
pub open spec fn spec_parse_key(s: Seq<char>) -> Option<KeyCode> {
    if matches_key_word(s, "F1"@) {
        Some(KeyCode::F1)
    } else if matches_key_word(s, "F2"@) {
        Some(KeyCode::F2)
    } else if matches_key_word(s, "F3"@) {
        Some(KeyCode::F3)
    } else if matches_key_word(s, "F4"@) {
        Some(KeyCode::F4)
    } else if matches_key_word(s, "F5"@) {
        Some(KeyCode::F5)
    } else if matches_key_word(s, "F6"@) {
        Some(KeyCode::F6)
    } else if matches_key_word(s, "F7"@) {
        Some(KeyCode::F7)
    } else if matches_key_word(s, "F8"@) {
        Some(KeyCode::F8)
    } else if matches_key_word(s, "F9"@) {
        Some(KeyCode::F9)
    } else if matches_key_word(s, "F10"@) {
        Some(KeyCode::F10)
    } else if matches_key_word(s, "F11"@) {
        Some(KeyCode::F11)
    } else if matches_key_word(s, "F12"@) {
        Some(KeyCode::F12)
    } else if matches_key_word(s, "A"@) {
        Some(KeyCode::KeyA)
    } else if matches_key_word(s, "B"@) {
        Some(KeyCode::KeyB)
    } else if matches_key_word(s, "C"@) {
        Some(KeyCode::KeyC)
    } else if matches_key_word(s, "D"@) {
        Some(KeyCode::KeyD)
    } else if matches_key_word(s, "E"@) {
        Some(KeyCode::KeyE)
    } else if matches_key_word(s, "F"@) {
        Some(KeyCode::KeyF)
    } else if matches_key_word(s, "G"@) {
        Some(KeyCode::KeyG)
    } else if matches_key_word(s, "H"@) {
        Some(KeyCode::KeyH)
    } else if matches_key_word(s, "I"@) {
        Some(KeyCode::KeyI)
    } else if matches_key_word(s, "J"@) {
        Some(KeyCode::KeyJ)
    } else if matches_key_word(s, "K"@) {
        Some(KeyCode::KeyK)
    } else if matches_key_word(s, "L"@) {
        Some(KeyCode::KeyL)
    } else if matches_key_word(s, "M"@) {
        Some(KeyCode::KeyM)
    } else if matches_key_word(s, "N"@) {
        Some(KeyCode::KeyN)
    } else if matches_key_word(s, "O"@) {
        Some(KeyCode::KeyO)
    } else if matches_key_word(s, "P"@) {
        Some(KeyCode::KeyP)
    } else if matches_key_word(s, "Q"@) {
        Some(KeyCode::KeyQ)
    } else if matches_key_word(s, "R"@) {
        Some(KeyCode::KeyR)
    } else if matches_key_word(s, "S"@) {
        Some(KeyCode::KeyS)
    } else if matches_key_word(s, "T"@) {
        Some(KeyCode::KeyT)
    } else if matches_key_word(s, "U"@) {
        Some(KeyCode::KeyU)
    } else if matches_key_word(s, "V"@) {
        Some(KeyCode::KeyV)
    } else if matches_key_word(s, "W"@) {
        Some(KeyCode::KeyW)
    } else if matches_key_word(s, "X"@) {
        Some(KeyCode::KeyX)
    } else if matches_key_word(s, "Y"@) {
        Some(KeyCode::KeyY)
    } else if matches_key_word(s, "Z"@) {
        Some(KeyCode::KeyZ)
    } else if matches_key_word(s, "SPACE"@) {
        Some(KeyCode::Space)
    } else {
        None
    }
}

/// Parses a key name: `F1` to `F12`, a single letter, or `SPACE`,
/// matched as uppercasing the input would.
pub fn parse_key(key_str: &str) -> (r: Option<KeyCode>)
    ensures
        r == spec_parse_key(key_str@),
{
    if matches_keyword(key_str, "F1") {
        Some(KeyCode::F1)
    } else if matches_keyword(key_str, "F2") {
        Some(KeyCode::F2)
    } else if matches_keyword(key_str, "F3") {
        Some(KeyCode::F3)
    } else if matches_keyword(key_str, "F4") {
        Some(KeyCode::F4)
    } else if matches_keyword(key_str, "F5") {
        Some(KeyCode::F5)
    } else if matches_keyword(key_str, "F6") {
        Some(KeyCode::F6)
    } else if matches_keyword(key_str, "F7") {
        Some(KeyCode::F7)
    } else if matches_keyword(key_str, "F8") {
        Some(KeyCode::F8)
    } else if matches_keyword(key_str, "F9") {
        Some(KeyCode::F9)
    } else if matches_keyword(key_str, "F10") {
        Some(KeyCode::F10)
    } else if matches_keyword(key_str, "F11") {
        Some(KeyCode::F11)
    } else if matches_keyword(key_str, "F12") {
        Some(KeyCode::F12)
    } else if matches_keyword(key_str, "A") {
        Some(KeyCode::KeyA)
    } else if matches_keyword(key_str, "B") {
        Some(KeyCode::KeyB)
    } else if matches_keyword(key_str, "C") {
        Some(KeyCode::KeyC)
    } else if matches_keyword(key_str, "D") {
        Some(KeyCode::KeyD)
    } else if matches_keyword(key_str, "E") {
        Some(KeyCode::KeyE)
    } else if matches_keyword(key_str, "F") {
        Some(KeyCode::KeyF)
    } else if matches_keyword(key_str, "G") {
        Some(KeyCode::KeyG)
    } else if matches_keyword(key_str, "H") {
        Some(KeyCode::KeyH)
    } else if matches_keyword(key_str, "I") {
        Some(KeyCode::KeyI)
    } else if matches_keyword(key_str, "J") {
        Some(KeyCode::KeyJ)
    } else if matches_keyword(key_str, "K") {
        Some(KeyCode::KeyK)
    } else if matches_keyword(key_str, "L") {
        Some(KeyCode::KeyL)
    } else if matches_keyword(key_str, "M") {
        Some(KeyCode::KeyM)
    } else if matches_keyword(key_str, "N") {
        Some(KeyCode::KeyN)
    } else if matches_keyword(key_str, "O") {
        Some(KeyCode::KeyO)
    } else if matches_keyword(key_str, "P") {
        Some(KeyCode::KeyP)
    } else if matches_keyword(key_str, "Q") {
        Some(KeyCode::KeyQ)
    } else if matches_keyword(key_str, "R") {
        Some(KeyCode::KeyR)
    } else if matches_keyword(key_str, "S") {
        Some(KeyCode::KeyS)
    } else if matches_keyword(key_str, "T") {
        Some(KeyCode::KeyT)
    } else if matches_keyword(key_str, "U") {
        Some(KeyCode::KeyU)
    } else if matches_keyword(key_str, "V") {
        Some(KeyCode::KeyV)
    } else if matches_keyword(key_str, "W") {
        Some(KeyCode::KeyW)
    } else if matches_keyword(key_str, "X") {
        Some(KeyCode::KeyX)
    } else if matches_keyword(key_str, "Y") {
        Some(KeyCode::KeyY)
    } else if matches_keyword(key_str, "Z") {
        Some(KeyCode::KeyZ)
    } else if matches_keyword(key_str, "SPACE") {
        Some(KeyCode::Space)
    } else {
        None
    }
}

/// One registered combination.
#[derive(Clone, Copy, Debug, PartialEq, Eq, Structural)]
pub struct HotkeyBinding {
    pub modifiers: ModifierSet,
    pub key: KeyCode,
}

/// A request handed to the hotkey actor.
#[derive(Clone, Copy, Debug, PartialEq, Eq, Structural)]
pub enum HotkeyCommand {
    Register(HotkeyBinding),
    Unregister,
}

/// One call the actor makes into the platform backend.
#[derive(Clone, Copy, Debug, PartialEq, Eq, Structural)]
pub enum HotkeyAction {
    Unregister(HotkeyBinding),
    Register(HotkeyBinding),
}

/// The backend calls a command asks for, in order: a registration
/// first takes down whatever is bound, then registers the new
/// combination; an unregistration takes down whatever is bound.
pub open spec fn hotkey_actions(current: Option<HotkeyBinding>, cmd: HotkeyCommand) -> Seq<
    HotkeyAction,
> {
    match cmd {
        HotkeyCommand::Register(b) => match current {
            Some(old_b) => seq![HotkeyAction::Unregister(old_b), HotkeyAction::Register(b)],
            None => seq![HotkeyAction::Register(b)],
        },
        HotkeyCommand::Unregister => match current {
            Some(old_b) => seq![HotkeyAction::Unregister(old_b)],
            None => Seq::empty(),
        },
    }
}

/// The binding after a command, given whether the backend accepted a
/// registration: a failed registration leaves nothing bound, since the
/// old combination was already taken down.
pub open spec fn hotkey_next(
    current: Option<HotkeyBinding>,
    cmd: HotkeyCommand,
    register_ok: bool,
) -> Option<HotkeyBinding> {
    match cmd {
        HotkeyCommand::Register(b) => if register_ok {
            Some(b)
        } else {
            None
        },
        HotkeyCommand::Unregister => None,
    }
}

/// Registering over an existing binding always takes exactly two
/// backend calls, the unregistration of the old combination strictly
/// before the registration of the new one; and whatever the backend
/// answers, at most the new combination remains bound.
pub proof fn lemma_register_unbinds_first(
    old_b: HotkeyBinding,
    new_b: HotkeyBinding,
    register_ok: bool,
)
    ensures
        hotkey_actions(Some(old_b), HotkeyCommand::Register(new_b)) == seq![
            HotkeyAction::Unregister(old_b),
            HotkeyAction::Register(new_b),
        ],
        hotkey_next(Some(old_b), HotkeyCommand::Register(new_b), register_ok) != Some(old_b)
            || old_b == new_b,
{
}

/// The binding state the hotkey actor thread owns. The `Option` holds
/// at most one combination, so a query never reports two bound at
/// once.
pub struct HotkeyManager {
    current: Option<HotkeyBinding>,
}

impl HotkeyManager {
    pub closed spec fn spec_binding(&self) -> Option<HotkeyBinding> {
        self.current
    }

    /// A fresh actor state: nothing bound.
    pub fn new() -> (r: HotkeyManager)
        ensures
            r.spec_binding() is None,
    {
        HotkeyManager { current: None }
    }

    /// The currently bound combination, if any.
    pub fn binding(&self) -> (r: Option<HotkeyBinding>)
        ensures
            r == self.spec_binding(),
    {
        self.current
    }

    /// The backend calls to perform for a command, in order.
    pub fn plan(&self, cmd: &HotkeyCommand) -> (actions: Vec<HotkeyAction>)
        ensures
            actions@ == hotkey_actions(self.spec_binding(), *cmd),
    {
        let mut actions: Vec<HotkeyAction> = Vec::new();
        match self.current {
            Some(old_b) => {
                actions.push(HotkeyAction::Unregister(old_b));
            },
            None => {},
        }
        match cmd {
            HotkeyCommand::Register(b) => {
                actions.push(HotkeyAction::Register(*b));
            },
            HotkeyCommand::Unregister => {},
        }
        proof {
            assert(actions@ =~= hotkey_actions(self.spec_binding(), *cmd));
        }
        actions
    }

    /// Records the outcome after the command's actions were performed:
    /// `register_ok` is the backend's answer to the registration, and
    /// is ignored for an unregistration.
    pub fn commit(&mut self, cmd: &HotkeyCommand, register_ok: bool)
        ensures
            final(self).spec_binding() == hotkey_next(
                old(self).spec_binding(),
                *cmd,
                register_ok,
            ),
    {
        match cmd {
            HotkeyCommand::Register(b) => {
                if register_ok {
                    self.current = Some(*b);
                } else {
                    self.current = None;
                }
            },
            HotkeyCommand::Unregister => {
                self.current = None;
            },
        }
    }
}

} // verus!
