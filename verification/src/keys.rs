//! The closed set of physical keys the engine knows about.
//!
//! A raw device event carries a numeric key code; `Key::from_code` translates
//! it to a `Key`, failing (returning `None`) on codes outside the table. Each
//! key also has a canonical textual name used by the shortcut grammar.

use vstd::prelude::*;

use crate::strutil::range_eq;

verus! {

/// A physical keyboard key, identified by its raw device key code.
#[derive(Clone, Copy, Debug, Hash, PartialEq, Eq, Structural)]
pub enum Key {
    KeyEsc,
    Key1,
    Key2,
    Key3,
    Key4,
    Key5,
    Key6,
    Key7,
    Key8,
    Key9,
    Key0,
    KeyBackspace,
    KeyTab,
    KeyQ,
    KeyW,
    KeyE,
    KeyR,
    KeyT,
    KeyY,
    KeyU,
    KeyI,
    KeyO,
    KeyP,
    KeyEnter,
    KeyLeftCtrl,
    KeyA,
    KeyS,
    KeyD,
    KeyF,
    KeyG,
    KeyH,
    KeyJ,
    KeyK,
    KeyL,
    KeyLeftShift,
    KeyZ,
    KeyX,
    KeyC,
    KeyV,
    KeyB,
    KeyN,
    KeyM,
    KeyRightShift,
    KeyLeftAlt,
    KeySpace,
    KeyRightCtrl,
    KeyRightAlt,
    KeyUp,
    KeyLeft,
    KeyRight,
    KeyDown,
    KeyLeftMeta,
    KeyRightMeta,
}

/// Canonical textual name of a key, as used in the shortcut grammar.
pub open spec fn key_name(k: Key) -> Seq<char> {
    match k {
        Key::KeyEsc => "KeyEsc"@,
        Key::Key1 => "Key1"@,
        Key::Key2 => "Key2"@,
        Key::Key3 => "Key3"@,
        Key::Key4 => "Key4"@,
        Key::Key5 => "Key5"@,
        Key::Key6 => "Key6"@,
        Key::Key7 => "Key7"@,
        Key::Key8 => "Key8"@,
        Key::Key9 => "Key9"@,
        Key::Key0 => "Key0"@,
        Key::KeyBackspace => "KeyBackspace"@,
        Key::KeyTab => "KeyTab"@,
        Key::KeyQ => "KeyQ"@,
        Key::KeyW => "KeyW"@,
        Key::KeyE => "KeyE"@,
        Key::KeyR => "KeyR"@,
        Key::KeyT => "KeyT"@,
        Key::KeyY => "KeyY"@,
        Key::KeyU => "KeyU"@,
        Key::KeyI => "KeyI"@,
        Key::KeyO => "KeyO"@,
        Key::KeyP => "KeyP"@,
        Key::KeyEnter => "KeyEnter"@,
        Key::KeyLeftCtrl => "KeyLeftCtrl"@,
        Key::KeyA => "KeyA"@,
        Key::KeyS => "KeyS"@,
        Key::KeyD => "KeyD"@,
        Key::KeyF => "KeyF"@,
        Key::KeyG => "KeyG"@,
        Key::KeyH => "KeyH"@,
        Key::KeyJ => "KeyJ"@,
        Key::KeyK => "KeyK"@,
        Key::KeyL => "KeyL"@,
        Key::KeyLeftShift => "KeyLeftShift"@,
        Key::KeyZ => "KeyZ"@,
        Key::KeyX => "KeyX"@,
        Key::KeyC => "KeyC"@,
        Key::KeyV => "KeyV"@,
        Key::KeyB => "KeyB"@,
        Key::KeyN => "KeyN"@,
        Key::KeyM => "KeyM"@,
        Key::KeyRightShift => "KeyRightShift"@,
        Key::KeyLeftAlt => "KeyLeftAlt"@,
        Key::KeySpace => "KeySpace"@,
        Key::KeyRightCtrl => "KeyRightCtrl"@,
        Key::KeyRightAlt => "KeyRightAlt"@,
        Key::KeyUp => "KeyUp"@,
        Key::KeyLeft => "KeyLeft"@,
        Key::KeyRight => "KeyRight"@,
        Key::KeyDown => "KeyDown"@,
        Key::KeyLeftMeta => "KeyLeftMeta"@,
        Key::KeyRightMeta => "KeyRightMeta"@,
    }
}

/// Raw device key code of a key.
pub open spec fn key_code(k: Key) -> u16 {
    match k {
        Key::KeyEsc => 1,
        Key::Key1 => 2,
        Key::Key2 => 3,
        Key::Key3 => 4,
        Key::Key4 => 5,
        Key::Key5 => 6,
        Key::Key6 => 7,
        Key::Key7 => 8,
        Key::Key8 => 9,
        Key::Key9 => 10,
        Key::Key0 => 11,
        Key::KeyBackspace => 14,
        Key::KeyTab => 15,
        Key::KeyQ => 16,
        Key::KeyW => 17,
        Key::KeyE => 18,
        Key::KeyR => 19,
        Key::KeyT => 20,
        Key::KeyY => 21,
        Key::KeyU => 22,
        Key::KeyI => 23,
        Key::KeyO => 24,
        Key::KeyP => 25,
        Key::KeyEnter => 28,
        Key::KeyLeftCtrl => 29,
        Key::KeyA => 30,
        Key::KeyS => 31,
        Key::KeyD => 32,
        Key::KeyF => 33,
        Key::KeyG => 34,
        Key::KeyH => 35,
        Key::KeyJ => 36,
        Key::KeyK => 37,
        Key::KeyL => 38,
        Key::KeyLeftShift => 42,
        Key::KeyZ => 44,
        Key::KeyX => 45,
        Key::KeyC => 46,
        Key::KeyV => 47,
        Key::KeyB => 48,
        Key::KeyN => 49,
        Key::KeyM => 50,
        Key::KeyRightShift => 54,
        Key::KeyLeftAlt => 56,
        Key::KeySpace => 57,
        Key::KeyRightCtrl => 97,
        Key::KeyRightAlt => 100,
        Key::KeyUp => 103,
        Key::KeyLeft => 105,
        Key::KeyRight => 106,
        Key::KeyDown => 108,
        Key::KeyLeftMeta => 125,
        Key::KeyRightMeta => 126,
    }
}

/// Decode a raw device key code; codes outside the table decode to `None`.
pub open spec fn key_of_code(code: u16) -> Option<Key> {
    if code == 1 { Some(Key::KeyEsc) }
    else if code == 2 { Some(Key::Key1) }
    else if code == 3 { Some(Key::Key2) }
    else if code == 4 { Some(Key::Key3) }
    else if code == 5 { Some(Key::Key4) }
    else if code == 6 { Some(Key::Key5) }
    else if code == 7 { Some(Key::Key6) }
    else if code == 8 { Some(Key::Key7) }
    else if code == 9 { Some(Key::Key8) }
    else if code == 10 { Some(Key::Key9) }
    else if code == 11 { Some(Key::Key0) }
    else if code == 14 { Some(Key::KeyBackspace) }
    else if code == 15 { Some(Key::KeyTab) }
    else if code == 16 { Some(Key::KeyQ) }
    else if code == 17 { Some(Key::KeyW) }
    else if code == 18 { Some(Key::KeyE) }
    else if code == 19 { Some(Key::KeyR) }
    else if code == 20 { Some(Key::KeyT) }
    else if code == 21 { Some(Key::KeyY) }
    else if code == 22 { Some(Key::KeyU) }
    else if code == 23 { Some(Key::KeyI) }
    else if code == 24 { Some(Key::KeyO) }
    else if code == 25 { Some(Key::KeyP) }
    else if code == 28 { Some(Key::KeyEnter) }
    else if code == 29 { Some(Key::KeyLeftCtrl) }
    else if code == 30 { Some(Key::KeyA) }
    else if code == 31 { Some(Key::KeyS) }
    else if code == 32 { Some(Key::KeyD) }
    else if code == 33 { Some(Key::KeyF) }
    else if code == 34 { Some(Key::KeyG) }
    else if code == 35 { Some(Key::KeyH) }
    else if code == 36 { Some(Key::KeyJ) }
    else if code == 37 { Some(Key::KeyK) }
    else if code == 38 { Some(Key::KeyL) }
    else if code == 42 { Some(Key::KeyLeftShift) }
    else if code == 44 { Some(Key::KeyZ) }
    else if code == 45 { Some(Key::KeyX) }
    else if code == 46 { Some(Key::KeyC) }
    else if code == 47 { Some(Key::KeyV) }
    else if code == 48 { Some(Key::KeyB) }
    else if code == 49 { Some(Key::KeyN) }
    else if code == 50 { Some(Key::KeyM) }
    else if code == 54 { Some(Key::KeyRightShift) }
    else if code == 56 { Some(Key::KeyLeftAlt) }
    else if code == 57 { Some(Key::KeySpace) }
    else if code == 97 { Some(Key::KeyRightCtrl) }
    else if code == 100 { Some(Key::KeyRightAlt) }
    else if code == 103 { Some(Key::KeyUp) }
    else if code == 105 { Some(Key::KeyLeft) }
    else if code == 106 { Some(Key::KeyRight) }
    else if code == 108 { Some(Key::KeyDown) }
    else if code == 125 { Some(Key::KeyLeftMeta) }
    else if code == 126 { Some(Key::KeyRightMeta) }
    else { None }
}

/// Look a key up by its canonical name; unknown names give `None`.
pub open spec fn key_of_name(s: Seq<char>) -> Option<Key> {
    if s == "KeyEsc"@ { Some(Key::KeyEsc) }
    else if s == "Key1"@ { Some(Key::Key1) }
    else if s == "Key2"@ { Some(Key::Key2) }
    else if s == "Key3"@ { Some(Key::Key3) }
    else if s == "Key4"@ { Some(Key::Key4) }
    else if s == "Key5"@ { Some(Key::Key5) }
    else if s == "Key6"@ { Some(Key::Key6) }
    else if s == "Key7"@ { Some(Key::Key7) }
    else if s == "Key8"@ { Some(Key::Key8) }
    else if s == "Key9"@ { Some(Key::Key9) }
    else if s == "Key0"@ { Some(Key::Key0) }
    else if s == "KeyBackspace"@ { Some(Key::KeyBackspace) }
    else if s == "KeyTab"@ { Some(Key::KeyTab) }
    else if s == "KeyQ"@ { Some(Key::KeyQ) }
    else if s == "KeyW"@ { Some(Key::KeyW) }
    else if s == "KeyE"@ { Some(Key::KeyE) }
    else if s == "KeyR"@ { Some(Key::KeyR) }
    else if s == "KeyT"@ { Some(Key::KeyT) }
    else if s == "KeyY"@ { Some(Key::KeyY) }
    else if s == "KeyU"@ { Some(Key::KeyU) }
    else if s == "KeyI"@ { Some(Key::KeyI) }
    else if s == "KeyO"@ { Some(Key::KeyO) }
    else if s == "KeyP"@ { Some(Key::KeyP) }
    else if s == "KeyEnter"@ { Some(Key::KeyEnter) }
    else if s == "KeyLeftCtrl"@ { Some(Key::KeyLeftCtrl) }
    else if s == "KeyA"@ { Some(Key::KeyA) }
    else if s == "KeyS"@ { Some(Key::KeyS) }
    else if s == "KeyD"@ { Some(Key::KeyD) }
    else if s == "KeyF"@ { Some(Key::KeyF) }
    else if s == "KeyG"@ { Some(Key::KeyG) }
    else if s == "KeyH"@ { Some(Key::KeyH) }
    else if s == "KeyJ"@ { Some(Key::KeyJ) }
    else if s == "KeyK"@ { Some(Key::KeyK) }
    else if s == "KeyL"@ { Some(Key::KeyL) }
    else if s == "KeyLeftShift"@ { Some(Key::KeyLeftShift) }
    else if s == "KeyZ"@ { Some(Key::KeyZ) }
    else if s == "KeyX"@ { Some(Key::KeyX) }
    else if s == "KeyC"@ { Some(Key::KeyC) }
    else if s == "KeyV"@ { Some(Key::KeyV) }
    else if s == "KeyB"@ { Some(Key::KeyB) }
    else if s == "KeyN"@ { Some(Key::KeyN) }
    else if s == "KeyM"@ { Some(Key::KeyM) }
    else if s == "KeyRightShift"@ { Some(Key::KeyRightShift) }
    else if s == "KeyLeftAlt"@ { Some(Key::KeyLeftAlt) }
    else if s == "KeySpace"@ { Some(Key::KeySpace) }
    else if s == "KeyRightCtrl"@ { Some(Key::KeyRightCtrl) }
    else if s == "KeyRightAlt"@ { Some(Key::KeyRightAlt) }
    else if s == "KeyUp"@ { Some(Key::KeyUp) }
    else if s == "KeyLeft"@ { Some(Key::KeyLeft) }
    else if s == "KeyRight"@ { Some(Key::KeyRight) }
    else if s == "KeyDown"@ { Some(Key::KeyDown) }
    else if s == "KeyLeftMeta"@ { Some(Key::KeyLeftMeta) }
    else if s == "KeyRightMeta"@ { Some(Key::KeyRightMeta) }
    else { None }
}

/// Key names are nonempty, never contain the grammar's separator character
/// `-`, and looking a key's own name up finds that key back.
#[verifier::rlimit(100)]
pub proof fn lemma_key_name_ok(k: Key)
    ensures
        key_name(k).len() > 0,
        forall|i: int| 0 <= i < key_name(k).len() ==> key_name(k)[i] != '-',
        key_of_name(key_name(k)) == Some(k),
{
    reveal_strlit("KeyEsc");
    reveal_strlit("Key1");
    reveal_strlit("Key2");
    reveal_strlit("Key3");
    reveal_strlit("Key4");
    reveal_strlit("Key5");
    reveal_strlit("Key6");
    reveal_strlit("Key7");
    reveal_strlit("Key8");
    reveal_strlit("Key9");
    reveal_strlit("Key0");
    reveal_strlit("KeyBackspace");
    reveal_strlit("KeyTab");
    reveal_strlit("KeyQ");
    reveal_strlit("KeyW");
    reveal_strlit("KeyE");
    reveal_strlit("KeyR");
    reveal_strlit("KeyT");
    reveal_strlit("KeyY");
    reveal_strlit("KeyU");
    reveal_strlit("KeyI");
    reveal_strlit("KeyO");
    reveal_strlit("KeyP");
    reveal_strlit("KeyEnter");
    reveal_strlit("KeyLeftCtrl");
    reveal_strlit("KeyA");
    reveal_strlit("KeyS");
    reveal_strlit("KeyD");
    reveal_strlit("KeyF");
    reveal_strlit("KeyG");
    reveal_strlit("KeyH");
    reveal_strlit("KeyJ");
    reveal_strlit("KeyK");
    reveal_strlit("KeyL");
    reveal_strlit("KeyLeftShift");
    reveal_strlit("KeyZ");
    reveal_strlit("KeyX");
    reveal_strlit("KeyC");
    reveal_strlit("KeyV");
    reveal_strlit("KeyB");
    reveal_strlit("KeyN");
    reveal_strlit("KeyM");
    reveal_strlit("KeyRightShift");
    reveal_strlit("KeyLeftAlt");
    reveal_strlit("KeySpace");
    reveal_strlit("KeyRightCtrl");
    reveal_strlit("KeyRightAlt");
    reveal_strlit("KeyUp");
    reveal_strlit("KeyLeft");
    reveal_strlit("KeyRight");
    reveal_strlit("KeyDown");
    reveal_strlit("KeyLeftMeta");
    reveal_strlit("KeyRightMeta");
    assert("KeyEsc"@.len() == 6 && "Key1"@.len() == 4 && "Key2"@.len() == 4 && "Key3"@.len() == 4
        && "Key4"@.len() == 4 && "Key5"@.len() == 4 && "Key6"@.len() == 4 && "Key7"@.len() == 4
        && "Key8"@.len() == 4 && "Key9"@.len() == 4 && "Key0"@.len() == 4 && "KeyBackspace"@.len()
        == 12 && "KeyTab"@.len() == 6 && "KeyQ"@.len() == 4 && "KeyW"@.len() == 4 && "KeyE"@.len()
        == 4 && "KeyR"@.len() == 4 && "KeyT"@.len() == 4 && "KeyY"@.len() == 4 && "KeyU"@.len()
        == 4 && "KeyI"@.len() == 4 && "KeyO"@.len() == 4 && "KeyP"@.len() == 4 && "KeyEnter"@.len()
        == 8 && "KeyLeftCtrl"@.len() == 11 && "KeyA"@.len() == 4 && "KeyS"@.len() == 4
        && "KeyD"@.len() == 4 && "KeyF"@.len() == 4 && "KeyG"@.len() == 4 && "KeyH"@.len() == 4
        && "KeyJ"@.len() == 4 && "KeyK"@.len() == 4 && "KeyL"@.len() == 4 && "KeyLeftShift"@.len()
        == 12 && "KeyZ"@.len() == 4 && "KeyX"@.len() == 4 && "KeyC"@.len() == 4 && "KeyV"@.len()
        == 4 && "KeyB"@.len() == 4 && "KeyN"@.len() == 4 && "KeyM"@.len() == 4
        && "KeyRightShift"@.len() == 13 && "KeyLeftAlt"@.len() == 10 && "KeySpace"@.len() == 8
        && "KeyRightCtrl"@.len() == 12 && "KeyRightAlt"@.len() == 11 && "KeyUp"@.len() == 5
        && "KeyLeft"@.len() == 7 && "KeyRight"@.len() == 8 && "KeyDown"@.len() == 7
        && "KeyLeftMeta"@.len() == 11 && "KeyRightMeta"@.len() == 12);
    assert("Key1"@[3] == '1' && "Key2"@[3] == '2' && "Key3"@[3] == '3' && "Key4"@[3] == '4'
        && "Key5"@[3] == '5' && "Key6"@[3] == '6' && "Key7"@[3] == '7' && "Key8"@[3] == '8'
        && "Key9"@[3] == '9' && "Key0"@[3] == '0');
    assert("KeyQ"@[3] == 'Q' && "KeyW"@[3] == 'W' && "KeyE"@[3] == 'E' && "KeyR"@[3] == 'R'
        && "KeyT"@[3] == 'T' && "KeyY"@[3] == 'Y' && "KeyU"@[3] == 'U' && "KeyI"@[3] == 'I'
        && "KeyO"@[3] == 'O' && "KeyP"@[3] == 'P' && "KeyA"@[3] == 'A' && "KeyS"@[3] == 'S'
        && "KeyD"@[3] == 'D' && "KeyF"@[3] == 'F' && "KeyG"@[3] == 'G' && "KeyH"@[3] == 'H'
        && "KeyJ"@[3] == 'J' && "KeyK"@[3] == 'K' && "KeyL"@[3] == 'L' && "KeyZ"@[3] == 'Z'
        && "KeyX"@[3] == 'X' && "KeyC"@[3] == 'C' && "KeyV"@[3] == 'V' && "KeyB"@[3] == 'B'
        && "KeyN"@[3] == 'N' && "KeyM"@[3] == 'M');
    assert("KeyEsc"@[3] == 'E' && "KeyTab"@[3] == 'T');
    assert("KeyLeft"@[3] == 'L' && "KeyDown"@[3] == 'D');
    assert("KeyEnter"@[3] == 'E' && "KeySpace"@[3] == 'S' && "KeyRight"@[3] == 'R');
    assert("KeyLeftCtrl"@[3] == 'L' && "KeyRightAlt"@[3] == 'R' && "KeyLeftMeta"@[3] == 'L');
    assert("KeyLeftCtrl"@[7] == 'C' && "KeyLeftMeta"@[7] == 'M');
    assert("KeyBackspace"@[3] == 'B' && "KeyLeftShift"@[3] == 'L' && "KeyRightCtrl"@[3] == 'R'
        && "KeyRightMeta"@[3] == 'R');
    assert("KeyRightCtrl"@[8] == 'C' && "KeyRightMeta"@[8] == 'M');
}

impl Key {
    /// Translate a raw device key code to a key, if the code is known.
    pub fn from_code(code: u16) -> (r: Option<Key>)
        ensures
            r == key_of_code(code),
    {
        match code {
            1 => Some(Key::KeyEsc),
            2 => Some(Key::Key1),
            3 => Some(Key::Key2),
            4 => Some(Key::Key3),
            5 => Some(Key::Key4),
            6 => Some(Key::Key5),
            7 => Some(Key::Key6),
            8 => Some(Key::Key7),
            9 => Some(Key::Key8),
            10 => Some(Key::Key9),
            11 => Some(Key::Key0),
            14 => Some(Key::KeyBackspace),
            15 => Some(Key::KeyTab),
            16 => Some(Key::KeyQ),
            17 => Some(Key::KeyW),
            18 => Some(Key::KeyE),
            19 => Some(Key::KeyR),
            20 => Some(Key::KeyT),
            21 => Some(Key::KeyY),
            22 => Some(Key::KeyU),
            23 => Some(Key::KeyI),
            24 => Some(Key::KeyO),
            25 => Some(Key::KeyP),
            28 => Some(Key::KeyEnter),
            29 => Some(Key::KeyLeftCtrl),
            30 => Some(Key::KeyA),
            31 => Some(Key::KeyS),
            32 => Some(Key::KeyD),
            33 => Some(Key::KeyF),
            34 => Some(Key::KeyG),
            35 => Some(Key::KeyH),
            36 => Some(Key::KeyJ),
            37 => Some(Key::KeyK),
            38 => Some(Key::KeyL),
            42 => Some(Key::KeyLeftShift),
            44 => Some(Key::KeyZ),
            45 => Some(Key::KeyX),
            46 => Some(Key::KeyC),
            47 => Some(Key::KeyV),
            48 => Some(Key::KeyB),
            49 => Some(Key::KeyN),
            50 => Some(Key::KeyM),
            54 => Some(Key::KeyRightShift),
            56 => Some(Key::KeyLeftAlt),
            57 => Some(Key::KeySpace),
            97 => Some(Key::KeyRightCtrl),
            100 => Some(Key::KeyRightAlt),
            103 => Some(Key::KeyUp),
            105 => Some(Key::KeyLeft),
            106 => Some(Key::KeyRight),
            108 => Some(Key::KeyDown),
            125 => Some(Key::KeyLeftMeta),
            126 => Some(Key::KeyRightMeta),
            _ => None,
        }
    }

    /// Raw device key code of this key.
    pub fn code(&self) -> (r: u16)
        ensures
            r == key_code(*self),
    {
        match self {
            Key::KeyEsc => 1,
            Key::Key1 => 2,
            Key::Key2 => 3,
            Key::Key3 => 4,
            Key::Key4 => 5,
            Key::Key5 => 6,
            Key::Key6 => 7,
            Key::Key7 => 8,
            Key::Key8 => 9,
            Key::Key9 => 10,
            Key::Key0 => 11,
            Key::KeyBackspace => 14,
            Key::KeyTab => 15,
            Key::KeyQ => 16,
            Key::KeyW => 17,
            Key::KeyE => 18,
            Key::KeyR => 19,
            Key::KeyT => 20,
            Key::KeyY => 21,
            Key::KeyU => 22,
            Key::KeyI => 23,
            Key::KeyO => 24,
            Key::KeyP => 25,
            Key::KeyEnter => 28,
            Key::KeyLeftCtrl => 29,
            Key::KeyA => 30,
            Key::KeyS => 31,
            Key::KeyD => 32,
            Key::KeyF => 33,
            Key::KeyG => 34,
            Key::KeyH => 35,
            Key::KeyJ => 36,
            Key::KeyK => 37,
            Key::KeyL => 38,
            Key::KeyLeftShift => 42,
            Key::KeyZ => 44,
            Key::KeyX => 45,
            Key::KeyC => 46,
            Key::KeyV => 47,
            Key::KeyB => 48,
            Key::KeyN => 49,
            Key::KeyM => 50,
            Key::KeyRightShift => 54,
            Key::KeyLeftAlt => 56,
            Key::KeySpace => 57,
            Key::KeyRightCtrl => 97,
            Key::KeyRightAlt => 100,
            Key::KeyUp => 103,
            Key::KeyLeft => 105,
            Key::KeyRight => 106,
            Key::KeyDown => 108,
            Key::KeyLeftMeta => 125,
            Key::KeyRightMeta => 126,
        }
    }

    /// Look a key up by its canonical name.
    pub fn from_name(s: &str) -> (r: Option<Key>)
        ensures
            r == key_of_name(s@),
    {
        let n = s.unicode_len();
        let r = Key::from_name_range(s, 0, n);
        proof {
            assert(s@.subrange(0, n as int) =~= s@);
        }
        r
    }

    /// Look a key up by the name spelled in the range `[from, to)` of `s`.
    pub(crate) fn from_name_range(s: &str, from: usize, to: usize) -> (r: Option<Key>)
        requires
            from <= to <= s@.len(),
        ensures
            r == key_of_name(s@.subrange(from as int, to as int)),
    {
        if range_eq(s, from, to, "KeyEsc") { Some(Key::KeyEsc) }
        else if range_eq(s, from, to, "Key1") { Some(Key::Key1) }
        else if range_eq(s, from, to, "Key2") { Some(Key::Key2) }
        else if range_eq(s, from, to, "Key3") { Some(Key::Key3) }
        else if range_eq(s, from, to, "Key4") { Some(Key::Key4) }
        else if range_eq(s, from, to, "Key5") { Some(Key::Key5) }
        else if range_eq(s, from, to, "Key6") { Some(Key::Key6) }
        else if range_eq(s, from, to, "Key7") { Some(Key::Key7) }
        else if range_eq(s, from, to, "Key8") { Some(Key::Key8) }
        else if range_eq(s, from, to, "Key9") { Some(Key::Key9) }
        else if range_eq(s, from, to, "Key0") { Some(Key::Key0) }
        else if range_eq(s, from, to, "KeyBackspace") { Some(Key::KeyBackspace) }
        else if range_eq(s, from, to, "KeyTab") { Some(Key::KeyTab) }
        else if range_eq(s, from, to, "KeyQ") { Some(Key::KeyQ) }
        else if range_eq(s, from, to, "KeyW") { Some(Key::KeyW) }
        else if range_eq(s, from, to, "KeyE") { Some(Key::KeyE) }
        else if range_eq(s, from, to, "KeyR") { Some(Key::KeyR) }
        else if range_eq(s, from, to, "KeyT") { Some(Key::KeyT) }
        else if range_eq(s, from, to, "KeyY") { Some(Key::KeyY) }
        else if range_eq(s, from, to, "KeyU") { Some(Key::KeyU) }
        else if range_eq(s, from, to, "KeyI") { Some(Key::KeyI) }
        else if range_eq(s, from, to, "KeyO") { Some(Key::KeyO) }
        else if range_eq(s, from, to, "KeyP") { Some(Key::KeyP) }
        else if range_eq(s, from, to, "KeyEnter") { Some(Key::KeyEnter) }
        else if range_eq(s, from, to, "KeyLeftCtrl") { Some(Key::KeyLeftCtrl) }
        else if range_eq(s, from, to, "KeyA") { Some(Key::KeyA) }
        else if range_eq(s, from, to, "KeyS") { Some(Key::KeyS) }
        else if range_eq(s, from, to, "KeyD") { Some(Key::KeyD) }
        else if range_eq(s, from, to, "KeyF") { Some(Key::KeyF) }
        else if range_eq(s, from, to, "KeyG") { Some(Key::KeyG) }
        else if range_eq(s, from, to, "KeyH") { Some(Key::KeyH) }
        else if range_eq(s, from, to, "KeyJ") { Some(Key::KeyJ) }
        else if range_eq(s, from, to, "KeyK") { Some(Key::KeyK) }
        else if range_eq(s, from, to, "KeyL") { Some(Key::KeyL) }
        else if range_eq(s, from, to, "KeyLeftShift") { Some(Key::KeyLeftShift) }
        else if range_eq(s, from, to, "KeyZ") { Some(Key::KeyZ) }
        else if range_eq(s, from, to, "KeyX") { Some(Key::KeyX) }
        else if range_eq(s, from, to, "KeyC") { Some(Key::KeyC) }
        else if range_eq(s, from, to, "KeyV") { Some(Key::KeyV) }
        else if range_eq(s, from, to, "KeyB") { Some(Key::KeyB) }
        else if range_eq(s, from, to, "KeyN") { Some(Key::KeyN) }
        else if range_eq(s, from, to, "KeyM") { Some(Key::KeyM) }
        else if range_eq(s, from, to, "KeyRightShift") { Some(Key::KeyRightShift) }
        else if range_eq(s, from, to, "KeyLeftAlt") { Some(Key::KeyLeftAlt) }
        else if range_eq(s, from, to, "KeySpace") { Some(Key::KeySpace) }
        else if range_eq(s, from, to, "KeyRightCtrl") { Some(Key::KeyRightCtrl) }
        else if range_eq(s, from, to, "KeyRightAlt") { Some(Key::KeyRightAlt) }
        else if range_eq(s, from, to, "KeyUp") { Some(Key::KeyUp) }
        else if range_eq(s, from, to, "KeyLeft") { Some(Key::KeyLeft) }
        else if range_eq(s, from, to, "KeyRight") { Some(Key::KeyRight) }
        else if range_eq(s, from, to, "KeyDown") { Some(Key::KeyDown) }
        else if range_eq(s, from, to, "KeyLeftMeta") { Some(Key::KeyLeftMeta) }
        else if range_eq(s, from, to, "KeyRightMeta") { Some(Key::KeyRightMeta) }
        else { None }
    }

    /// Canonical textual name of this key.
    pub fn name(&self) -> (r: &'static str)
        ensures
            r@ == key_name(*self),
    {
        match self {
            Key::KeyEsc => "KeyEsc",
            Key::Key1 => "Key1",
            Key::Key2 => "Key2",
            Key::Key3 => "Key3",
            Key::Key4 => "Key4",
            Key::Key5 => "Key5",
            Key::Key6 => "Key6",
            Key::Key7 => "Key7",
            Key::Key8 => "Key8",
            Key::Key9 => "Key9",
            Key::Key0 => "Key0",
            Key::KeyBackspace => "KeyBackspace",
            Key::KeyTab => "KeyTab",
            Key::KeyQ => "KeyQ",
            Key::KeyW => "KeyW",
            Key::KeyE => "KeyE",
            Key::KeyR => "KeyR",
            Key::KeyT => "KeyT",
            Key::KeyY => "KeyY",
            Key::KeyU => "KeyU",
            Key::KeyI => "KeyI",
            Key::KeyO => "KeyO",
            Key::KeyP => "KeyP",
            Key::KeyEnter => "KeyEnter",
            Key::KeyLeftCtrl => "KeyLeftCtrl",
            Key::KeyA => "KeyA",
            Key::KeyS => "KeyS",
            Key::KeyD => "KeyD",
            Key::KeyF => "KeyF",
            Key::KeyG => "KeyG",
            Key::KeyH => "KeyH",
            Key::KeyJ => "KeyJ",
            Key::KeyK => "KeyK",
            Key::KeyL => "KeyL",
            Key::KeyLeftShift => "KeyLeftShift",
            Key::KeyZ => "KeyZ",
            Key::KeyX => "KeyX",
            Key::KeyC => "KeyC",
            Key::KeyV => "KeyV",
            Key::KeyB => "KeyB",
            Key::KeyN => "KeyN",
            Key::KeyM => "KeyM",
            Key::KeyRightShift => "KeyRightShift",
            Key::KeyLeftAlt => "KeyLeftAlt",
            Key::KeySpace => "KeySpace",
            Key::KeyRightCtrl => "KeyRightCtrl",
            Key::KeyRightAlt => "KeyRightAlt",
            Key::KeyUp => "KeyUp",
            Key::KeyLeft => "KeyLeft",
            Key::KeyRight => "KeyRight",
            Key::KeyDown => "KeyDown",
            Key::KeyLeftMeta => "KeyLeftMeta",
            Key::KeyRightMeta => "KeyRightMeta",
        }
    }
}

} // verus!
