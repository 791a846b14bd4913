//! The shortcut value type, its textual grammar and its matching rule.
//!
//! Grammar: `( '<' ModifierName '>' )* '-'? KeyName`, where the `-` separator
//! is present exactly when at least one modifier segment is. Display uses the
//! canonical modifier order; parse splits at the last `-` and accepts any
//! well-formed modifier segments, OR-ing their masks.

use vstd::prelude::*;

use crate::keys::{key_name, key_of_name, lemma_key_name_ok, Key};
use crate::keyset::KeySet;
use crate::modifiers::{
    canonical_mods, lemma_canonical_or, lemma_modifier_name_chars, lemma_modifier_name_lookup,
    lemma_or_masks_front, modifier_mask, modifier_name, modifier_of_name, or_masks, Modifier,
    ModifierList,
};
use crate::strutil::{
    find_first, find_last, lemma_find_first_is, lemma_find_first_none, lemma_find_last_is,
    lemma_find_last_none, push_char,
};

verus! {

/// Why a shortcut string failed to parse.
#[derive(Clone, Copy, Debug, Hash, PartialEq, Eq, Structural)]
pub enum ParseError {
    /// A modifier token is not wrapped in `<` and `>`.
    MalformedModifier,
    /// A modifier token names no known modifier.
    UnknownModifier,
    /// The key part names no known key.
    UnknownKey,
}

impl ParseError {
    /// A short description of the error.
    pub fn as_str(&self) -> (r: &'static str)
        ensures
            r@ == parse_error_name(*self),
    {
        match self {
            ParseError::MalformedModifier => "malformed modifier token",
            ParseError::UnknownModifier => "unknown modifier name",
            ParseError::UnknownKey => "unknown key name",
        }
    }
}

/// Description text of each parse error.
pub open spec fn parse_error_name(e: ParseError) -> Seq<char> {
    match e {
        ParseError::MalformedModifier => "malformed modifier token"@,
        ParseError::UnknownModifier => "unknown modifier name"@,
        ParseError::UnknownKey => "unknown key name"@,
    }
}

/// Whether a shortcut was just pressed or just released.
#[derive(Clone, Copy, Debug, Hash, PartialEq, Eq, Structural)]
pub enum ShortcutState {
    Pressed,
    Released,
}

/// Description text of each shortcut state.
pub open spec fn state_name(s: ShortcutState) -> Seq<char> {
    match s {
        ShortcutState::Pressed => "pressed"@,
        ShortcutState::Released => "released"@,
    }
}

impl ShortcutState {
    /// A short description of the state.
    pub fn as_str(&self) -> (r: &'static str)
        ensures
            r@ == state_name(*self),
    {
        match self {
            ShortcutState::Pressed => "pressed",
            ShortcutState::Released => "released",
        }
    }
}

/// A keyboard shortcut: zero or more modifiers plus one non-modifier key.
#[derive(Clone, Copy, Debug, Hash, PartialEq, Eq, Structural)]
pub struct Shortcut {
    pub modifiers: ModifierList,
    pub key: Key,
}

/// Event emitted when a shortcut's triggered status flips.
#[derive(Clone, Copy, Debug, Hash, PartialEq, Eq, Structural)]
pub struct ShortcutEvent {
    pub shortcut: Shortcut,
    pub state: ShortcutState,
}

/// The text of one modifier segment: the name wrapped in angle brackets.
pub open spec fn mods_segment(m: Modifier) -> Seq<char> {
    seq!['<'] + modifier_name(m) + seq!['>']
}

/// The concatenated segments of a modifier sequence.
pub open spec fn mods_string(mods: Seq<Modifier>) -> Seq<char>
    decreases mods.len(),
{
    if mods.len() == 0 {
        Seq::empty()
    } else {
        mods_segment(mods[0]) + mods_string(mods.subrange(1, mods.len() as int))
    }
}

/// The canonical display text of a shortcut: its canonical modifier segments,
/// then `-` if any modifier is present, then the key name.
pub open spec fn display_chars(s: Shortcut) -> Seq<char> {
    if s.modifiers.mask_spec() == 0 {
        key_name(s.key)
    } else {
        mods_string(canonical_mods(s.modifiers.mask_spec())) + seq!['-'] + key_name(s.key)
    }
}

/// The identifier form of a display string: `<` and `>` removed, `-` replaced
/// by `_`.
pub open spec fn strip_chars(cs: Seq<char>) -> Seq<char>
    decreases cs.len(),
{
    if cs.len() == 0 {
        Seq::empty()
    } else {
        let c = cs[0];
        let rest = strip_chars(cs.subrange(1, cs.len() as int));
        if c == '<' || c == '>' {
            rest
        } else if c == '-' {
            seq!['_'] + rest
        } else {
            seq![c] + rest
        }
    }
}

/// Parse a run of `<Name>` modifier segments, OR-ing their masks. An empty
/// run parses to the empty mask; a token without its angle brackets is
/// malformed; a bracketed unknown name is an unknown modifier.
pub open spec fn parse_mods_chars(s: Seq<char>) -> Result<u8, ParseError>
    decreases s.len(),
{
    if s.len() == 0 {
        Ok(0)
    } else if s[0] != '<' {
        Err(ParseError::MalformedModifier)
    } else {
        let j = find_first(s, '>');
        if !(0 <= j < s.len() && s[j] == '>') {
            Err(ParseError::MalformedModifier)
        } else {
            match modifier_of_name(s.subrange(1, j)) {
                None => Err(ParseError::UnknownModifier),
                Some(m) => match parse_mods_chars(s.subrange(j + 1, s.len() as int)) {
                    Err(e) => Err(e),
                    Ok(rest) => Ok(modifier_mask(m) | rest),
                },
            }
        }
    }
}

/// Parse a whole shortcut string into its mask and key: split at the last
/// `-`; without one the whole string is the key name and the mask is empty.
pub open spec fn parse_parts(s: Seq<char>) -> Result<(u8, Key), ParseError> {
    let d = find_last(s, '-');
    if d < 0 {
        match key_of_name(s) {
            None => Err(ParseError::UnknownKey),
            Some(k) => Ok((0u8, k)),
        }
    } else {
        match parse_mods_chars(s.subrange(0, d)) {
            Err(e) => Err(e),
            Ok(mask) => match key_of_name(s.subrange(d + 1, s.len() as int)) {
                None => Err(ParseError::UnknownKey),
                Some(k) => Ok((mask, k)),
            },
        }
    }
}

/// The pressed-modifier mask of an active-key set: each held side-specific
/// modifier key contributes its bit; other keys contribute nothing.
pub open spec fn pressed_mask(active: Set<Key>) -> u8 {
    (if active.contains(Key::KeyLeftAlt) { 0x01u8 } else { 0x00u8 })
    | (if active.contains(Key::KeyRightAlt) { 0x02u8 } else { 0x00u8 })
    | (if active.contains(Key::KeyLeftCtrl) { 0x04u8 } else { 0x00u8 })
    | (if active.contains(Key::KeyRightCtrl) { 0x08u8 } else { 0x00u8 })
    | (if active.contains(Key::KeyLeftMeta) { 0x10u8 } else { 0x00u8 })
    | (if active.contains(Key::KeyRightMeta) { 0x20u8 } else { 0x00u8 })
    | (if active.contains(Key::KeyLeftShift) { 0x40u8 } else { 0x00u8 })
    | (if active.contains(Key::KeyRightShift) { 0x80u8 } else { 0x00u8 })
}

/// The modifier-matching rule: every held modifier bit must be one the
/// shortcut demands (no extra modifier held), and the overlap must satisfy
/// exactly as many canonical modifiers as the shortcut specifies (a generic
/// demand is met by either side, a side-specific demand only by that side).
pub open spec fn modifiers_match(desired: u8, pressed: u8) -> bool {
    let overlap = desired & pressed;
    overlap == pressed && canonical_mods(overlap).len() == canonical_mods(desired).len()
}

/// The triggering predicate: the modifiers match and the shortcut's key is
/// held.
pub open spec fn triggered(s: Shortcut, active: Set<Key>) -> bool {
    modifiers_match(s.modifiers.mask_spec(), pressed_mask(active)) && active.contains(s.key)
}

/// Appending one modifier appends one segment to the segment string.
pub proof fn lemma_mods_string_push(mods: Seq<Modifier>, m: Modifier)
    ensures
        mods_string(mods.push(m)) == mods_string(mods) + mods_segment(m),
    decreases mods.len(),
{
    if mods.len() == 0 {
        assert(mods.push(m)[0] == m);
        assert(mods.push(m).subrange(1, 1) =~= Seq::<Modifier>::empty());
        assert(mods_string(mods.push(m)) == mods_segment(m) + mods_string(
            Seq::<Modifier>::empty(),
        ));
        assert(mods_string(Seq::<Modifier>::empty()) == Seq::<char>::empty());
        assert(mods_string(mods) == Seq::<char>::empty());
        assert(mods_segment(m) + Seq::<char>::empty() =~= Seq::<char>::empty() + mods_segment(m));
    } else {
        let tail = mods.subrange(1, mods.len() as int);
        assert(mods.push(m).subrange(1, mods.len() as int + 1) =~= tail.push(m));
        lemma_mods_string_push(tail, m);
        assert(mods.push(m)[0] == mods[0]);
        assert(mods_string(mods.push(m)) == mods_segment(mods[0]) + (mods_string(tail)
            + mods_segment(m)));
        assert(mods_segment(mods[0]) + (mods_string(tail) + mods_segment(m)) =~= (mods_segment(
            mods[0],
        ) + mods_string(tail)) + mods_segment(m));
    }
}

/// Appending one character to the input appends its image to the stripped
/// output.
pub proof fn lemma_strip_push(cs: Seq<char>, c: char)
    ensures
        strip_chars(cs.push(c)) == strip_chars(cs) + (if c == '<' || c == '>' {
            Seq::<char>::empty()
        } else if c == '-' {
            seq!['_']
        } else {
            seq![c]
        }),
    decreases cs.len(),
{
    let image = if c == '<' || c == '>' {
        Seq::<char>::empty()
    } else if c == '-' {
        seq!['_']
    } else {
        seq![c]
    };
    if cs.len() == 0 {
        assert(cs.push(c)[0] == c);
        assert(cs.push(c).subrange(1, 1) =~= Seq::<char>::empty());
        assert(strip_chars(Seq::<char>::empty()) == Seq::<char>::empty());
        assert(strip_chars(cs.push(c)) == image + Seq::<char>::empty());
        assert(strip_chars(cs) == Seq::<char>::empty());
        assert(image + Seq::<char>::empty() =~= Seq::<char>::empty() + image);
    } else {
        let tail = cs.subrange(1, cs.len() as int);
        assert(cs.push(c).subrange(1, cs.len() as int + 1) =~= tail.push(c));
        lemma_strip_push(tail, c);
        assert(cs.push(c)[0] == cs[0]);
        let head_image = if cs[0] == '<' || cs[0] == '>' {
            Seq::<char>::empty()
        } else if cs[0] == '-' {
            seq!['_']
        } else {
            seq![cs[0]]
        };
        assert(strip_chars(cs.push(c)) == head_image + (strip_chars(tail) + image));
        assert(strip_chars(cs) == head_image + strip_chars(tail));
        assert(head_image + (strip_chars(tail) + image) =~= (head_image + strip_chars(tail))
            + image);
    }
}

/// No character of a segment string is the separator `-`.
pub proof fn lemma_mods_string_no_dash(mods: Seq<Modifier>)
    ensures
        forall|t: int| 0 <= t < mods_string(mods).len() ==> mods_string(mods)[t] != '-',
    decreases mods.len(),
{
    if mods.len() == 0 {
    } else {
        let tail = mods.subrange(1, mods.len() as int);
        let seg = mods_segment(mods[0]);
        let rest = mods_string(tail);
        lemma_modifier_name_chars(mods[0]);
        lemma_mods_string_no_dash(tail);
        assert(mods_string(mods) == seg + rest);
        assert forall|t: int| 0 <= t < mods_string(mods).len() implies mods_string(mods)[t]
            != '-' by {
            if t < seg.len() {
                assert(mods_string(mods)[t] == seg[t]);
                if t != 0 && t != seg.len() - 1 {
                    assert(seg[t] == modifier_name(mods[0])[t - 1]);
                }
            } else {
                assert(mods_string(mods)[t] == rest[t - seg.len()]);
            }
        }
    }
}

/// Parsing a segment string back gives exactly the OR of the segments'
/// masks.
pub proof fn lemma_parse_mods_string(mods: Seq<Modifier>)
    ensures
        parse_mods_chars(mods_string(mods)) == Ok::<u8, ParseError>(or_masks(mods)),
    decreases mods.len(),
{
    if mods.len() == 0 {
        assert(mods_string(mods).len() == 0);
    } else {
        let m = mods[0];
        let tail = mods.subrange(1, mods.len() as int);
        let s = mods_string(mods);
        let name = modifier_name(m);
        let nl = name.len() as int;
        let seg = mods_segment(m);
        let rest = mods_string(tail);
        lemma_modifier_name_chars(m);
        assert(s == seg + rest);
        assert(seg.len() == nl + 2);
        assert(seg[0] == '<');
        assert(seg[nl + 1] == '>');
        assert(s[0] == '<');
        assert forall|t: int| 0 <= t < nl + 1 implies s[t] != '>' by {
            assert(s[t] == seg[t]);
            if t != 0 {
                assert(seg[t] == name[t - 1]);
            }
        }
        assert(s[nl + 1] == seg[nl + 1]);
        lemma_find_first_is(s, '>', nl + 1);
        assert forall|t: int| 0 <= t < nl implies s.subrange(1, nl + 1)[t] == name[t] by {
            assert(s[t + 1] == seg[t + 1]);
            assert(seg[t + 1] == name[t]);
        }
        assert(s.subrange(1, nl + 1) =~= name);
        lemma_modifier_name_lookup(m);
        assert(s.subrange(nl + 2, s.len() as int) =~= rest);
        lemma_parse_mods_string(tail);
        lemma_or_masks_front(mods);
    }
}

/// Round-trip law: parsing the display string of any shortcut yields that
/// shortcut's mask and key back.
pub proof fn lemma_parse_display_roundtrip(s: Shortcut)
    ensures
        parse_parts(display_chars(s)) == Ok::<(u8, Key), ParseError>(
            (s.modifiers.mask_spec(), s.key),
        ),
{
    let mask = s.modifiers.mask_spec();
    let d = display_chars(s);
    let kn = key_name(s.key);
    lemma_key_name_ok(s.key);
    if mask == 0 {
        assert(d == kn);
        lemma_find_last_none(d, '-');
    } else {
        let cm = canonical_mods(mask);
        let ms = mods_string(cm);
        let ml = ms.len() as int;
        lemma_mods_string_no_dash(cm);
        assert(d == (ms + seq!['-']) + kn);
        assert(d.len() == ml + 1 + kn.len());
        assert(d[ml] == (ms + seq!['-'])[ml]);
        assert(d[ml] == '-');
        assert forall|t: int| ml < t < d.len() implies d[t] != '-' by {
            assert(d[t] == kn[t - ml - 1]);
        }
        lemma_find_last_is(d, '-', ml);
        assert(d.subrange(0, ml) =~= ms);
        lemma_parse_mods_string(cm);
        lemma_canonical_or(mask);
        assert(d.subrange(ml + 1, d.len() as int) =~= kn);
    }
}

impl Shortcut {
    /// Build a shortcut from modifiers (OR-reduced into a mask) and a key.
    pub fn new(modifiers: &[Modifier], key: Key) -> (r: Shortcut)
        ensures
            r.modifiers.mask_spec() == or_masks(modifiers@),
            r.key == key,
    {
        Shortcut { modifiers: ModifierList::new(modifiers), key }
    }

    /// The canonical display string of this shortcut, e.g. `<Ctrl>-KeyP`.
    pub fn display(&self) -> (r: String)
        ensures
            r@ == display_chars(*self),
    {
        let mods = self.modifiers.modifiers();
        let mut out = String::new();
        let mut i: usize = 0;
        while i < mods.len()
            invariant
                i <= mods@.len(),
                mods@ == canonical_mods(self.modifiers.mask_spec()),
                out@ == mods_string(mods@.take(i as int)),
            decreases mods@.len() - i,
        {
            out.append("<");
            out.append(mods[i].name());
            out.append(">");
            proof {
                reveal_strlit("<");
                reveal_strlit(">");
                assert("<"@ =~= seq!['<']);
                assert(">"@ =~= seq!['>']);
                lemma_mods_string_push(mods@.take(i as int), mods@[i as int]);
                assert(mods@.take(i + 1) =~= mods@.take(i as int).push(mods@[i as int]));
                assert(out@ =~= mods_string(mods@.take(i as int)) + mods_segment(
                    mods@[i as int],
                ));
            }
            i = i + 1;
        }
        proof {
            assert(mods@.take(mods@.len() as int) =~= mods@);
        }
        if !self.modifiers.is_empty() {
            out.append("-");
            proof {
                reveal_strlit("-");
                assert("-"@ =~= seq!['-']);
            }
        }
        out.append(self.key.name());
        proof {
            if self.modifiers.mask_spec() == 0 {
                assert(0u8 & 0x03u8 == 0u8 && 0u8 & 0x01u8 == 0u8 && 0u8 & 0x02u8 == 0u8 && 0u8
                    & 0x0Cu8 == 0u8 && 0u8 & 0x04u8 == 0u8 && 0u8 & 0x08u8 == 0u8 && 0u8 & 0xC0u8
                    == 0u8 && 0u8 & 0x40u8 == 0u8 && 0u8 & 0x80u8 == 0u8 && 0u8 & 0x30u8 == 0u8
                    && 0u8 & 0x10u8 == 0u8 && 0u8 & 0x20u8 == 0u8) by (bit_vector);
                assert(canonical_mods(0) =~= Seq::<Modifier>::empty());
                assert(out@ =~= display_chars(*self));
            } else {
                assert(out@ =~= display_chars(*self));
            }
        }
        out
    }

    /// The identifier form of this shortcut: its display string with `<` and
    /// `>` removed and `-` replaced by `_`, e.g. `Ctrl_KeyP`.
    pub fn identifier(&self) -> (r: String)
        ensures
            r@ == strip_chars(display_chars(*self)),
    {
        let s = self.display();
        let n = s.as_str().unicode_len();
        let mut out = String::new();
        let mut i: usize = 0;
        while i < n
            invariant
                i <= n,
                n == s@.len(),
                s@ == display_chars(*self),
                out@ == strip_chars(s@.take(i as int)),
            decreases n - i,
        {
            let c = s.as_str().get_char(i);
            if c == '<' || c == '>' {
            } else if c == '-' {
                push_char(&mut out, '_');
            } else {
                push_char(&mut out, c);
            }
            proof {
                lemma_strip_push(s@.take(i as int), c);
                assert(s@.take(i + 1) =~= s@.take(i as int).push(c));
                if c == '<' || c == '>' {
                    assert(out@ =~= strip_chars(s@.take(i as int)) + Seq::<char>::empty());
                } else if c == '-' {
                    assert(out@ =~= strip_chars(s@.take(i as int)) + seq!['_']);
                } else {
                    assert(out@ =~= strip_chars(s@.take(i as int)) + seq![c]);
                }
            }
            i = i + 1;
        }
        proof {
            assert(s@.take(n as int) =~= s@);
        }
        out
    }

    /// Whether this shortcut is triggered by the given active-key set: its
    /// modifiers match the held modifiers and its key is held.
    pub fn is_triggered(&self, active_keys: &KeySet) -> (r: bool)
        ensures
            r == triggered(*self, active_keys@),
    {
        let desired_mask = self.modifiers.mask();
        let pressed = (if active_keys.contains(Key::KeyLeftAlt) { 0x01u8 } else { 0x00u8 })
            | (if active_keys.contains(Key::KeyRightAlt) { 0x02u8 } else { 0x00u8 })
            | (if active_keys.contains(Key::KeyLeftCtrl) { 0x04u8 } else { 0x00u8 })
            | (if active_keys.contains(Key::KeyRightCtrl) { 0x08u8 } else { 0x00u8 })
            | (if active_keys.contains(Key::KeyLeftMeta) { 0x10u8 } else { 0x00u8 })
            | (if active_keys.contains(Key::KeyRightMeta) { 0x20u8 } else { 0x00u8 })
            | (if active_keys.contains(Key::KeyLeftShift) { 0x40u8 } else { 0x00u8 })
            | (if active_keys.contains(Key::KeyRightShift) { 0x80u8 } else { 0x00u8 });
        let overlap = desired_mask & pressed;
        let modifiers_ok = overlap == pressed && ModifierList::from_mask(overlap).len()
            == self.modifiers.len();
        modifiers_ok && active_keys.contains(self.key)
    }

    /// Parse a shortcut from its textual form (see the module grammar). The
    /// result is `Ok` exactly when every modifier token is well formed and
    /// names a known modifier and the key part names a known key; the mask is
    /// the OR of the named modifiers' masks.
    pub fn parse(s: &str) -> (r: Result<Shortcut, ParseError>)
        ensures
            parse_parts(s@) is Ok ==> r is Ok && r->Ok_0.modifiers.mask_spec() == parse_parts(
                s@,
            )->Ok_0.0 && r->Ok_0.key == parse_parts(s@)->Ok_0.1,
            parse_parts(s@) is Err ==> r is Err && r->Err_0 == parse_parts(s@)->Err_0,
    {
        let n = s.unicode_len();
        let mut i: usize = n;
        let mut dash: usize = n;
        while i > 0 && dash == n
            invariant
                n == s@.len(),
                i <= n,
                dash <= n,
                dash == n ==> forall|k: int| i <= k < n ==> s@[k] != '-',
                dash < n ==> s@[dash as int] == '-' && dash == i && (forall|k: int|
                    dash < k < n ==> s@[k] != '-'),
            decreases i,
        {
            if s.get_char(i - 1) == '-' {
                dash = i - 1;
            }
            i = i - 1;
        }
        if dash == n {
            proof {
                lemma_find_last_none(s@, '-');
            }
            match Key::from_name_range(s, 0, n) {
                None => {
                    proof {
                        assert(s@.subrange(0, n as int) =~= s@);
                    }
                    Err(ParseError::UnknownKey)
                },
                Some(k) => {
                    proof {
                        assert(s@.subrange(0, n as int) =~= s@);
                    }
                    Ok(Shortcut { modifiers: ModifierList::empty(), key: k })
                },
            }
        } else {
            proof {
                lemma_find_last_is(s@, '-', dash as int);
            }
            match parse_mods_range(s, 0, dash) {
                Err(e) => Err(e),
                Ok(mask) => match Key::from_name_range(s, dash + 1, n) {
                    None => Err(ParseError::UnknownKey),
                    Some(k) => Ok(Shortcut { modifiers: ModifierList::from_mask(mask), key: k }),
                },
            }
        }
    }
}

/// Parse the modifier segments spelled in the range `[from, to)` of `s`.
fn parse_mods_range(s: &str, from: usize, to: usize) -> (r: Result<u8, ParseError>)
    requires
        from <= to <= s@.len(),
    ensures
        r == parse_mods_chars(s@.subrange(from as int, to as int)),
{
    let ghost whole = s@.subrange(from as int, to as int);
    proof {
        match parse_mods_chars(whole) {
            Ok(rest) => {
                assert(0u8 | rest == rest) by (bit_vector);
            },
            Err(_) => {},
        }
    }
    let mut acc: u8 = 0;
    let mut i: usize = from;
    while i < to
        invariant
            from <= i <= to <= s@.len(),
            whole == s@.subrange(from as int, to as int),
            ({
                let suffix = s@.subrange(i as int, to as int);
                match parse_mods_chars(suffix) {
                    Ok(rest) => parse_mods_chars(whole) == Ok::<u8, ParseError>(acc | rest),
                    Err(e) => parse_mods_chars(whole) == Err::<u8, ParseError>(e),
                }
            }),
        decreases to - i,
    {
        let ghost suffix = s@.subrange(i as int, to as int);
        if s.get_char(i) != '<' {
            proof {
                assert(suffix[0] == s@[i as int]);
            }
            return Err(ParseError::MalformedModifier);
        }
        let mut j: usize = i + 1;
        while j < to && s.get_char(j) != '>'
            invariant
                i + 1 <= j <= to <= s@.len(),
                forall|k: int| i < k < j ==> s@[k] != '>',
            decreases to - j,
        {
            j = j + 1;
        }
        if j == to {
            proof {
                assert(suffix[0] == s@[i as int]);
                assert(forall|k: int| 0 <= k < suffix.len() ==> suffix[k] == s@[i + k]);
                lemma_find_first_none(suffix, '>');
            }
            return Err(ParseError::MalformedModifier);
        }
        proof {
            assert(suffix[0] == s@[i as int]);
            assert(forall|k: int| 0 <= k < suffix.len() ==> suffix[k] == s@[i + k]);
            assert(suffix[j - i] == '>');
            lemma_find_first_is(suffix, '>', j - i);
            assert(suffix.subrange(1, j - i) =~= s@.subrange(i + 1, j as int));
        }
        match Modifier::from_name_range(s, i + 1, j) {
            None => {
                return Err(ParseError::UnknownModifier);
            },
            Some(m) => {
                proof {
                    assert(suffix.subrange(j - i + 1, suffix.len() as int) =~= s@.subrange(
                        j + 1,
                        to as int,
                    ));
                }
                let mm = m.mask();
                proof {
                    let next_suffix = s@.subrange(j + 1, to as int);
                    match parse_mods_chars(next_suffix) {
                        Ok(rest) => {
                            assert(parse_mods_chars(suffix) == Ok::<u8, ParseError>(mm | rest));
                            assert(acc | (mm | rest) == (acc | mm) | rest) by (bit_vector);
                        },
                        Err(_) => {},
                    }
                }
                acc = acc | mm;
                i = j + 1;
            },
        }
    }
    proof {
        assert(s@.subrange(to as int, to as int).len() == 0);
        assert(acc | 0 == acc) by (bit_vector);
    }
    Ok(acc)
}

} // verus!
