//! Modifier keys and the one-byte bitmask that encodes a set of them.
//!
//! Each of the four modifier families (Alt, Ctrl, Meta, Shift) owns two
//! adjacent bits, one per physical side. A generic modifier's mask is the OR
//! of its two side-specific masks, so a mask such as `0b11` can be read as
//! `Alt` or as `LeftAlt` plus `RightAlt`; `canonical_mods` resolves that
//! ambiguity for display by preferring the most general label.

use vstd::prelude::*;

use crate::keys::Key;
use crate::strutil::range_eq;

verus! {

/// A modifier key category: generic (either side) or side-specific.
#[derive(Clone, Copy, Debug, Hash, PartialEq, Eq, Structural)]
pub enum Modifier {
    Alt,
    LeftAlt,
    RightAlt,
    Ctrl,
    LeftCtrl,
    RightCtrl,
    Shift,
    LeftShift,
    RightShift,
    Meta,
    LeftMeta,
    RightMeta,
}

/// The fixed bit assignment of each modifier.
///
/// Alt owns bits 0-1, Ctrl bits 2-3, Meta bits 4-5, Shift bits 6-7; a generic
/// modifier's mask is the OR of its two side-specific masks.
pub open spec fn modifier_mask(m: Modifier) -> u8 {
    match m {
        Modifier::Alt => 0b00000011,
        Modifier::LeftAlt => 0b00000001,
        Modifier::RightAlt => 0b00000010,
        Modifier::Ctrl => 0b00001100,
        Modifier::LeftCtrl => 0b00000100,
        Modifier::RightCtrl => 0b00001000,
        Modifier::Meta => 0b00110000,
        Modifier::LeftMeta => 0b00010000,
        Modifier::RightMeta => 0b00100000,
        Modifier::Shift => 0b11000000,
        Modifier::LeftShift => 0b01000000,
        Modifier::RightShift => 0b10000000,
    }
}

/// The single-bit mask a physical key contributes when held: side-specific
/// modifier keys map to their bit, every other key maps to 0.
pub open spec fn key_modifier_mask(key: Key) -> u8 {
    match key {
        Key::KeyLeftAlt => 0b00000001,
        Key::KeyRightAlt => 0b00000010,
        Key::KeyLeftCtrl => 0b00000100,
        Key::KeyRightCtrl => 0b00001000,
        Key::KeyLeftMeta => 0b00010000,
        Key::KeyRightMeta => 0b00100000,
        Key::KeyLeftShift => 0b01000000,
        Key::KeyRightShift => 0b10000000,
        _ => 0,
    }
}

/// Canonical textual name of a modifier, as used in the shortcut grammar.
pub open spec fn modifier_name(m: Modifier) -> Seq<char> {
    match m {
        Modifier::Alt => "Alt"@,
        Modifier::LeftAlt => "LeftAlt"@,
        Modifier::RightAlt => "RightAlt"@,
        Modifier::Ctrl => "Ctrl"@,
        Modifier::LeftCtrl => "LeftCtrl"@,
        Modifier::RightCtrl => "RightCtrl"@,
        Modifier::Shift => "Shift"@,
        Modifier::LeftShift => "LeftShift"@,
        Modifier::RightShift => "RightShift"@,
        Modifier::Meta => "Meta"@,
        Modifier::LeftMeta => "LeftMeta"@,
        Modifier::RightMeta => "RightMeta"@,
    }
}

/// Look a modifier up by its canonical name; unknown names give `None`.
pub open spec fn modifier_of_name(s: Seq<char>) -> Option<Modifier> {
    if s == "Alt"@ { Some(Modifier::Alt) }
    else if s == "LeftAlt"@ { Some(Modifier::LeftAlt) }
    else if s == "RightAlt"@ { Some(Modifier::RightAlt) }
    else if s == "Ctrl"@ { Some(Modifier::Ctrl) }
    else if s == "LeftCtrl"@ { Some(Modifier::LeftCtrl) }
    else if s == "RightCtrl"@ { Some(Modifier::RightCtrl) }
    else if s == "Shift"@ { Some(Modifier::Shift) }
    else if s == "LeftShift"@ { Some(Modifier::LeftShift) }
    else if s == "RightShift"@ { Some(Modifier::RightShift) }
    else if s == "Meta"@ { Some(Modifier::Meta) }
    else if s == "LeftMeta"@ { Some(Modifier::LeftMeta) }
    else if s == "RightMeta"@ { Some(Modifier::RightMeta) }
    else { None }
}

/// The canonical modifiers of one family for a given mask: the generic
/// modifier when both side bits are set (suppressing the side-specific
/// labels), otherwise the one side whose bit is set, otherwise none.
pub open spec fn family_mods(
    mask: u8,
    generic: Modifier,
    left: Modifier,
    right: Modifier,
) -> Seq<Modifier> {
    if mask & modifier_mask(generic) == modifier_mask(generic) {
        seq![generic]
    } else if mask & modifier_mask(left) == modifier_mask(left) {
        seq![left]
    } else if mask & modifier_mask(right) == modifier_mask(right) {
        seq![right]
    } else {
        Seq::empty()
    }
}

/// The ordered sequence of modifiers a mask canonically represents: families
/// in the fixed order Alt, Ctrl, Shift, Meta, each contributing its most
/// general satisfied label. This governs display and introspection only;
/// matching works on the raw mask.
pub open spec fn canonical_mods(mask: u8) -> Seq<Modifier> {
    family_mods(mask, Modifier::Alt, Modifier::LeftAlt, Modifier::RightAlt)
        + family_mods(mask, Modifier::Ctrl, Modifier::LeftCtrl, Modifier::RightCtrl)
        + family_mods(mask, Modifier::Shift, Modifier::LeftShift, Modifier::RightShift)
        + family_mods(mask, Modifier::Meta, Modifier::LeftMeta, Modifier::RightMeta)
}

/// OR-reduction of the masks of a sequence of modifiers.
pub open spec fn or_masks(mods: Seq<Modifier>) -> u8
    decreases mods.len(),
{
    if mods.len() == 0 {
        0
    } else {
        or_masks(mods.drop_last()) | modifier_mask(mods.last())
    }
}

impl Modifier {
    /// The fixed bit mask of this modifier (see `modifier_mask`).
    pub fn mask(&self) -> (r: u8)
        ensures
            r == modifier_mask(*self),
    {
        match self {
            Modifier::Alt => 0b00000011,
            Modifier::LeftAlt => 0b00000001,
            Modifier::RightAlt => 0b00000010,
            Modifier::Ctrl => 0b00001100,
            Modifier::LeftCtrl => 0b00000100,
            Modifier::RightCtrl => 0b00001000,
            Modifier::Meta => 0b00110000,
            Modifier::LeftMeta => 0b00010000,
            Modifier::RightMeta => 0b00100000,
            Modifier::Shift => 0b11000000,
            Modifier::LeftShift => 0b01000000,
            Modifier::RightShift => 0b10000000,
        }
    }

    /// The single-bit mask a held key contributes to the pressed-modifier
    /// mask; non-modifier keys contribute 0 (see `key_modifier_mask`).
    pub fn mask_from_key(key: Key) -> (r: u8)
        ensures
            r == key_modifier_mask(key),
    {
        match key {
            Key::KeyLeftAlt => 0b00000001,
            Key::KeyRightAlt => 0b00000010,
            Key::KeyLeftCtrl => 0b00000100,
            Key::KeyRightCtrl => 0b00001000,
            Key::KeyLeftMeta => 0b00010000,
            Key::KeyRightMeta => 0b00100000,
            Key::KeyLeftShift => 0b01000000,
            Key::KeyRightShift => 0b10000000,
            _ => 0,
        }
    }

    /// Look a modifier up by its canonical name.
    pub fn from_name(s: &str) -> (r: Option<Modifier>)
        ensures
            r == modifier_of_name(s@),
    {
        let n = s.unicode_len();
        let r = Modifier::from_name_range(s, 0, n);
        proof {
            assert(s@.subrange(0, n as int) =~= s@);
        }
        r
    }

    /// Look a modifier up by the name spelled in the range `[from, to)` of `s`.
    pub(crate) fn from_name_range(s: &str, from: usize, to: usize) -> (r: Option<Modifier>)
        requires
            from <= to <= s@.len(),
        ensures
            r == modifier_of_name(s@.subrange(from as int, to as int)),
    {
        if range_eq(s, from, to, "Alt") { Some(Modifier::Alt) }
        else if range_eq(s, from, to, "LeftAlt") { Some(Modifier::LeftAlt) }
        else if range_eq(s, from, to, "RightAlt") { Some(Modifier::RightAlt) }
        else if range_eq(s, from, to, "Ctrl") { Some(Modifier::Ctrl) }
        else if range_eq(s, from, to, "LeftCtrl") { Some(Modifier::LeftCtrl) }
        else if range_eq(s, from, to, "RightCtrl") { Some(Modifier::RightCtrl) }
        else if range_eq(s, from, to, "Shift") { Some(Modifier::Shift) }
        else if range_eq(s, from, to, "LeftShift") { Some(Modifier::LeftShift) }
        else if range_eq(s, from, to, "RightShift") { Some(Modifier::RightShift) }
        else if range_eq(s, from, to, "Meta") { Some(Modifier::Meta) }
        else if range_eq(s, from, to, "LeftMeta") { Some(Modifier::LeftMeta) }
        else if range_eq(s, from, to, "RightMeta") { Some(Modifier::RightMeta) }
        else { None }
    }

    /// Canonical textual name of this modifier.
    pub fn name(&self) -> (r: &'static str)
        ensures
            r@ == modifier_name(*self),
    {
        match self {
            Modifier::Alt => "Alt",
            Modifier::LeftAlt => "LeftAlt",
            Modifier::RightAlt => "RightAlt",
            Modifier::Ctrl => "Ctrl",
            Modifier::LeftCtrl => "LeftCtrl",
            Modifier::RightCtrl => "RightCtrl",
            Modifier::Shift => "Shift",
            Modifier::LeftShift => "LeftShift",
            Modifier::RightShift => "RightShift",
            Modifier::Meta => "Meta",
            Modifier::LeftMeta => "LeftMeta",
            Modifier::RightMeta => "RightMeta",
        }
    }
}

/// A set of modifier keys, encoded as a one-byte bitmask.
#[derive(Clone, Copy, Debug, Hash, PartialEq, Eq, Structural)]
pub struct ModifierList(u8);

impl ModifierList {
    /// The raw bitmask this list encodes.
    pub closed spec fn mask_spec(self) -> u8 {
        self.0
    }

    /// Two modifier lists with the same mask are the same list.
    pub proof fn lemma_mask_ext(a: ModifierList, b: ModifierList)
        requires
            a.mask_spec() == b.mask_spec(),
        ensures
            a == b,
    {
    }

    /// Build a list by OR-reducing the given modifiers' masks.
    pub fn new(modifiers: &[Modifier]) -> (r: ModifierList)
        ensures
            r.mask_spec() == or_masks(modifiers@),
    {
        let mut mask: u8 = 0;
        let mut i: usize = 0;
        while i < modifiers.len()
            invariant
                i <= modifiers@.len(),
                mask == or_masks(modifiers@.take(i as int)),
            decreases modifiers@.len() - i,
        {
            proof {
                assert(modifiers@.take(i + 1).drop_last() =~= modifiers@.take(i as int));
                assert(modifiers@.take(i + 1).last() == modifiers@[i as int]);
            }
            mask = mask | modifiers[i].mask();
            i = i + 1;
        }
        proof {
            assert(modifiers@.take(modifiers@.len() as int) =~= modifiers@);
        }
        ModifierList(mask)
    }

    /// An empty modifier list (mask 0).
    pub fn empty() -> (r: ModifierList)
        ensures
            r.mask_spec() == 0,
    {
        ModifierList(0)
    }

    /// Wrap a raw bitmask as a modifier list. Every byte is a valid mask:
    /// it is the OR-reduction of the side-specific bits it has set.
    pub fn from_mask(mask: u8) -> (r: ModifierList)
        ensures
            r.mask_spec() == mask,
    {
        ModifierList(mask)
    }

    /// The raw bitmask.
    pub fn mask(&self) -> (r: u8)
        ensures
            r == self.mask_spec(),
    {
        self.0
    }

    /// The canonical modifiers this mask represents, in display order.
    pub fn modifiers(&self) -> (r: Vec<Modifier>)
        ensures
            r@ == canonical_mods(self.mask_spec()),
    {
        let mask = self.0;
        let mut mods: Vec<Modifier> = Vec::new();
        if mask & 0b00000011 == 0b00000011 {
            mods.push(Modifier::Alt);
        } else if mask & 0b00000001 == 0b00000001 {
            mods.push(Modifier::LeftAlt);
        } else if mask & 0b00000010 == 0b00000010 {
            mods.push(Modifier::RightAlt);
        }
        if mask & 0b00001100 == 0b00001100 {
            mods.push(Modifier::Ctrl);
        } else if mask & 0b00000100 == 0b00000100 {
            mods.push(Modifier::LeftCtrl);
        } else if mask & 0b00001000 == 0b00001000 {
            mods.push(Modifier::RightCtrl);
        }
        if mask & 0b11000000 == 0b11000000 {
            mods.push(Modifier::Shift);
        } else if mask & 0b01000000 == 0b01000000 {
            mods.push(Modifier::LeftShift);
        } else if mask & 0b10000000 == 0b10000000 {
            mods.push(Modifier::RightShift);
        }
        if mask & 0b00110000 == 0b00110000 {
            mods.push(Modifier::Meta);
        } else if mask & 0b00010000 == 0b00010000 {
            mods.push(Modifier::LeftMeta);
        } else if mask & 0b00100000 == 0b00100000 {
            mods.push(Modifier::RightMeta);
        }
        proof {
            assert(mods@ =~= canonical_mods(self.mask_spec()));
        }
        mods
    }

    /// The number of canonical modifiers this mask represents.
    pub fn len(&self) -> (r: u32)
        ensures
            r == canonical_mods(self.mask_spec()).len(),
    {
        let mods = self.modifiers();
        mods.len() as u32
    }

    /// Whether the mask is empty (no modifier bits set).
    pub fn is_empty(&self) -> (r: bool)
        ensures
            r == (self.mask_spec() == 0),
    {
        self.0 == 0
    }
}

impl Default for ModifierList {
    /// The empty modifier list.
    fn default() -> (r: Self)
        ensures
            r.mask_spec() == 0,
    {
        ModifierList(0)
    }
}

/// Modifier names are nonempty and never contain the grammar's meta
/// characters `<`, `>`, `-`.
pub proof fn lemma_modifier_name_chars(m: Modifier)
    ensures
        modifier_name(m).len() > 0,
        forall|i: int|
            0 <= i < modifier_name(m).len() ==> (modifier_name(m)[i] != '<' && modifier_name(m)[i]
                != '>' && modifier_name(m)[i] != '-'),
{
    reveal_strlit("Alt");
    reveal_strlit("LeftAlt");
    reveal_strlit("RightAlt");
    reveal_strlit("Ctrl");
    reveal_strlit("LeftCtrl");
    reveal_strlit("RightCtrl");
    reveal_strlit("Shift");
    reveal_strlit("LeftShift");
    reveal_strlit("RightShift");
    reveal_strlit("Meta");
    reveal_strlit("LeftMeta");
    reveal_strlit("RightMeta");
}

/// Looking a modifier's own name up finds that modifier back.
pub proof fn lemma_modifier_name_lookup(m: Modifier)
    ensures
        modifier_of_name(modifier_name(m)) == Some(m),
{
    reveal_strlit("Alt");
    reveal_strlit("LeftAlt");
    reveal_strlit("RightAlt");
    reveal_strlit("Ctrl");
    reveal_strlit("LeftCtrl");
    reveal_strlit("RightCtrl");
    reveal_strlit("Shift");
    reveal_strlit("LeftShift");
    reveal_strlit("RightShift");
    reveal_strlit("Meta");
    reveal_strlit("LeftMeta");
    reveal_strlit("RightMeta");
    assert("Alt"@.len() == 3);
    assert("LeftAlt"@.len() == 7);
    assert("RightAlt"@.len() == 8);
    assert("Ctrl"@.len() == 4);
    assert("LeftCtrl"@.len() == 8);
    assert("RightCtrl"@.len() == 9);
    assert("Shift"@.len() == 5);
    assert("LeftShift"@.len() == 9);
    assert("RightShift"@.len() == 10);
    assert("Meta"@.len() == 4);
    assert("LeftMeta"@.len() == 8);
    assert("RightMeta"@.len() == 9);
    assert("Ctrl"@[0] == 'C' && "Meta"@[0] == 'M');
    assert("RightAlt"@[0] == 'R' && "LeftCtrl"@[0] == 'L' && "LeftMeta"@[0] == 'L');
    assert("LeftCtrl"@[4] == 'C' && "LeftMeta"@[4] == 'M');
    assert("RightCtrl"@[0] == 'R' && "LeftShift"@[0] == 'L' && "RightMeta"@[0] == 'R');
    assert("RightCtrl"@[5] == 'C' && "RightMeta"@[5] == 'M');
}

/// `or_masks` can also be unfolded from the front.
pub proof fn lemma_or_masks_front(mods: Seq<Modifier>)
    requires
        mods.len() > 0,
    ensures
        or_masks(mods) == modifier_mask(mods[0]) | or_masks(mods.subrange(1, mods.len() as int)),
    decreases mods.len(),
{
    if mods.len() == 1 {
        assert(mods.drop_last() =~= Seq::<Modifier>::empty());
        assert(mods.subrange(1, 1) =~= Seq::<Modifier>::empty());
        let mm = modifier_mask(mods[0]);
        assert(0u8 | mm == mm | 0u8) by (bit_vector);
    } else {
        let tail = mods.subrange(1, mods.len() as int);
        lemma_or_masks_front(mods.drop_last());
        assert(mods.drop_last()[0] == mods[0]);
        assert(mods.drop_last().subrange(1, mods.drop_last().len() as int) =~= tail.drop_last());
        assert(tail.last() == mods.last());
        let a = modifier_mask(mods[0]);
        let b = or_masks(tail.drop_last());
        let c = modifier_mask(mods.last());
        assert((a | b) | c == a | (b | c)) by (bit_vector);
    }
}

/// `or_masks` distributes over concatenation.
pub proof fn lemma_or_masks_concat(a: Seq<Modifier>, b: Seq<Modifier>)
    ensures
        or_masks(a + b) == or_masks(a) | or_masks(b),
    decreases b.len(),
{
    if b.len() == 0 {
        assert(a + b =~= a);
        let x = or_masks(a);
        assert(x | 0 == x) by (bit_vector);
    } else {
        assert((a + b).drop_last() =~= a + b.drop_last());
        assert((a + b).last() == b.last());
        lemma_or_masks_concat(a, b.drop_last());
        let x = or_masks(a);
        let y = or_masks(b.drop_last());
        let z = modifier_mask(b.last());
        assert((x | y) | z == x | (y | z)) by (bit_vector);
    }
}

/// The canonical label of one family OR-reduces back to exactly that
/// family's bits of the mask.
proof fn lemma_family_or(mask: u8, generic: Modifier, left: Modifier, right: Modifier)
    requires
        modifier_mask(generic) == modifier_mask(left) | modifier_mask(right),
        forall|x: u8|
            x & modifier_mask(left) == 0 || x & modifier_mask(left) == modifier_mask(left),
        forall|x: u8|
            x & modifier_mask(right) == 0 || x & modifier_mask(right) == modifier_mask(right),
    ensures
        or_masks(family_mods(mask, generic, left, right)) == mask & modifier_mask(generic),
{
    let g = modifier_mask(generic);
    let l = modifier_mask(left);
    let r = modifier_mask(right);
    assert(mask & l == 0 || mask & l == l);
    assert(mask & r == 0 || mask & r == r);
    if mask & g == g {
        assert(family_mods(mask, generic, left, right) == seq![generic]);
        assert(seq![generic].drop_last() =~= Seq::<Modifier>::empty());
        assert(seq![generic].last() == generic);
        assert(or_masks(Seq::<Modifier>::empty()) == 0);
        assert(or_masks(seq![generic]) == 0u8 | g);
        assert(0u8 | g == mask & g) by (bit_vector)
            requires
                mask & g == g,
        ;
    } else if mask & l == l {
        assert(family_mods(mask, generic, left, right) == seq![left]);
        assert(seq![left].drop_last() =~= Seq::<Modifier>::empty());
        assert(seq![left].last() == left);
        assert(or_masks(Seq::<Modifier>::empty()) == 0);
        assert(or_masks(seq![left]) == 0u8 | l);
        assert(0u8 | l == mask & g) by (bit_vector)
            requires
                g == l | r,
                mask & g != g,
                mask & l == l,
                mask & r == 0 || mask & r == r,
        ;
    } else if mask & r == r {
        assert(family_mods(mask, generic, left, right) == seq![right]);
        assert(seq![right].drop_last() =~= Seq::<Modifier>::empty());
        assert(seq![right].last() == right);
        assert(or_masks(Seq::<Modifier>::empty()) == 0);
        assert(or_masks(seq![right]) == 0u8 | r);
        assert(0u8 | r == mask & g) by (bit_vector)
            requires
                g == l | r,
                mask & g != g,
                mask & r == r,
                mask & l == 0,
        ;
    } else {
        assert(family_mods(mask, generic, left, right) == Seq::<Modifier>::empty());
        assert(or_masks(Seq::<Modifier>::empty()) == 0);
        assert(0u8 == mask & g) by (bit_vector)
            requires
                g == l | r,
                mask & l == 0,
                mask & r == 0,
        ;
    }
}

/// The canonical modifiers of a mask OR-reduce back to exactly that mask:
/// canonicalization loses no bit and invents none.
pub proof fn lemma_canonical_or(mask: u8)
    ensures
        or_masks(canonical_mods(mask)) == mask,
{
    assert(0x03u8 == 0x01u8 | 0x02u8 && 0x0Cu8 == 0x04u8 | 0x08u8 && 0xC0u8 == 0x40u8 | 0x80u8
        && 0x30u8 == 0x10u8 | 0x20u8) by (bit_vector);
    assert(forall|x: u8| x & 0x01u8 == 0 || x & 0x01u8 == 0x01u8) by (bit_vector);
    assert(forall|x: u8| x & 0x02u8 == 0 || x & 0x02u8 == 0x02u8) by (bit_vector);
    assert(forall|x: u8| x & 0x04u8 == 0 || x & 0x04u8 == 0x04u8) by (bit_vector);
    assert(forall|x: u8| x & 0x08u8 == 0 || x & 0x08u8 == 0x08u8) by (bit_vector);
    assert(forall|x: u8| x & 0x10u8 == 0 || x & 0x10u8 == 0x10u8) by (bit_vector);
    assert(forall|x: u8| x & 0x20u8 == 0 || x & 0x20u8 == 0x20u8) by (bit_vector);
    assert(forall|x: u8| x & 0x40u8 == 0 || x & 0x40u8 == 0x40u8) by (bit_vector);
    assert(forall|x: u8| x & 0x80u8 == 0 || x & 0x80u8 == 0x80u8) by (bit_vector);
    let fa = family_mods(mask, Modifier::Alt, Modifier::LeftAlt, Modifier::RightAlt);
    let fc = family_mods(mask, Modifier::Ctrl, Modifier::LeftCtrl, Modifier::RightCtrl);
    let fs = family_mods(mask, Modifier::Shift, Modifier::LeftShift, Modifier::RightShift);
    let fm = family_mods(mask, Modifier::Meta, Modifier::LeftMeta, Modifier::RightMeta);
    lemma_family_or(mask, Modifier::Alt, Modifier::LeftAlt, Modifier::RightAlt);
    lemma_family_or(mask, Modifier::Ctrl, Modifier::LeftCtrl, Modifier::RightCtrl);
    lemma_family_or(mask, Modifier::Shift, Modifier::LeftShift, Modifier::RightShift);
    lemma_family_or(mask, Modifier::Meta, Modifier::LeftMeta, Modifier::RightMeta);
    lemma_or_masks_concat(fa, fc);
    lemma_or_masks_concat(fa + fc, fs);
    lemma_or_masks_concat((fa + fc) + fs, fm);
    assert(canonical_mods(mask) == ((fa + fc) + fs) + fm);
    assert((((mask & 0x03u8) | (mask & 0x0Cu8)) | (mask & 0xC0u8)) | (mask & 0x30u8) == mask)
        by (bit_vector);
}

/// Canonicalization never yields both a generic modifier and either of its
/// side-specific counterparts for the same mask: within each family exactly
/// the most general satisfied label is emitted.
pub proof fn lemma_canonical_no_generic_and_side(mask: u8)
    ensures
        !(canonical_mods(mask).contains(Modifier::Alt) && (canonical_mods(mask).contains(
            Modifier::LeftAlt,
        ) || canonical_mods(mask).contains(Modifier::RightAlt))),
        !(canonical_mods(mask).contains(Modifier::Ctrl) && (canonical_mods(mask).contains(
            Modifier::LeftCtrl,
        ) || canonical_mods(mask).contains(Modifier::RightCtrl))),
        !(canonical_mods(mask).contains(Modifier::Shift) && (canonical_mods(mask).contains(
            Modifier::LeftShift,
        ) || canonical_mods(mask).contains(Modifier::RightShift))),
        !(canonical_mods(mask).contains(Modifier::Meta) && (canonical_mods(mask).contains(
            Modifier::LeftMeta,
        ) || canonical_mods(mask).contains(Modifier::RightMeta))),
{
}

} // verus!
