use evdev_shortcut::{Key, KeySet, Modifier, ModifierList, ParseError, Shortcut, ShortcutState};

fn check_parse_display(s: &str, shortcut: Shortcut) {
    assert_eq!(s, shortcut.display());
    assert_eq!(shortcut, Shortcut::parse(s).unwrap());
}

#[test]
fn shortcut_parse_display_test() {
    check_parse_display("KeyP", Shortcut::new(&[], Key::KeyP));
    check_parse_display("<Ctrl>-KeyP", Shortcut::new(&[Modifier::Ctrl], Key::KeyP));
    check_parse_display(
        "<LeftAlt><LeftCtrl>-KeyLeft",
        Shortcut::new(&[Modifier::LeftCtrl, Modifier::LeftAlt], Key::KeyLeft),
    );
}

#[test]
fn test_modifier_list() {
    for modifiers in [
        &[Modifier::Ctrl][..],
        &[Modifier::LeftAlt, Modifier::LeftCtrl][..],
        &[Modifier::Shift, Modifier::Meta][..],
    ] {
        assert_eq!(modifiers.to_vec(), ModifierList::new(modifiers).modifiers());
    }
}

#[test]
fn parse_display_round_trip_every_mask() {
    // Round-trip law on every constructible mask value.
    for mask in 0u8..=255 {
        let shortcut = Shortcut { modifiers: ModifierList::from_mask(mask), key: Key::KeyP };
        let displayed = shortcut.display();
        assert_eq!(shortcut, Shortcut::parse(&displayed).unwrap());
    }
}

#[test]
fn parse_accepts_redundant_modifiers() {
    // Parsing is order-insensitive and OR-reduces: both sides plus the
    // generic name land on the same mask.
    let a = Shortcut::parse("<LeftAlt><RightAlt>-KeyP").unwrap();
    let b = Shortcut::parse("<Alt>-KeyP").unwrap();
    assert_eq!(a, b);
}

#[test]
fn parse_error_malformed_token() {
    assert_eq!(Shortcut::parse("Ctrl>-KeyP").unwrap_err(), ParseError::MalformedModifier);
    assert_eq!(Shortcut::parse("<Ctrl-KeyP").unwrap_err(), ParseError::MalformedModifier);
}

#[test]
fn parse_error_unknown_modifier() {
    assert_eq!(Shortcut::parse("<Ctl>-KeyP").unwrap_err(), ParseError::UnknownModifier);
    assert_eq!(Shortcut::parse("<>-KeyP").unwrap_err(), ParseError::UnknownModifier);
}

#[test]
fn parse_error_unknown_key() {
    assert_eq!(Shortcut::parse("<Ctrl>-KeyQQ").unwrap_err(), ParseError::UnknownKey);
    assert_eq!(Shortcut::parse("NotAKey").unwrap_err(), ParseError::UnknownKey);
    assert_eq!(Shortcut::parse("").unwrap_err(), ParseError::UnknownKey);
}

#[test]
fn parse_error_messages() {
    assert_eq!(ParseError::MalformedModifier.as_str(), "malformed modifier token");
    assert_eq!(ParseError::UnknownModifier.as_str(), "unknown modifier name");
    assert_eq!(ParseError::UnknownKey.as_str(), "unknown key name");
}

#[test]
fn identifier_test() {
    assert_eq!("Ctrl_KeyP", Shortcut::new(&[Modifier::Ctrl], Key::KeyP).identifier());
    assert_eq!("KeyP", Shortcut::new(&[], Key::KeyP).identifier());
    assert_eq!(
        "LeftAltLeftCtrl_KeyLeft",
        Shortcut::new(&[Modifier::LeftAlt, Modifier::LeftCtrl], Key::KeyLeft).identifier()
    );
}

#[test]
fn modifier_masks() {
    assert_eq!(Modifier::Alt.mask(), 0b0000_0011);
    assert_eq!(Modifier::LeftAlt.mask(), 0b0000_0001);
    assert_eq!(Modifier::RightAlt.mask(), 0b0000_0010);
    assert_eq!(Modifier::Ctrl.mask(), 0b0000_1100);
    assert_eq!(Modifier::Meta.mask(), 0b0011_0000);
    assert_eq!(Modifier::Shift.mask(), 0b1100_0000);
    assert_eq!(Modifier::Alt.mask(), Modifier::LeftAlt.mask() | Modifier::RightAlt.mask());
    assert_eq!(Modifier::Ctrl.mask(), Modifier::LeftCtrl.mask() | Modifier::RightCtrl.mask());
    assert_eq!(Modifier::Meta.mask(), Modifier::LeftMeta.mask() | Modifier::RightMeta.mask());
    assert_eq!(Modifier::Shift.mask(), Modifier::LeftShift.mask() | Modifier::RightShift.mask());
}

#[test]
fn mask_from_key_values() {
    assert_eq!(Modifier::mask_from_key(Key::KeyLeftAlt), 0b0000_0001);
    assert_eq!(Modifier::mask_from_key(Key::KeyRightAlt), 0b0000_0010);
    assert_eq!(Modifier::mask_from_key(Key::KeyLeftCtrl), 0b0000_0100);
    assert_eq!(Modifier::mask_from_key(Key::KeyRightCtrl), 0b0000_1000);
    assert_eq!(Modifier::mask_from_key(Key::KeyLeftMeta), 0b0001_0000);
    assert_eq!(Modifier::mask_from_key(Key::KeyRightMeta), 0b0010_0000);
    assert_eq!(Modifier::mask_from_key(Key::KeyLeftShift), 0b0100_0000);
    assert_eq!(Modifier::mask_from_key(Key::KeyRightShift), 0b1000_0000);
    assert_eq!(Modifier::mask_from_key(Key::KeyA), 0);
    assert_eq!(Modifier::mask_from_key(Key::KeyP), 0);
}

#[test]
fn modifier_list_basics() {
    let empty = ModifierList::new(&[]);
    assert!(empty.is_empty());
    assert_eq!(empty.mask(), 0);
    assert_eq!(empty.len(), 0);
    let both = ModifierList::new(&[Modifier::Ctrl, Modifier::Alt]);
    assert!(!both.is_empty());
    assert_eq!(both.mask(), 0b0000_1111);
    assert_eq!(both.len(), 2);
    assert_eq!(ModifierList::default(), empty);
}

#[test]
fn canonical_modifiers_prefer_generic() {
    // Canonicalization: a generic label suppresses its side-specific ones.
    assert_eq!(ModifierList::from_mask(0b0000_0011).modifiers(), vec![Modifier::Alt]);
    assert_eq!(ModifierList::from_mask(0b0000_0001).modifiers(), vec![Modifier::LeftAlt]);
    assert_eq!(ModifierList::from_mask(0b0000_0010).modifiers(), vec![Modifier::RightAlt]);
    for mask in 0u8..=255 {
        let mods = ModifierList::from_mask(mask).modifiers();
        for family in [
            (Modifier::Alt, Modifier::LeftAlt, Modifier::RightAlt),
            (Modifier::Ctrl, Modifier::LeftCtrl, Modifier::RightCtrl),
            (Modifier::Shift, Modifier::LeftShift, Modifier::RightShift),
            (Modifier::Meta, Modifier::LeftMeta, Modifier::RightMeta),
        ] {
            let (generic, left, right) = family;
            assert!(
                !(mods.contains(&generic) && (mods.contains(&left) || mods.contains(&right)))
            );
        }
    }
}

#[test]
fn canonical_modifiers_display_order() {
    let all = ModifierList::from_mask(0xFF);
    assert_eq!(
        all.modifiers(),
        vec![Modifier::Alt, Modifier::Ctrl, Modifier::Shift, Modifier::Meta]
    );
}

fn keyset(keys: &[Key]) -> KeySet {
    let mut set = KeySet::new();
    for key in keys {
        set.insert(*key);
    }
    set
}

fn triggered(s: &str, keys: &[Key]) -> bool {
    let shortcut = Shortcut::parse(s).unwrap();
    shortcut.is_triggered(&keyset(keys))
}

#[test]
fn shortcut_triggered() {
    assert!(!triggered("<Ctrl>-KeyP", &[]));
    assert!(triggered("<Ctrl>-KeyP", &[Key::KeyLeftCtrl, Key::KeyP]));
    assert!(triggered("<Ctrl>-KeyP", &[Key::KeyRightCtrl, Key::KeyP]));
    assert!(triggered("<LeftCtrl>-KeyP", &[Key::KeyLeftCtrl, Key::KeyP]));
    assert!(!triggered("<LeftCtrl>-KeyP", &[Key::KeyRightCtrl, Key::KeyP]));
    assert!(!triggered("<Ctrl>-KeyP", &[Key::KeyLeftCtrl, Key::KeyLeftAlt, Key::KeyP]));
    assert!(!triggered("<LeftCtrl><LeftAlt>-KeyLeft", &[]));
    assert!(!triggered("<LeftCtrl><LeftAlt>-KeyLeft", &[Key::KeyLeft]));
    assert!(!triggered("<LeftCtrl><LeftAlt>-KeyLeft", &[Key::KeyLeftCtrl, Key::KeyLeft]));
    assert!(!triggered("<LeftCtrl><LeftAlt>-KeyLeft", &[Key::KeyLeftCtrl, Key::KeyLeftAlt]));
    assert!(!triggered(
        "<LeftCtrl><LeftAlt>-KeyLeft",
        &[Key::KeyLeftCtrl, Key::KeyLeftAlt, Key::KeyRight]
    ));
    assert!(triggered(
        "<LeftCtrl><LeftAlt>-KeyLeft",
        &[Key::KeyLeftCtrl, Key::KeyLeftAlt, Key::KeyLeft]
    ));
    assert!(!triggered(
        "<LeftCtrl><LeftAlt>-KeyLeft",
        &[Key::KeyLeftCtrl, Key::KeyRightAlt, Key::KeyLeft]
    ));
    assert!(triggered("<Ctrl><Alt>-KeyLeft", &[Key::KeyLeftCtrl, Key::KeyRightAlt, Key::KeyLeft]));
}

#[test]
fn bare_key_triggering() {
    assert!(triggered("KeyP", &[Key::KeyP]));
    assert!(!triggered("KeyP", &[]));
    // Holding a modifier defeats a modifier-less shortcut.
    assert!(!triggered("KeyP", &[Key::KeyLeftCtrl, Key::KeyP]));
}

#[test]
fn key_code_round_trip() {
    assert_eq!(Key::from_code(30), Some(Key::KeyA));
    assert_eq!(Key::from_code(25), Some(Key::KeyP));
    assert_eq!(Key::from_code(125), Some(Key::KeyLeftMeta));
    assert_eq!(Key::from_code(999), None);
    assert_eq!(Key::from_code(0), None);
    for code in 0u16..=300 {
        if let Some(key) = Key::from_code(code) {
            assert_eq!(key.code(), code);
        }
    }
}

#[test]
fn key_name_round_trip() {
    assert_eq!(Key::KeyP.name(), "KeyP");
    assert_eq!(Key::KeyLeftMeta.name(), "KeyLeftMeta");
    assert_eq!(Key::from_name("KeyP"), Some(Key::KeyP));
    assert_eq!(Key::from_name("NoSuchKey"), None);
    for code in 0u16..=300 {
        if let Some(key) = Key::from_code(code) {
            assert_eq!(Key::from_name(key.name()), Some(key));
        }
    }
}

#[test]
fn modifier_name_round_trip() {
    for modifier in [
        Modifier::Alt,
        Modifier::LeftAlt,
        Modifier::RightAlt,
        Modifier::Ctrl,
        Modifier::LeftCtrl,
        Modifier::RightCtrl,
        Modifier::Shift,
        Modifier::LeftShift,
        Modifier::RightShift,
        Modifier::Meta,
        Modifier::LeftMeta,
        Modifier::RightMeta,
    ] {
        assert_eq!(Modifier::from_name(modifier.name()), Some(modifier));
    }
    assert_eq!(Modifier::from_name("Hyper"), None);
}

#[test]
fn shortcut_state_as_str() {
    assert_eq!(ShortcutState::Pressed.as_str(), "pressed");
    assert_eq!(ShortcutState::Released.as_str(), "released");
}

#[test]
fn keyset_insert_remove() {
    let mut set = KeySet::new();
    assert!(!set.contains(Key::KeyA));
    set.insert(Key::KeyA);
    set.insert(Key::KeyA);
    assert!(set.contains(Key::KeyA));
    set.remove(Key::KeyA);
    assert!(!set.contains(Key::KeyA));
    set.remove(Key::KeyA);
    assert!(!set.contains(Key::KeyA));
}
