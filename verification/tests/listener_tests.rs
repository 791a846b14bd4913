use evdev_shortcut::{
    DeviceOpenError, Key, ListenSession, Modifier, Shortcut, ShortcutEvent, ShortcutListener,
    ShortcutState,
};

const PRESS: i32 = 1;
const RELEASE: i32 = 0;
const REPEAT: i32 = 2;

fn meta_n() -> Shortcut {
    Shortcut::new(&[Modifier::Meta], Key::KeyN)
}

#[test]
fn registry_idempotence() {
    let mut listener = ShortcutListener::new();
    let s = meta_n();
    assert!(!listener.has(&s));
    assert!(listener.add(s));
    assert!(!listener.add(s));
    assert!(listener.has(&s));
    assert!(listener.remove(&s));
    assert!(!listener.remove(&s));
    assert!(!listener.has(&s));
}

#[test]
fn registry_snapshot() {
    let mut listener = ShortcutListener::new();
    listener.add(meta_n());
    listener.add(Shortcut::new(&[Modifier::Ctrl], Key::KeyP));
    let snapshot = listener.snapshot();
    assert_eq!(snapshot.len(), 2);
    assert!(snapshot.contains(&meta_n()));
    assert!(snapshot.contains(&Shortcut::new(&[Modifier::Ctrl], Key::KeyP)));
}

fn feed(session: &mut ListenSession, listener: &ShortcutListener, code: u16, value: i32) -> Vec<ShortcutEvent> {
    let snapshot = listener.snapshot();
    session.process_event(code, value, &snapshot)
}

#[test]
fn edge_detection_scenario() {
    let mut listener = ShortcutListener::new();
    listener.add(meta_n());
    let mut session = ListenSession::new();

    let meta = Key::KeyLeftMeta.code();
    let n = Key::KeyN.code();

    // press Meta: predicate still false, nothing emitted
    assert_eq!(feed(&mut session, &listener, meta, PRESS), vec![]);
    // press N: exactly one Pressed
    let events = feed(&mut session, &listener, n, PRESS);
    assert_eq!(events.len(), 1);
    assert_eq!(events[0].shortcut, meta_n());
    assert_eq!(events[0].state, ShortcutState::Pressed);
    // key repeat while both held: no duplicate Pressed
    assert_eq!(feed(&mut session, &listener, n, REPEAT), vec![]);
    // release N: exactly one Released
    let events = feed(&mut session, &listener, n, RELEASE);
    assert_eq!(events.len(), 1);
    assert_eq!(events[0].shortcut, meta_n());
    assert_eq!(events[0].state, ShortcutState::Released);
    // release Meta: nothing
    assert_eq!(feed(&mut session, &listener, meta, RELEASE), vec![]);
}

#[test]
fn unknown_code_resilience() {
    let mut listener = ShortcutListener::new();
    listener.add(Shortcut::new(&[Modifier::Ctrl], Key::KeyP));
    let mut session = ListenSession::new();

    assert_eq!(feed(&mut session, &listener, Key::KeyLeftCtrl.code(), PRESS), vec![]);
    let events = feed(&mut session, &listener, Key::KeyP.code(), PRESS);
    assert_eq!(events.len(), 1);
    assert_eq!(events[0].state, ShortcutState::Pressed);

    // An undecodable code must not alter the active keys and must emit
    // nothing, even fed repeatedly with press and release values.
    assert_eq!(feed(&mut session, &listener, 999, PRESS), vec![]);
    assert_eq!(feed(&mut session, &listener, 999, RELEASE), vec![]);
    assert_eq!(feed(&mut session, &listener, 0, PRESS), vec![]);

    // The shortcut is still held: releasing its key yields the Released edge.
    let events = feed(&mut session, &listener, Key::KeyP.code(), RELEASE);
    assert_eq!(events.len(), 1);
    assert_eq!(events[0].state, ShortcutState::Released);
}

#[test]
fn multi_device_interleaving() {
    // Events from different devices land in one merged stream feeding one
    // shared active-key set: Ctrl arriving from one device and P from
    // another still trigger <Ctrl>-KeyP.
    let mut listener = ShortcutListener::new();
    let ctrl_p = Shortcut::new(&[Modifier::Ctrl], Key::KeyP);
    listener.add(ctrl_p);
    let mut session = ListenSession::new();

    let from_device_a = Key::KeyLeftCtrl.code();
    let from_device_b = Key::KeyP.code();
    assert_eq!(feed(&mut session, &listener, from_device_a, PRESS), vec![]);
    let events = feed(&mut session, &listener, from_device_b, PRESS);
    assert_eq!(events.len(), 1);
    assert_eq!(events[0].shortcut, ctrl_p);
    assert_eq!(events[0].state, ShortcutState::Pressed);
}

#[test]
fn registry_changes_between_events() {
    // Adding a shortcut while its keys are already held: the next event
    // evaluates the fresh snapshot.
    let mut listener = ShortcutListener::new();
    let mut session = ListenSession::new();
    assert_eq!(feed(&mut session, &listener, Key::KeyLeftMeta.code(), PRESS), vec![]);
    assert_eq!(feed(&mut session, &listener, Key::KeyN.code(), PRESS), vec![]);
    listener.add(meta_n());
    // repeat event re-evaluates and finds the new shortcut held
    let events = feed(&mut session, &listener, Key::KeyN.code(), REPEAT);
    assert_eq!(events.len(), 1);
    assert_eq!(events[0].state, ShortcutState::Pressed);
}

#[test]
fn device_open_error_message() {
    let err = DeviceOpenError { device: String::from("/dev/input/event3") };
    assert_eq!(err.message(), "failed to open device /dev/input/event3");
}
