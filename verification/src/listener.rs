//! The shortcut registry and the per-session edge-detection engine.
//!
//! The registry is the set of shortcuts currently of interest. A listen
//! session owns the active-key set and the triggered set; each raw event
//! updates the active keys, re-evaluates a snapshot of the registry, and
//! emits one event for every shortcut whose triggered status flipped.

use vstd::prelude::*;

use crate::keys::{key_of_code, Key};
use crate::keyset::KeySet;
use crate::shortcut::{triggered, Shortcut, ShortcutEvent, ShortcutState};

verus! {

/// A duplicate-free vector of shortcuts, viewed as a set.
pub(crate) struct ShortcutSet {
    items: Vec<Shortcut>,
}

impl ShortcutSet {
    pub(crate) closed spec fn to_set(self) -> Set<Shortcut> {
        Set::new(|s: Shortcut| self.items@.contains(s))
    }

    pub(crate) closed spec fn wf(self) -> bool {
        self.items@.no_duplicates()
    }

    pub(crate) fn new() -> (r: ShortcutSet)
        ensures
            r.wf(),
            r.to_set() == Set::<Shortcut>::empty(),
    {
        let r = ShortcutSet { items: Vec::new() };
        proof {
            assert(r.to_set() =~= Set::<Shortcut>::empty());
        }
        r
    }

    pub(crate) fn contains(&self, s: Shortcut) -> (r: bool)
        ensures
            r == self.to_set().contains(s),
    {
        let mut i: usize = 0;
        while i < self.items.len()
            invariant
                i <= self.items@.len(),
                forall|j: int| 0 <= j < i ==> self.items@[j] != s,
            decreases self.items@.len() - i,
        {
            if self.items[i] == s {
                return true;
            }
            i = i + 1;
        }
        false
    }

    /// Insert; true exactly when the shortcut was absent.
    pub(crate) fn insert(&mut self, s: Shortcut) -> (r: bool)
        requires
            old(self).wf(),
        ensures
            final(self).wf(),
            final(self).to_set() == old(self).to_set().insert(s),
            r == !old(self).to_set().contains(s),
    {
        if self.contains(s) {
            proof {
                assert(self.to_set() =~= old(self).to_set().insert(s));
            }
            false
        } else {
            proof {
                assert(forall|j: int| 0 <= j < self.items@.len() ==> self.items@[j] != s);
            }
            self.items.push(s);
            proof {
                let prev = old(self).items@;
                let cur = self.items@;
                assert(cur == prev.push(s));
                assert(cur[cur.len() - 1] == s);
                assert(forall|j: int| 0 <= j < prev.len() ==> cur[j] == prev[j]);
                assert forall|x: Shortcut| old(self).to_set().insert(s).contains(x) implies self
                    .to_set().contains(x) by {
                    if x == s {
                        assert(cur.contains(s));
                    } else {
                        let idx = choose|idx: int| 0 <= idx < prev.len() && prev[idx] == x;
                        assert(cur[idx] == x);
                    }
                }
                assert(self.to_set() =~= old(self).to_set().insert(s));
            }
            true
        }
    }

    /// Remove; true exactly when the shortcut was present.
    pub(crate) fn remove(&mut self, s: Shortcut) -> (r: bool)
        requires
            old(self).wf(),
        ensures
            final(self).wf(),
            final(self).to_set() == old(self).to_set().remove(s),
            r == old(self).to_set().contains(s),
    {
        let n = self.items.len();
        let mut i: usize = 0;
        while i < n
            invariant
                old(self).wf(),
                *self == *old(self),
                n == self.items@.len(),
                i <= n,
                forall|j: int| 0 <= j < i ==> self.items@[j] != s,
            decreases n - i,
        {
            if self.items[i] == s {
                self.items.remove(i);
                proof {
                    let prev = old(self).items@;
                    let cur = self.items@;
                    assert(cur == prev.remove(i as int));
                    assert(forall|j: int| 0 <= j < i ==> cur[j] == prev[j]);
                    assert(forall|j: int| i <= j < cur.len() ==> cur[j] == prev[j + 1]);
                    assert forall|p: int, q: int|
                        0 <= p < cur.len() && 0 <= q < cur.len() && p != q implies cur[p]
                        != cur[q] by {
                        let p1: int = if p < i { p } else { p + 1 };
                        let q1: int = if q < i { q } else { q + 1 };
                        assert(prev[p1] == cur[p]);
                        assert(prev[q1] == cur[q]);
                    }
                    assert(cur.no_duplicates());
                    assert forall|x: Shortcut| self.to_set().contains(x) implies old(
                        self,
                    ).to_set().remove(s).contains(x) by {
                        let idx = choose|idx: int| 0 <= idx < cur.len() && cur[idx] == x;
                        if idx < i {
                            assert(prev[idx] == x);
                        } else {
                            assert(prev[idx + 1] == x);
                        }
                        assert(x != s);
                    }
                    assert forall|x: Shortcut| old(self).to_set().remove(s).contains(x) implies self
                        .to_set().contains(x) by {
                        let idx = choose|idx: int| 0 <= idx < prev.len() && prev[idx] == x;
                        assert(idx != i);
                        if idx < i {
                            assert(cur[idx] == x);
                        } else {
                            assert(cur[idx - 1] == x);
                        }
                    }
                    assert(self.to_set() =~= old(self).to_set().remove(s));
                }
                return true;
            }
            i = i + 1;
        }
        proof {
            assert(!old(self).to_set().contains(s));
            assert(self.to_set() =~= old(self).to_set().remove(s));
        }
        false
    }

    /// A copy of the contents: duplicate-free, same membership.
    pub(crate) fn snapshot(&self) -> (r: Vec<Shortcut>)
        requires
            self.wf(),
        ensures
            r@.no_duplicates(),
            forall|x: Shortcut| r@.contains(x) == self.to_set().contains(x),
    {
        let mut r: Vec<Shortcut> = Vec::new();
        let mut i: usize = 0;
        while i < self.items.len()
            invariant
                i <= self.items@.len(),
                r@ == self.items@.take(i as int),
            decreases self.items@.len() - i,
        {
            r.push(self.items[i]);
            proof {
                assert(self.items@.take(i + 1) =~= self.items@.take(i as int).push(
                    self.items@[i as int],
                ));
            }
            i = i + 1;
        }
        proof {
            assert(self.items@.take(self.items@.len() as int) =~= self.items@);
        }
        r
    }
}

/// The shortcut registry: the mutation-safe set of shortcuts of interest.
///
/// The listen loop snapshots the registry on each event, so callers may add
/// and remove shortcuts at any time; share the listener behind a lock and
/// hold the lock only for the single call.
pub struct ShortcutListener {
    shortcuts: ShortcutSet,
}

impl View for ShortcutListener {
    type V = Set<Shortcut>;

    closed spec fn view(&self) -> Set<Shortcut> {
        self.shortcuts.to_set()
    }
}

impl ShortcutListener {
    /// Internal well-formedness, established by `new` and preserved by every
    /// method.
    pub closed spec fn wf(self) -> bool {
        self.shortcuts.wf()
    }

    /// An empty registry.
    pub fn new() -> (r: ShortcutListener)
        ensures
            r.wf(),
            r@ == Set::<Shortcut>::empty(),
    {
        ShortcutListener { shortcuts: ShortcutSet::new() }
    }

    /// Register a shortcut; true exactly when it was not yet registered.
    pub fn add(&mut self, shortcut: Shortcut) -> (r: bool)
        requires
            old(self).wf(),
        ensures
            final(self).wf(),
            final(self)@ == old(self)@.insert(shortcut),
            r == !old(self)@.contains(shortcut),
    {
        self.shortcuts.insert(shortcut)
    }

    /// Unregister a shortcut; true exactly when it was registered.
    pub fn remove(&mut self, shortcut: &Shortcut) -> (r: bool)
        requires
            old(self).wf(),
        ensures
            final(self).wf(),
            final(self)@ == old(self)@.remove(*shortcut),
            r == old(self)@.contains(*shortcut),
    {
        self.shortcuts.remove(*shortcut)
    }

    /// Whether a shortcut is currently registered.
    pub fn has(&self, shortcut: &Shortcut) -> (r: bool)
        ensures
            r == self@.contains(*shortcut),
    {
        self.shortcuts.contains(*shortcut)
    }

    /// A snapshot of the registered shortcuts, for one round of evaluation.
    pub fn snapshot(&self) -> (r: Vec<Shortcut>)
        requires
            self.wf(),
        ensures
            r@.no_duplicates(),
            forall|x: Shortcut| r@.contains(x) == self@.contains(x),
    {
        self.shortcuts.snapshot()
    }
}

/// The active-key set after one raw event: a decodable code inserts the key
/// on value 1, removes it on value 0, and is ignored on any other value
/// (key repeat); an undecodable code changes nothing.
pub open spec fn step_active(active: Set<Key>, code: u16, value: i32) -> Set<Key> {
    match key_of_code(code) {
        Some(k) => if value == 1 {
            active.insert(k)
        } else if value == 0 {
            active.remove(k)
        } else {
            active
        },
        None => active,
    }
}

/// The triggered set after evaluating the snapshot in order against the
/// active keys: each shortcut whose status flipped is inserted or removed.
pub open spec fn scan_pressed(snap: Seq<Shortcut>, active: Set<Key>, pressed: Set<Shortcut>) -> Set<
    Shortcut,
>
    decreases snap.len(),
{
    if snap.len() == 0 {
        pressed
    } else {
        let s0 = snap[0];
        let p = if triggered(s0, active) && !pressed.contains(s0) {
            pressed.insert(s0)
        } else if !triggered(s0, active) && pressed.contains(s0) {
            pressed.remove(s0)
        } else {
            pressed
        };
        scan_pressed(snap.subrange(1, snap.len() as int), active, p)
    }
}

/// The events emitted while evaluating the snapshot in order: one `Pressed`
/// for each false-to-true flip, one `Released` for each true-to-false flip,
/// nothing for an unchanged status.
pub open spec fn scan_events(snap: Seq<Shortcut>, active: Set<Key>, pressed: Set<Shortcut>) -> Seq<
    ShortcutEvent,
>
    decreases snap.len(),
{
    if snap.len() == 0 {
        Seq::empty()
    } else {
        let s0 = snap[0];
        let now = triggered(s0, active);
        let was = pressed.contains(s0);
        let evs: Seq<ShortcutEvent> = if now && !was {
            seq![ShortcutEvent { shortcut: s0, state: ShortcutState::Pressed }]
        } else if !now && was {
            seq![ShortcutEvent { shortcut: s0, state: ShortcutState::Released }]
        } else {
            Seq::empty()
        };
        let p = if now && !was {
            pressed.insert(s0)
        } else if !now && was {
            pressed.remove(s0)
        } else {
            pressed
        };
        evs + scan_events(snap.subrange(1, snap.len() as int), active, p)
    }
}

/// One listen session's private state: the active-key set and the triggered
/// set used for edge detection. Created when a session starts, owned by that
/// session alone.
pub struct ListenSession {
    active: KeySet,
    pressed: ShortcutSet,
}

impl ListenSession {
    /// The keys currently held, as seen by this session.
    pub closed spec fn active_keys(self) -> Set<Key> {
        self.active@
    }

    /// The shortcuts whose predicate held at the last evaluation.
    pub closed spec fn pressed_set(self) -> Set<Shortcut> {
        self.pressed.to_set()
    }

    /// Internal well-formedness, established by `new` and preserved by
    /// `process_event`.
    pub closed spec fn wf(self) -> bool {
        self.active.wf() && self.pressed.wf()
    }

    /// A fresh session: no key held, no shortcut triggered.
    pub fn new() -> (r: ListenSession)
        ensures
            r.wf(),
            r.active_keys() == Set::<Key>::empty(),
            r.pressed_set() == Set::<Shortcut>::empty(),
    {
        ListenSession { active: KeySet::new(), pressed: ShortcutSet::new() }
    }

    /// Process one raw event against a snapshot of the registry: update the
    /// active-key set from the event's code and value, then emit one event
    /// per registered shortcut whose triggered status flipped.
    pub fn process_event(&mut self, code: u16, value: i32, snapshot: &Vec<Shortcut>) -> (events:
        Vec<ShortcutEvent>)
        requires
            old(self).wf(),
        ensures
            final(self).wf(),
            final(self).active_keys() == step_active(old(self).active_keys(), code, value),
            events@ == scan_events(snapshot@, final(self).active_keys(), old(self).pressed_set()),
            final(self).pressed_set() == scan_pressed(
                snapshot@,
                final(self).active_keys(),
                old(self).pressed_set(),
            ),
    {
        match Key::from_code(code) {
            Some(k) => {
                if value == 1 {
                    self.active.insert(k);
                } else if value == 0 {
                    self.active.remove(k);
                }
            },
            None => {},
        }
        let ghost act = self.active@;
        let ghost p0 = self.pressed.to_set();
        let n = snapshot.len();
        let mut events: Vec<ShortcutEvent> = Vec::new();
        proof {
            assert(snapshot@.subrange(0, n as int) =~= snapshot@);
            assert(events@ + scan_events(snapshot@, act, p0) =~= scan_events(snapshot@, act, p0));
        }
        let mut i: usize = 0;
        while i < n
            invariant
                i <= n,
                n == snapshot@.len(),
                self.active.wf(),
                self.pressed.wf(),
                self.active@ == act,
                scan_events(snapshot@, act, p0) == events@ + scan_events(
                    snapshot@.subrange(i as int, n as int),
                    act,
                    self.pressed.to_set(),
                ),
                scan_pressed(snapshot@, act, p0) == scan_pressed(
                    snapshot@.subrange(i as int, n as int),
                    act,
                    self.pressed.to_set(),
                ),
            decreases n - i,
        {
            let ghost suffix = snapshot@.subrange(i as int, n as int);
            let ghost p_cur = self.pressed.to_set();
            let ghost evs_prev = events@;
            let sc = snapshot[i];
            let now = sc.is_triggered(&self.active);
            let was = self.pressed.contains(sc);
            if now && !was {
                self.pressed.insert(sc);
                events.push(ShortcutEvent { shortcut: sc, state: ShortcutState::Pressed });
            } else if !now && was {
                self.pressed.remove(sc);
                events.push(ShortcutEvent { shortcut: sc, state: ShortcutState::Released });
            }
            proof {
                assert(suffix[0] == snapshot@[i as int]);
                assert(suffix.subrange(1, suffix.len() as int) =~= snapshot@.subrange(
                    i + 1,
                    n as int,
                ));
                let evs_here: Seq<ShortcutEvent> = if now && !was {
                    seq![ShortcutEvent { shortcut: sc, state: ShortcutState::Pressed }]
                } else if !now && was {
                    seq![ShortcutEvent { shortcut: sc, state: ShortcutState::Released }]
                } else {
                    Seq::empty()
                };
                assert(events@ =~= evs_prev + evs_here);
                assert(scan_events(suffix, act, p_cur) == evs_here + scan_events(
                    snapshot@.subrange(i + 1, n as int),
                    act,
                    self.pressed.to_set(),
                ));
                assert(evs_prev + (evs_here + scan_events(
                    snapshot@.subrange(i + 1, n as int),
                    act,
                    self.pressed.to_set(),
                )) =~= (evs_prev + evs_here) + scan_events(
                    snapshot@.subrange(i + 1, n as int),
                    act,
                    self.pressed.to_set(),
                ));
            }
            i = i + 1;
        }
        proof {
            assert(snapshot@.subrange(n as int, n as int).len() == 0);
            assert(events@ + Seq::<ShortcutEvent>::empty() =~= events@);
        }
        events
    }
}

/// A raw event whose code decodes to no key never alters the active-key
/// set; and when the triggered set already agrees with the predicate on
/// every snapshot entry (as it does between state changes), the scan emits
/// nothing and changes nothing.
pub proof fn lemma_unknown_code_is_silent(
    snap: Seq<Shortcut>,
    active: Set<Key>,
    pressed: Set<Shortcut>,
    code: u16,
    value: i32,
)
    requires
        key_of_code(code) is None,
        forall|s: Shortcut| snap.contains(s) ==> pressed.contains(s) == triggered(s, active),
    ensures
        step_active(active, code, value) == active,
        scan_events(snap, active, pressed) == Seq::<ShortcutEvent>::empty(),
        scan_pressed(snap, active, pressed) == pressed,
    decreases snap.len(),
{
    if snap.len() == 0 {
    } else {
        let tail = snap.subrange(1, snap.len() as int);
        assert(snap.contains(snap[0]));
        assert forall|s: Shortcut| tail.contains(s) implies snap.contains(s) by {
            let idx = choose|idx: int| 0 <= idx < tail.len() && tail[idx] == s;
            assert(snap[idx + 1] == s);
        }
        lemma_unknown_code_is_silent(tail, active, pressed, code, value);
        assert(Seq::<ShortcutEvent>::empty() + Seq::<ShortcutEvent>::empty()
            =~= Seq::<ShortcutEvent>::empty());
    }
}

/// Exactly-once-per-edge emission: over a duplicate-free snapshot, every
/// emitted event is a genuine flip of its shortcut's triggered status (with
/// `Pressed` exactly on a false-to-true flip), every flipped shortcut is
/// emitted, and no shortcut is emitted twice.
pub proof fn lemma_scan_events_exact(snap: Seq<Shortcut>, active: Set<Key>, pressed: Set<Shortcut>)
    requires
        snap.no_duplicates(),
    ensures
        forall|j: int|
            #![trigger scan_events(snap, active, pressed)[j]]
            0 <= j < scan_events(snap, active, pressed).len() ==> {
                let ev = scan_events(snap, active, pressed)[j];
                &&& snap.contains(ev.shortcut)
                &&& triggered(ev.shortcut, active) != pressed.contains(ev.shortcut)
                &&& (ev.state == ShortcutState::Pressed <==> triggered(ev.shortcut, active))
            },
        forall|s: Shortcut|
            #![trigger snap.contains(s)]
            snap.contains(s) && triggered(s, active) != pressed.contains(s) ==> exists|j: int|
                #![trigger scan_events(snap, active, pressed)[j]]
                0 <= j < scan_events(snap, active, pressed).len() && scan_events(
                    snap,
                    active,
                    pressed,
                )[j].shortcut == s,
        forall|j: int, k: int|
            #![trigger scan_events(snap, active, pressed)[j], scan_events(snap, active, pressed)[k]]
            0 <= j < k < scan_events(snap, active, pressed).len() ==> scan_events(
                snap,
                active,
                pressed,
            )[j].shortcut != scan_events(snap, active, pressed)[k].shortcut,
    decreases snap.len(),
{
    if snap.len() == 0 {
    } else {
        let s0 = snap[0];
        let now = triggered(s0, active);
        let was = pressed.contains(s0);
        let tail = snap.subrange(1, snap.len() as int);
        let evs0: Seq<ShortcutEvent> = if now && !was {
            seq![ShortcutEvent { shortcut: s0, state: ShortcutState::Pressed }]
        } else if !now && was {
            seq![ShortcutEvent { shortcut: s0, state: ShortcutState::Released }]
        } else {
            Seq::empty()
        };
        let p1 = if now && !was {
            pressed.insert(s0)
        } else if !now && was {
            pressed.remove(s0)
        } else {
            pressed
        };
        let evs = scan_events(snap, active, pressed);
        let tevs = scan_events(tail, active, p1);
        assert(evs == evs0 + tevs);
        assert forall|p: int, q: int|
            0 <= p < tail.len() && 0 <= q < tail.len() && p != q implies tail[p] != tail[q] by {
            assert(tail[p] == snap[p + 1]);
            assert(tail[q] == snap[q + 1]);
        }
        assert(tail.no_duplicates());
        assert forall|s: Shortcut| tail.contains(s) implies snap.contains(s) && s != s0 by {
            let idx = choose|idx: int| 0 <= idx < tail.len() && tail[idx] == s;
            assert(snap[idx + 1] == s);
        }
        assert forall|s: Shortcut| snap.contains(s) && s != s0 implies tail.contains(s) by {
            let idx = choose|idx: int| 0 <= idx < snap.len() && snap[idx] == s;
            assert(idx != 0);
            assert(tail[idx - 1] == s);
        }
        lemma_scan_events_exact(tail, active, p1);
        assert(snap.contains(s0));
        assert forall|j: int| #![trigger evs[j]] 0 <= j < evs.len() implies {
            let ev = evs[j];
            &&& snap.contains(ev.shortcut)
            &&& triggered(ev.shortcut, active) != pressed.contains(ev.shortcut)
            &&& (ev.state == ShortcutState::Pressed <==> triggered(ev.shortcut, active))
        } by {
            if j < evs0.len() {
                assert(evs[j] == evs0[0]);
            } else {
                let ev = tevs[j - evs0.len()];
                assert(evs[j] == ev);
                assert(tail.contains(ev.shortcut));
                assert(ev.shortcut != s0);
                assert(p1.contains(ev.shortcut) == pressed.contains(ev.shortcut));
            }
        }
        assert forall|s: Shortcut|
            snap.contains(s) && triggered(s, active) != pressed.contains(s) implies exists|j: int|
            0 <= j < evs.len() && evs[j].shortcut == s by {
            if s == s0 {
                assert(evs0.len() == 1);
                assert(evs[0] == evs0[0]);
                assert(0 <= 0 < evs.len() && evs[0].shortcut == s);
            } else {
                assert(tail.contains(s));
                assert(p1.contains(s) == pressed.contains(s));
                let j0 = choose|j0: int| 0 <= j0 < tevs.len() && tevs[j0].shortcut == s;
                let j = j0 + evs0.len();
                assert(evs[j] == tevs[j0]);
                assert(0 <= j < evs.len() && evs[j].shortcut == s);
            }
        }
        assert forall|j: int, k: int| 0 <= j < k < evs.len() implies evs[j].shortcut
            != evs[k].shortcut by {
            if j < evs0.len() {
                assert(evs[j] == evs0[0]);
                let ev = tevs[k - evs0.len()];
                assert(evs[k] == ev);
                assert(tail.contains(ev.shortcut));
            } else {
                assert(evs[j] == tevs[j - evs0.len()]);
                assert(evs[k] == tevs[k - evs0.len()]);
            }
        }
    }
}

/// After a scan, the triggered set agrees with the predicate on every
/// snapshot entry, and entries outside the snapshot are untouched: this is
/// the edge-detection invariant that makes each flip emit exactly once.
pub proof fn lemma_scan_settles(snap: Seq<Shortcut>, active: Set<Key>, pressed: Set<Shortcut>)
    ensures
        forall|s: Shortcut|
            snap.contains(s) ==> scan_pressed(snap, active, pressed).contains(s) == triggered(
                s,
                active,
            ),
        forall|s: Shortcut|
            !snap.contains(s) ==> scan_pressed(snap, active, pressed).contains(s)
                == pressed.contains(s),
    decreases snap.len(),
{
    if snap.len() == 0 {
    } else {
        let s0 = snap[0];
        let tail = snap.subrange(1, snap.len() as int);
        let p1 = if triggered(s0, active) && !pressed.contains(s0) {
            pressed.insert(s0)
        } else if !triggered(s0, active) && pressed.contains(s0) {
            pressed.remove(s0)
        } else {
            pressed
        };
        assert(p1.contains(s0) == triggered(s0, active));
        lemma_scan_settles(tail, active, p1);
        assert(snap.contains(s0));
        assert forall|s: Shortcut| tail.contains(s) implies snap.contains(s) by {
            let idx = choose|idx: int| 0 <= idx < tail.len() && tail[idx] == s;
            assert(snap[idx + 1] == s);
        }
        assert forall|s: Shortcut| snap.contains(s) && s != s0 implies tail.contains(s) by {
            let idx = choose|idx: int| 0 <= idx < snap.len() && snap[idx] == s;
            assert(idx != 0);
            assert(tail[idx - 1] == s);
        }
    }
}

} // verus!
