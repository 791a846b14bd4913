//! Global keyboard shortcut detection from raw input-device events.
//!
//! A shortcut combines a set of modifier keys (encoded as a one-byte bitmask)
//! with one ordinary key. Shortcuts parse from and display as strings such as
//! `<Ctrl>-KeyP`. A registry tracks the shortcuts of interest, and a listen
//! session turns a raw stream of per-key press/release codes into
//! edge-triggered pressed/released events.

use vstd::prelude::*;

pub mod keys;
pub mod keyset;
pub mod listener;
pub mod modifiers;
pub mod shortcut;
pub mod strutil;

pub use keys::Key;
pub use keyset::KeySet;
pub use listener::ListenSession;
pub use listener::ShortcutListener;
pub use modifiers::Modifier;
pub use modifiers::ModifierList;
pub use shortcut::ParseError;
pub use shortcut::Shortcut;
pub use shortcut::ShortcutEvent;
pub use shortcut::ShortcutState;

verus! {

/// Error returned when an input device cannot be opened.
///
/// Opening devices is all-or-nothing: if any requested device fails to open,
/// no listen session starts and this error names the offending device path.
pub struct DeviceOpenError {
    pub device: String,
}

impl DeviceOpenError {
    /// A human-readable description of the error.
    pub fn message(&self) -> (r: String)
        ensures
            r@ == "failed to open device "@ + self.device@,
    {
        let mut s = String::new();
        s.append("failed to open device ");
        s.append(self.device.as_str());
        s
    }
}

} // verus!
