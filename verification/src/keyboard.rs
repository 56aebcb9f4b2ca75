//! The 16-key input latch.
//!
//! Sixteen boolean key states indexed 0x0 through 0xF, plus the one-shot
//! "waiting for a key" latch of the wait-for-key instruction. The key
//! states are mutated only by the embedding program's key-event bridge,
//! which hands in already-mapped key codes; the interpreter arms the wait
//! and polls for the key whose release resolved it.

use vstd::prelude::*;

verus! {

/// Number of keys of the input device.
pub const KEY_COUNT: usize = 16;

/// Abstract state of the latch.
pub ghost struct KeyboardView {
    /// Pressed state of each of the sixteen keys.
    pub keys: Seq<bool>,
    /// Whether a wait-for-key instruction is armed and unresolved.
    pub waiting: bool,
    /// The key whose release resolved the last wait, until the
    /// interpreter consumes it.
    pub key_register: Option<usize>,
}

/// A well-formed latch view: sixteen keys, and a resolved key, if any,
/// within the sixteen codes.
pub open spec fn keyboard_wf(k: KeyboardView) -> bool {
    &&& k.keys.len() == KEY_COUNT
    &&& k.key_register matches Some(key) ==> key < KEY_COUNT
}

/// The input latch.
pub struct Keyboard {
    keys: [bool; 16],
    waiting_for_key_release: bool,
    key_register: Option<usize>,
}

impl View for Keyboard {
    type V = KeyboardView;

    closed spec fn view(&self) -> KeyboardView {
        KeyboardView {
            keys: self.keys@,
            waiting: self.waiting_for_key_release,
            key_register: self.key_register,
        }
    }
}

impl Keyboard {
    /// A fresh latch: no key pressed, no wait armed, no resolved key.
    pub fn new() -> (r: Self)
        ensures
            keyboard_wf(r@),
            forall|k: int| 0 <= k < KEY_COUNT ==> !r@.keys[k],
            !r@.waiting,
            r@.key_register is None,
    {
        Keyboard { keys: [false;16], waiting_for_key_release: false, key_register: None }
    }

    /// The pressed state of all sixteen keys.
    pub fn get_keys(&mut self) -> (r: [bool; 16])
        ensures
            *final(self) == *old(self),
            r@ == old(self)@.keys,
    {
        self.keys
    }

    /// The key whose release resolved the last wait, if it has not been
    /// consumed yet.
    pub fn get_key_register(&self) -> (r: Option<usize>)
        ensures
            r == self@.key_register,
    {
        self.key_register
    }

    /// Consume the resolved key: return it and clear it from the latch.
    pub fn take_key_register(&mut self) -> (r: Option<usize>)
        ensures
            r == old(self)@.key_register,
            final(self)@ == (KeyboardView { key_register: None, ..old(self)@ }),
    {
        let r = self.key_register;
        self.key_register = None;
        r
    }

    /// Arm the wait-for-key latch.
    pub fn set_waiting_for_key_release(&mut self)
        ensures
            final(self)@ == (KeyboardView { waiting: true, ..old(self)@ }),
    {
        self.waiting_for_key_release = true;
    }

    /// Whether key `key` is currently pressed. The code must be one of
    /// the sixteen architectural keys.
    pub fn key_is_pressed(&self, key: u8) -> (r: bool)
        requires
            keyboard_wf(self@),
            key < KEY_COUNT,
        ensures
            r == self@.keys[key as int],
    {
        self.keys[key as usize]
    }

    /// Record that key `key` went down.
    pub fn handle_key_press(&mut self, key: usize)
        requires
            keyboard_wf(old(self)@),
            key < KEY_COUNT,
        ensures
            keyboard_wf(final(self)@),
            final(self)@ == (KeyboardView { keys: old(self)@.keys.update(key as int, true), ..old(self)@ }),
    {
        self.keys[key] = true;
    }

    /// Record that key `key` came up. If a wait is armed, its release
    /// resolves the wait with this key code.
    pub fn handle_key_release(&mut self, key: usize)
        requires
            keyboard_wf(old(self)@),
            key < KEY_COUNT,
        ensures
            keyboard_wf(final(self)@),
            final(self)@.keys == old(self)@.keys.update(key as int, false),
            old(self)@.waiting ==> final(self)@.key_register == Some(key)
                && !final(self)@.waiting,
            !old(self)@.waiting ==> final(self)@.key_register == old(self)@.key_register
                && !final(self)@.waiting == !old(self)@.waiting,
    {
        self.keys[key] = false;
        if self.waiting_for_key_release {
            self.key_register = Some(key);
            self.waiting_for_key_release = false;
        }
    }
}

} // verus!
