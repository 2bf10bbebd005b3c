//! The 16-key keypad: one boolean per key, a latch holding the last key
//! pressed, and a quit flag.
//!
//! The host's event source calls `key_down` and `key_up` as physical keys
//! are translated to keypad values, and raises the quit flag when the user
//! asks to leave.  The interpreter reads the key table for the skip
//! instructions and the latch for the blocking key wait; the latch is
//! cleared when a wait begins, so only a press made during the wait ends
//! it.

use vstd::prelude::*;

verus! {

/// Number of keys on the keypad.
pub const KEY_COUNT: usize = 16;

/// The mathematical model of the keypad.
#[verifier::ext_equal]
pub struct KeypadView {
    pub keys: Seq<bool>,
    pub last_key: Option<u8>,
    pub quit: bool,
}

impl KeypadView {
    /// One slot per key, and a latch that can only hold a key value.
    pub open spec fn wf(self) -> bool {
        &&& self.keys.len() == KEY_COUNT
        &&& match self.last_key {
            Some(k) => k < KEY_COUNT,
            None => true,
        }
    }
}

/// The keypad after key `k` goes down: its slot is set and the latch
/// records it.
pub open spec fn spec_key_down(kp: KeypadView, k: u8) -> KeypadView {
    KeypadView { keys: kp.keys.update(k as int, true), last_key: Some(k), ..kp }
}

/// The keypad after key `k` comes up: its slot is cleared and the latch is
/// untouched.
pub open spec fn spec_key_up(kp: KeypadView, k: u8) -> KeypadView {
    KeypadView { keys: kp.keys.update(k as int, false), ..kp }
}

/// The 16 key slots, the "last pressed" latch, and the quit flag.
pub struct Keypad {
    key_status: Vec<bool>,
    last_key: Option<u8>,
    quit: bool,
}

impl View for Keypad {
    type V = KeypadView;

    closed spec fn view(&self) -> KeypadView {
        KeypadView { keys: self.key_status@, last_key: self.last_key, quit: self.quit }
    }
}

impl Keypad {
    /// A fresh keypad: no key held, nothing latched, quit not requested.
    pub fn new() -> (kp: Keypad)
        ensures
            kp@.wf(),
            kp@.keys =~= Seq::new(KEY_COUNT as nat, |k: int| false),
            (kp@.last_key is None),
            !kp@.quit,
    {
        let mut key_status: Vec<bool> = Vec::new();
        let mut k: usize = 0;
        while k < KEY_COUNT
            invariant
                k <= KEY_COUNT,
                key_status@.len() == k,
                forall|j: int| 0 <= j < k ==> !key_status@[j],
            decreases KEY_COUNT - k,
        {
            key_status.push(false);
            k = k + 1;
        }
        Keypad { key_status, last_key: None, quit: false }
    }

    /// Record that key `k` went down and latch it as the last key pressed.
    pub fn key_down(&mut self, k: u8)
        requires
            old(self)@.wf(),
            k < KEY_COUNT,
        ensures
            final(self)@.wf(),
            final(self)@ == spec_key_down(old(self)@, k),
    {
        self.key_status.set(k as usize, true);
        self.last_key = Some(k);
    }

    /// Record that key `k` came up.  The latch is untouched.
    pub fn key_up(&mut self, k: u8)
        requires
            old(self)@.wf(),
            k < KEY_COUNT,
        ensures
            final(self)@.wf(),
            final(self)@ == spec_key_up(old(self)@, k),
    {
        self.key_status.set(k as usize, false);
    }

    /// Whether key `k` is currently held down.
    pub fn is_key_pressed(&self, k: u8) -> (pressed: bool)
        requires
            self@.wf(),
            k < KEY_COUNT,
        ensures
            pressed == self@.keys[k as int],
    {
        self.key_status[k as usize]
    }

    /// The last key pressed since the latch was cleared, if any.
    pub fn last_key(&self) -> (k: Option<u8>)
        ensures
            k == self@.last_key,
    {
        self.last_key
    }

    /// Forget the latched key, so a following wait only sees new presses.
    pub fn clear_last_key(&mut self)
        ensures
            final(self)@ == (KeypadView { last_key: None, ..old(self)@ }),
    {
        self.last_key = None;
    }

    /// Raise the quit flag.  It is never lowered.
    pub fn set_quit(&mut self)
        ensures
            final(self)@ == (KeypadView { quit: true, ..old(self)@ }),
    {
        self.quit = true;
    }

    /// Whether the user asked to leave.
    pub fn quit_requested(&self) -> (quit: bool)
        ensures
            quit == self@.quit,
    {
        self.quit
    }
}

} // verus!
