//! The global hotkey, Ctrl+Shift+W, as a state machine over key events.

use vstd::prelude::*;

verus! {

/// The keys the hotkey cares about.
#[derive(Clone, Copy, Debug, PartialEq, Eq, Structural)]
pub enum KeyClass {
    /// Either Control key.
    Control,
    /// Either Shift key.
    Shift,
    /// The W key.
    W,
    /// Any other key.
    Other,
}

/// A key going down or up.
#[derive(Clone, Copy, Debug, PartialEq, Eq, Structural)]
pub enum KeyEvent {
    Press(KeyClass),
    Release(KeyClass),
}

/// Which modifiers are held.
#[derive(Clone, Copy, Debug, PartialEq, Eq, Structural)]
pub struct HotkeyState {
    pub ctrl: bool,
    pub shift: bool,
}

/// The state after `e`.
pub open spec fn next_state(s: HotkeyState, e: KeyEvent) -> HotkeyState {
    match e {
        KeyEvent::Press(KeyClass::Control) => HotkeyState { ctrl: true, ..s },
        KeyEvent::Press(KeyClass::Shift) => HotkeyState { shift: true, ..s },
        KeyEvent::Release(KeyClass::Control) => HotkeyState { ctrl: false, ..s },
        KeyEvent::Release(KeyClass::Shift) => HotkeyState { shift: false, ..s },
        _ => s,
    }
}

/// Whether `e` fires the hotkey: W pressed while Control and Shift are held.
pub open spec fn fires(s: HotkeyState, e: KeyEvent) -> bool {
    e == KeyEvent::Press(KeyClass::W) && s.ctrl && s.shift
}

impl HotkeyState {
    /// No modifier held.
    pub fn new() -> (r: HotkeyState)
        ensures
            !r.ctrl && !r.shift,
    {
        HotkeyState { ctrl: false, shift: false }
    }

    /// Takes one key event; returns whether it fires the hotkey.
    pub fn step(&mut self, e: KeyEvent) -> (fired: bool)
        ensures
            *final(self) == next_state(*old(self), e),
            fired == fires(*old(self), e),
    {
        match e {
            KeyEvent::Press(KeyClass::Control) => {
                self.ctrl = true;
                false
            },
            KeyEvent::Press(KeyClass::Shift) => {
                self.shift = true;
                false
            },
            KeyEvent::Press(KeyClass::W) => self.ctrl && self.shift,
            KeyEvent::Release(KeyClass::Control) => {
                self.ctrl = false;
                false
            },
            KeyEvent::Release(KeyClass::Shift) => {
                self.shift = false;
                false
            },
            _ => false,
        }
    }
}

} // verus!
