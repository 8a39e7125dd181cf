use whispr::hotkey::{HotkeyState, KeyClass, KeyEvent};

#[test]
fn hotkey_fires_with_both_modifiers_held() {
    let mut s = HotkeyState::new();
    assert!(!s.step(KeyEvent::Press(KeyClass::W)));
    assert!(!s.step(KeyEvent::Press(KeyClass::Control)));
    assert!(!s.step(KeyEvent::Press(KeyClass::W)));
    assert!(!s.step(KeyEvent::Press(KeyClass::Shift)));
    assert_eq!(s, HotkeyState { ctrl: true, shift: true });
    assert!(s.step(KeyEvent::Press(KeyClass::W)));
    assert!(!s.step(KeyEvent::Press(KeyClass::Other)));
    assert!(!s.step(KeyEvent::Release(KeyClass::Shift)));
    assert!(!s.step(KeyEvent::Press(KeyClass::W)));
    assert!(!s.step(KeyEvent::Release(KeyClass::Control)));
    assert_eq!(s, HotkeyState { ctrl: false, shift: false });
}
