use input_service::keys::{control_key_value_to_key, twin_key, ControlKey, Key};
use input_service::text::char_value_to_key;

#[test]
fn every_wire_number_names_one_control_key() {
    let mut count = 0;
    for code in -200..300 {
        if let Some(key) = ControlKey::from_value(code) {
            assert_eq!(key.value(), code);
            assert_eq!(control_key_value_to_key(code), key.to_local_key());
            count += 1;
        } else {
            assert_eq!(control_key_value_to_key(code), None);
        }
    }
    assert_eq!(count, 78);
}

#[test]
fn control_keys_have_their_wire_numbers() {
    assert_eq!(ControlKey::Unknown.value(), 0);
    assert_eq!(ControlKey::Alt.value(), 1);
    assert_eq!(ControlKey::F10.value(), 10);
    assert_eq!(ControlKey::Return.value(), 27);
    assert_eq!(ControlKey::NumLock.value(), 63);
    assert_eq!(ControlKey::RAlt.value(), 75);
    assert_eq!(ControlKey::CtrlAltDel.value(), 100);
    assert_eq!(ControlKey::LockScreen.value(), 101);
}

#[test]
fn control_keys_have_local_keys() {
    assert_eq!(control_key_value_to_key(1), Some(Key::Alt));
    assert_eq!(ControlKey::Menu.to_local_key(), Some(Key::Alt));
    assert_eq!(ControlKey::Final.to_local_key(), Some(Key::Final));
    assert_eq!(ControlKey::RWin.to_local_key(), Some(Key::RWin));
    assert_eq!(ControlKey::RShift.to_local_key(), Some(Key::RightShift));
    assert_eq!(ControlKey::RControl.to_local_key(), Some(Key::RightControl));
    assert_eq!(ControlKey::RAlt.to_local_key(), Some(Key::RightAlt));
    assert_eq!(ControlKey::NumpadEnter.to_local_key(), Some(Key::NumpadEnter));
    assert_eq!(ControlKey::Unknown.to_local_key(), None);
    assert_eq!(ControlKey::CtrlAltDel.to_local_key(), None);
    assert_eq!(ControlKey::LockScreen.to_local_key(), None);
}

#[test]
fn twins_are_mutual() {
    for (left, right) in [
        (Key::Shift, Key::RightShift),
        (Key::Control, Key::RightControl),
        (Key::Alt, Key::RightAlt),
        (Key::Meta, Key::RWin),
    ] {
        assert_eq!(twin_key(left), Some(right));
        assert_eq!(twin_key(right), Some(left));
    }
    assert_eq!(twin_key(Key::CapsLock), None);
    assert_eq!(twin_key(Key::Layout('a')), None);
}

#[test]
fn characters_have_layout_keys() {
    assert_eq!(char_value_to_key('a' as u32), Key::Layout('a'));
    assert_eq!(char_value_to_key(0xd7ff), Key::Layout('\u{d7ff}'));
    assert_eq!(char_value_to_key(0xd800), Key::Layout('\0'));
    assert_eq!(char_value_to_key(0xe000), Key::Layout('\u{e000}'));
    assert_eq!(char_value_to_key(0x10_ffff), Key::Layout('\u{10ffff}'));
    assert_eq!(char_value_to_key(0x11_0000), Key::Layout('\0'));
}
