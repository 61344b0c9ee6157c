use input_service::keys::{Key, Platform, RdevKey};
use input_service::records::{
    char_record_key, control_record_key, fix_key_down_timeout, fix_key_down_timeout_at_exit,
    is_altgr_pressed, record_key_is_chr, record_key_is_control_key, record_key_is_rdev_layout,
    record_key_to_key, record_pressed_key, release_record_key, KeysDown, KEY_DOWN_TIMEOUT,
};
use input_service::script::{Command, Op, SIMULATE_SLEEP};

#[test]
fn records_have_their_numbers() {
    assert_eq!(control_record_key(75), 75);
    assert_eq!(control_record_key(-1), u64::MAX);
    assert_eq!(char_record_key(0), 9999);
    assert_eq!(char_record_key('a' as u32), 10_096);
    assert_eq!(char_record_key(u32::MAX), 4_294_977_294);
}

#[test]
fn records_are_told_apart_by_their_numbers() {
    assert!(record_key_is_control_key(0) && record_key_is_control_key(9998));
    assert!(!record_key_is_control_key(9999));
    assert!(!record_key_is_chr(998) && record_key_is_chr(999));
    assert!(record_key_is_chr(9998) && !record_key_is_chr(9999));
    assert!(!record_key_is_rdev_layout(9998) && record_key_is_rdev_layout(9999));
    assert_eq!(record_key_to_key(29), Some(Key::Shift));
    assert_eq!(record_key_to_key(0), None);
    assert_eq!(record_key_to_key(5000), None);
    assert_eq!(record_key_to_key(10_096), None);
}

#[test]
fn a_record_is_let_go_of_by_its_number() {
    let mut plan = vec![];
    release_record_key(&mut plan, Platform::Linux, 29);
    release_record_key(&mut plan, Platform::Linux, 5000);
    release_record_key(&mut plan, Platform::Windows, 10_096);
    release_record_key(&mut plan, Platform::MacOs, u64::MAX);
    assert_eq!(
        plan,
        vec![
            Op::Do(Command::KeyUp(Key::Shift)),
            Op::Do(Command::Simulate { key: RdevKey::Unknown(9097), down: false }),
            Op::Do(Command::Simulate { key: RdevKey::Unknown(4_294_966_296), down: false }),
            Op::Do(Command::Sleep(SIMULATE_SLEEP)),
        ]
    );
}

#[test]
fn key_up_takes_a_record_away_again() {
    let mut keys = KeysDown::new();
    record_pressed_key(&mut keys, 4, true, 1);
    record_pressed_key(&mut keys, 75, true, 2);
    assert!(keys.contains(4) && is_altgr_pressed(&keys));
    record_pressed_key(&mut keys, 75, false, 3);
    assert!(keys.contains(4) && !is_altgr_pressed(&keys));
    record_pressed_key(&mut keys, 75, false, 3);
    record_pressed_key(&mut keys, 4, false, 3);
    assert!(keys.is_empty());
}

#[test]
fn keys_are_let_go_of_when_they_have_been_down_for_too_long() {
    let mut keys = KeysDown::new();
    record_pressed_key(&mut keys, 29, true, 1_000);
    record_pressed_key(&mut keys, 4, true, 2_000);
    let now = 1_000 + KEY_DOWN_TIMEOUT;
    assert!(fix_key_down_timeout(&mut keys, Platform::Linux, false, now - 1).is_empty());
    assert!(keys.contains(29) && keys.contains(4));
    let plan = fix_key_down_timeout(&mut keys, Platform::Linux, false, now);
    assert_eq!(plan, vec![Op::Do(Command::KeyUp(Key::Shift))]);
    assert!(!keys.contains(29) && keys.contains(4));
    assert!(fix_key_down_timeout(&mut keys, Platform::Linux, false, now).is_empty());
}

#[test]
fn a_key_that_is_pressed_again_stays_down_longer() {
    let mut keys = KeysDown::new();
    record_pressed_key(&mut keys, 29, true, 0);
    record_pressed_key(&mut keys, 29, true, 10);
    assert!(fix_key_down_timeout(&mut keys, Platform::Linux, false, KEY_DOWN_TIMEOUT).is_empty());
    let plan = fix_key_down_timeout(&mut keys, Platform::Linux, false, KEY_DOWN_TIMEOUT + 10);
    assert_eq!(plan.len(), 1);
}

#[test]
fn a_clock_that_is_behind_lets_go_of_nothing() {
    let mut keys = KeysDown::new();
    record_pressed_key(&mut keys, 29, true, u64::MAX);
    assert!(fix_key_down_timeout(&mut keys, Platform::Linux, false, 0).is_empty());
    assert!(keys.contains(29));
}

#[test]
fn a_forced_release_lets_go_of_every_key() {
    let mut keys = KeysDown::new();
    assert!(fix_key_down_timeout(&mut keys, Platform::Linux, true, 5).is_empty());
    record_pressed_key(&mut keys, 29, true, 5);
    record_pressed_key(&mut keys, 4, true, 5);
    record_pressed_key(&mut keys, 10_096, true, 5);
    let plan = fix_key_down_timeout(&mut keys, Platform::Linux, true, 5);
    assert_eq!(plan.len(), 3);
    assert!(plan.contains(&Op::Do(Command::KeyUp(Key::Shift))));
    assert!(plan.contains(&Op::Do(Command::KeyUp(Key::Control))));
    let key = RdevKey::Unknown(9097);
    assert!(plan.contains(&Op::Do(Command::Simulate { key, down: false })));
    assert!(keys.is_empty());
}

#[test]
fn keys_are_let_go_of_once_at_exit() {
    let mut keys = KeysDown::new();
    let mut exiting = false;
    record_pressed_key(&mut keys, 29, true, 5);
    let plan = fix_key_down_timeout_at_exit(&mut exiting, &mut keys, Platform::Linux, 6);
    assert_eq!(plan, vec![Op::Do(Command::KeyUp(Key::Shift))]);
    assert!(exiting && keys.is_empty());
    record_pressed_key(&mut keys, 29, true, 7);
    let plan = fix_key_down_timeout_at_exit(&mut exiting, &mut keys, Platform::Linux, 8);
    assert!(plan.is_empty());
    assert!(exiting && keys.contains(29));
}
