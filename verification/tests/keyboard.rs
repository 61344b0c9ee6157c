use input_service::events::{is_enter, KeyEvent, KeyUnion, KeyboardMode};
use input_service::keyboard::{handle_key, handle_key_, lock_screen, Handling, LockScreen};
use input_service::keys::{ControlKey, Key, Platform, RawKey, RdevKey};
use input_service::records::{char_record_key, control_record_key, record_pressed_key, KeysDown};
use input_service::script::{Command, MODIFIER_SLEEP, SIMULATE_SLEEP};
use input_service::session::{Action, Session};

/// A machine that keeps track of its keys; those in `missing` it does not have.
struct Machine {
    held: Vec<Key>,
    missing: Vec<Key>,
    done: Vec<Command>,
    typed: Vec<String>,
    asked: Vec<Key>,
}

fn machine(held: &[Key]) -> Machine {
    Machine {
        held: held.to_vec(),
        missing: vec![],
        done: vec![],
        typed: vec![],
        asked: vec![],
    }
}

impl Machine {
    fn is_lock(key: Key) -> bool {
        matches!(key, Key::CapsLock | Key::NumLock | Key::Scroll)
    }

    fn press(&mut self, key: Key) {
        let was_held = self.held.contains(&key);
        self.held.retain(|k| *k != key);
        if !(was_held && Machine::is_lock(key)) {
            self.held.push(key);
        }
    }

    fn release(&mut self, key: Key) {
        if !Machine::is_lock(key) {
            self.held.retain(|k| *k != key);
        }
    }

    fn perform(&mut self, action: Action) -> bool {
        match action {
            Action::KeySequence(text) => {
                self.typed.push(text);
                true
            }
            Action::Perform(Command::KeyState(key)) => {
                self.asked.push(key);
                self.held.contains(&key)
            }
            Action::Perform(command) => {
                self.done.push(command);
                match command {
                    Command::KeyDown(key) if self.missing.contains(&key) => false,
                    Command::KeyDown(key) => {
                        self.press(key);
                        true
                    }
                    Command::KeyUp(key) => {
                        self.release(key);
                        true
                    }
                    Command::KeyClick(key) => {
                        self.press(key);
                        self.release(key);
                        true
                    }
                    _ => true,
                }
            }
        }
    }

    fn run(&mut self, mut session: Session, keys: &mut KeysDown) {
        let mut reply = false;
        for _ in 0..1000 {
            match session.resume(keys, reply, 7) {
                Some(action) => reply = self.perform(action),
                None => return,
            }
        }
        panic!("the session does not end");
    }

    fn handle(&mut self, platform: Platform, evt: &KeyEvent, keys: &mut KeysDown) {
        self.run(handle_key_(false, platform, true, evt, RdevKey::Other), keys);
    }
}

fn event(down: bool, union: KeyUnion, modifiers: &[ControlKey]) -> KeyEvent {
    KeyEvent {
        down,
        union: Some(union),
        modifiers: modifiers.iter().map(|key| key.value()).collect(),
        mode: KeyboardMode::Legacy,
    }
}

fn control(down: bool, key: ControlKey, modifiers: &[ControlKey]) -> KeyEvent {
    event(down, KeyUnion::ControlKey(key.value()), modifiers)
}

fn chr(down: bool, c: char, modifiers: &[ControlKey]) -> KeyEvent {
    event(down, KeyUnion::Chr(c as u32), modifiers)
}

#[test]
fn enter_is_return_or_numpad_enter() {
    assert!(is_enter(&control(true, ControlKey::Return, &[])));
    assert!(is_enter(&control(false, ControlKey::NumpadEnter, &[])));
    assert!(!is_enter(&control(true, ControlKey::Space, &[])));
    assert!(!is_enter(&chr(true, '\r', &[])));
    assert!(!is_enter(&KeyEvent {
        down: true,
        union: None,
        modifiers: vec![],
        mode: KeyboardMode::Legacy,
    }));
}

#[test]
fn keys_go_where_the_platform_wants_them() {
    let evt = chr(true, 'a', &[ControlKey::Control]);
    let taken = |platform: Platform, is_server: bool| {
        handle_key(false, platform, is_server, true, &evt, RdevKey::Other)
    };
    assert!(matches!(taken(Platform::Linux, false), Handling::Here(_)));
    assert!(matches!(taken(Platform::Linux, true), Handling::Here(_)));
    assert!(matches!(taken(Platform::MacOs, true), Handling::Here(_)));
    assert!(matches!(taken(Platform::Windows, false), Handling::ByPortableService));
    assert!(matches!(taken(Platform::Windows, true), Handling::ByPortableService));
    match taken(Platform::MacOs, false) {
        Handling::InMainQueue(copy) => {
            assert!(copy.down);
            assert_eq!(copy.chr(), 'a' as u32);
            assert_eq!(copy.modifiers, vec![4]);
            assert_eq!(copy.mode, KeyboardMode::Legacy);
        }
        _ => panic!("not for the main queue"),
    }
}

#[test]
fn a_key_that_is_taken_in_is_handled_at_once_on_linux() {
    let evt = chr(true, 'c', &[ControlKey::Control]);
    for is_server in [false, true] {
        let mut keys = KeysDown::new();
        let mut m = machine(&[]);
        match handle_key(false, Platform::Linux, is_server, true, &evt, RdevKey::Other) {
            Handling::Here(session) => m.run(session, &mut keys),
            _ => panic!("not handled"),
        }
        let mut other_keys = KeysDown::new();
        let mut other = machine(&[]);
        other.handle(Platform::Linux, &evt, &mut other_keys);
        assert_eq!(m.done, other.done);
        assert_eq!(m.asked, other.asked);
        assert!(keys.contains(char_record_key('c' as u32)));

        let mut keys = KeysDown::new();
        let mut m = machine(&[]);
        match handle_key(true, Platform::Linux, is_server, true, &evt, RdevKey::Other) {
            Handling::Here(session) => m.run(session, &mut keys),
            _ => panic!("not handled"),
        }
        assert!(m.done.is_empty() && m.asked.is_empty() && keys.is_empty());
    }
}

#[test]
fn a_lock_is_toggled_by_its_press_and_left_by_its_release() {
    let mut keys = KeysDown::new();
    let mut m = machine(&[]);
    m.handle(Platform::Linux, &control(true, ControlKey::Scroll, &[]), &mut keys);
    assert_eq!(m.held, vec![Key::Scroll]);
    m.handle(Platform::Linux, &control(false, ControlKey::Scroll, &[]), &mut keys);
    assert_eq!(m.held, vec![Key::Scroll]);
    m.handle(Platform::Linux, &control(true, ControlKey::Scroll, &[]), &mut keys);
    assert!(m.held.is_empty());
    m.handle(Platform::Linux, &control(false, ControlKey::Scroll, &[]), &mut keys);
    assert!(m.held.is_empty() && keys.is_empty());
}

#[test]
fn a_lock_that_is_pressed_as_a_modifier_stays_on() {
    let mut keys = KeysDown::new();
    let mut m = machine(&[]);
    let modifiers = [ControlKey::NumLock, ControlKey::Home];
    m.handle(Platform::Windows, &chr(true, 'a', &modifiers), &mut keys);
    assert_eq!(m.held, vec![Key::NumLock, Key::Layout('a')]);
}

#[test]
fn a_character_goes_down_and_up() {
    let mut keys = KeysDown::new();
    let mut m = machine(&[]);
    m.handle(Platform::Linux, &chr(true, 'a', &[]), &mut keys);
    assert_eq!(m.done, vec![Command::KeyDown(Key::Layout('a'))]);
    assert_eq!(
        m.asked,
        vec![
            Key::CapsLock,
            Key::NumLock,
            Key::Shift,
            Key::RightShift,
            Key::RightShift,
            Key::Shift,
            Key::Alt,
            Key::RightAlt,
            Key::RightAlt,
            Key::Alt,
            Key::Control,
            Key::RightControl,
            Key::RightControl,
            Key::Control,
            Key::Meta,
            Key::RWin,
            Key::RWin,
            Key::Meta,
        ]
    );
    assert!(keys.contains(10_096));
    m.done.clear();
    m.asked.clear();
    m.handle(Platform::Linux, &chr(false, 'a', &[]), &mut keys);
    assert_eq!(m.done, vec![Command::KeyUp(Key::Layout('a'))]);
    assert!(m.asked.is_empty());
    assert!(keys.is_empty());
    assert!(m.held.is_empty());
}

#[test]
fn a_control_key_goes_down_and_up() {
    let mut keys = KeysDown::new();
    let mut m = machine(&[]);
    m.handle(Platform::Windows, &control(true, ControlKey::Menu, &[]), &mut keys);
    assert_eq!(m.done, vec![Command::TryChangeDesktop, Command::KeyDown(Key::Alt)]);
    assert!(keys.contains(45));
    m.done.clear();
    m.handle(Platform::Windows, &control(false, ControlKey::Menu, &[]), &mut keys);
    assert_eq!(m.done, vec![Command::TryChangeDesktop, Command::KeyUp(Key::Alt)]);
    assert!(keys.is_empty());
}

#[test]
fn a_control_key_without_local_key_is_only_noted() {
    for code in [0, 76, 999, -1] {
        let mut keys = KeysDown::new();
        let mut m = machine(&[]);
        m.handle(Platform::Linux, &event(true, KeyUnion::ControlKey(code), &[]), &mut keys);
        assert!(m.done.is_empty());
        assert!(keys.contains(control_record_key(code)));
    }
}

#[test]
fn a_modifier_that_the_peer_does_not_hold_goes_up() {
    let mut keys = KeysDown::new();
    let mut m = machine(&[Key::Shift, Key::Meta]);
    m.handle(Platform::Linux, &chr(true, 'a', &[ControlKey::Meta]), &mut keys);
    assert_eq!(
        m.done,
        vec![
            Command::KeyUp(Key::Shift),
            Command::KeyDown(Key::Layout('a')),
        ]
    );
    assert_eq!(m.held, vec![Key::Meta, Key::Layout('a')]);
}

#[test]
fn both_keys_of_a_pair_go_up() {
    let mut keys = KeysDown::new();
    let mut m = machine(&[Key::RightShift]);
    m.handle(Platform::Linux, &chr(true, 'a', &[]), &mut keys);
    assert_eq!(
        m.done,
        vec![
            Command::KeyUp(Key::Shift),
            Command::KeyUp(Key::RightShift),
            Command::KeyDown(Key::Layout('a')),
        ]
    );
    assert_eq!(m.held, vec![Key::Layout('a')]);
}

#[test]
fn the_key_of_the_event_itself_is_not_let_go_of() {
    let mut keys = KeysDown::new();
    let mut m = machine(&[Key::Shift]);
    m.handle(Platform::Linux, &control(true, ControlKey::Shift, &[]), &mut keys);
    assert_eq!(
        m.done,
        vec![
            Command::KeyUp(Key::RightShift),
            Command::KeyDown(Key::Shift),
        ]
    );
    assert_eq!(m.held, vec![Key::Shift]);
}

#[test]
fn altgr_is_spared_on_windows_alone() {
    for (platform, ups) in [(Platform::Windows, 0), (Platform::Linux, 1)] {
        let mut keys = KeysDown::new();
        let mut m = machine(&[Key::Control, Key::RightAlt]);
        m.handle(platform, &chr(true, '@', &[ControlKey::Alt]), &mut keys);
        let released = m.done.iter().filter(|c| matches!(c, Command::KeyUp(_))).count();
        assert_eq!(released, ups);
        assert_eq!(m.held.contains(&Key::Control), platform == Platform::Windows);
        assert!(m.held.contains(&Key::RightAlt));
    }
}

#[test]
fn a_modifier_that_the_peer_holds_is_pressed_for_the_event() {
    let mut keys = KeysDown::new();
    let mut m = machine(&[]);
    m.handle(Platform::Linux, &chr(true, 'c', &[ControlKey::Control]), &mut keys);
    assert_eq!(
        m.done,
        vec![
            Command::KeyDown(Key::Control),
            Command::KeyDown(Key::Layout('c')),
            Command::KeyUp(Key::Control),
        ]
    );
    assert_eq!(m.held, vec![Key::Layout('c')]);
    let mut m = machine(&[]);
    m.handle(Platform::Windows, &chr(true, 'c', &[ControlKey::Control]), &mut keys);
    assert_eq!(
        m.done,
        vec![
            Command::TryChangeDesktop,
            Command::KeyDown(Key::Control),
            Command::Sleep(MODIFIER_SLEEP),
            Command::KeyDown(Key::Layout('c')),
            Command::KeyUp(Key::Control),
        ]
    );
    let mut m = machine(&[]);
    m.handle(Platform::MacOs, &chr(true, 'c', &[ControlKey::Control]), &mut keys);
    assert_eq!(
        m.done,
        vec![
            Command::ResetFlag,
            Command::AddFlag(Key::Control),
            Command::KeyDown(Key::Layout('c')),
        ]
    );
}

#[test]
fn a_modifier_whose_twin_is_down_is_not_pressed() {
    let mut keys = KeysDown::new();
    let mut m = machine(&[Key::RightControl]);
    m.handle(Platform::Linux, &chr(true, 'c', &[ControlKey::Control]), &mut keys);
    assert_eq!(m.done, vec![Command::KeyDown(Key::Layout('c'))]);
    assert!(m.held.contains(&Key::RightControl));
}

#[test]
fn a_modifier_of_the_event_that_presses_it_is_up_in_the_end() {
    let mut keys = KeysDown::new();
    let mut m = machine(&[]);
    m.handle(Platform::Linux, &control(true, ControlKey::Shift, &[ControlKey::Shift]), &mut keys);
    assert_eq!(
        m.done,
        vec![
            Command::KeyDown(Key::Shift),
            Command::KeyDown(Key::Shift),
            Command::KeyUp(Key::Shift),
        ]
    );
    assert!(m.held.is_empty());
    assert!(keys.contains(29));
}

#[test]
fn a_noted_right_alt_stands_in_for_alt_on_linux_alone() {
    for (platform, pressed) in [(Platform::Linux, false), (Platform::Windows, true)] {
        let mut keys = KeysDown::new();
        record_pressed_key(&mut keys, 75, true, 1);
        let mut m = machine(&[]);
        m.handle(platform, &chr(true, 'q', &[ControlKey::Alt]), &mut keys);
        assert_eq!(m.done.contains(&Command::KeyDown(Key::Alt)), pressed);
        assert_eq!(m.done.contains(&Command::KeyUp(Key::Alt)), pressed);
    }
}

#[test]
fn a_character_without_key_is_typed() {
    let mut keys = KeysDown::new();
    let mut m = machine(&[]);
    m.missing = vec![Key::Layout('ß')];
    m.handle(Platform::Linux, &chr(true, 'ß', &[]), &mut keys);
    assert_eq!(m.typed, vec!["ß".to_string()]);
    assert_eq!(m.asked[18..], [Key::Shift, Key::RightShift, Key::CapsLock]);
}

#[test]
fn a_character_without_key_is_typed_in_upper_case() {
    let mut keys = KeysDown::new();
    for (held, modifiers) in [
        (Key::Shift, [ControlKey::Shift]),
        (Key::RightShift, [ControlKey::Shift]),
        (Key::CapsLock, [ControlKey::CapsLock]),
    ] {
        let mut m = machine(&[held]);
        m.missing = vec![Key::Layout('ß'), Key::Layout('é')];
        m.handle(Platform::Linux, &chr(true, 'é', &modifiers), &mut keys);
        m.handle(Platform::Linux, &chr(true, 'ß', &modifiers), &mut keys);
        assert_eq!(m.typed, vec!["É".to_string(), "SS".to_string()]);
    }
}

#[test]
fn what_is_no_character_stands_for_nul_and_is_not_typed() {
    for code in [0xd800, 0xdfff, 0x11_0000, u32::MAX] {
        let mut keys = KeysDown::new();
        let mut m = machine(&[]);
        m.missing = vec![Key::Layout('\0')];
        m.handle(Platform::Linux, &event(true, KeyUnion::Chr(code), &[]), &mut keys);
        assert_eq!(m.done, vec![Command::KeyDown(Key::Layout('\0'))]);
        assert!(m.typed.is_empty());
        assert!(keys.contains(char_record_key(code)));
        m.handle(Platform::Linux, &event(true, KeyUnion::Unicode(code), &[]), &mut keys);
        assert!(m.typed.is_empty());
    }
}

#[test]
fn text_is_typed_as_it_is() {
    let mut keys = KeysDown::new();
    let mut m = machine(&[]);
    m.handle(Platform::Linux, &event(true, KeyUnion::Unicode('я' as u32), &[]), &mut keys);
    m.handle(
        Platform::MacOs,
        &event(false, KeyUnion::Sequence("Hello, мир".to_string()), &[]),
        &mut keys,
    );
    assert_eq!(m.typed, vec!["я".to_string(), "Hello, мир".to_string()]);
    assert_eq!(m.done, vec![Command::ResetFlag]);
    assert!(keys.is_empty());
}

#[test]
fn an_event_about_nothing_only_syncs() {
    let mut keys = KeysDown::new();
    let mut m = machine(&[Key::Control]);
    let evt = KeyEvent { down: true, union: None, modifiers: vec![], mode: KeyboardMode::Auto };
    m.handle(Platform::Linux, &evt, &mut keys);
    assert_eq!(m.done, vec![Command::KeyUp(Key::Control)]);
    assert!(keys.is_empty());
}

#[test]
fn what_is_no_key_press_leaves_modifiers_down() {
    let mut keys = KeysDown::new();
    let mut m = machine(&[]);
    m.handle(
        Platform::Linux,
        &control(true, ControlKey::CtrlAltDel, &[ControlKey::Control]),
        &mut keys,
    );
    assert_eq!(m.done, vec![Command::KeyDown(Key::Control), Command::SendSas]);
    assert_eq!(m.held, vec![Key::Control]);
    assert!(keys.is_empty());
    let mut m = machine(&[]);
    m.handle(Platform::Windows, &control(false, ControlKey::LockScreen, &[]), &mut keys);
    assert_eq!(m.done, vec![Command::TryChangeDesktop, Command::LockScreen]);
    assert!(keys.is_empty());
}

#[test]
fn locks_are_brought_in_line() {
    let mut keys = KeysDown::new();
    let mut m = machine(&[Key::CapsLock]);
    m.handle(Platform::Linux, &chr(true, 'a', &[ControlKey::NumLock]), &mut keys);
    assert_eq!(
        m.done,
        vec![
            Command::KeyClick(Key::CapsLock),
            Command::KeyClick(Key::NumLock),
            Command::KeyDown(Key::Layout('a')),
        ]
    );
    assert_eq!(m.held, vec![Key::NumLock, Key::Layout('a')]);
    m.done.clear();
    m.handle(Platform::Linux, &chr(true, 'b', &[ControlKey::NumLock]), &mut keys);
    assert_eq!(m.done, vec![Command::KeyDown(Key::Layout('b'))]);
}

#[test]
fn locks_are_left_alone_when_a_key_goes_up() {
    let mut keys = KeysDown::new();
    let mut m = machine(&[Key::CapsLock]);
    m.handle(Platform::Linux, &chr(false, 'a', &[ControlKey::NumLock]), &mut keys);
    assert_eq!(m.done, vec![Command::KeyUp(Key::Layout('a'))]);
    assert!(m.asked.is_empty());
}

#[test]
fn caps_lock_is_pressed_too_on_macos_and_num_lock_is_not_there() {
    let mut keys = KeysDown::new();
    let mut m = machine(&[]);
    let modifiers = [ControlKey::CapsLock, ControlKey::NumLock];
    m.handle(Platform::MacOs, &chr(true, 'a', &modifiers), &mut keys);
    assert_eq!(
        m.done[..2],
        [
            Command::KeyClick(Key::CapsLock),
            Command::KeyDown(Key::CapsLock),
        ]
    );
    assert!(!m.done.contains(&Command::KeyClick(Key::NumLock)));
    assert_eq!(m.asked[..2], [Key::CapsLock, Key::NumLock]);
}

#[test]
fn num_lock_is_left_alone_for_keys_of_the_numeric_keypad_on_windows() {
    let mut keys = KeysDown::new();
    for (platform, clicks) in [(Platform::Windows, false), (Platform::Linux, true)] {
        let mut m = machine(&[]);
        let modifiers = [ControlKey::NumLock, ControlKey::Home];
        m.handle(platform, &chr(true, 'a', &modifiers), &mut keys);
        assert_eq!(m.done.contains(&Command::KeyClick(Key::NumLock)), clicks);
    }
    let mapped = KeyEvent {
        down: true,
        union: Some(KeyUnion::Chr(0x47)),
        modifiers: vec![ControlKey::NumLock.value()],
        mode: KeyboardMode::MapKeys,
    };
    for (win_key, clicks) in [(RdevKey::Home, false), (RdevKey::Other, true)] {
        let mut m = machine(&[]);
        m.run(handle_key_(false, Platform::Windows, true, &mapped, win_key), &mut keys);
        assert_eq!(m.done.contains(&Command::KeyClick(Key::NumLock)), clicks);
    }
}

#[test]
fn a_mapped_key_goes_to_the_platform() {
    let evt = KeyEvent {
        down: true,
        union: Some(KeyUnion::Chr(0x1_0026)),
        modifiers: vec![],
        mode: KeyboardMode::MapKeys,
    };
    let up = KeyEvent {
        down: false,
        union: Some(KeyUnion::Chr(0x1_0026)),
        modifiers: vec![],
        mode: KeyboardMode::MapKeys,
    };
    let mut keys = KeysDown::new();
    let mut m = machine(&[Key::Shift]);
    m.run(handle_key_(false, Platform::Linux, true, &evt, RdevKey::Other), &mut keys);
    let key = RdevKey::RawKey(RawKey::LinuxXorgKeycode(0x1_0026));
    assert_eq!(m.done, vec![Command::Simulate { key, down: true }]);
    assert!(keys.contains(0x1_0026 + 9999));
    assert_eq!(m.held, vec![Key::Shift]);

    let mut m = machine(&[]);
    m.run(handle_key_(false, Platform::Linux, false, &evt, RdevKey::Other), &mut keys);
    m.run(handle_key_(false, Platform::Linux, false, &up, RdevKey::Other), &mut keys);
    assert_eq!(
        m.done,
        vec![
            Command::KeyDown(Key::Raw(0x26)),
            Command::KeyUp(Key::Raw(0x26)),
        ]
    );
    assert!(keys.is_empty());

    let mut m = machine(&[]);
    m.run(handle_key_(false, Platform::Windows, true, &up, RdevKey::Other), &mut keys);
    let key = RdevKey::RawKey(RawKey::ScanCode(0x1_0026));
    assert_eq!(
        m.done,
        vec![
            Command::TryChangeDesktop,
            Command::Simulate { key, down: false },
        ]
    );

    let mut m = machine(&[]);
    m.run(handle_key_(false, Platform::MacOs, true, &up, RdevKey::Other), &mut keys);
    let key = RdevKey::RawKey(RawKey::MacVirtualKeycode(0x1_0026));
    assert_eq!(
        m.done,
        vec![
            Command::Simulate { key, down: false },
            Command::Sleep(SIMULATE_SLEEP),
        ]
    );
}

#[test]
fn translate_and_auto_are_handled_like_legacy() {
    for mode in [KeyboardMode::Translate, KeyboardMode::Auto] {
        let mut keys = KeysDown::new();
        let mut m = machine(&[]);
        let evt = KeyEvent {
            down: true,
            union: Some(KeyUnion::Chr('x' as u32)),
            modifiers: vec![],
            mode,
        };
        m.handle(Platform::Linux, &evt, &mut keys);
        assert_eq!(m.done, vec![Command::KeyDown(Key::Layout('x'))]);
    }
}

#[test]
fn no_key_is_handled_when_exiting() {
    let mut keys = KeysDown::new();
    for platform in [Platform::Linux, Platform::Windows, Platform::MacOs] {
        let evt = chr(true, 'a', &[ControlKey::Control]);
        let mut session = handle_key_(true, platform, true, &evt, RdevKey::Other);
        assert!(session.resume(&mut keys, true, 1).is_none());
        assert!(session.resume(&mut keys, false, 2).is_none());
    }
    assert!(keys.is_empty());
}

#[test]
fn the_screen_is_locked_by_keys_or_by_the_platform() {
    for (platform, c, modifiers) in [
        (Platform::Linux, 'l', vec![23]),
        (Platform::MacOs, 'q', vec![23, 4]),
    ] {
        match lock_screen(platform) {
            LockScreen::Keys(events) => {
                assert_eq!(events.len(), 2);
                for (i, evt) in events.iter().enumerate() {
                    assert_eq!(evt.down, i == 0);
                    assert_eq!(evt.chr(), c as u32);
                    assert_eq!(evt.modifiers, modifiers);
                    assert_eq!(evt.mode, KeyboardMode::Legacy);
                }
            }
            LockScreen::Native => panic!("{:?} has keys for it", platform),
        }
    }
    assert!(matches!(lock_screen(Platform::Windows), LockScreen::Native));
}

#[test]
fn a_clone_of_an_event_is_handled_alike() {
    for union in [
        KeyUnion::Chr('a' as u32),
        KeyUnion::ControlKey(27),
        KeyUnion::Unicode('я' as u32),
        KeyUnion::Sequence("text".to_string()),
    ] {
        let evt = event(true, union, &[ControlKey::Control]);
        let mut keys = KeysDown::new();
        let mut m = machine(&[]);
        m.handle(Platform::Linux, &evt, &mut keys);
        let mut keys = KeysDown::new();
        let mut other = machine(&[]);
        other.handle(Platform::Linux, &evt.clone(), &mut keys);
        assert_eq!(m.done, other.done);
        assert_eq!(m.typed, other.typed);
    }
}

#[test]
fn modifiers_go_up_whatever_the_machine_answers() {
    let evt = chr(true, 'c', &[ControlKey::Control, ControlKey::Meta]);
    for pattern in 0u32..4096 {
        let mut keys = KeysDown::new();
        let mut session = handle_key_(false, Platform::Windows, true, &evt, RdevKey::Other);
        let mut down = vec![];
        let mut reply = false;
        let mut turn = 0;
        while let Some(action) = session.resume(&mut keys, reply, 1) {
            match action {
                Action::Perform(Command::KeyDown(key)) if key != Key::Layout('c') => down.push(key),
                Action::Perform(Command::KeyUp(key)) => down.retain(|k| *k != key),
                _ => {}
            }
            reply = pattern >> (turn % 12) & 1 == 1;
            turn += 1;
            assert!(turn < 100);
        }
        assert!(down.is_empty());
        assert!(keys.contains(char_record_key('c' as u32)));
    }
}

#[test]
fn no_modifiers_are_pressed_on_macos_or_for_mapped_keys() {
    let mut keys = KeysDown::new();
    let mut m = machine(&[]);
    m.handle(Platform::MacOs, &chr(true, 'c', &[ControlKey::Control]), &mut keys);
    assert!(!m.done.contains(&Command::KeyDown(Key::Control)));
    for platform in [Platform::Linux, Platform::Windows, Platform::MacOs] {
        let mut m = machine(&[]);
        let mut evt = chr(true, 'c', &[ControlKey::Control]);
        evt.mode = KeyboardMode::MapKeys;
        m.handle(platform, &evt, &mut keys);
        assert!(!m.done.iter().any(|c| matches!(c, Command::KeyDown(_))));
        assert!(m.held.is_empty());
    }
}

#[test]
fn a_press_and_its_release_leave_no_record_whatever_the_machine_answers() {
    for platform in [Platform::Linux, Platform::Windows, Platform::MacOs] {
        for (mode, record) in [
            (KeyboardMode::Legacy, 10_098),
            (KeyboardMode::MapKeys, 10_098),
            (KeyboardMode::Translate, 10_098),
        ] {
            for pattern in 0u32..256 {
                let mut keys = KeysDown::new();
                record_pressed_key(&mut keys, 29, true, 1);
                for down in [true, false] {
                    let mut evt = chr(down, 'c', &[ControlKey::Control]);
                    evt.mode = mode;
                    let mut session = handle_key_(false, platform, false, &evt, RdevKey::Other);
                    let mut turn = 0;
                    let mut reply = false;
                    while session.resume(&mut keys, reply, turn).is_some() {
                        reply = pattern >> (turn % 8) & 1 == 1;
                        turn += 1;
                        assert!(turn < 100);
                    }
                    assert_eq!(keys.contains(record), down);
                    assert!(keys.contains(29));
                }
                record_pressed_key(&mut keys, 29, false, 1);
                assert!(keys.is_empty());
            }
        }
    }
}

#[test]
fn a_mapped_event_without_code_is_noted_as_code_zero() {
    let mut keys = KeysDown::new();
    let mut m = machine(&[]);
    let mut evt = control(true, ControlKey::CtrlAltDel, &[]);
    evt.mode = KeyboardMode::MapKeys;
    m.handle(Platform::Linux, &evt, &mut keys);
    let key = RdevKey::RawKey(RawKey::LinuxXorgKeycode(0));
    assert_eq!(m.done, vec![Command::Simulate { key, down: true }]);
    assert!(keys.contains(9999));
}
