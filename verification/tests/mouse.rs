use input_service::events::{is_left_up, MouseEvent};
use input_service::keyboard::Handling;
use input_service::keys::{ControlKey, Key, MouseButton, Platform};
use input_service::mouse::{
    active_mouse_, handle_mouse, handle_mouse_, in_actived_dist, mouse_move_relative,
    update_last_cursor_pos, Input, MouseGate, SysCursorPos, LOST_INPUT_POS,
    MOUSE_MOVE_PROTECTION_TIMEOUT,
};
use input_service::records::KeysDown;
use input_service::script::{Command, Op, MODIFIER_SLEEP};
use input_service::session::Action;

const PLATFORMS: [Platform; 3] = [Platform::Linux, Platform::Windows, Platform::MacOs];

fn mouse_event(mask: i32, x: i32, y: i32, modifiers: &[ControlKey]) -> MouseEvent {
    MouseEvent { mask, x, y, modifiers: modifiers.iter().map(|key| key.value()).collect() }
}

/// What a machine with some keys down is told to do for an event, but for the
/// change of the desktop.
fn handled(platform: Platform, evt: &MouseEvent, held: &[Key]) -> Vec<Command> {
    let mut keys = KeysDown::new();
    let mut held = held.to_vec();
    let mut done = vec![];
    let mut session = handle_mouse_(false, platform, evt);
    let mut reply = false;
    while let Some(action) = session.resume(&mut keys, reply, 1) {
        reply = true;
        match action {
            Action::Perform(Command::KeyState(key)) => reply = held.contains(&key),
            Action::Perform(command) => {
                match command {
                    Command::KeyDown(key) => held.push(key),
                    Command::KeyUp(key) => held.retain(|k| *k != key),
                    _ => {}
                }
                done.push(command);
            }
            Action::KeySequence(text) => panic!("typed {}", text),
        }
        assert!(done.len() < 100);
    }
    assert!(keys.is_empty());
    if platform == Platform::Windows {
        assert_eq!(done.remove(0), Command::TryChangeDesktop);
    }
    done
}

#[test]
fn left_up_is_told_by_the_mask() {
    assert!(is_left_up(&mouse_event(0b1010, 0, 0, &[])));
    assert!(!is_left_up(&mouse_event(0b1001, 0, 0, &[])));
    assert!(!is_left_up(&mouse_event(0b10010, 0, 0, &[])));
    assert!(!is_left_up(&mouse_event(0b11010, 0, 0, &[])));
    assert!(!is_left_up(&mouse_event(-6, 0, 0, &[])));
}

#[test]
fn a_mask_has_two_parts() {
    let evt = mouse_event(0b100_010, 0, 0, &[]);
    assert_eq!((evt.event_type(), evt.event_buttons()), (2, 4));
    let evt = mouse_event(-1, 0, 0, &[]);
    assert_eq!((evt.event_type(), evt.event_buttons()), (7, -1));
    let evt = mouse_event(i32::MIN, 0, 0, &[]);
    assert_eq!((evt.event_type(), evt.event_buttons()), (0, -268_435_456));
}

#[test]
fn a_move_goes_to_its_position() {
    for platform in PLATFORMS {
        let evt = mouse_event(0, 12, -7, &[ControlKey::Shift]);
        assert_eq!(handled(platform, &evt, &[Key::Control]), vec![Command::MouseMoveTo(12, -7)]);
    }
}

#[test]
fn buttons_go_down_and_up() {
    for platform in [Platform::Linux, Platform::Windows] {
        for (bit, button) in [
            (1, MouseButton::Left),
            (2, MouseButton::Right),
            (4, MouseButton::Middle),
        ] {
            let down = mouse_event(bit << 3 | 1, 0, 0, &[]);
            assert_eq!(handled(platform, &down, &[]), vec![Command::MouseDown(button)]);
            let up = mouse_event(bit << 3 | 2, 0, 0, &[]);
            assert_eq!(handled(platform, &up, &[]), vec![Command::MouseUp(button)]);
        }
        assert!(handled(platform, &mouse_event(3 << 3 | 1, 0, 0, &[]), &[]).is_empty());
        assert!(handled(platform, &mouse_event(8 << 3 | 2, 0, 0, &[]), &[]).is_empty());
    }
}

#[test]
fn unknown_kinds_do_nothing() {
    for platform in PLATFORMS {
        for kind in 5..8 {
            let evt = mouse_event(1 << 3 | kind, i32::MIN, i32::MIN, &[]);
            assert!(handled(platform, &evt, &[Key::Shift]).is_empty());
        }
    }
}

#[test]
fn modifiers_are_in_line_when_a_button_goes_down() {
    let evt = mouse_event(0b1001, 0, 0, &[ControlKey::Control, ControlKey::CapsLock]);
    assert_eq!(
        handled(Platform::Linux, &evt, &[Key::Shift]),
        vec![
            Command::KeyUp(Key::Shift),
            Command::KeyDown(Key::Control),
            Command::MouseDown(MouseButton::Left),
            Command::KeyUp(Key::Control),
        ]
    );
    assert_eq!(
        handled(Platform::Windows, &evt, &[]),
        vec![
            Command::KeyDown(Key::Control),
            Command::Sleep(MODIFIER_SLEEP),
            Command::MouseDown(MouseButton::Left),
            Command::KeyUp(Key::Control),
        ]
    );
    assert_eq!(
        handled(Platform::MacOs, &evt, &[]),
        vec![
            Command::ResetFlag,
            Command::AddFlag(Key::Control),
            Command::AddFlag(Key::CapsLock),
            Command::MouseDown(MouseButton::Left),
        ]
    );
}

#[test]
fn only_windows_scrolls_in_the_direction_of_the_peer() {
    for kind in [3, 4] {
        let evt = mouse_event(kind, 2, -3, &[]);
        let scrolled = |x: i32, y: i32| {
            vec![
                Command::MouseScrollX { length: x, track_pad: false },
                Command::MouseScrollY { length: y, track_pad: false },
            ]
        };
        assert_eq!(handled(Platform::Windows, &evt, &[]), scrolled(2, -3));
        assert_eq!(handled(Platform::Linux, &evt, &[]), scrolled(-2, 3));
        assert_eq!(handled(Platform::MacOs, &evt, &[]), scrolled(-2, 3));
    }
}

#[test]
fn a_direction_without_length_is_left_out() {
    let evt = mouse_event(3, 0, 1, &[]);
    assert_eq!(
        handled(Platform::Linux, &evt, &[]),
        vec![Command::MouseScrollY { length: -1, track_pad: false }]
    );
    assert!(handled(Platform::Linux, &mouse_event(3, 0, 0, &[]), &[]).is_empty());
}

#[test]
fn windows_scrolls_by_any_length() {
    let evt = mouse_event(3, i32::MIN, 0, &[]);
    assert_eq!(
        handled(Platform::Windows, &evt, &[]),
        vec![Command::MouseScrollX { length: i32::MIN, track_pad: false }]
    );
}

#[test]
fn shift_scrolls_sideways_on_macos() {
    let evt = mouse_event(3, 5, 2, &[ControlKey::Shift]);
    assert_eq!(
        handled(Platform::MacOs, &evt, &[]),
        vec![Command::MouseScrollX { length: -2, track_pad: false }]
    );
    let evt = mouse_event(3, 5, 2, &[ControlKey::Shift, ControlKey::Scroll]);
    assert_eq!(
        handled(Platform::MacOs, &evt, &[]),
        vec![
            Command::MouseScrollX { length: -5, track_pad: true },
            Command::MouseScrollY { length: -2, track_pad: true },
        ]
    );
    assert_eq!(
        handled(Platform::Linux, &evt, &[]),
        vec![
            Command::MouseScrollX { length: -5, track_pad: false },
            Command::MouseScrollY { length: -2, track_pad: false },
        ]
    );
}

#[test]
fn no_mouse_event_is_handled_when_exiting() {
    let mut keys = KeysDown::new();
    for platform in PLATFORMS {
        let evt = mouse_event(3, i32::MIN, 0, &[]);
        assert!(handle_mouse_(true, platform, &evt).resume(&mut keys, true, 1).is_none());
    }
}

#[test]
fn a_relative_move_follows_the_desktop_first() {
    assert_eq!(
        mouse_move_relative(-3, 4),
        vec![
            Op::Do(Command::TryChangeDesktop),
            Op::Do(Command::MouseMoveRelative(-3, 4)),
        ]
    );
}

#[test]
fn a_move_is_noted_as_the_last_input() {
    let mut peer = Input::default();
    let moved = mouse_event(0, 3, 4, &[]);
    let res = handle_mouse(false, Platform::Linux, false, true, &moved, 9, 100, &mut peer);
    assert!(matches!(res, Some(Handling::Here(_))));
    assert_eq!(peer, Input { conn: 9, time: 100, x: 3, y: 4 });
    let pressed = mouse_event(0b1001, 7, 7, &[]);
    let res = handle_mouse(false, Platform::MacOs, false, true, &pressed, 8, 200, &mut peer);
    match res {
        Some(Handling::InMainQueue(copy)) => {
            assert_eq!((copy.mask, copy.x, copy.y), (0b1001, 7, 7));
            assert!(copy.modifiers.is_empty());
        }
        _ => panic!("not for the main queue"),
    }
    assert_eq!(peer, Input { conn: 9, time: 100, x: 3, y: 4 });
    let res = handle_mouse(false, Platform::Windows, true, false, &moved, 8, 300, &mut peer);
    assert!(res.is_none());
    assert_eq!(peer, Input { conn: 9, time: 100, x: 3, y: 4 });
    let res = handle_mouse(false, Platform::Windows, true, true, &moved, 8, 300, &mut peer);
    assert!(matches!(res, Some(Handling::ByPortableService)));
    assert_eq!(peer, Input { conn: 8, time: 300, x: 3, y: 4 });
}

#[test]
fn a_seen_position_keeps_its_time() {
    let mut latest = SysCursorPos::new(MOUSE_MOVE_PROTECTION_TIMEOUT + 5);
    assert_eq!(latest, SysCursorPos { time: 5, x: 0, y: 0 });
    update_last_cursor_pos(&mut latest, 0, 0, 50);
    assert_eq!(latest, SysCursorPos { time: 5, x: 0, y: 0 });
    update_last_cursor_pos(&mut latest, 0, 1, 60);
    assert_eq!(latest, SysCursorPos { time: 60, x: 0, y: 1 });
    update_last_cursor_pos(&mut latest, 0, 1, 70);
    assert_eq!(latest, SysCursorPos { time: 60, x: 0, y: 1 });
    update_last_cursor_pos(&mut latest, 2, 1, 80);
    assert_eq!(latest, SysCursorPos { time: 80, x: 2, y: 1 });
}

#[test]
fn positions_are_close_below_a_distance_of_five() {
    assert!(in_actived_dist(10, 14) && in_actived_dist(14, 10) && in_actived_dist(3, 3));
    assert!(!in_actived_dist(10, 15) && !in_actived_dist(15, 10));
}

#[test]
fn the_protection_ends() {
    let sys = SysCursorPos { time: 10, x: 0, y: 0 };
    let peer = Input { conn: 1, time: 0, x: 0, y: 0 };
    let last = 10 + MOUSE_MOVE_PROTECTION_TIMEOUT;
    assert_eq!(active_mouse_(&sys, &peer, 2, last), MouseGate::Shut);
    assert_eq!(active_mouse_(&sys, &peer, 1, last), MouseGate::Look);
    assert_eq!(active_mouse_(&sys, &peer, 2, last + 1), MouseGate::Open);
    assert_eq!(active_mouse_(&sys, &peer, 2, 0), MouseGate::Shut);
    let sys = SysCursorPos::new(MOUSE_MOVE_PROTECTION_TIMEOUT);
    assert_eq!(active_mouse_(&sys, &peer, 2, MOUSE_MOVE_PROTECTION_TIMEOUT + 1), MouseGate::Open);
}

#[test]
fn the_last_peer_keeps_a_cursor_that_is_where_it_was_put() {
    let mut peer = Input { conn: 1, time: 0, x: 100, y: 200 };
    assert_eq!(MouseGate::Look.look(&mut peer, None), MouseGate::Open);
    assert_eq!(MouseGate::Look.look(&mut peer, Some((101, 199))), MouseGate::Open);
    let again = MouseGate::LookAgain { x: 100, y: 200 };
    assert_eq!(MouseGate::Look.look(&mut peer, Some((105, 200))), again);
    assert_eq!(MouseGate::Look.look(&mut peer, Some((100, 195))), again);
    assert_eq!(again.look(&mut peer, Some((104, 196))), MouseGate::Open);
    assert_eq!(peer, Input { conn: 1, time: 0, x: 100, y: 200 });
}

#[test]
fn the_last_peer_loses_a_cursor_that_is_elsewhere() {
    for pos in [None, Some((0, 0)), Some((100, 300))] {
        let mut peer = Input { conn: 1, time: 4, x: 100, y: 200 };
        let again = MouseGate::LookAgain { x: 100, y: 200 };
        assert_eq!(again.look(&mut peer, pos), MouseGate::Shut);
        assert_eq!(peer, Input { conn: 1, time: 4, x: LOST_INPUT_POS, y: LOST_INPUT_POS });
        let gate = MouseGate::Look.look(&mut peer, Some((100, 200)));
        assert_eq!(gate, MouseGate::LookAgain { x: LOST_INPUT_POS, y: LOST_INPUT_POS });
        assert_eq!(gate.look(&mut peer, Some((100, 200))), MouseGate::Shut);
    }
}

#[test]
fn a_decision_stands() {
    let mut peer = Input { conn: 1, time: 0, x: 100, y: 200 };
    assert_eq!(MouseGate::Open.look(&mut peer, Some((0, 0))), MouseGate::Open);
    assert_eq!(MouseGate::Shut.look(&mut peer, Some((100, 200))), MouseGate::Shut);
    assert_eq!(peer.x, 100);
}

/// What is done first for an event of a connection, if anything is, with the cursor
/// found at a position.
fn decided(
    sys: &SysCursorPos,
    peer: &mut Input,
    evt: &MouseEvent,
    conn: i32,
    now: u64,
    pos: Option<(i32, i32)>,
) -> Option<Command> {
    let mut gate = active_mouse_(sys, peer, conn, now);
    for _ in 0..2 {
        gate = gate.look(peer, pos);
    }
    assert!(matches!(gate, MouseGate::Open | MouseGate::Shut));
    let active = gate == MouseGate::Open;
    match handle_mouse(false, Platform::Linux, true, active, evt, conn, 50, peer)? {
        Handling::Here(mut session) => match session.resume(&mut KeysDown::new(), true, 1) {
            Some(Action::Perform(command)) => Some(command),
            _ => panic!("nothing is done"),
        },
        _ => panic!("not handled here"),
    }
}

#[test]
fn another_peer_is_turned_away_while_the_cursor_is_protected() {
    let sys = SysCursorPos { time: 10, x: 3, y: 4 };
    let moved = mouse_event(0, 8, 9, &[]);
    let before = Input { conn: 1, time: 20, x: 3, y: 4 };
    for pos in [None, Some((3, 4)), Some((90, 90))] {
        let mut peer = before;
        assert_eq!(decided(&sys, &mut peer, &moved, 2, 11, pos), None);
        assert_eq!(peer, before);
        let late = 11 + MOUSE_MOVE_PROTECTION_TIMEOUT;
        assert_eq!(decided(&sys, &mut peer, &moved, 2, late, pos), Some(Command::MouseMoveTo(8, 9)));
        assert_eq!(peer, Input { conn: 2, time: 50, x: 8, y: 9 });
    }
}

#[test]
fn the_last_peer_is_passed_on_while_it_has_the_cursor() {
    let sys = SysCursorPos { time: 10, x: 3, y: 4 };
    let moved = mouse_event(0, 8, 9, &[]);
    let mut peer = Input { conn: 1, time: 20, x: 3, y: 4 };
    assert_eq!(decided(&sys, &mut peer, &moved, 1, 11, Some((3, 4))), Some(Command::MouseMoveTo(8, 9)));
    assert_eq!(peer, Input { conn: 1, time: 50, x: 8, y: 9 });
    assert_eq!(decided(&sys, &mut peer, &moved, 1, 11, Some((90, 90))), None);
    assert_eq!(peer, Input { conn: 1, time: 50, x: LOST_INPUT_POS, y: LOST_INPUT_POS });
}
