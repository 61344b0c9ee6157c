use std::sync::Arc;

use input_service::cursor::{
    new_cursor, new_pos, publish_cursor, run_cursor, run_pos, ConnInner, CursorData,
    CursorPosition, CursorStep, Message, MouseCursorSub, StateCursor, StatePos, NAME_CURSOR,
    NAME_POS,
};
use input_service::keys::{Key, Platform};
use input_service::mouse::{Input, SysCursorPos, INVALID_CURSOR_POS};
use input_service::records::{record_pressed_key, KeysDown};
use input_service::script::{Command, Op};

fn looks(id: u64) -> CursorData {
    CursorData { id, hotx: 1, hoty: 2, width: 3, height: 4, colors: vec![9, 9, 9] }
}

fn looks_message(id: u64) -> Arc<Message> {
    Arc::new(Message::CursorData(looks(id)))
}

fn position(msg: &Message) -> (i32, i32) {
    match msg {
        Message::CursorPosition(CursorPosition { x, y }) => (*x, *y),
        _ => panic!("{:?} is no position", msg),
    }
}

#[test]
fn the_services_have_their_names() {
    assert_eq!(NAME_CURSOR, "mouse_cursor");
    assert_eq!(NAME_POS, "mouse_pos");
    let cursor = new_cursor();
    assert_eq!((cursor.name, cursor.need_snapshot, cursor.interval), ("mouse_cursor", true, 33));
    let pos = new_pos();
    assert_eq!((pos.name, pos.need_snapshot, pos.interval), ("mouse_pos", false, 33));
    assert_eq!(pos.state.cursor_pos, (INVALID_CURSOR_POS, INVALID_CURSOR_POS));
}

#[test]
fn looks_go_out_in_full_once() {
    let mut sub = MouseCursorSub::from(ConnInner { id: 17 });
    assert_eq!(sub.id(), 17);
    let first = looks_message(5);
    assert!(Arc::ptr_eq(&sub.send(first.clone()), &first));
    assert!(matches!(*sub.send(looks_message(5)), Message::CursorId(5)));
    assert!(matches!(*sub.send(first.clone()), Message::CursorId(5)));
    let second = looks_message(6);
    assert!(Arc::ptr_eq(&sub.send(second.clone()), &second));
    assert!(matches!(*sub.send(second), Message::CursorId(6)));
}

#[test]
fn other_messages_go_out_as_they_are() {
    let mut sub = MouseCursorSub::default();
    assert_eq!(sub.id(), 0);
    for msg in [
        Message::Empty,
        Message::CursorId(5),
        Message::CursorPosition(CursorPosition { x: 1, y: 2 }),
        Message::Other(vec![1, 2, 3]),
    ] {
        let msg = Arc::new(msg);
        assert!(Arc::ptr_eq(&sub.send(msg.clone()), &msg));
        assert!(Arc::ptr_eq(&sub.send(msg.clone()), &msg));
    }
    let first = looks_message(5);
    assert!(Arc::ptr_eq(&sub.send(first.clone()), &first));
}

#[test]
fn a_clone_keeps_what_was_sent() {
    let mut sub = MouseCursorSub::from(ConnInner { id: 3 });
    sub.send(looks_message(5));
    let mut other = sub.clone();
    assert_eq!(other.id(), 3);
    assert!(matches!(*other.send(looks_message(5)), Message::CursorId(5)));
    other.send(looks_message(6));
    assert!(matches!(*sub.send(looks_message(6)), Message::CursorData(_)));
}

#[test]
fn looks_are_fetched_once_and_sent_when_they_change() {
    let mut state = StateCursor::default();
    match run_cursor(&mut state, None) {
        CursorStep::Publish { send: None, snapshot } => {
            assert!(matches!(*snapshot, Message::Empty));
        }
        step => panic!("{:?}", step),
    }
    assert!(matches!(run_cursor(&mut state, Some(7)), CursorStep::Fetch(7)));
    assert!(matches!(run_cursor(&mut state, Some(7)), CursorStep::Fetch(7)));
    let seven = match publish_cursor(&mut state, 7, looks(70), vec![1]) {
        CursorStep::Publish { send: Some(msg), snapshot } => {
            assert!(Arc::ptr_eq(&msg, &snapshot));
            match &*msg {
                Message::CursorData(data) => {
                    assert_eq!((data.id, data.hotx, data.hoty), (70, 1, 2));
                    assert_eq!((data.width, data.height), (3, 4));
                    assert_eq!(data.colors, vec![1]);
                }
                _ => panic!("{:?}", msg),
            }
            msg
        }
        step => panic!("{:?}", step),
    };
    for hcursor in [Some(7), None] {
        match run_cursor(&mut state, hcursor) {
            CursorStep::Publish { send: None, snapshot } => {
                assert!(Arc::ptr_eq(&snapshot, &seven));
            }
            step => panic!("{:?}", step),
        }
    }
    assert!(matches!(run_cursor(&mut state, Some(8)), CursorStep::Fetch(8)));
    publish_cursor(&mut state, 8, looks(80), vec![2]);
    match run_cursor(&mut state, Some(7)) {
        CursorStep::Publish { send: Some(msg), snapshot } => {
            assert!(Arc::ptr_eq(&msg, &seven) && Arc::ptr_eq(&snapshot, &seven));
        }
        step => panic!("{:?}", step),
    }
}

#[test]
fn a_cursor_with_handle_zero_is_the_one_before_the_first() {
    let mut state = StateCursor::default();
    assert!(matches!(
        run_cursor(&mut state, Some(0)),
        CursorStep::Publish { send: None, .. }
    ));
}

#[test]
fn a_reset_forgets_looks_and_lets_go_of_keys() {
    let mut state = StateCursor::default();
    publish_cursor(&mut state, 7, looks(7), vec![]);
    let mut keys = KeysDown::new();
    record_pressed_key(&mut keys, 29, true, 5);
    let plan = state.reset(&mut keys, Platform::Linux, 5);
    assert_eq!(
        plan,
        vec![
            Op::Do(Command::ResetInputCache),
            Op::Do(Command::KeyUp(Key::Shift)),
        ]
    );
    assert!(keys.is_empty());
    assert!(matches!(run_cursor(&mut state, Some(7)), CursorStep::Fetch(7)));
}

#[test]
fn a_position_is_sent_when_it_changes() {
    let mut state = StatePos::default();
    let mut latest = SysCursorPos { time: 0, x: 0, y: 0 };
    let peer = Input::default();
    assert!(!state.is_valid());
    let update = run_pos(&mut state, &mut latest, &peer, None, 1, 1000);
    assert!(update.send.is_none());
    assert_eq!(position(&update.snapshot), (i32::MIN, i32::MIN));
    let update = run_pos(&mut state, &mut latest, &peer, Some((1, 2)), 2, 1000);
    assert!(update.send.is_none());
    assert_eq!(position(&update.snapshot), (1, 2));
    assert_eq!(latest, SysCursorPos { time: 2, x: 1, y: 2 });
    assert!(state.is_valid() && state.is_moved(1, 3) && !state.is_moved(1, 2));
    let update = run_pos(&mut state, &mut latest, &peer, Some((1, 2)), 3, 1000);
    assert!(update.send.is_none());
    assert_eq!(latest.time, 2);
    let update = run_pos(&mut state, &mut latest, &peer, Some((1, 5)), 4, 1000);
    let (msg, exclude) = update.send.unwrap();
    assert_eq!((position(&msg), exclude), ((1, 5), 0));
    assert_eq!(position(&update.snapshot), (1, 5));
    assert_eq!(latest, SysCursorPos { time: 4, x: 1, y: 5 });
    state.reset();
    assert!(!state.is_valid() && !state.is_moved(0, 0));
}

#[test]
fn the_peer_that_has_just_moved_the_cursor_is_not_told() {
    for (time, excluded) in [(999, 6), (1000, 6), (1299, 6), (1300, 0)] {
        let mut state = StatePos { cursor_pos: (0, 0) };
        let mut latest = SysCursorPos { time: 0, x: 0, y: 0 };
        let peer = Input { conn: 6, time: 1000, x: 1, y: 1 };
        let update = run_pos(&mut state, &mut latest, &peer, Some((1, 1)), 5, time);
        assert_eq!(update.send.unwrap().1, excluded);
    }
}
