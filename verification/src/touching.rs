use vstd::prelude::*;

use crate::dialogue::{lemma_char_range, lemma_heard_size};
use crate::events::{law_mask_has_two_parts, KeyEvent, KeyUnion, KeyboardMode, MouseEvent};
use crate::keyboard::{
    fix_modifiers_ops, flag_ops, for_each_key, key_session, map_mode_ops, sync_locks_op,
    union_ops,
};
use crate::keys::{local_key_of_code, twin, Key, Platform, RdevKey};
use crate::laws::lists_local_key;
use crate::mouse::{
    button_modifiers_ops, handle_mouse_ops, mouse_ops, mouse_session, press_mouse_modifiers_ops,
    press_unless_lock_ops, relative_move_ops,
};
use crate::notes::{conversed, ended, Turn};
use crate::records::recorded;
use crate::script::{Command, Goal, Op};
use crate::session::{advanced, concluded, fresh, heard, ActionView, SessionView, Wait};
use crate::transcript::{
    is_calm, lemma_all_is_said, lemma_show_none, lemma_shown_of_concat, op_shows, said, shown,
    shown_of, Look,
};
use crate::typing::{
    each, lemma_each_concat, lemma_each_step, lemma_fix_modifiers_each, lemma_for_each_key,
    steps_before, steps_behind,
};

verus! {

/// The keys that a session may press, and those that it may let go of, and whether it
/// may click the locks.
struct Reach {
    down: Set<Key>,
    up: Set<Key>,
    clicks: bool,
}

spec fn goal_reaches(goal: Goal, platform: Platform, r: Reach) -> bool {
    match goal {
        Goal::Caps { .. } | Goal::Num { .. } => r.clicks && (platform == Platform::MacOs
            ==> r.down.contains(Key::CapsLock)),
        Goal::Fix { key1, .. } | Goal::FixUnlessAlt { key1 } => r.up.contains(key1),
        Goal::Press { key, .. } => r.down.contains(key) && r.up.contains(key),
        _ => true,
    }
}

spec fn op_reaches(op: Op, platform: Platform, r: Reach) -> bool {
    match op {
        Op::Do(command) => command_reaches(command, r),
        Op::KeyState { goal, .. } | Op::ModifierState { goal, .. } => goal_reaches(
            goal,
            platform,
            r,
        ),
        Op::Chr { key, .. } => r.down.contains(key),
        _ => true,
    }
}

spec fn command_reaches(command: Command, r: Reach) -> bool {
    match command {
        Command::KeyDown(key) => r.down.contains(key),
        Command::KeyUp(key) => r.up.contains(key),
        Command::KeyClick(key) => r.clicks && (key == Key::CapsLock || key == Key::NumLock),
        _ => true,
    }
}

spec fn reaches(s: SessionView, r: Reach) -> bool {
    &&& forall|i: int| 0 <= i < s.todo.len() ==> op_reaches(#[trigger] s.todo[i], s.platform, r)
    &&& forall|i: int| 0 <= i < s.pressed.len() ==> r.up.contains(#[trigger] s.pressed[i])
    &&& match s.wait {
        Wait::KeyState { goal } | Wait::ModifierState { goal, .. } => goal_reaches(
            goal,
            s.platform,
            r,
        ),
        _ => true,
    }
}

proof fn lemma_added_reaches(s: SessionView, after: SessionView, r: Reach)
    requires
        reaches(SessionView { wait: Wait::Idle, ..s }, r),
        after.platform == s.platform,
        after.wait == Wait::Idle,
        after.todo.len() >= s.todo.len(),
        forall|i: int|
            0 <= i < after.todo.len() - s.todo.len() ==> op_reaches(
                #[trigger] after.todo[i],
                s.platform,
                r,
            ),
        forall|i: int|
            after.todo.len() - s.todo.len() <= i < after.todo.len() ==> #[trigger] after.todo[i]
                == s.todo[i - (after.todo.len() - s.todo.len())],
        forall|i: int| 0 <= i < after.pressed.len() ==> r.up.contains(#[trigger] after.pressed[i]),
    ensures
        reaches(after, r),
{
    let idle = SessionView { wait: Wait::Idle, ..s };
    let n = after.todo.len() - s.todo.len();
    assert forall|i: int| 0 <= i < after.todo.len() implies op_reaches(
        #[trigger] after.todo[i],
        s.platform,
        r,
    ) by {
        if i >= n {
            assert(after.todo[i] == idle.todo[i - n]);
        }
    }
}

proof fn lemma_concluded_reaches(
    s: SessionView,
    keys: Map<u64, u64>,
    goal: Goal,
    held: bool,
    r: Reach,
)
    requires
        reaches(SessionView { wait: Wait::Idle, ..s }, r),
        goal_reaches(goal, s.platform, r),
    ensures
        reaches(concluded(s, keys, goal, held), r),
{
    let idle = SessionView { wait: Wait::Idle, ..s };
    let after = concluded(s, keys, goal, held);
    match goal {
        Goal::Shift { chr } | Goal::Capital { chr } => {
            lemma_char_range(chr);
        },
        _ => {},
    }
    assert forall|i: int| 0 <= i < after.pressed.len() implies r.up.contains(
        #[trigger] after.pressed[i],
    ) by {
        if i < s.pressed.len() {
            assert(after.pressed[i] == idle.pressed[i]);
        }
    }
    lemma_added_reaches(s, after, r);
}

proof fn lemma_heard_reaches(s: SessionView, keys: Map<u64, u64>, reply: bool, r: Reach)
    requires
        reaches(s, r),
    ensures
        reaches(heard(s, keys, reply), r),
{
    let after = heard(s, keys, reply);
    let idle = SessionView { wait: Wait::Idle, ..s };
    assert(reaches(idle, r)) by {
        assert(idle.todo == s.todo);
        assert(idle.pressed == s.pressed);
    }
    match s.wait {
        Wait::Idle => {},
        Wait::KeyState { goal } => {
            lemma_concluded_reaches(s, keys, goal, reply, r);
        },
        Wait::ModifierState { key, goal } => {
            if !reply && twin(key) is Some {
                lemma_added_reaches(s, after, r);
            } else {
                lemma_concluded_reaches(s, keys, goal, reply, r);
            }
        },
        Wait::Chr { chr } => {
            if let Some(c) = chr {
                lemma_char_range(c);
            }
            lemma_added_reaches(s, after, r);
        },
    }
}

spec fn action_reaches(action: Option<ActionView>, r: Reach) -> bool {
    match action {
        Some(ActionView::Perform(command)) => command_reaches(command, r),
        _ => true,
    }
}

proof fn lemma_advanced_reaches(s: SessionView, keys: Map<u64, u64>, now: u64, r: Reach)
    requires
        reaches(s, r),
        s.wait == Wait::Idle,
    ensures
        reaches(advanced(s, keys, now).0, r),
        action_reaches(advanced(s, keys, now).2, r),
    decreases s.todo.len(),
{
    if s.todo.len() > 0 {
        let rest = s.awaits(Wait::Idle);
        assert forall|i: int| 0 <= i < rest.todo.len() implies op_reaches(
            #[trigger] rest.todo[i],
            s.platform,
            r,
        ) by {
            assert(rest.todo[i] == s.todo[i + 1]);
        }
        assert(op_reaches(s.todo[0], s.platform, r));
        assert(reaches(rest, r));
        match s.todo[0] {
            Op::Record { record_key, down } => {
                lemma_advanced_reaches(rest, recorded(keys, record_key, down, now), now, r);
            },
            Op::ReleasePressed => {
                if s.pressed.len() == 0 {
                    lemma_advanced_reaches(rest, keys, now, r);
                } else {
                    let after = advanced(s, keys, now).0;
                    assert(r.up.contains(s.pressed[0]));
                    assert forall|i: int| 0 <= i < after.pressed.len() implies r.up.contains(
                        #[trigger] after.pressed[i],
                    ) by {
                        assert(after.pressed[i] == s.pressed[i + 1]);
                    }
                    assert(after.todo == s.todo);
                }
            },
            _ => {
                let after = advanced(s, keys, now).0;
                assert(after.todo == rest.todo);
                assert(after.pressed == rest.pressed);
            },
        }
    }
}

proof fn lemma_conversed_reaches(s: SessionView, keys: Map<u64, u64>, turns: Seq<Turn>, r: Reach)
    requires
        reaches(s, r),
    ensures
        reaches(conversed(s, keys, turns).0, r),
        action_reaches(conversed(s, keys, turns).2, r),
    decreases turns.len(),
{
    if turns.len() > 0 {
        let last = turns.last();
        lemma_conversed_reaches(s, keys, turns.drop_last(), r);
        let (s1, keys1, _) = conversed(s, keys, turns.drop_last());
        lemma_heard_reaches(s1, keys1, last.reply, r);
        lemma_heard_size(s1, keys1, last.reply);
        lemma_advanced_reaches(heard(s1, keys1, last.reply), keys1, last.now, r);
    }
}

/// The key of an event in the peer's layout.
spec fn is_target(evt: KeyEvent, key: Key) -> bool {
    match evt.union {
        Some(KeyUnion::ControlKey(ck)) => local_key_of_code(ck) == Some(key),
        Some(KeyUnion::Chr(c)) => key == Key::Layout(
            if c <= 0xd7ff || 0xe000 <= c <= 0x10ffff {
                c as char
            } else {
                '\0'
            },
        ),
        _ => false,
    }
}

/// The handling of an event in the peer's layout touches no other keys than it has to,
/// whatever the machine answers: it presses its own key and the modifiers that the peer
/// lists, lets go of those again, of its own key and of modifiers, and clicks the locks;
/// on macOS it also presses caps lock.
pub proof fn law_key_event_touches_its_keys(
    platform: Platform,
    is_x11: bool,
    evt: KeyEvent,
    win_key: RdevKey,
    keys: Map<u64, u64>,
    turns: Seq<Turn>,
)
    requires
        evt.mode != KeyboardMode::MapKeys,
    ensures
        ({
            let target = |key: Key|
                match evt.union {
                    Some(KeyUnion::ControlKey(ck)) => local_key_of_code(ck) == Some(key),
                    Some(KeyUnion::Chr(c)) => key == Key::Layout(
                        if c <= 0xd7ff || 0xe000 <= c <= 0x10ffff {
                            c as char
                        } else {
                            '\0'
                        },
                    ),
                    _ => false,
                };
            let s = key_session(false, platform, is_x11, evt, win_key);
            match conversed(s, keys, turns).2 {
                Some(ActionView::Perform(Command::KeyDown(key))) => evt.down && (target(key)
                    || lists_local_key(evt.modifiers@, key) || (platform == Platform::MacOs && key
                    == Key::CapsLock)),
                Some(ActionView::Perform(Command::KeyUp(key))) => if evt.down {
                    lists_local_key(evt.modifiers@, key) || twin(key) is Some
                } else {
                    target(key)
                },
                Some(ActionView::Perform(Command::KeyClick(key))) => evt.down && (key
                    == Key::CapsLock || key == Key::NumLock),
                _ => true,
            }
        }),
{
    let s = key_session(false, platform, is_x11, evt, win_key);
    let m = evt.modifiers@;
    let r = Reach {
        down: Set::new(
            |key: Key|
                evt.down && (is_target(evt, key) || lists_local_key(m, key) || (platform
                    == Platform::MacOs && key == Key::CapsLock)),
        ),
        up: Set::new(
            |key: Key|
                if evt.down {
                    lists_local_key(m, key) || twin(key) is Some
                } else {
                    is_target(evt, key)
                },
        ),
        clicks: evt.down,
    };
    if evt.down {
        let p = |op: Op| op_reaches(op, platform, r);
        let c = union_ops(evt);
        assert forall|i: int| 0 <= i < c.len() implies p(#[trigger] c[i]) by {}
        lemma_each_step(platform, is_x11, evt, win_key, p);
        assert forall|i: int| 0 <= i < s.todo.len() implies op_reaches(
            #[trigger] s.todo[i],
            platform,
            r,
        ) by {
            assert(p(s.todo[i]));
        }
    } else {
        lemma_up_steps(platform, is_x11, evt, win_key, r);
    }
    lemma_conversed_reaches(s, keys, turns, r);
}

proof fn lemma_up_steps(
    platform: Platform,
    is_x11: bool,
    evt: KeyEvent,
    win_key: RdevKey,
    r: Reach,
)
    requires
        evt.mode != KeyboardMode::MapKeys,
        !evt.down,
        forall|key: Key| is_target(evt, key) ==> #[trigger] r.up.contains(key),
    ensures
        reaches(key_session(false, platform, is_x11, evt, win_key), r),
{
    let s = key_session(false, platform, is_x11, evt, win_key);
    let p = |op: Op| op_reaches(op, platform, r);
    let m = evt.modifiers@;
    let flags = |key: Key| seq![Op::Do(Command::AddFlag(key))];
    lemma_for_each_key(m, flags, p);
    let a: Seq<Op> = if platform == Platform::Windows {
        seq![Op::Do(Command::TryChangeDesktop)]
    } else {
        Seq::empty()
    };
    let b: Seq<Op> = if platform == Platform::MacOs {
        flag_ops(m)
    } else {
        Seq::empty()
    };
    let c = union_ops(evt);
    let e = steps_behind(platform, evt);
    lemma_each_concat(seq![Op::Do(Command::ResetFlag)], for_each_key(m, flags), p);
    lemma_each_concat(a, b, p);
    assert(each(c, p)) by {
        assert forall|i: int| 0 <= i < c.len() implies p(#[trigger] c[i]) by {}
    }
    lemma_each_concat(a + b, c, p);
    lemma_each_concat(a + b + c, e, p);
    assert(s.todo =~= a + b + c + e);
    assert forall|i: int| 0 <= i < s.todo.len() implies op_reaches(
        #[trigger] s.todo[i],
        platform,
        r,
    ) by {
        assert(p(s.todo[i]));
    }
}

/// A mouse event touches no other keys than it has to, whatever the machine answers: a
/// button that goes down has the modifiers pressed that the peer lists, but for caps
/// lock and num lock, lets go of those again and of modifiers. No other event touches
/// any, and no lock is clicked.
pub proof fn law_mouse_event_touches_modifiers(
    platform: Platform,
    evt: MouseEvent,
    keys: Map<u64, u64>,
    turns: Seq<Turn>,
)
    ensures
        match conversed(mouse_session(false, platform, evt), keys, turns).2 {
            Some(ActionView::Perform(Command::KeyDown(key))) => evt.mask & 7 == 1
                && lists_local_key(evt.modifiers@, key) && key != Key::CapsLock && key
                != Key::NumLock,
            Some(ActionView::Perform(Command::KeyUp(key))) => evt.mask & 7 == 1 && (
            lists_local_key(evt.modifiers@, key) || twin(key) is Some),
            Some(ActionView::Perform(Command::KeyClick(_))) => false,
            _ => true,
        },
{
    let s = mouse_session(false, platform, evt);
    let m = evt.modifiers@;
    law_mask_has_two_parts(evt);
    let one = evt.kind() == 1;
    let r = Reach {
        down: Set::new(
            |key: Key|
                one && lists_local_key(m, key) && key != Key::CapsLock && key != Key::NumLock,
        ),
        up: Set::new(|key: Key| one && (lists_local_key(m, key) || twin(key) is Some)),
        clicks: false,
    };
    let p = |op: Op| op_reaches(op, platform, r);
    let flags = |key: Key| seq![Op::Do(Command::AddFlag(key))];
    let presses = |key: Key| press_unless_lock_ops(key);
    let a: Seq<Op> = if platform == Platform::Windows {
        seq![Op::Do(Command::TryChangeDesktop)]
    } else {
        Seq::empty()
    };
    let b: Seq<Op> = if one {
        button_modifiers_ops(platform, m)
    } else {
        Seq::empty()
    };
    let c = mouse_ops(platform, evt);
    let e: Seq<Op> = if platform == Platform::MacOs {
        Seq::empty()
    } else {
        seq![Op::ReleasePressed]
    };
    if one {
        lemma_fix_modifiers_each(m, 0, p);
        lemma_for_each_key(m, flags, p);
        lemma_for_each_key(m, presses, p);
        lemma_each_concat(seq![Op::Do(Command::ResetFlag)], for_each_key(m, flags), p);
        lemma_each_concat(
            fix_modifiers_ops(m, 0),
            if platform == Platform::MacOs {
                flag_ops(m)
            } else {
                press_mouse_modifiers_ops(m)
            },
            p,
        );
    }
    lemma_each_concat(a, b, p);
    lemma_each_concat(a + b, c, p);
    lemma_each_concat(a + b + c, e, p);
    assert(handle_mouse_ops(platform, evt) == a + b + c + e);
    assert forall|i: int| 0 <= i < s.todo.len() implies op_reaches(
        #[trigger] s.todo[i],
        platform,
        r,
    ) by {
        assert(p(s.todo[i]));
    }
    lemma_conversed_reaches(s, keys, turns, r);
}

/// The key of an event in the peer's layout goes down exactly once, whatever the machine
/// answers, where the peer does not list it as a modifier too.
pub proof fn law_key_goes_down_once(
    platform: Platform,
    is_x11: bool,
    evt: KeyEvent,
    win_key: RdevKey,
    key: Key,
    keys: Map<u64, u64>,
    turns: Seq<Turn>,
)
    requires
        evt.mode != KeyboardMode::MapKeys,
        evt.down,
        match evt.union {
            Some(KeyUnion::ControlKey(ck)) => local_key_of_code(ck) == Some(key),
            Some(KeyUnion::Chr(c)) => key == Key::Layout(
                if c <= 0xd7ff || 0xe000 <= c <= 0x10ffff {
                    c as char
                } else {
                    '\0'
                },
            ),
            _ => false,
        },
        !lists_local_key(evt.modifiers@, key),
        key != Key::CapsLock,
        ended(key_session(false, platform, is_x11, evt, win_key), keys, turns),
    ensures
        shown(
            said(key_session(false, platform, is_x11, evt, win_key), keys, turns),
            Look::Press(key),
        ) == seq![ActionView::Perform(Command::KeyDown(key))],
{
    let s = key_session(false, platform, is_x11, evt, win_key);
    let look = Look::Press(key);
    let text = evt.text();
    let none = Seq::<ActionView>::empty();
    let p = |op: Op| is_calm(op, look);
    let q = |op: Op| !op_shows(op, text, look);
    let c = union_ops(evt);
    crate::keys::law_control_keys_are_injected_by_name(0);
    crate::keyboard::law_functions_are_two(evt);
    assert(c.len() == 2);
    assert(each(c, p));
    lemma_each_step(platform, is_x11, evt, win_key, p);
    lemma_each_step(platform, is_x11, evt, win_key, q);
    let before = steps_before(platform, evt, win_key);
    let behind = steps_behind(platform, evt);
    assert forall|i: int| 0 <= i < s.todo.len() implies is_calm(#[trigger] s.todo[i], look) by {
        assert(p(s.todo[i]));
    }
    assert forall|i: int| 0 <= i < before.len() implies !op_shows(
        #[trigger] before[i],
        text,
        look,
    ) by {
        assert(q(before[i]));
    }
    lemma_show_none(before, text, look);
    lemma_show_none(behind, text, look);
    lemma_shown_of_concat(before, c, text, look);
    lemma_shown_of_concat(before + c, behind, text, look);
    assert(shown_of(c, text, look) =~= seq![ActionView::Perform(Command::KeyDown(key))]) by {
        reveal_with_fuel(shown_of, 3);
    }
    let one = seq![ActionView::Perform(Command::KeyDown(key))];
    assert(none + one + none =~= one);
    lemma_all_is_said(s, keys, turns, look);
}

/// In map mode no other keys of the injecting device are touched than the key of the
/// event itself, on Wayland, and the locks, whatever the machine answers; the key goes
/// down once.
pub proof fn law_mapped_event_touches_its_key(
    platform: Platform,
    is_x11: bool,
    evt: KeyEvent,
    win_key: RdevKey,
    key: Key,
    keys: Map<u64, u64>,
    turns: Seq<Turn>,
)
    requires
        evt.mode == KeyboardMode::MapKeys,
        key == Key::Raw(
            match evt.union {
                Some(KeyUnion::Chr(code)) => (code % 0x1_0000) as u16,
                _ => 0,
            },
        ),
    ensures
        ({
            let s = key_session(false, platform, is_x11, evt, win_key);
            let wayland = platform == Platform::Linux && !is_x11;
            &&& match conversed(s, keys, turns).2 {
                Some(ActionView::Perform(Command::KeyDown(other))) => evt.down && ((wayland && other
                    == key) || (platform == Platform::MacOs && other == Key::CapsLock)),
                Some(ActionView::Perform(Command::KeyUp(other))) => !evt.down && wayland && other
                    == key,
                Some(ActionView::Perform(Command::KeyClick(other))) => evt.down && (other
                    == Key::CapsLock || other == Key::NumLock),
                _ => true,
            }
            &&& evt.down && wayland && ended(s, keys, turns) ==> shown(
                said(s, keys, turns),
                Look::Press(key),
            ) == seq![ActionView::Perform(Command::KeyDown(key))]
        }),
{
    let s = key_session(false, platform, is_x11, evt, win_key);
    let wayland = platform == Platform::Linux && !is_x11;
    let r = Reach {
        down: Set::new(
            |other: Key|
                evt.down && ((wayland && other == key) || (platform == Platform::MacOs && other
                    == Key::CapsLock)),
        ),
        up: Set::new(|other: Key| !evt.down && wayland && other == key),
        clicks: evt.down,
    };
    let locks: Seq<Op> = if evt.down {
        seq![sync_locks_op(platform, evt, win_key)]
    } else {
        Seq::empty()
    };
    let ops = map_mode_ops(platform, is_x11, evt);
    assert(s.todo == locks + ops);
    lemma_conversed_reaches(s, keys, turns, r);
    if evt.down && wayland && ended(s, keys, turns) {
        let look = Look::Press(key);
        let text = evt.text();
        let one = seq![ActionView::Perform(Command::KeyDown(key))];
        lemma_show_none(locks, text, look);
        lemma_shown_of_concat(locks, ops, text, look);
        assert(shown_of(ops, text, look) =~= one) by {
            reveal_with_fuel(shown_of, 3);
        }
        assert(Seq::<ActionView>::empty() + one =~= one);
        lemma_all_is_said(s, keys, turns, look);
    }
}

/// Commands that make up a plan are given one by one, in order and as they are, whatever
/// the machine answers.
pub proof fn law_commands_are_given_in_order(
    platform: Platform,
    text: Seq<char>,
    commands: Seq<Command>,
    keys: Map<u64, u64>,
    turns: Seq<Turn>,
)
    requires
        ended(
            fresh(platform, text, commands.map_values(|command: Command| Op::Do(command))),
            keys,
            turns,
        ),
    ensures
        said(
            fresh(platform, text, commands.map_values(|command: Command| Op::Do(command))),
            keys,
            turns,
        ) == commands.map_values(|command: Command| ActionView::Perform(command)),
{
    let ops = commands.map_values(|command: Command| Op::Do(command));
    let s = fresh(platform, text, ops);
    lemma_all_is_said(s, keys, turns, Look::All);
    crate::transcript::lemma_shown_all(said(s, keys, turns));
    lemma_commands_shown(commands, text);
}

/// A relative move follows the desktop and then moves the cursor by the very distance,
/// once, whatever the machine answers.
pub proof fn law_relative_move_is_told(
    platform: Platform,
    x: i32,
    y: i32,
    keys: Map<u64, u64>,
    turns: Seq<Turn>,
)
    requires
        ended(fresh(platform, Seq::empty(), relative_move_ops(x, y)), keys, turns),
    ensures
        said(fresh(platform, Seq::empty(), relative_move_ops(x, y)), keys, turns) == seq![
            ActionView::Perform(Command::TryChangeDesktop),
            ActionView::Perform(Command::MouseMoveRelative(x, y)),
        ],
{
    let commands = seq![Command::TryChangeDesktop, Command::MouseMoveRelative(x, y)];
    assert(commands.map_values(|command: Command| Op::Do(command)) =~= relative_move_ops(x, y));
    law_commands_are_given_in_order(platform, Seq::empty(), commands, keys, turns);
    assert(commands.map_values(|command: Command| ActionView::Perform(command)) =~= seq![
        ActionView::Perform(Command::TryChangeDesktop),
        ActionView::Perform(Command::MouseMoveRelative(x, y)),
    ]);
}

proof fn lemma_commands_shown(commands: Seq<Command>, text: Seq<char>)
    ensures
        shown_of(commands.map_values(|command: Command| Op::Do(command)), text, Look::All)
            == commands.map_values(|command: Command| ActionView::Perform(command)),
    decreases commands.len(),
{
    let ops = commands.map_values(|command: Command| Op::Do(command));
    let actions = commands.map_values(|command: Command| ActionView::Perform(command));
    if commands.len() > 0 {
        let rest = commands.drop_first();
        lemma_commands_shown(rest, text);
        assert(ops.drop_first() =~= rest.map_values(|command: Command| Op::Do(command)));
        assert(actions =~= seq![ActionView::Perform(commands[0])] + rest.map_values(
            |command: Command| ActionView::Perform(command),
        ));
    } else {
        assert(actions =~= Seq::empty());
    }
}

} // verus!
