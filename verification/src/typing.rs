use vstd::prelude::*;

use crate::device::performed;
use crate::dialogue::{lemma_char_range, lemma_heard_size};
use crate::events::{KeyEvent, KeyUnion, KeyboardMode};
use crate::keyboard::{
    fix_modifiers_ops, fix_op, flag_ops, for_each_key, is_function_event, key_session,
    legacy_mode_ops, press_modifiers_ops, press_op, sync_locks_op, sync_modifiers_ops, union_ops,
};
use crate::keys::{
    law_control_keys_keep_apart, local_key_of_code, twin, ControlKey, Key, Platform, RdevKey,
};
use crate::laws::lists_local_key;
use crate::moments::{happens, played};
use crate::notes::{conversed, Turn};
use crate::records::recorded;
use crate::script::{Command, Goal, Op};
use crate::session::{advanced, concluded, heard, resumed, ActionView, SessionView, Wait};
use crate::text::{layout_key, scalar, uppercase};


verus! {

/// Whether what a key is wanted for types no other character than one with a number,
/// and presses no character as a modifier.
spec fn goal_types(goal: Goal, code: u32) -> bool {
    match goal {
        Goal::Press { key, .. } => !(key is Layout),
        Goal::Shift { chr } | Goal::Capital { chr } => scalar(code) == Some(chr),
        _ => true,
    }
}

/// Whether a step types no other character than one with a number, and presses its key
/// only where it types the character if that fails.
spec fn op_types(op: Op, code: u32) -> bool {
    match op {
        Op::Do(Command::KeyDown(key)) => !(key is Layout),
        Op::TypeChar(c) | Op::TypeUpper(c) => scalar(code) == Some(c),
        Op::TypeText => false,
        Op::KeyState { goal, .. } | Op::ModifierState { goal, .. } => goal_types(goal, code),
        Op::Chr { key, chr } => key == layout_key(code) && chr == scalar(code),
        _ => true,
    }
}

spec fn ops_type(ops: Seq<Op>, code: u32) -> bool {
    forall|i: int| 0 <= i < ops.len() ==> op_types(#[trigger] ops[i], code)
}

spec fn types(s: SessionView, code: u32) -> bool {
    &&& ops_type(s.todo, code)
    &&& match s.wait {
        Wait::Idle => true,
        Wait::KeyState { goal } | Wait::ModifierState { goal, .. } => goal_types(goal, code),
        Wait::Chr { chr } => chr == scalar(code),
    }
}

proof fn lemma_added_types(a: Seq<Op>, b: Seq<Op>, code: u32)
    requires
        ops_type(a, code),
        ops_type(b, code),
    ensures
        ops_type(a + b, code),
{
}

proof fn lemma_concluded_types(
    s: SessionView,
    keys: Map<u64, u64>,
    goal: Goal,
    held: bool,
    code: u32,
)
    requires
        ops_type(s.todo, code),
        goal_types(goal, code),
    ensures
        types(concluded(s, keys, goal, held), code),
{
    let after = concluded(s, keys, goal, held);
    match goal {
        Goal::Shift { chr } | Goal::Capital { chr } => {
            lemma_char_range(chr);
        },
        _ => {},
    }
    let added = after.todo.take(after.todo.len() - s.todo.len());
    assert(after.todo =~= added + s.todo);
    assert(ops_type(added, code));
    lemma_added_types(added, s.todo, code);
}

proof fn lemma_heard_types(s: SessionView, keys: Map<u64, u64>, reply: bool, code: u32)
    requires
        types(s, code),
    ensures
        types(heard(s, keys, reply), code),
{
    assert(Seq::<Op>::empty() + s.todo =~= s.todo);
    match s.wait {
        Wait::KeyState { goal } => {
            lemma_concluded_types(s, keys, goal, reply, code);
        },
        Wait::ModifierState { key, goal } => {
            lemma_concluded_types(s, keys, goal, reply, code);
            if let Some(other) = twin(key) {
                lemma_added_types(seq![Op::KeyState { key: other, goal }], s.todo, code);
            }
        },
        Wait::Chr { chr: Some(chr) } => {
            lemma_char_range(chr);
            let op = Op::ModifierState { key: Key::Shift, goal: Goal::Shift { chr } };
            lemma_added_types(seq![op], s.todo, code);
        },
        _ => {},
    }
}

/// What an action of a session may be that types no other character than one with a
/// number, and what the session waits for after it.
spec fn action_types(after: SessionView, action: Option<ActionView>, code: u32) -> bool {
    match action {
        Some(ActionView::Perform(Command::KeyDown(key))) => key is Layout ==> after.wait
            == (Wait::Chr { chr: scalar(code) }) && key == layout_key(code),
        Some(ActionView::KeySequence(text)) => scalar(code) matches Some(c) && (text == seq![c]
            || text == uppercase(seq![c])),
        _ => true,
    }
}

proof fn lemma_advanced_types(s: SessionView, keys: Map<u64, u64>, now: u64, code: u32)
    requires
        types(s, code),
        s.wait == Wait::Idle,
        forall|i: int| 0 <= i < s.pressed.len() ==> !(#[trigger] s.pressed[i] is Layout),
    ensures
        ({
            let (after, _, action) = advanced(s, keys, now);
            types(after, code) && action_types(after, action, code)
        }),
    decreases s.todo.len(),
{
    if s.todo.len() > 0 {
        let rest = s.awaits(Wait::Idle);
        assert forall|i: int| 0 <= i < rest.todo.len() implies op_types(
            #[trigger] rest.todo[i],
            code,
        ) by {
            assert(rest.todo[i] == s.todo[i + 1]);
        }
        assert(op_types(s.todo[0], code));
        match s.todo[0] {
            Op::Record { record_key, down } => {
                lemma_advanced_types(rest, recorded(keys, record_key, down, now), now, code);
            },
            Op::ReleasePressed => {
                if s.pressed.len() == 0 {
                    lemma_advanced_types(rest, keys, now, code);
                }
            },
            _ => {},
        }
    }
}

proof fn lemma_advanced_pressed(s: SessionView, keys: Map<u64, u64>, now: u64)
    requires
        forall|i: int| 0 <= i < s.pressed.len() ==> !(#[trigger] s.pressed[i] is Layout),
    ensures
        ({
            let after = advanced(s, keys, now).0;
            forall|i: int| 0 <= i < after.pressed.len() ==> !(#[trigger] after.pressed[i] is Layout)
        }),
    decreases s.todo.len(),
{
    if s.todo.len() > 0 {
        let rest = s.awaits(Wait::Idle);
        match s.todo[0] {
            Op::Record { record_key, down } => {
                lemma_advanced_pressed(rest, recorded(keys, record_key, down, now), now);
            },
            Op::ReleasePressed => {
                if s.pressed.len() == 0 {
                    lemma_advanced_pressed(rest, keys, now);
                }
            },
            _ => {},
        }
    }
}

/// One turn of a session that types no other character than one with a number.
proof fn lemma_resumed_types(
    s: SessionView,
    keys: Map<u64, u64>,
    reply: bool,
    now: u64,
    code: u32,
)
    requires
        types(s, code),
        forall|i: int| 0 <= i < s.pressed.len() ==> !(#[trigger] s.pressed[i] is Layout),
    ensures
        ({
            let (after, _, action) = resumed(s, keys, reply, now);
            &&& types(after, code)
            &&& action_types(after, action, code)
            &&& forall|i: int|
                0 <= i < after.pressed.len() ==> !(#[trigger] after.pressed[i] is Layout)
        }),
{
    let h = heard(s, keys, reply);
    lemma_heard_types(s, keys, reply, code);
    lemma_heard_size(s, keys, reply);
    assert forall|i: int| 0 <= i < h.pressed.len() implies !(#[trigger] h.pressed[i] is Layout) by {
        if i < s.pressed.len() {
            assert(h.pressed[i] == s.pressed[i]);
        }
    }
    lemma_advanced_types(h, keys, now, code);
    lemma_advanced_pressed(h, keys, now);
}

proof fn lemma_conversed_types(s: SessionView, keys: Map<u64, u64>, turns: Seq<Turn>, code: u32)
    requires
        types(s, code),
        s.pressed.len() == 0,
    ensures
        ({
            let (after, _, action) = conversed(s, keys, turns);
            &&& types(after, code)
            &&& action_types(after, action, code)
            &&& forall|i: int|
                0 <= i < after.pressed.len() ==> !(#[trigger] after.pressed[i] is Layout)
        }),
    decreases turns.len(),
{
    if turns.len() > 0 {
        lemma_conversed_types(s, keys, turns.drop_last(), code);
        let (s1, keys1, _) = conversed(s, keys, turns.drop_last());
        lemma_resumed_types(s1, keys1, turns.last().reply, turns.last().now, code);
    }
}

pub(crate) open spec fn each(ops: Seq<Op>, p: spec_fn(Op) -> bool) -> bool {
    forall|i: int| 0 <= i < ops.len() ==> p(#[trigger] ops[i])
}

pub(crate) proof fn lemma_each_concat(a: Seq<Op>, b: Seq<Op>, p: spec_fn(Op) -> bool)
    requires
        each(a, p),
        each(b, p),
    ensures
        each(a + b, p),
{
}

pub(crate) proof fn lemma_for_each_key(
    modifiers: Seq<i32>,
    ops: spec_fn(Key) -> Seq<Op>,
    p: spec_fn(Op) -> bool,
)
    requires
        forall|key: Key| lists_local_key(modifiers, key) ==> each(#[trigger] ops(key), p),
    ensures
        each(for_each_key(modifiers, ops), p),
    decreases modifiers.len(),
{
    if modifiers.len() > 0 {
        let init = modifiers.drop_last();
        assert forall|key: Key| lists_local_key(init, key) implies each(#[trigger] ops(key), p) by {
            let i = choose|i: int|
                0 <= i < init.len() && local_key_of_code(#[trigger] init[i]) == Some(key);
            assert(local_key_of_code(modifiers[i]) == Some(key));
        }
        lemma_for_each_key(init, ops, p);
        if let Some(key) = local_key_of_code(modifiers.last()) {
            assert(local_key_of_code(modifiers[modifiers.len() - 1]) == Some(key));
            assert(each(ops(key), p));
        }
    }
}

/// No control key of a list is injected as a character.
pub(crate) proof fn lemma_listed_is_no_character(modifiers: Seq<i32>, key: Key)
    requires
        lists_local_key(modifiers, key),
    ensures
        !(key is Layout),
        !(key is Raw),
{
    let i = choose|i: int|
        0 <= i < modifiers.len() && local_key_of_code(#[trigger] modifiers[i]) == Some(key);
    law_control_keys_keep_apart(modifiers[i], modifiers[i]);
}

pub(crate) proof fn lemma_fix_modifiers_each(modifiers: Seq<i32>, ck: i32, p: spec_fn(Op) -> bool)
    requires
        forall|key0: ControlKey, key1: Key|
            twin(key1) is Some ==> p(#[trigger] fix_op(modifiers, key0, key1)),
    ensures
        each(fix_modifiers_ops(modifiers, ck), p),
{
    let ops = fix_modifiers_ops(modifiers, ck);
    assert forall|i: int| 0 <= i < ops.len() implies p(#[trigger] ops[i]) by {
        assert(ops[i] matches Op::ModifierState { key, goal: Goal::Fix { key0, key1, listed } }
            && twin(key1) is Some && ops[i] == fix_op(modifiers, key0, key1));
    }
}

/// The steps before those for what an event in the peer's layout is about.
pub(crate) open spec fn steps_before(
    platform: Platform,
    evt: KeyEvent,
    win_key: RdevKey,
) -> Seq<Op> {
    (if evt.down {
        seq![sync_locks_op(platform, evt, win_key)]
    } else {
        Seq::empty()
    }) + ((if platform == Platform::Windows {
        seq![Op::Do(Command::TryChangeDesktop)]
    } else {
        Seq::empty()
    }) + sync_modifiers_ops(platform, evt))
}

/// The steps behind them.
pub(crate) open spec fn steps_behind(platform: Platform, evt: KeyEvent) -> Seq<Op> {
    if platform == Platform::MacOs || is_function_event(evt) {
        Seq::empty()
    } else {
        seq![Op::ReleasePressed]
    }
}

/// Every step of an event in the peer's layout has a property that those before and
/// behind its own have, and its own.
pub(crate) proof fn lemma_each_step(
    platform: Platform,
    is_x11: bool,
    evt: KeyEvent,
    win_key: RdevKey,
    p: spec_fn(Op) -> bool,
)
    requires
        evt.mode != KeyboardMode::MapKeys,
        p(sync_locks_op(platform, evt, win_key)),
        p(Op::Do(Command::TryChangeDesktop)),
        p(Op::Do(Command::ResetFlag)),
        p(Op::ReleasePressed),
        forall|key: Key| #[trigger] p(Op::Do(Command::AddFlag(key))),
        forall|key: Key|
            lists_local_key(evt.modifiers@, key) ==> p(#[trigger] press_op(platform, key)),
        forall|key0: ControlKey, key1: Key|
            twin(key1) is Some ==> p(#[trigger] fix_op(evt.modifiers@, key0, key1)),
    ensures
        each(steps_before(platform, evt, win_key), p),
        each(union_ops(evt), p) ==> each(
            key_session(false, platform, is_x11, evt, win_key).todo,
            p,
        ),
        key_session(false, platform, is_x11, evt, win_key).todo == steps_before(
            platform,
            evt,
            win_key,
        ) + union_ops(evt) + steps_behind(platform, evt),
{
    let s = key_session(false, platform, is_x11, evt, win_key);
    let m = evt.modifiers@;
    let flags = |key: Key| seq![Op::Do(Command::AddFlag(key))];
    let presses = |key: Key| seq![press_op(platform, key)];
    let locks: Seq<Op> = if evt.down {
        seq![sync_locks_op(platform, evt, win_key)]
    } else {
        Seq::empty()
    };
    let a: Seq<Op> = if platform == Platform::Windows {
        seq![Op::Do(Command::TryChangeDesktop)]
    } else {
        Seq::empty()
    };
    let b1: Seq<Op> = if platform == Platform::MacOs {
        flag_ops(m)
    } else {
        Seq::empty()
    };
    let b2: Seq<Op> = if evt.down {
        fix_modifiers_ops(m, evt.control_key_code())
    } else {
        Seq::empty()
    };
    let b3: Seq<Op> = if evt.down && platform != Platform::MacOs {
        press_modifiers_ops(platform, m)
    } else {
        Seq::empty()
    };
    let c = union_ops(evt);
    let e: Seq<Op> = if platform == Platform::MacOs || is_function_event(evt) {
        Seq::empty()
    } else {
        seq![Op::ReleasePressed]
    };
    lemma_for_each_key(m, flags, p);
    lemma_for_each_key(m, presses, p);
    lemma_fix_modifiers_each(m, evt.control_key_code(), p);
    lemma_each_concat(seq![Op::Do(Command::ResetFlag)], for_each_key(m, flags), p);
    lemma_each_concat(b1, b2, p);
    lemma_each_concat(b1 + b2, b3, p);
    let b = sync_modifiers_ops(platform, evt);
    assert(b == b1 + b2 + b3);
    lemma_each_concat(a, b, p);
    lemma_each_concat(locks, a + b, p);
    let before = steps_before(platform, evt, win_key);
    assert(before == locks + (a + b));
    assert(legacy_mode_ops(platform, evt) == a + b + c + e);
    assert(s.todo == locks + (a + b + c + e));
    assert(s.todo =~= before + c + e);
    if each(c, p) {
        lemma_each_concat(before, c, p);
        lemma_each_concat(before + c, e, p);
    }
}

proof fn lemma_key_session_types(
    platform: Platform,
    is_x11: bool,
    evt: KeyEvent,
    win_key: RdevKey,
    code: u32,
)
    requires
        evt.mode != KeyboardMode::MapKeys,
        evt.union == Some(KeyUnion::Chr(code)),
    ensures
        types(key_session(false, platform, is_x11, evt, win_key), code),
{
    let p = |op: Op| op_types(op, code);
    let s = key_session(false, platform, is_x11, evt, win_key);
    assert forall|key: Key| lists_local_key(evt.modifiers@, key) implies p(
        #[trigger] press_op(platform, key),
    ) by {
        lemma_listed_is_no_character(evt.modifiers@, key);
    }
    lemma_each_step(platform, is_x11, evt, win_key, p);
    assert forall|i: int| 0 <= i < s.todo.len() implies op_types(#[trigger] s.todo[i], code) by {
        assert(p(s.todo[i]));
    }
}

/// The character of an event is the only one that is typed for it, as it is or in upper
/// case, whatever the machine answers; a number that no character has types nothing.
pub proof fn law_only_the_character_is_typed(
    platform: Platform,
    is_x11: bool,
    evt: KeyEvent,
    win_key: RdevKey,
    code: u32,
    keys: Map<u64, u64>,
    turns: Seq<Turn>,
)
    requires
        evt.mode != KeyboardMode::MapKeys,
        evt.union == Some(KeyUnion::Chr(code)),
    ensures
        ({
            let s = key_session(false, platform, is_x11, evt, win_key);
            conversed(s, keys, turns).2 matches Some(ActionView::KeySequence(text)) ==> {
                &&& code <= 0xd7ff || 0xe000 <= code <= 0x10ffff
                &&& text == seq![code as char] || text == uppercase(seq![code as char])
            }
        }),
{
    let s = key_session(false, platform, is_x11, evt, win_key);
    lemma_key_session_types(platform, is_x11, evt, win_key, code);
    lemma_conversed_types(s, keys, turns, code);
}

/// A machine that has no key for the character of an event types it: in upper case if a
/// shift key is down or caps lock is on, and else as it is.
pub proof fn law_character_without_key_is_typed(
    platform: Platform,
    is_x11: bool,
    evt: KeyEvent,
    win_key: RdevKey,
    c: char,
    keys: Map<u64, u64>,
    turns: Seq<Turn>,
    held: Set<Key>,
    now: u64,
)
    requires
        evt.mode != KeyboardMode::MapKeys,
        evt.union == Some(KeyUnion::Chr(c as u32)),
        conversed(key_session(false, platform, is_x11, evt, win_key), keys, turns).2 == Some(
            ActionView::Perform(Command::KeyDown(Key::Layout(c))),
        ),
    ensures
        ({
            let s = key_session(false, platform, is_x11, evt, win_key);
            let (after, keys2, _) = conversed(s, keys, turns);
            let capital = held.contains(Key::Shift) || held.contains(Key::RightShift)
                || held.contains(Key::CapsLock);
            let text = if capital {
                uppercase(seq![c])
            } else {
                seq![c]
            };
            happens(
                played(after, keys2, held, false, now, 4),
                held,
                ActionView::KeySequence(text),
            )
        }),
{
    let code = c as u32;
    let s = key_session(false, platform, is_x11, evt, win_key);
    lemma_key_session_types(platform, is_x11, evt, win_key, code);
    lemma_conversed_types(s, keys, turns, code);
    lemma_char_range(c);
    let (s1, keys2, _) = conversed(s, keys, turns);
    assert(s1.wait == Wait::Chr { chr: Some(c) });
    lemma_awaited_character_is_typed(s1, keys2, held, now, c);
}

proof fn lemma_awaited_character_is_typed(
    s1: SessionView,
    keys: Map<u64, u64>,
    held: Set<Key>,
    now: u64,
    c: char,
)
    requires
        s1.wait == (Wait::Chr { chr: Some(c) }),
    ensures
        ({
            let capital = held.contains(Key::Shift) || held.contains(Key::RightShift)
                || held.contains(Key::CapsLock);
            let text = if capital {
                uppercase(seq![c])
            } else {
                seq![c]
            };
            happens(played(s1, keys, held, false, now, 4), held, ActionView::KeySequence(text))
        }),
{
    lemma_char_range(c);
    reveal_with_fuel(played, 5);
    let moments = played(s1, keys, held, false, now, 4);
    let (s2, _, a1) = resumed(s1, keys, false, now);
    assert(a1 == Some(ActionView::Perform(Command::KeyState(Key::Shift))));
    let shift = held.contains(Key::Shift);
    let (s3, _, a2) = resumed(s2, keys, shift, now);
    if shift {
        assert(a2 == Some(ActionView::KeySequence(uppercase(seq![c]))));
        assert(moments[1] == (held, a2->0));
    } else {
        assert(a2 == Some(ActionView::Perform(Command::KeyState(Key::RightShift))));
        let right = held.contains(Key::RightShift);
        let (s4, _, a3) = resumed(s3, keys, right, now);
        if right {
            assert(a3 == Some(ActionView::KeySequence(uppercase(seq![c]))));
            assert(moments[2] == (held, a3->0));
        } else {
            assert(a3 == Some(ActionView::Perform(Command::KeyState(Key::CapsLock))));
            let caps = held.contains(Key::CapsLock);
            let (s5, _, a4) = resumed(s4, keys, caps, now);
            assert(a4 == Some(
                ActionView::KeySequence(
                    if caps {
                        uppercase(seq![c])
                    } else {
                        seq![c]
                    },
                ),
            ));
            assert(moments[3] == (held, a4->0));
        }
    }
}

/// Whether a step types nothing as long as every key can be pressed.
spec fn op_types_nothing(op: Op) -> bool {
    match op {
        Op::TypeChar(_) | Op::TypeUpper(_) | Op::TypeText => false,
        Op::KeyState { goal, .. } | Op::ModifierState { goal, .. } => !(goal is Shift) && !(
        goal is Capital),
        _ => true,
    }
}

/// Whether a session types nothing as long as every key can be pressed.
spec fn types_nothing(s: SessionView, reply: bool) -> bool {
    &&& forall|i: int| 0 <= i < s.todo.len() ==> op_types_nothing(#[trigger] s.todo[i])
    &&& match s.wait {
        Wait::Idle => true,
        Wait::KeyState { goal } | Wait::ModifierState { goal, .. } => !(goal is Shift) && !(
        goal is Capital),
        Wait::Chr { .. } => reply,
    }
}

proof fn lemma_concluded_types_nothing(
    s: SessionView,
    keys: Map<u64, u64>,
    goal: Goal,
    held: bool,
)
    requires
        types_nothing(SessionView { wait: Wait::Idle, ..s }, true),
        !(goal is Shift),
        !(goal is Capital),
    ensures
        types_nothing(concluded(s, keys, goal, held), true),
{
    let idle = SessionView { wait: Wait::Idle, ..s };
    let after = concluded(s, keys, goal, held);
    let n = after.todo.len() - s.todo.len();
    assert forall|i: int| 0 <= i < after.todo.len() implies op_types_nothing(
        #[trigger] after.todo[i],
    ) by {
        if i >= n {
            assert(after.todo[i] == idle.todo[i - n]);
        }
    }
}

proof fn lemma_advanced_types_nothing(s: SessionView, keys: Map<u64, u64>, now: u64)
    requires
        types_nothing(s, true),
        s.wait == Wait::Idle,
    ensures
        ({
            let (after, _, action) = advanced(s, keys, now);
            &&& types_nothing(after, true)
            &&& after.wait is Chr ==> action is Some && action->0 is Perform && (action->0)->Perform_0
                is KeyDown
            &&& action is Some ==> !(action->0 is KeySequence)
        }),
    decreases s.todo.len(),
{
    if s.todo.len() > 0 {
        let rest = s.awaits(Wait::Idle);
        match s.todo[0] {
            Op::Record { record_key, down } => {
                lemma_advanced_types_nothing(rest, recorded(keys, record_key, down, now), now);
            },
            Op::ReleasePressed => {
                if s.pressed.len() == 0 {
                    lemma_advanced_types_nothing(rest, keys, now);
                }
            },
            _ => {},
        }
    }
}

proof fn lemma_plays_without_typing(
    s: SessionView,
    keys: Map<u64, u64>,
    held: Set<Key>,
    reply: bool,
    now: u64,
    turns: nat,
)
    requires
        types_nothing(s, reply),
    ensures
        ({
            let moments = played(s, keys, held, reply, now, turns);
            forall|i: int|
                0 <= i < moments.len() ==> !((#[trigger] moments[i]).1 is KeySequence)
        }),
    decreases turns,
{
    if turns > 0 {
        let h = heard(s, keys, reply);
        assert(Seq::<Op>::empty() + s.todo =~= s.todo);
        match s.wait {
            Wait::KeyState { goal } | Wait::ModifierState { goal, .. } => {
                lemma_concluded_types_nothing(s, keys, goal, reply);
            },
            _ => {},
        }
        lemma_heard_size(s, keys, reply);
        assert(types_nothing(h, true));
        lemma_advanced_types_nothing(h, keys, now);
        let (s2, keys2, action) = resumed(s, keys, reply, now);
        if let Some(a) = action {
            let (held2, reply2) = performed(held, a);
            lemma_plays_without_typing(s2, keys2, held2, reply2, now, (turns - 1) as nat);
            let rest = played(s2, keys2, held2, reply2, now, (turns - 1) as nat);
            let moments = played(s, keys, held, reply, now, turns);
            assert forall|i: int| 0 <= i < moments.len() implies !((#[trigger] moments[i]).1
                is KeySequence) by {
                if i > 0 {
                    assert(moments[i] == rest[i - 1]);
                }
            }
        }
    }
}

/// A machine that has the key of a character types nothing for it.
pub proof fn law_character_with_key_is_not_typed(
    platform: Platform,
    is_x11: bool,
    evt: KeyEvent,
    win_key: RdevKey,
    code: u32,
    keys: Map<u64, u64>,
    held: Set<Key>,
    reply: bool,
    now: u64,
    turns: nat,
)
    requires
        evt.mode != KeyboardMode::MapKeys,
        evt.union == Some(KeyUnion::Chr(code)),
    ensures
        ({
            let s = key_session(false, platform, is_x11, evt, win_key);
            let moments = played(s, keys, held, reply, now, turns);
            forall|i: int|
                0 <= i < moments.len() ==> !((#[trigger] moments[i]).1 is KeySequence)
        }),
{
    let s = key_session(false, platform, is_x11, evt, win_key);
    lemma_begins_without_typing(platform, is_x11, evt, win_key, code);
    lemma_plays_without_typing(s, keys, held, reply, now, turns);
}

proof fn lemma_begins_without_typing(
    platform: Platform,
    is_x11: bool,
    evt: KeyEvent,
    win_key: RdevKey,
    code: u32,
)
    requires
        evt.mode != KeyboardMode::MapKeys,
        evt.union == Some(KeyUnion::Chr(code)),
    ensures
        types_nothing(key_session(false, platform, is_x11, evt, win_key), true),
{
    let p = |op: Op| op_types_nothing(op);
    let s = key_session(false, platform, is_x11, evt, win_key);
    lemma_each_step(platform, is_x11, evt, win_key, p);
    assert forall|i: int| 0 <= i < s.todo.len() implies op_types_nothing(#[trigger] s.todo[i]) by {
        assert(p(s.todo[i]));
    }
}

} // verus!
