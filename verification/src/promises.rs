use vstd::prelude::*;

use crate::events::{law_mask_has_two_parts, KeyEvent, KeyUnion, KeyboardMode, MouseEvent};
use crate::keyboard::{
    fix_modifiers_ops, flag_ops, for_each_key, handle_key_ops, is_function_event, key_session,
    legacy_mode_ops, map_mode_ops, press_modifiers_ops, press_op, sync_locks_op,
    sync_modifiers_ops, union_ops,
};
use crate::keys::{local_key_of_code, ControlKey, Key, MouseButton, Platform, RawKey, RdevKey};
use crate::mouse::{
    button_modifiers_ops, handle_mouse_ops, mouse_ops, mouse_session, press_mouse_modifiers_ops,
    press_unless_lock_ops,
};
use crate::notes::{ended, Turn};
use crate::script::{Command, Op};
use crate::session::ActionView;
use crate::transcript::{
    all_calm, lemma_all_is_said, lemma_show_none, lemma_shown_all, lemma_shown_of_concat,
    op_action, op_shows, said, shown, shown_of, Look,
};

verus! {

/// The desktop that has the input is followed first, on Windows.
pub open spec fn desktop_first(platform: Platform) -> Seq<ActionView> {
    if platform == Platform::Windows {
        seq![ActionView::Perform(Command::TryChangeDesktop)]
    } else {
        Seq::empty()
    }
}

/// The flags of the local keys of a list of control keys are set, one by one.
pub open spec fn flags_set(modifiers: Seq<i32>) -> Seq<ActionView>
    decreases modifiers.len(),
{
    if modifiers.len() == 0 {
        Seq::empty()
    } else {
        match local_key_of_code(modifiers.last()) {
            Some(key) => flags_set(modifiers.drop_last()).push(
                ActionView::Perform(Command::AddFlag(key)),
            ),
            None => flags_set(modifiers.drop_last()),
        }
    }
}

/// All flags are forgotten and those of a list are set, on macOS.
pub open spec fn flags_renewed(platform: Platform, modifiers: Seq<i32>) -> Seq<ActionView> {
    if platform == Platform::MacOs {
        seq![ActionView::Perform(Command::ResetFlag)] + flags_set(modifiers)
    } else {
        Seq::empty()
    }
}

proof fn lemma_one_shown(op: Op, text: Seq<char>, look: Look)
    ensures
        shown_of(seq![op], text, look) == (if op_shows(op, text, look) {
            seq![op_action(op, text)->0]
        } else {
            Seq::empty()
        }),
{
    reveal_with_fuel(shown_of, 2);
    assert(seq![op].drop_first() =~= Seq::<Op>::empty());
    let a = seq![op_action(op, text)->0];
    assert(a + Seq::<ActionView>::empty() =~= a);
}

proof fn lemma_add_flags_shown(
    modifiers: Seq<i32>,
    ops: spec_fn(Key) -> Seq<Op>,
    text: Seq<char>,
    look: Look,
)
    requires
        ops == |key: Key| seq![Op::Do(Command::AddFlag(key))],
        look !is Press,
    ensures
        shown_of(for_each_key(modifiers, ops), text, look) == flags_set(modifiers),
        all_calm(for_each_key(modifiers, ops), look),
    decreases modifiers.len(),
{
    if modifiers.len() > 0 {
        let init = modifiers.drop_last();
        let before = for_each_key(init, ops);
        lemma_add_flags_shown(init, ops, text, look);
        match local_key_of_code(modifiers.last()) {
            Some(key) => {
                lemma_shown_of_concat(before, ops(key), text, look);
                lemma_one_shown(Op::Do(Command::AddFlag(key)), text, look);
                let flag = ActionView::Perform(Command::AddFlag(key));
                assert(flags_set(init) + seq![flag] =~= flags_set(init).push(flag));
            },
            None => {
                assert(before + Seq::<Op>::empty() =~= before);
            },
        }
    }
}

proof fn lemma_flag_ops_shown(modifiers: Seq<i32>, text: Seq<char>, look: Look)
    requires
        look !is Press,
    ensures
        shown_of(flag_ops(modifiers), text, look) == flags_renewed(Platform::MacOs, modifiers),
        all_calm(flag_ops(modifiers), look),
{
    let ops = |key: Key| seq![Op::Do(Command::AddFlag(key))];
    let reset = Op::Do(Command::ResetFlag);
    lemma_add_flags_shown(modifiers, ops, text, look);
    lemma_shown_of_concat(seq![reset], for_each_key(modifiers, ops), text, look);
    lemma_one_shown(reset, text, look);
}

/// Whether some steps only ask for the state of modifiers, to let go of them or to
/// press them.
spec fn only_modifiers(ops: Seq<Op>) -> bool {
    forall|i: int| 0 <= i < ops.len() ==> match #[trigger] ops[i] {
        Op::ModifierState { goal, .. } => goal is Fix || goal is Press,
        _ => false,
    }
}

proof fn lemma_only_modifiers(ops: Seq<Op>, text: Seq<char>, look: Look)
    requires
        only_modifiers(ops),
        look is Plain || look is Texts,
    ensures
        shown_of(ops, text, look) == Seq::<ActionView>::empty(),
        all_calm(ops, look),
{
    assert forall|i: int| 0 <= i < ops.len() implies !op_shows(#[trigger] ops[i], text, look) by {}
    lemma_show_none(ops, text, look);
}

proof fn lemma_fix_only_modifiers(modifiers: Seq<i32>, ck: i32)
    ensures
        only_modifiers(fix_modifiers_ops(modifiers, ck)),
{
}

proof fn lemma_for_each_only_modifiers(modifiers: Seq<i32>, ops: spec_fn(Key) -> Seq<Op>)
    requires
        forall|key: Key| only_modifiers(#[trigger] ops(key)),
    ensures
        only_modifiers(for_each_key(modifiers, ops)),
    decreases modifiers.len(),
{
    if modifiers.len() > 0 {
        lemma_for_each_only_modifiers(modifiers.drop_last(), ops);
        if let Some(key) = local_key_of_code(modifiers.last()) {
            assert(only_modifiers(ops(key)));
        }
    }
}

/// Three pieces of steps, and what they show.
proof fn lemma_three_shown(a: Seq<Op>, b: Seq<Op>, c: Seq<Op>, text: Seq<char>, look: Look)
    requires
        all_calm(a, look),
        all_calm(b, look),
        all_calm(c, look),
    ensures
        shown_of(a + b + c, text, look) == shown_of(a, text, look) + shown_of(b, text, look)
            + shown_of(c, text, look),
        all_calm(a + b + c, look),
{
    lemma_shown_of_concat(a + b, c, text, look);
    lemma_shown_of_concat(a, b, text, look);
}

proof fn lemma_button_modifiers_shown(platform: Platform, modifiers: Seq<i32>, look: Look)
    requires
        look is Plain || look is Texts,
    ensures
        shown_of(button_modifiers_ops(platform, modifiers), Seq::empty(), look) == flags_renewed(
            platform,
            modifiers,
        ),
        all_calm(button_modifiers_ops(platform, modifiers), look),
{
    let fix = fix_modifiers_ops(modifiers, 0);
    lemma_fix_only_modifiers(modifiers, 0);
    lemma_only_modifiers(fix, Seq::empty(), look);
    let none = Seq::<ActionView>::empty();
    if platform == Platform::MacOs {
        lemma_flag_ops_shown(modifiers, Seq::empty(), look);
        lemma_shown_of_concat(fix, flag_ops(modifiers), Seq::empty(), look);
        assert(none + flags_renewed(platform, modifiers) =~= flags_renewed(platform, modifiers));
    } else {
        let presses = press_mouse_modifiers_ops(modifiers);
        lemma_for_each_only_modifiers(modifiers, |key: Key| press_unless_lock_ops(key));
        lemma_only_modifiers(presses, Seq::empty(), look);
        lemma_shown_of_concat(fix, presses, Seq::empty(), look);
        assert(none + none =~= none);
    }
}

/// Steps of a mouse event that are the same whatever the machine answers.
proof fn lemma_mouse_shown(platform: Platform, evt: MouseEvent, look: Look)
    requires
        look !is Press,
        look is All ==> evt.kind() != 1,
    ensures
        all_calm(handle_mouse_ops(platform, evt), look),
        shown_of(handle_mouse_ops(platform, evt), Seq::empty(), look) == desktop_first(platform)
            + (if evt.kind() == 1 {
            flags_renewed(platform, evt.modifiers@)
        } else {
            Seq::empty()
        }) + shown_of(mouse_ops(platform, evt), Seq::empty(), look),
{
    let text = Seq::<char>::empty();
    let a: Seq<Op> = if platform == Platform::Windows {
        seq![Op::Do(Command::TryChangeDesktop)]
    } else {
        Seq::empty()
    };
    let b: Seq<Op> = if evt.kind() == 1 {
        button_modifiers_ops(platform, evt.modifiers@)
    } else {
        Seq::empty()
    };
    let c = mouse_ops(platform, evt);
    let e: Seq<Op> = if platform == Platform::MacOs {
        Seq::empty()
    } else {
        seq![Op::ReleasePressed]
    };
    assert(handle_mouse_ops(platform, evt) == a + b + c + e);
    lemma_one_shown(Op::Do(Command::TryChangeDesktop), text, look);
    lemma_one_shown(Op::ReleasePressed, text, look);
    if evt.kind() == 1 {
        lemma_button_modifiers_shown(platform, evt.modifiers@, look);
    }
    lemma_three_shown(a, b, c, text, look);
    lemma_shown_of_concat(a + b + c, e, text, look);
    let all = shown_of(a + b + c, text, look);
    assert(all + Seq::<ActionView>::empty() =~= all);
}

proof fn lemma_two_shown(a: Op, b: Op, text: Seq<char>, look: Look)
    ensures
        shown_of(seq![a] + seq![b], text, look) == shown_of(seq![a], text, look) + shown_of(
            seq![b],
            text,
            look,
        ),
{
    lemma_shown_of_concat(seq![a], seq![b], text, look);
}

/// What the machine is told to do for a mouse event, whatever it answers: a move goes
/// to its position, a button goes down or up, a wheel turns, each exactly once, and
/// nothing else is done with the mouse. Before that Windows follows the desktop, and
/// macOS renews the flags for a button that goes down. Only a button that goes down
/// has anything done with keys.
pub proof fn law_mouse_is_told(
    platform: Platform,
    evt: MouseEvent,
    keys: Map<u64, u64>,
    turns: Seq<Turn>,
)
    requires
        ended(mouse_session(false, platform, evt), keys, turns),
    ensures
        ({
            let kind = evt.mask & 7;
            let buttons = evt.mask >> 3;
            let actions = said(mouse_session(false, platform, evt), keys, turns);
            let told = shown(actions, Look::Plain);
            let before: Seq<ActionView> = if platform == Platform::Windows {
                seq![ActionView::Perform(Command::TryChangeDesktop)]
            } else {
                Seq::empty()
            };
            let flags = flags_renewed(platform, evt.modifiers@);
            let does = |command: Command| before + seq![ActionView::Perform(command)];
            let flagged = |command: Command| before + flags + seq![ActionView::Perform(command)];
            &&& kind == 0 ==> told == does(Command::MouseMoveTo(evt.x, evt.y))
            &&& kind == 1 && buttons == 1 ==> told == flagged(Command::MouseDown(MouseButton::Left))
            &&& kind == 1 && buttons == 2 ==> told == flagged(
                Command::MouseDown(MouseButton::Right),
            )
            &&& kind == 1 && buttons == 4 ==> told == flagged(
                Command::MouseDown(MouseButton::Middle),
            )
            &&& kind == 1 && buttons != 1 && buttons != 2 && buttons != 4 ==> told == before + flags
            &&& kind == 2 && buttons == 1 ==> told == does(Command::MouseUp(MouseButton::Left))
            &&& kind == 2 && buttons == 2 ==> told == does(Command::MouseUp(MouseButton::Right))
            &&& kind == 2 && buttons == 4 ==> told == does(Command::MouseUp(MouseButton::Middle))
            &&& kind == 2 && buttons != 1 && buttons != 2 && buttons != 4 ==> told == before
            &&& kind > 4 ==> told == before
            &&& kind != 1 ==> actions == told
        }),
{
    let s = mouse_session(false, platform, evt);
    let ops = mouse_ops(platform, evt);
    let none = Seq::<ActionView>::empty();
    let text = Seq::<char>::empty();
    law_mask_has_two_parts(evt);
    let before = desktop_first(platform);
    let flags = flags_renewed(platform, evt.modifiers@);
    lemma_mouse_shown(platform, evt, Look::Plain);
    lemma_all_is_said(s, keys, turns, Look::Plain);
    if evt.kind() != 1 {
        lemma_mouse_shown(platform, evt, Look::All);
        lemma_all_is_said(s, keys, turns, Look::All);
        lemma_shown_all(said(s, keys, turns));
        assert forall|i: int| 0 <= i < ops.len() implies op_shows(
            #[trigger] ops[i],
            text,
            Look::Plain,
        ) by {}
        lemma_plain_is_all(ops, text);
    }
    if ops.len() == 1 {
        assert(ops =~= seq![ops[0]]);
        lemma_one_shown(ops[0], text, Look::Plain);
    }
    assert(before + none =~= before);
    assert(before + flags + none =~= before + flags);
    assert(before + none + none =~= before);
}

proof fn lemma_plain_is_all(ops: Seq<Op>, text: Seq<char>)
    requires
        forall|i: int| 0 <= i < ops.len() ==> op_shows(#[trigger] ops[i], text, Look::Plain),
    ensures
        shown_of(ops, text, Look::Plain) == shown_of(ops, text, Look::All),
    decreases ops.len(),
{
    if ops.len() > 0 {
        assert(op_shows(ops[0], text, Look::Plain));
        assert forall|i: int| 0 <= i < ops.drop_first().len() implies op_shows(
            #[trigger] ops.drop_first()[i],
            text,
            Look::Plain,
        ) by {
            assert(ops.drop_first()[i] == ops[i + 1]);
        }
        lemma_plain_is_all(ops.drop_first(), text);
    }
}

/// How far the machine is told to scroll, whatever it answers: on Windows as far as
/// the event says, elsewhere as far in the other direction. On macOS the list of
/// modifiers tells a track pad from a wheel, and shift turns a wheel sideways. Each
/// direction is told once, and one without a length not at all.
pub proof fn law_wheel_is_told(
    platform: Platform,
    evt: MouseEvent,
    keys: Map<u64, u64>,
    turns: Seq<Turn>,
)
    requires
        ended(mouse_session(false, platform, evt), keys, turns),
        evt.mask & 7 == 3 || evt.mask & 7 == 4,
        platform == Platform::Windows || (evt.x != i32::MIN && evt.y != i32::MIN),
    ensures
        ({
            let before: Seq<ActionView> = if platform == Platform::Windows {
                seq![ActionView::Perform(Command::TryChangeDesktop)]
            } else {
                Seq::empty()
            };
            let mac = platform == Platform::MacOs;
            let track_pad = mac && evt.modifiers@.contains(ControlKey::Scroll.code());
            let sideways = mac && !track_pad && evt.modifiers@.contains(ControlKey::Shift.code());
            let x: int = if platform == Platform::Windows {
                evt.x as int
            } else if sideways {
                -evt.y
            } else {
                -evt.x
            };
            let y: int = if platform == Platform::Windows {
                evt.y as int
            } else if sideways {
                0
            } else {
                -evt.y
            };
            let across = seq![
                ActionView::Perform(Command::MouseScrollX { length: x as i32, track_pad }),
            ];
            let along = seq![
                ActionView::Perform(Command::MouseScrollY { length: y as i32, track_pad }),
            ];
            let actions = said(mouse_session(false, platform, evt), keys, turns);
            &&& x != 0 && y != 0 ==> actions == before + across + along
            &&& x != 0 && y == 0 ==> actions == before + across
            &&& x == 0 && y != 0 ==> actions == before + along
            &&& x == 0 && y == 0 ==> actions == before
        }),
{
    let s = mouse_session(false, platform, evt);
    let ops = mouse_ops(platform, evt);
    let none = Seq::<ActionView>::empty();
    let text = Seq::<char>::empty();
    law_mask_has_two_parts(evt);
    lemma_mouse_shown(platform, evt, Look::All);
    lemma_all_is_said(s, keys, turns, Look::All);
    lemma_shown_all(said(s, keys, turns));
    let before = desktop_first(platform);
    if ops.len() == 1 {
        assert(ops =~= seq![ops[0]]);
        lemma_one_shown(ops[0], text, Look::All);
    }
    if ops.len() == 2 {
        assert(ops =~= seq![ops[0]] + seq![ops[1]]);
        lemma_one_shown(ops[0], text, Look::All);
        lemma_one_shown(ops[1], text, Look::All);
        lemma_two_shown(ops[0], ops[1], text, Look::All);
        let a = shown_of(seq![ops[0]], text, Look::All);
        let b = shown_of(seq![ops[1]], text, Look::All);
        assert(before + none + (a + b) =~= before + a + b);
    }
    assert(before + none + none =~= before);
    assert(before + none =~= before);
}

proof fn lemma_map_mode_shown(platform: Platform, is_x11: bool, evt: KeyEvent, look: Look)
    requires
        look !is Press,
    ensures
        all_calm(map_mode_ops(platform, is_x11, evt), look),
        ({
            let code = evt.code();
            let raw = match platform {
                Platform::Windows => RawKey::ScanCode(code),
                Platform::Linux => RawKey::LinuxXorgKeycode(code),
                Platform::MacOs => RawKey::MacVirtualKeycode(code),
            };
            let simulate = ActionView::Perform(
                Command::Simulate { key: RdevKey::RawKey(raw), down: evt.down },
            );
            let wayland = Key::Raw((code % 0x1_0000) as u16);
            let key = ActionView::Perform(
                if evt.down {
                    Command::KeyDown(wayland)
                } else {
                    Command::KeyUp(wayland)
                },
            );
            let all = shown_of(map_mode_ops(platform, is_x11, evt), evt.text(), look);
            &&& platform == Platform::Windows ==> all == seq![
                ActionView::Perform(Command::TryChangeDesktop),
                simulate,
            ]
            &&& platform == Platform::MacOs ==> all == seq![
                simulate,
                ActionView::Perform(Command::Sleep(20_000_000)),
            ]
            &&& platform == Platform::Linux && is_x11 ==> all == seq![simulate]
            &&& platform == Platform::Linux && !is_x11 ==> all == (if look is All {
                seq![key]
            } else {
                Seq::empty()
            })
        }),
{
    reveal_with_fuel(shown_of, 4);
    let all = shown_of(map_mode_ops(platform, is_x11, evt), evt.text(), look);
    let ops = map_mode_ops(platform, is_x11, evt);
    assert(all.len() <= 2);
}

/// In map mode the machine is told exactly once to press or to let go of the key with
/// the code of the event, as the event says, whatever it answers: by the key code of
/// the platform through the simulator, and on Wayland by the low bits of the code.
/// The release of a key leads to nothing else; before a press the locks are seen to.
pub proof fn law_mapped_key_is_told(
    platform: Platform,
    is_x11: bool,
    evt: KeyEvent,
    win_key: RdevKey,
    keys: Map<u64, u64>,
    turns: Seq<Turn>,
)
    requires
        evt.mode == KeyboardMode::MapKeys,
        ended(key_session(false, platform, is_x11, evt, win_key), keys, turns),
    ensures
        ({
            let code = match evt.union {
                Some(KeyUnion::Chr(code)) => code,
                _ => 0u32,
            };
            let simulate = |raw: RawKey|
                ActionView::Perform(
                    Command::Simulate { key: RdevKey::RawKey(raw), down: evt.down },
                );
            let actions = said(key_session(false, platform, is_x11, evt, win_key), keys, turns);
            let told = shown(actions, Look::Texts);
            &&& platform == Platform::Windows ==> told == seq![
                ActionView::Perform(Command::TryChangeDesktop),
                simulate(RawKey::ScanCode(code)),
            ]
            &&& platform == Platform::MacOs ==> told == seq![
                simulate(RawKey::MacVirtualKeycode(code)),
                ActionView::Perform(Command::Sleep(20_000_000)),
            ]
            &&& platform == Platform::Linux && is_x11 ==> told == seq![
                simulate(RawKey::LinuxXorgKeycode(code)),
            ]
            &&& platform == Platform::Linux && !is_x11 ==> told == Seq::<ActionView>::empty()
            &&& !evt.down && (platform != Platform::Linux || is_x11) ==> actions == told
            &&& !evt.down && platform == Platform::Linux && !is_x11 ==> actions == seq![
                ActionView::Perform(Command::KeyUp(Key::Raw((code % 0x1_0000) as u16))),
            ]
        }),
{
    let s = key_session(false, platform, is_x11, evt, win_key);
    let op = sync_locks_op(platform, evt, win_key);
    let locks: Seq<Op> = if evt.down {
        seq![op]
    } else {
        Seq::empty()
    };
    let ops = map_mode_ops(platform, is_x11, evt);
    let none = Seq::<ActionView>::empty();
    assert(s.todo == locks + ops);
    lemma_map_mode_shown(platform, is_x11, evt, Look::Texts);
    lemma_one_shown(op, evt.text(), Look::Texts);
    lemma_shown_of_concat(locks, ops, evt.text(), Look::Texts);
    lemma_all_is_said(s, keys, turns, Look::Texts);
    let told = shown_of(ops, evt.text(), Look::Texts);
    assert(none + told =~= told);
    if !evt.down {
        lemma_map_mode_shown(platform, is_x11, evt, Look::All);
        lemma_shown_of_concat(locks, ops, evt.text(), Look::All);
        lemma_all_is_said(s, keys, turns, Look::All);
        lemma_shown_all(said(s, keys, turns));
        let all = shown_of(ops, evt.text(), Look::All);
        assert(none + all =~= all);
    }
}

proof fn lemma_sync_modifiers_shown(platform: Platform, evt: KeyEvent, look: Look)
    requires
        look !is Press,
        look is All ==> !evt.down,
    ensures
        shown_of(sync_modifiers_ops(platform, evt), evt.text(), look) == flags_renewed(
            platform,
            evt.modifiers@,
        ),
        all_calm(sync_modifiers_ops(platform, evt), look),
{
    let m = evt.modifiers@;
    let ck = evt.control_key_code();
    let text = evt.text();
    let none = Seq::<ActionView>::empty();
    let a: Seq<Op> = if platform == Platform::MacOs {
        flag_ops(m)
    } else {
        Seq::empty()
    };
    let b: Seq<Op> = if evt.down {
        fix_modifiers_ops(m, ck)
    } else {
        Seq::empty()
    };
    let c: Seq<Op> = if evt.down && platform != Platform::MacOs {
        press_modifiers_ops(platform, m)
    } else {
        Seq::empty()
    };
    lemma_flag_ops_shown(m, text, look);
    if evt.down {
        lemma_fix_only_modifiers(m, ck);
        lemma_only_modifiers(b, text, look);
        lemma_for_each_only_modifiers(m, |key: Key| seq![press_op(platform, key)]);
        lemma_only_modifiers(press_modifiers_ops(platform, m), text, look);
    }
    assert(sync_modifiers_ops(platform, evt) == a + b + c);
    lemma_three_shown(a, b, c, text, look);
    let flags = flags_renewed(platform, m);
    assert(flags + none + none =~= flags);
}

/// What the steps of an event in the peer's layout show.
proof fn lemma_legacy_shown(
    platform: Platform,
    is_x11: bool,
    evt: KeyEvent,
    win_key: RdevKey,
    look: Look,
)
    requires
        evt.mode != KeyboardMode::MapKeys,
        look !is Press,
        look is All ==> !evt.down,
        look is Texts ==> !(evt.down && evt.union matches Some(KeyUnion::Chr(_))),
    ensures
        all_calm(handle_key_ops(platform, is_x11, evt, win_key), look),
        shown_of(handle_key_ops(platform, is_x11, evt, win_key), evt.text(), look)
            == desktop_first(platform) + flags_renewed(platform, evt.modifiers@) + shown_of(
            union_ops(evt),
            evt.text(),
            look,
        ),
{
    let text = evt.text();
    let none = Seq::<ActionView>::empty();
    let op = sync_locks_op(platform, evt, win_key);
    let locks: Seq<Op> = if evt.down {
        seq![op]
    } else {
        Seq::empty()
    };
    let a: Seq<Op> = if platform == Platform::Windows {
        seq![Op::Do(Command::TryChangeDesktop)]
    } else {
        Seq::empty()
    };
    let b = sync_modifiers_ops(platform, evt);
    let c = union_ops(evt);
    let e: Seq<Op> = if platform == Platform::MacOs || is_function_event(evt) {
        Seq::empty()
    } else {
        seq![Op::ReleasePressed]
    };
    assert(legacy_mode_ops(platform, evt) == a + b + c + e);
    assert(handle_key_ops(platform, is_x11, evt, win_key) == locks + (a + b + c + e));
    lemma_one_shown(op, text, look);
    lemma_one_shown(Op::Do(Command::TryChangeDesktop), text, look);
    lemma_one_shown(Op::ReleasePressed, text, look);
    lemma_sync_modifiers_shown(platform, evt, look);
    lemma_three_shown(a, b, c, text, look);
    lemma_shown_of_concat(a + b + c, e, text, look);
    lemma_shown_of_concat(locks, a + b + c + e, text, look);
    let all = shown_of(a + b + c, text, look);
    assert(all + none =~= all);
    assert(none + all =~= all);
}

/// What the machine is told to do for an event in the peer's layout, whatever it
/// answers and besides keys: Windows follows the desktop, macOS renews the flags of
/// the modifiers, and the one thing is done once that the event asks for. A character
/// that has to be typed is typed as it is, a text too.
pub proof fn law_layout_event_is_told(
    platform: Platform,
    is_x11: bool,
    evt: KeyEvent,
    win_key: RdevKey,
    keys: Map<u64, u64>,
    turns: Seq<Turn>,
)
    requires
        evt.mode != KeyboardMode::MapKeys,
        ended(key_session(false, platform, is_x11, evt, win_key), keys, turns),
    ensures
        ({
            let actions = said(key_session(false, platform, is_x11, evt, win_key), keys, turns);
            let desktop: Seq<ActionView> = if platform == Platform::Windows {
                seq![ActionView::Perform(Command::TryChangeDesktop)]
            } else {
                Seq::empty()
            };
            let before = desktop + flags_renewed(platform, evt.modifiers@);
            let told = shown(actions, Look::Texts);
            match evt.union {
                Some(KeyUnion::ControlKey(100)) => told == before + seq![
                    ActionView::Perform(Command::SendSas),
                ],
                Some(KeyUnion::ControlKey(101)) => told == before + seq![
                    ActionView::Perform(Command::LockScreen),
                ],
                Some(KeyUnion::ControlKey(_)) => told == before,
                Some(KeyUnion::Chr(_)) => shown(actions, Look::Plain) == before,
                Some(KeyUnion::Unicode(c)) => told == if c <= 0xd7ff || 0xe000 <= c <= 0x10ffff {
                    before + seq![ActionView::KeySequence(seq![c as char])]
                } else {
                    before
                },
                Some(KeyUnion::Sequence(text)) => told == before + seq![
                    ActionView::KeySequence(text@),
                ],
                None => told == before,
            }
        }),
{
    let s = key_session(false, platform, is_x11, evt, win_key);
    let text = evt.text();
    let ops = union_ops(evt);
    let none = Seq::<ActionView>::empty();
    let before = desktop_first(platform) + flags_renewed(platform, evt.modifiers@);
    let look = if evt.union matches Some(KeyUnion::Chr(_)) {
        Look::Plain
    } else {
        Look::Texts
    };
    lemma_legacy_shown(platform, is_x11, evt, win_key, look);
    lemma_all_is_said(s, keys, turns, look);
    assert(before + none =~= before);
    reveal_with_fuel(shown_of, 3);
    assert(ops.len() <= 2);
    if ops.len() == 1 {
        assert(ops =~= seq![ops[0]]);
        lemma_one_shown(ops[0], text, look);
    }
}

/// The release of a key of the peer's layout leads to the release of its local key
/// and to nothing else that has to do with keys, whatever the machine answers; a
/// control key without local key leads to nothing.
pub proof fn law_key_up_is_told(
    platform: Platform,
    is_x11: bool,
    evt: KeyEvent,
    win_key: RdevKey,
    keys: Map<u64, u64>,
    turns: Seq<Turn>,
)
    requires
        evt.mode != KeyboardMode::MapKeys,
        !evt.down,
        ended(key_session(false, platform, is_x11, evt, win_key), keys, turns),
    ensures
        ({
            let actions = said(key_session(false, platform, is_x11, evt, win_key), keys, turns);
            let desktop: Seq<ActionView> = if platform == Platform::Windows {
                seq![ActionView::Perform(Command::TryChangeDesktop)]
            } else {
                Seq::empty()
            };
            let before = desktop + flags_renewed(platform, evt.modifiers@);
            let lets_go = |key: Key| before + seq![ActionView::Perform(Command::KeyUp(key))];
            match evt.union {
                Some(KeyUnion::ControlKey(ck)) => ck != 100 && ck != 101 ==> actions == (
                match local_key_of_code(ck) {
                    Some(key) => lets_go(key),
                    None => before,
                }),
                Some(KeyUnion::Chr(c)) => actions == if c <= 0xd7ff || 0xe000 <= c <= 0x10ffff {
                    lets_go(Key::Layout(c as char))
                } else {
                    lets_go(Key::Layout('\0'))
                },
                _ => actions == shown(actions, Look::Texts),
            }
        }),
{
    let s = key_session(false, platform, is_x11, evt, win_key);
    let text = evt.text();
    let ops = union_ops(evt);
    let none = Seq::<ActionView>::empty();
    let before = desktop_first(platform) + flags_renewed(platform, evt.modifiers@);
    let actions = said(s, keys, turns);
    lemma_legacy_shown(platform, is_x11, evt, win_key, Look::All);
    lemma_all_is_said(s, keys, turns, Look::All);
    lemma_shown_all(actions);
    lemma_legacy_shown(platform, is_x11, evt, win_key, Look::Texts);
    lemma_all_is_said(s, keys, turns, Look::Texts);
    assert(before + none =~= before);
    reveal_with_fuel(shown_of, 3);
    assert(ops.len() <= 2);
    if ops.len() == 1 {
        assert(ops =~= seq![ops[0]]);
        lemma_one_shown(ops[0], text, Look::All);
        lemma_one_shown(ops[0], text, Look::Texts);
    }
    if ops.len() == 2 {
        assert(ops =~= seq![ops[0]] + seq![ops[1]]);
        lemma_two_shown(ops[0], ops[1], text, Look::All);
        lemma_one_shown(ops[0], text, Look::All);
        lemma_one_shown(ops[1], text, Look::All);
        assert(none + shown_of(seq![ops[1]], text, Look::All) =~= shown_of(
            seq![ops[1]],
            text,
            Look::All,
        ));
    }
}

} // verus!
