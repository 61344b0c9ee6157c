use vstd::prelude::*;

use crate::dialogue::{
    law_dialogue_ends, lemma_advanced_size, lemma_char_range, lemma_heard_size, session_size,
};
use crate::events::{KeyEvent, KeyUnion, KeyboardMode, MouseEvent};
use crate::keyboard::{
    fix_modifiers_ops, flag_ops, for_each_key, handle_key_ops, is_function_event,
    legacy_mode_ops, map_mode_ops, press_modifiers_ops, press_op, sync_locks_op,
    sync_modifiers_ops, union_ops,
};
use crate::keys::{Key, Platform, RdevKey};
use crate::mouse::{
    button_modifiers_ops, handle_mouse_ops, mouse_ops, press_mouse_modifiers_ops,
    press_unless_lock_ops,
};
use crate::records::{char_record, control_record, recorded};
use crate::script::{Command, Goal, Op};
use crate::session::{advanced, concluded, fresh, heard, resumed, ActionView, SessionView, Wait};

verus! {

/// One turn of a dialogue: the answer of the machine, and the time.
pub struct Turn {
    pub reply: bool,
    pub now: u64,
}

/// The session, the table of keys and the action after some turns of a dialogue.
/// There is no action once the dialogue has ended, nor before its first turn.
pub open spec fn conversed(s: SessionView, keys: Map<u64, u64>, turns: Seq<Turn>) -> (
    SessionView,
    Map<u64, u64>,
    Option<ActionView>,
)
    decreases turns.len(),
{
    if turns.len() == 0 {
        (s, keys, None)
    } else {
        let (s1, keys1, _) = conversed(s, keys, turns.drop_last());
        resumed(s1, keys1, turns.last().reply, turns.last().now)
    }
}

/// Whether a dialogue has ended within some turns.
pub open spec fn ended(s: SessionView, keys: Map<u64, u64>, turns: Seq<Turn>) -> bool {
    turns.len() > 0 && conversed(s, keys, turns).2 is None
}

/// Every dialogue has ended after as many turns as it has actions at most and one
/// more, whatever the answers and the times.
pub proof fn law_conversation_ends(s: SessionView, keys: Map<u64, u64>, turns: Seq<Turn>)
    requires
        turns.len() > session_size(s),
    ensures
        ended(s, keys, turns),
{
    lemma_conversation_shrinks(s, keys, turns);
}

proof fn lemma_conversation_shrinks(s: SessionView, keys: Map<u64, u64>, turns: Seq<Turn>)
    ensures
        ended(s, keys, turns) || session_size(conversed(s, keys, turns).0) + turns.len()
            <= session_size(s),
    decreases turns.len(),
{
    if turns.len() > 0 {
        let init = turns.drop_last();
        let last = turns.last();
        lemma_conversation_shrinks(s, keys, init);
        let (s1, keys1, _) = conversed(s, keys, init);
        law_dialogue_ends(s1, keys1, last.reply, last.now, last.reply, last.now);
        if ended(s, keys, init) {
            let before = init.drop_last();
            let (s0, keys0, _) = conversed(s, keys, before);
            law_dialogue_ends(
                s0,
                keys0,
                init.last().reply,
                init.last().now,
                last.reply,
                last.now,
            );
        }
    }
}

/// What some steps note in the table: each number with whether its key went down.
pub open spec fn notes_of(ops: Seq<Op>) -> Seq<(u64, bool)>
    decreases ops.len(),
{
    if ops.len() == 0 {
        Seq::empty()
    } else {
        (match ops[0] {
            Op::Record { record_key, down } => seq![(record_key, down)],
            _ => Seq::empty(),
        }) + notes_of(ops.drop_first())
    }
}

/// Whether some steps note nothing in the table.
spec fn note_none(ops: Seq<Op>) -> bool {
    forall|i: int| 0 <= i < ops.len() ==> !(#[trigger] ops[i] is Record)
}

proof fn lemma_note_none(ops: Seq<Op>)
    requires
        note_none(ops),
    ensures
        notes_of(ops) == Seq::<(u64, bool)>::empty(),
    decreases ops.len(),
{
    if ops.len() > 0 {
        lemma_note_none(ops.drop_first());
        assert(Seq::<(u64, bool)>::empty() + Seq::<(u64, bool)>::empty() =~= Seq::empty());
    }
}

proof fn lemma_notes_concat(a: Seq<Op>, b: Seq<Op>)
    ensures
        notes_of(a + b) == notes_of(a) + notes_of(b),
    decreases a.len(),
{
    if a.len() == 0 {
        assert(a + b =~= b);
        assert(notes_of(a) + notes_of(b) =~= notes_of(b));
    } else {
        assert((a + b).drop_first() =~= a.drop_first() + b);
        lemma_notes_concat(a.drop_first(), b);
        assert(notes_of(a + b) =~= notes_of(a) + notes_of(b));
    }
}

/// Steps that note nothing, before others.
proof fn lemma_notes_after_none(a: Seq<Op>, b: Seq<Op>)
    requires
        note_none(a),
    ensures
        notes_of(a + b) == notes_of(b),
{
    lemma_note_none(a);
    lemma_notes_concat(a, b);
    assert(notes_of(a) + notes_of(b) =~= notes_of(b));
}

proof fn lemma_concluded_notes(s: SessionView, keys: Map<u64, u64>, goal: Goal, held: bool)
    ensures
        notes_of(concluded(s, keys, goal, held).todo) == notes_of(s.todo),
{
    let after = concluded(s, keys, goal, held);
    let added = after.todo.take(after.todo.len() - s.todo.len());
    assert(after.todo =~= added + s.todo);
    lemma_notes_after_none(added, s.todo);
}

proof fn lemma_heard_notes(s: SessionView, keys: Map<u64, u64>, reply: bool)
    ensures
        notes_of(heard(s, keys, reply).todo) == notes_of(s.todo),
{
    assert(Seq::<Op>::empty() + s.todo =~= s.todo);
    match s.wait {
        Wait::Idle => {},
        Wait::KeyState { goal } => {
            lemma_concluded_notes(s, keys, goal, reply);
        },
        Wait::ModifierState { key, goal } => {
            lemma_concluded_notes(s, keys, goal, reply);
            if let Some(other) = crate::keys::twin(key) {
                lemma_notes_after_none(seq![Op::KeyState { key: other, goal }], s.todo);
            }
        },
        Wait::Chr { chr } => {
            if let Some(chr) = chr {
                lemma_char_range(chr);
                let op = Op::ModifierState { key: Key::Shift, goal: Goal::Shift { chr } };
                lemma_notes_after_none(seq![op], s.todo);
            }
        },
    }
}

/// The table after what one note at most says of it.
spec fn after_notes(keys: Map<u64, u64>, notes: Seq<(u64, bool)>, now: u64) -> Map<u64, u64> {
    if notes.len() == 0 {
        keys
    } else {
        recorded(keys, notes[0].0, notes[0].1, now)
    }
}

proof fn lemma_advanced_notes(s: SessionView, keys: Map<u64, u64>, now: u64)
    requires
        notes_of(s.todo).len() <= 1,
    ensures
        ({
            let (after, keys2, _) = advanced(s, keys, now);
            ||| notes_of(after.todo) == notes_of(s.todo) && keys2 == keys
            ||| notes_of(after.todo).len() == 0 && keys2 == after_notes(
                keys,
                notes_of(s.todo),
                now,
            )
        }),
    decreases s.todo.len(),
{
    if s.todo.len() > 0 {
        let rest = s.awaits(Wait::Idle);
        let none = Seq::<(u64, bool)>::empty();
        assert(none + notes_of(rest.todo) =~= notes_of(rest.todo));
        match s.todo[0] {
            Op::Record { record_key, down } => {
                assert(notes_of(s.todo) == seq![(record_key, down)] + notes_of(rest.todo));
                assert(notes_of(rest.todo).len() == 0);
                lemma_advanced_notes(rest, recorded(keys, record_key, down, now), now);
            },
            Op::ReleasePressed => {
                if s.pressed.len() == 0 {
                    lemma_advanced_notes(rest, keys, now);
                }
            },
            _ => {},
        }
    }
}

/// What a dialogue has done to the table: nothing as long as its one note is still
/// to come, and what the note says after that.
proof fn lemma_conversed_notes(s: SessionView, keys: Map<u64, u64>, turns: Seq<Turn>)
    requires
        notes_of(s.todo).len() <= 1,
    ensures
        ({
            let (after, keys2, _) = conversed(s, keys, turns);
            ||| notes_of(after.todo) == notes_of(s.todo) && keys2 == keys
            ||| notes_of(after.todo).len() == 0 && exists|i: int|
                0 <= i < turns.len() && keys2 == after_notes(
                    keys,
                    notes_of(s.todo),
                    (#[trigger] turns[i]).now,
                )
        }),
    decreases turns.len(),
{
    if turns.len() > 0 {
        let init = turns.drop_last();
        let last = turns.last();
        lemma_conversed_notes(s, keys, init);
        let (s1, keys1, _) = conversed(s, keys, init);
        lemma_heard_notes(s1, keys1, last.reply);
        lemma_advanced_notes(heard(s1, keys1, last.reply), keys1, last.now);
        let notes = notes_of(s.todo);
        if notes_of(s1.todo) == notes && keys1 == keys {
            assert(turns[turns.len() - 1] == last);
        } else {
            let i = choose|i: int|
                0 <= i < init.len() && keys1 == after_notes(
                    keys,
                    notes,
                    (#[trigger] init[i]).now,
                );
            assert(turns[i] == init[i]);
        }
    }
}

/// A dialogue that has ended has no steps left.
proof fn lemma_ended_is_done(s: SessionView, keys: Map<u64, u64>, turns: Seq<Turn>)
    requires
        ended(s, keys, turns),
    ensures
        conversed(s, keys, turns).0.todo.len() == 0,
{
    let (s1, keys1, _) = conversed(s, keys, turns.drop_last());
    let last = turns.last();
    lemma_heard_size(s1, keys1, last.reply);
    lemma_advanced_size(heard(s1, keys1, last.reply), keys1, last.now);
}

/// The number under which an event in the peer's layout is noted.
pub open spec fn target_record(evt: KeyEvent) -> Option<u64> {
    match evt.union {
        Some(KeyUnion::ControlKey(ck)) => Some(control_record(ck)),
        Some(KeyUnion::Chr(chr)) => Some(char_record(chr)),
        _ => None,
    }
}

/// The number under which an event is noted, if it is.
pub open spec fn event_record(evt: KeyEvent) -> Option<u64> {
    if evt.mode == KeyboardMode::MapKeys {
        Some(char_record(evt.code()))
    } else if is_function_event(evt) {
        None
    } else {
        target_record(evt)
    }
}

proof fn lemma_for_each_key_notes_none(modifiers: Seq<i32>, ops: spec_fn(Key) -> Seq<Op>)
    requires
        forall|key: Key| note_none(#[trigger] ops(key)),
    ensures
        note_none(for_each_key(modifiers, ops)),
    decreases modifiers.len(),
{
    if modifiers.len() > 0 {
        lemma_for_each_key_notes_none(modifiers.drop_last(), ops);
        if let Some(key) = crate::keys::local_key_of_code(modifiers.last()) {
            assert(note_none(ops(key)));
        }
    }
}

proof fn lemma_concat_note_none(a: Seq<Op>, b: Seq<Op>)
    requires
        note_none(a),
        note_none(b),
    ensures
        note_none(a + b),
{
}

proof fn lemma_fix_modifiers_note_none(modifiers: Seq<i32>, ck: i32)
    ensures
        note_none(fix_modifiers_ops(modifiers, ck)),
{
}

proof fn lemma_flags_note_none(modifiers: Seq<i32>)
    ensures
        note_none(flag_ops(modifiers)),
{
    let ops = |key: Key| seq![Op::Do(Command::AddFlag(key))];
    lemma_for_each_key_notes_none(modifiers, ops);
}

proof fn lemma_sync_modifiers_note_none(platform: Platform, evt: KeyEvent)
    ensures
        note_none(sync_modifiers_ops(platform, evt)),
{
    let m = evt.modifiers@;
    let ck = evt.control_key_code();
    let ops = |key: Key| seq![press_op(platform, key)];
    lemma_flags_note_none(m);
    lemma_fix_modifiers_note_none(m, ck);
    lemma_for_each_key_notes_none(m, ops);
    let a: Seq<Op> = if platform == Platform::MacOs {
        flag_ops(m)
    } else {
        Seq::empty()
    };
    let b: Seq<Op> = if evt.down {
        fix_modifiers_ops(m, ck)
    } else {
        Seq::empty()
    };
    let c: Seq<Op> = if evt.down && platform != Platform::MacOs {
        press_modifiers_ops(platform, m)
    } else {
        Seq::empty()
    };
    lemma_concat_note_none(a, b);
    lemma_concat_note_none(a + b, c);
    assert(sync_modifiers_ops(platform, evt) == a + b + c);
}

/// What an event notes: one number at most.
spec fn event_notes(evt: KeyEvent) -> Seq<(u64, bool)> {
    match event_record(evt) {
        Some(record_key) => seq![(record_key, evt.down)],
        None => Seq::empty(),
    }
}

proof fn lemma_one_note(record_key: u64, down: bool, rest: Seq<Op>)
    requires
        note_none(rest),
    ensures
        notes_of(seq![Op::Record { record_key, down }] + rest) == seq![(record_key, down)],
{
    let ops = seq![Op::Record { record_key, down }] + rest;
    lemma_note_none(rest);
    assert(ops.drop_first() =~= rest);
    assert(seq![(record_key, down)] + Seq::<(u64, bool)>::empty() =~= seq![(record_key, down)]);
}

proof fn lemma_map_mode_notes(platform: Platform, is_x11: bool, evt: KeyEvent)
    ensures
        notes_of(map_mode_ops(platform, is_x11, evt)) == seq![
            (char_record(evt.code()), evt.down),
        ],
{
    let ops = map_mode_ops(platform, is_x11, evt);
    let rest = ops.drop_first();
    let record_key = char_record(evt.code());
    assert(ops =~= seq![Op::Record { record_key, down: evt.down }] + rest);
    lemma_one_note(record_key, evt.down, rest);
}

proof fn lemma_union_notes(evt: KeyEvent)
    requires
        evt.mode != KeyboardMode::MapKeys,
    ensures
        notes_of(union_ops(evt)) == event_notes(evt),
{
    let ops = union_ops(evt);
    match event_record(evt) {
        Some(record_key) => {
            let rest = ops.drop_first();
            assert(ops =~= seq![Op::Record { record_key, down: evt.down }] + rest);
            lemma_one_note(record_key, evt.down, rest);
        },
        None => {
            lemma_note_none(ops);
        },
    }
}

proof fn lemma_key_notes(platform: Platform, is_x11: bool, evt: KeyEvent, win_key: RdevKey)
    ensures
        notes_of(handle_key_ops(platform, is_x11, evt, win_key)) == event_notes(evt),
{
    let locks: Seq<Op> = if evt.down {
        seq![sync_locks_op(platform, evt, win_key)]
    } else {
        Seq::empty()
    };
    if evt.mode == KeyboardMode::MapKeys {
        lemma_map_mode_notes(platform, is_x11, evt);
        lemma_notes_after_none(locks, map_mode_ops(platform, is_x11, evt));
    } else {
        let a: Seq<Op> = if platform == Platform::Windows {
            seq![Op::Do(Command::TryChangeDesktop)]
        } else {
            Seq::empty()
        };
        let b = sync_modifiers_ops(platform, evt);
        let c = union_ops(evt);
        let e: Seq<Op> = if platform == Platform::MacOs || is_function_event(evt) {
            Seq::empty()
        } else {
            seq![Op::ReleasePressed]
        };
        assert(legacy_mode_ops(platform, evt) == a + b + c + e);
        lemma_sync_modifiers_note_none(platform, evt);
        lemma_concat_note_none(a, b);
        lemma_union_notes(evt);
        lemma_notes_after_none(a + b, c);
        lemma_note_none(e);
        lemma_notes_concat(a + b + c, e);
        assert(event_notes(evt) + Seq::<(u64, bool)>::empty() =~= event_notes(evt));
        lemma_notes_after_none(locks, legacy_mode_ops(platform, evt));
    }
}

/// In every mode and whatever the machine answers, the handling of a key event ends
/// with the table as it was, but that the event's number has been added at a time
/// of one of the turns if the key went down, and taken away if it went up.
pub proof fn law_key_event_notes_its_key(
    platform: Platform,
    is_x11: bool,
    evt: KeyEvent,
    win_key: RdevKey,
    keys: Map<u64, u64>,
    turns: Seq<Turn>,
)
    requires
        ended(
            fresh(platform, evt.text(), handle_key_ops(platform, is_x11, evt, win_key)),
            keys,
            turns,
        ),
    ensures
        ({
            let s = fresh(platform, evt.text(), handle_key_ops(platform, is_x11, evt, win_key));
            let after = conversed(s, keys, turns).1;
            match event_record(evt) {
                Some(record_key) => exists|i: int|
                    0 <= i < turns.len() && after == recorded(
                        keys,
                        record_key,
                        evt.down,
                        (#[trigger] turns[i]).now,
                    ),
                None => after == keys,
            }
        }),
{
    let s = fresh(platform, evt.text(), handle_key_ops(platform, is_x11, evt, win_key));
    lemma_key_notes(platform, is_x11, evt, win_key);
    lemma_conversed_notes(s, keys, turns);
    lemma_ended_is_done(s, keys, turns);
    let after = conversed(s, keys, turns).1;
    if let Some(record_key) = event_record(evt) {
        let notes = notes_of(s.todo);
        let i = choose|i: int|
            0 <= i < turns.len() && after == after_notes(keys, notes, (#[trigger] turns[i]).now);
        assert(after == recorded(keys, record_key, evt.down, turns[i].now));
    }
}

/// In every mode and whatever the machine answers, a press that is followed by the
/// release of the same key leaves the table without that key and otherwise as it
/// was.
pub proof fn law_key_press_leaves_no_record(
    platform: Platform,
    is_x11: bool,
    down: KeyEvent,
    up: KeyEvent,
    win_key: RdevKey,
    keys: Map<u64, u64>,
    turns: Seq<Turn>,
    more: Seq<Turn>,
)
    requires
        down.down,
        !up.down,
        event_record(up) == event_record(down),
        ({
            let s = fresh(platform, down.text(), handle_key_ops(platform, is_x11, down, win_key));
            let t = fresh(platform, up.text(), handle_key_ops(platform, is_x11, up, win_key));
            ended(s, keys, turns) && ended(t, conversed(s, keys, turns).1, more)
        }),
    ensures
        ({
            let s = fresh(platform, down.text(), handle_key_ops(platform, is_x11, down, win_key));
            let t = fresh(platform, up.text(), handle_key_ops(platform, is_x11, up, win_key));
            let after = conversed(t, conversed(s, keys, turns).1, more).1;
            after == match event_record(down) {
                Some(record_key) => keys.remove(record_key),
                None => keys,
            }
        }),
{
    let s = fresh(platform, down.text(), handle_key_ops(platform, is_x11, down, win_key));
    let t = fresh(platform, up.text(), handle_key_ops(platform, is_x11, up, win_key));
    let keys1 = conversed(s, keys, turns).1;
    law_key_event_notes_its_key(platform, is_x11, down, win_key, keys, turns);
    law_key_event_notes_its_key(platform, is_x11, up, win_key, keys1, more);
    if let Some(record_key) = event_record(down) {
        assert(conversed(t, keys1, more).1 =~= keys.remove(record_key));
    }
}

proof fn lemma_mouse_notes(platform: Platform, evt: MouseEvent)
    ensures
        notes_of(handle_mouse_ops(platform, evt)) == Seq::<(u64, bool)>::empty(),
{
    let m = evt.modifiers@;
    lemma_fix_modifiers_note_none(m, 0);
    lemma_flags_note_none(m);
    lemma_for_each_key_notes_none(m, |key: Key| press_unless_lock_ops(key));
    lemma_concat_note_none(
        fix_modifiers_ops(m, 0),
        if platform == Platform::MacOs {
            flag_ops(m)
        } else {
            press_mouse_modifiers_ops(m)
        },
    );
    let a: Seq<Op> = if platform == Platform::Windows {
        seq![Op::Do(Command::TryChangeDesktop)]
    } else {
        Seq::empty()
    };
    let b: Seq<Op> = if evt.kind() == 1 {
        button_modifiers_ops(platform, m)
    } else {
        Seq::empty()
    };
    let c = mouse_ops(platform, evt);
    let e: Seq<Op> = if platform == Platform::MacOs {
        Seq::empty()
    } else {
        seq![Op::ReleasePressed]
    };
    assert(handle_mouse_ops(platform, evt) == a + b + c + e);
    lemma_concat_note_none(a, b);
    lemma_concat_note_none(a + b, c);
    lemma_concat_note_none(a + b + c, e);
    lemma_note_none(a + b + c + e);
}

/// Whatever the machine answers, the handling of a mouse event leaves the table as
/// it was, at its end and at every turn before.
pub proof fn law_mouse_event_notes_nothing(
    platform: Platform,
    evt: MouseEvent,
    keys: Map<u64, u64>,
    turns: Seq<Turn>,
)
    ensures
        conversed(
            fresh(platform, Seq::empty(), handle_mouse_ops(platform, evt)),
            keys,
            turns,
        ).1 == keys,
{
    lemma_mouse_notes(platform, evt);
    lemma_conversed_notes(
        fresh(platform, Seq::empty(), handle_mouse_ops(platform, evt)),
        keys,
        turns,
    );
}

} // verus!
