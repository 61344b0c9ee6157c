use vstd::prelude::*;

use crate::dialogue::{lemma_advanced_size, lemma_char_range, lemma_heard_size, session_size};
use crate::keys::{twin, ControlKey, Key, Platform};
use crate::records::{altgr_down, recorded};
use crate::script::{Command, Goal, Op};
use crate::session::{click_ops, concluded, heard, resumed, ActionView, SessionView, Wait};

verus! {

/// What a machine does that works as it should: the keys that are down, and the
/// locks that are on, after an action, and its answer.
pub open spec fn performed(held: Set<Key>, action: ActionView) -> (Set<Key>, bool) {
    match action {
        ActionView::Perform(Command::KeyState(key)) => (held, held.contains(key)),
        ActionView::Perform(Command::KeyDown(key)) => (key_pressed(held, key), true),
        ActionView::Perform(Command::KeyUp(key)) => (key_released(held, key), true),
        ActionView::Perform(Command::KeyClick(key)) => (key_clicked(held, key), true),
        _ => (held, true),
    }
}

/// Whether a key is a lock. Of a lock it does not matter whether it is down, but
/// whether it is on.
pub open spec fn is_lock(key: Key) -> bool {
    key == Key::CapsLock || key == Key::NumLock || key == Key::Scroll
}

/// The keys that are down and the locks that are on after a press of a key, which
/// toggles a lock.
pub open spec fn key_pressed(held: Set<Key>, key: Key) -> Set<Key> {
    if is_lock(key) {
        toggled(held, key)
    } else {
        held.insert(key)
    }
}

/// The keys that are down and the locks that are on after a key was let go of, which
/// leaves a lock as it is.
pub open spec fn key_released(held: Set<Key>, key: Key) -> Set<Key> {
    if is_lock(key) {
        held
    } else {
        held.remove(key)
    }
}

/// The keys that are down and the locks that are on after a key was pressed and let
/// go of.
pub open spec fn key_clicked(held: Set<Key>, key: Key) -> Set<Key> {
    key_released(key_pressed(held, key), key)
}

/// The keys that are down and the locks that are on after some keys were let go of.
pub open spec fn all_released(held: Set<Key>, keys: Seq<Key>) -> Set<Key> {
    held.difference(Set::new(|key: Key| keys.contains(key) && !is_lock(key)))
}

/// The keys that are down and the locks that are on after a lock was toggled.
pub open spec fn toggled(held: Set<Key>, lock: Key) -> Set<Key> {
    if held.contains(lock) {
        held.remove(lock)
    } else {
        held.insert(lock)
    }
}

/// The keys that are down and the table of keys at the end of a dialogue with such
/// a machine; nothing if it does not end within some number of turns.
pub open spec fn outcome(
    s: SessionView,
    keys: Map<u64, u64>,
    held: Set<Key>,
    reply: bool,
    now: u64,
    turns: nat,
) -> Option<(Set<Key>, Map<u64, u64>)>
    decreases turns,
{
    if turns == 0 {
        None
    } else {
        let (s2, keys2, action) = resumed(s, keys, reply, now);
        match action {
            Some(action) => {
                let (held2, reply2) = performed(held, action);
                outcome(s2, keys2, held2, reply2, now, (turns - 1) as nat)
            },
            None => Some((held, keys2)),
        }
    }
}

/// What the steps of a session act on.
pub struct Desk {
    /// The keys that are down and the locks that are on.
    pub held: Set<Key>,
    /// The modifiers that were pressed for the event.
    pub pressed: Seq<Key>,
    /// The table of the keys that are down.
    pub keys: Map<u64, u64>,
}

/// Whether a key or its twin is down.
pub open spec fn holds(held: Set<Key>, key: Key) -> bool {
    held.contains(key) || (twin(key) is Some && held.contains(twin(key)->0))
}

/// What the state of a key that was wanted for something leads to.
pub open spec fn goal_effect(platform: Platform, goal: Goal, is_held: bool, d: Desk) -> Desk {
    match goal {
        Goal::Caps { caps, num, num_disabled } => Desk {
            held: clicked(
                platform,
                d.held,
                caps != is_held,
                num != d.held.contains(Key::NumLock) && !num_disabled,
            ),
            ..d
        },
        Goal::Num { click_caps, num, num_disabled } => Desk {
            held: clicked(platform, d.held, click_caps, num != is_held && !num_disabled),
            ..d
        },
        Goal::Fix { key0, key1, listed } => if is_held && !listed && !(platform
            == Platform::Windows && key0 == ControlKey::Control && holds(d.held, Key::Alt)) {
            Desk { held: key_released(d.held, key1), ..d }
        } else {
            d
        },
        Goal::FixUnlessAlt { key1 } => if is_held {
            d
        } else {
            Desk { held: key_released(d.held, key1), ..d }
        },
        Goal::Press { key, spare_altgr } => if is_held || (spare_altgr && altgr_down(d.keys)) {
            d
        } else {
            Desk { held: key_pressed(d.held, key), pressed: d.pressed.push(key), ..d }
        },
        Goal::Shift { .. } | Goal::Capital { .. } => d,
    }
}

/// The locks after clicks on some of them. On macOS a click on caps lock is followed
/// by a press of it, which toggles it back, and num lock is not there to be clicked.
pub open spec fn clicked(platform: Platform, held: Set<Key>, caps: bool, num: bool) -> Set<Key> {
    let after_caps = if caps && platform != Platform::MacOs {
        toggled(held, Key::CapsLock)
    } else {
        held
    };
    if num && platform != Platform::MacOs {
        toggled(after_caps, Key::NumLock)
    } else {
        after_caps
    }
}

/// What a step leads to on a machine that works as it should.
pub open spec fn op_effect(platform: Platform, op: Op, d: Desk, now: u64) -> Desk {
    match op {
        Op::Do(command) => Desk { held: performed(d.held, ActionView::Perform(command)).0, ..d },
        Op::TypeChar(_) | Op::TypeUpper(_) | Op::TypeText => d,
        Op::Record { record_key, down } => Desk {
            keys: recorded(d.keys, record_key, down, now),
            ..d
        },
        Op::KeyState { key, goal } => goal_effect(platform, goal, d.held.contains(key), d),
        Op::ModifierState { key, goal } => goal_effect(platform, goal, holds(d.held, key), d),
        Op::Chr { key, .. } => Desk { held: key_pressed(d.held, key), ..d },
        Op::ReleasePressed => Desk {
            held: all_released(d.held, d.pressed),
            pressed: Seq::empty(),
            ..d
        },
    }
}

/// What some steps lead to, one after the other.
pub open spec fn ops_effect(platform: Platform, ops: Seq<Op>, d: Desk, now: u64) -> Desk
    decreases ops.len(),
{
    if ops.len() == 0 {
        d
    } else {
        ops_effect(platform, ops.drop_first(), op_effect(platform, ops[0], d, now), now)
    }
}

pub(crate) proof fn lemma_ops_effect_concat(
    platform: Platform,
    a: Seq<Op>,
    b: Seq<Op>,
    d: Desk,
    now: u64,
)
    ensures
        ops_effect(platform, a + b, d, now) == ops_effect(
            platform,
            b,
            ops_effect(platform, a, d, now),
            now,
        ),
    decreases a.len(),
{
    if a.len() == 0 {
        assert(a + b =~= b);
    } else {
        assert((a + b).drop_first() =~= a.drop_first() + b);
        lemma_ops_effect_concat(
            platform,
            a.drop_first(),
            b,
            op_effect(platform, a[0], d, now),
            now,
        );
    }
}

pub(crate) proof fn lemma_ops_effect_one(platform: Platform, op: Op, d: Desk, now: u64)
    ensures
        ops_effect(platform, seq![op], d, now) == op_effect(platform, op, d, now),
{
    reveal_with_fuel(ops_effect, 2);
    assert(seq![op].drop_first() =~= Seq::<Op>::empty());
}

/// The desk that a session acts on.
pub open spec fn desk(s: SessionView, held: Set<Key>, keys: Map<u64, u64>) -> Desk {
    Desk { held, pressed: s.pressed, keys }
}

/// What a session that waits for nothing leads to.
pub open spec fn session_effect(
    s: SessionView,
    held: Set<Key>,
    keys: Map<u64, u64>,
    now: u64,
) -> Desk {
    ops_effect(s.platform, s.todo, desk(s, held, keys), now)
}

proof fn lemma_click_ops_effect(platform: Platform, caps: bool, num: bool, d: Desk, now: u64)
    ensures
        ops_effect(platform, click_ops(platform, caps, num), d, now) == (Desk {
            held: clicked(platform, d.held, caps, num),
            ..d
        }),
{
    reveal_with_fuel(ops_effect, 4);
    let ops = click_ops(platform, caps, num);
    let effect = ops_effect(platform, ops, d, now);
    assert(effect.held =~= clicked(platform, d.held, caps, num));
}

proof fn lemma_concluded_effect(
    s: SessionView,
    held: Set<Key>,
    keys: Map<u64, u64>,
    goal: Goal,
    is_held: bool,
    now: u64,
)
    ensures
        session_effect(concluded(s, keys, goal, is_held), held, keys, now) == ops_effect(
            s.platform,
            s.todo,
            goal_effect(s.platform, goal, is_held, desk(s, held, keys)),
            now,
        ),
{
    reveal_with_fuel(ops_effect, 3);
    let after = concluded(s, keys, goal, is_held);
    let d = desk(s, held, keys);
    let added = after.todo.take(after.todo.len() - s.todo.len());
    assert(Seq::<Op>::empty() + s.todo =~= s.todo);
    match goal {
        Goal::Shift { chr } | Goal::Capital { chr } => {
            lemma_char_range(chr);
        },
        Goal::Num { click_caps, num, num_disabled } => {
            lemma_click_ops_effect(
                s.platform,
                click_caps,
                num != is_held && !num_disabled,
                d,
                now,
            );
        },
        Goal::Caps { caps, num, num_disabled } => {},
        _ => {},
    }
    assert(after.todo =~= added + s.todo);
    lemma_ops_effect_concat(s.platform, added, s.todo, desk(after, held, keys), now);
}

pub(crate) proof fn lemma_heard_effect(
    s: SessionView,
    held: Set<Key>,
    keys: Map<u64, u64>,
    reply: bool,
    now: u64,
)
    requires
        s.wait matches Wait::ModifierState { key, .. } ==> reply == held.contains(key),
        s.wait is Chr ==> reply,
    ensures
        session_effect(heard(s, keys, reply), held, keys, now) == ops_effect(
            s.platform,
            s.todo,
            match s.wait {
                Wait::KeyState { goal } => goal_effect(
                    s.platform,
                    goal,
                    reply,
                    desk(s, held, keys),
                ),
                Wait::ModifierState { key, goal } => goal_effect(
                    s.platform,
                    goal,
                    holds(held, key),
                    desk(s, held, keys),
                ),
                _ => desk(s, held, keys),
            },
            now,
        ),
{
    assert(Seq::<Op>::empty() + s.todo =~= s.todo);
    match s.wait {
        Wait::KeyState { goal } => {
            lemma_concluded_effect(s, held, keys, goal, reply, now);
        },
        Wait::ModifierState { key, goal } => {
            if !reply && twin(key) is Some {
                let op = Op::KeyState { key: twin(key)->0, goal };
                let d = desk(s, held, keys);
                lemma_ops_effect_one(s.platform, op, d, now);
                lemma_ops_effect_concat(s.platform, seq![op], s.todo, d, now);
            } else {
                lemma_concluded_effect(s, held, keys, goal, reply, now);
            }
        },
        _ => {},
    }
}

/// A dialogue with a machine that works as it should leads to what its steps lead
/// to, within as many turns as it has actions at most and one more.
pub proof fn law_dialogue_follows_steps(
    s: SessionView,
    keys: Map<u64, u64>,
    held: Set<Key>,
    reply: bool,
    now: u64,
    turns: nat,
)
    requires
        s.wait == Wait::Idle,
        turns > session_size(s),
    ensures
        ({
            let d = session_effect(s, held, keys, now);
            outcome(s, keys, held, reply, now, turns) == Some((d.held, d.keys))
        }),
    decreases session_size(s), turns,
{
    lemma_advanced_size(s, keys, now);
    if s.todo.len() > 0 {
        let (s2, keys2, action) = resumed(s, keys, reply, now);
        match s.todo[0] {
            Op::Record { record_key, down } => {
                let skipped = s.awaits(Wait::Idle);
                let keys2 = recorded(keys, record_key, down, now);
                law_dialogue_follows_steps(skipped, keys2, held, reply, now, turns);
                assert(outcome(s, keys, held, reply, now, turns) == outcome(
                    skipped,
                    keys2,
                    held,
                    reply,
                    now,
                    turns,
                ));
            },
            Op::ReleasePressed => {
                if s.pressed.len() == 0 {
                    let skipped = s.awaits(Wait::Idle);
                    law_dialogue_follows_steps(skipped, keys, held, reply, now, turns);
                    assert(outcome(s, keys, held, reply, now, turns) == outcome(
                        skipped,
                        keys,
                        held,
                        reply,
                        now,
                        turns,
                    ));
                    assert(all_released(held, s.pressed) =~= held);
                    assert(s.pressed =~= Seq::<Key>::empty());
                } else {
                    let key = s.pressed[0];
                    let rest = s.pressed.drop_first();
                    law_dialogue_follows_steps(
                        s2,
                        keys,
                        key_released(held, key),
                        true,
                        now,
                        (turns - 1) as nat,
                    );
                    assert(s.pressed =~= seq![key] + rest);
                    assert forall|k: Key| s.pressed.contains(k) <==> k == key || rest.contains(k) by {
                        if rest.contains(k) {
                            let i = choose|i: int| 0 <= i < rest.len() && rest[i] == k;
                            assert(s.pressed[i + 1] == k);
                        }
                        if s.pressed.contains(k) && k != key {
                            let i = choose|i: int| 0 <= i < s.pressed.len() && s.pressed[i] == k;
                            assert(rest[i - 1] == k);
                        }
                        assert(s.pressed[0] == key);
                    }
                    assert(all_released(key_released(held, key), rest) =~= all_released(
                        held,
                        s.pressed,
                    ));
                }
            },
            _ => {
                let action = action->0;
                let (held2, reply2) = performed(held, action);
                let s3 = heard(s2, keys, reply2);
                lemma_heard_size(s2, keys, reply2);
                law_dialogue_follows_steps(s3, keys, held2, reply2, now, (turns - 1) as nat);
                assert(resumed(s3, keys, reply2, now) == resumed(s2, keys, reply2, now));
                assert(outcome(s2, keys, held2, reply2, now, (turns - 1) as nat) == outcome(
                    s3,
                    keys,
                    held2,
                    reply2,
                    now,
                    (turns - 1) as nat,
                ));
                lemma_heard_effect(s2, held2, keys, reply2, now);
            },
        }
    }
}

} // verus!
