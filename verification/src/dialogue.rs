use vstd::prelude::*;

use crate::keys::{twin, Key};
use crate::records::recorded;
use crate::script::{Command, Goal, Op};
use crate::session::{advanced, concluded, heard, resumed, ActionView, SessionView, Wait};

verus! {

/// How many actions at most the state of a key leads to, once it is known.
pub open spec fn goal_size(goal: Goal) -> nat {
    match goal {
        Goal::Caps { .. } => 4,
        Goal::Num { .. } => 3,
        Goal::Fix { .. } => 3,
        Goal::FixUnlessAlt { .. } => 1,
        Goal::Press { .. } => 3,
        Goal::Shift { .. } => 3,
        Goal::Capital { .. } => 1,
    }
}

/// How many actions at most a step leads to, counting one where it leads to none.
pub open spec fn op_size(op: Op) -> nat {
    match op {
        Op::KeyState { goal, .. } => 1 + goal_size(goal),
        Op::ModifierState { goal, .. } => 2 + goal_size(goal),
        Op::Chr { .. } => 6,
        _ => 1,
    }
}

pub open spec fn ops_size(ops: Seq<Op>) -> nat
    decreases ops.len(),
{
    if ops.len() == 0 {
        0
    } else {
        op_size(ops[0]) + ops_size(ops.drop_first())
    }
}

/// How many actions at most a session still leads to, whatever the answers.
pub open spec fn session_size(s: SessionView) -> nat {
    ops_size(s.todo) + s.pressed.len() + match s.wait {
        Wait::Idle => 0,
        Wait::KeyState { goal } => goal_size(goal),
        Wait::ModifierState { goal, .. } => 1 + goal_size(goal),
        Wait::Chr { .. } => 5,
    }
}

proof fn lemma_ops_size_concat(a: Seq<Op>, b: Seq<Op>)
    ensures
        ops_size(a + b) == ops_size(a) + ops_size(b),
    decreases a.len(),
{
    if a.len() == 0 {
        assert(a + b =~= b);
    } else {
        assert((a + b).drop_first() =~= a.drop_first() + b);
        lemma_ops_size_concat(a.drop_first(), b);
    }
}

proof fn lemma_concluded_size(s: SessionView, keys: Map<u64, u64>, goal: Goal, held: bool)
    ensures
        session_size(concluded(s, keys, goal, held)) <= ops_size(s.todo) + s.pressed.len()
            + goal_size(goal),
        concluded(s, keys, goal, held).wait == Wait::Idle,
{
    reveal_with_fuel(ops_size, 4);
    let after = concluded(s, keys, goal, held);
    let added = after.todo.take(after.todo.len() - s.todo.len());
    assert(after.todo =~= added + s.todo);
    lemma_ops_size_concat(added, s.todo);
}

/// The values that a character can have.
pub(crate) proof fn lemma_char_range(c: char)
    ensures
        0 <= c as int <= 0xd7ff || 0xe000 <= c as int <= 0x10ffff,
{
}

proof fn lemma_one_size(op: Op)
    ensures
        ops_size(seq![op]) == op_size(op),
{
    reveal_with_fuel(ops_size, 2);
    assert(seq![op].drop_first() =~= Seq::<Op>::empty());
}

pub(crate) proof fn lemma_heard_size(s: SessionView, keys: Map<u64, u64>, reply: bool)
    ensures
        session_size(heard(s, keys, reply)) <= session_size(s),
        heard(s, keys, reply).wait == Wait::Idle,
{
    match s.wait {
        Wait::Idle => {},
        Wait::KeyState { goal } => {
            lemma_concluded_size(s, keys, goal, reply);
        },
        Wait::ModifierState { key, goal } => {
            lemma_concluded_size(s, keys, goal, reply);
            if let Some(other) = twin(key) {
                lemma_one_size(Op::KeyState { key: other, goal });
                lemma_ops_size_concat(seq![Op::KeyState { key: other, goal }], s.todo);
            }
        },
        Wait::Chr { chr } => {
            assert(Seq::<Op>::empty() + s.todo =~= s.todo);
            if let Some(chr) = chr {
                let op = Op::ModifierState { key: Key::Shift, goal: Goal::Shift { chr } };
                lemma_char_range(chr);
                lemma_one_size(op);
                lemma_ops_size_concat(seq![op], s.todo);
            }
        },
    }
}

pub(crate) proof fn lemma_advanced_size(s: SessionView, keys: Map<u64, u64>, now: u64)
    requires
        s.wait == Wait::Idle,
    ensures
        ({
            let (after, _, action) = advanced(s, keys, now);
            &&& action is Some ==> session_size(after) < session_size(s)
            &&& action is None ==> after.todo.len() == 0 && after.wait == Wait::Idle
        }),
    decreases s.todo.len(),
{
    if s.todo.len() > 0 {
        match s.todo[0] {
            Op::Record { record_key, down } => {
                lemma_advanced_size(
                    s.awaits(Wait::Idle),
                    recorded(keys, record_key, down, now),
                    now,
                );
            },
            Op::ReleasePressed => {
                if s.pressed.len() == 0 {
                    lemma_advanced_size(s.awaits(Wait::Idle), keys, now);
                }
            },
            _ => {},
        }
    }
}

/// Every dialogue ends, whatever the machine answers: each action lowers the number
/// of actions that can still follow, and once none is given no more will be.
pub proof fn law_dialogue_ends(
    s: SessionView,
    keys: Map<u64, u64>,
    reply: bool,
    now: u64,
    next_reply: bool,
    later: u64,
)
    ensures
        ({
            let (after, after_keys, action) = resumed(s, keys, reply, now);
            &&& action is Some ==> session_size(after) < session_size(s)
            &&& action is None ==> resumed(after, after_keys, next_reply, later) == (
                after,
                after_keys,
                None::<ActionView>,
            )
        }),
{
    lemma_heard_size(s, keys, reply);
    lemma_advanced_size(heard(s, keys, reply), keys, now);
}

/// Whether the steps that are left end with letting go of what was pressed, or
/// there is nothing left to do.
pub open spec fn ends_released(s: SessionView) -> bool {
    if s.todo.len() > 0 {
        s.todo.last() == Op::ReleasePressed
    } else {
        s.pressed.len() == 0 && s.wait == Wait::Idle
    }
}

proof fn lemma_advanced_releases(s: SessionView, keys: Map<u64, u64>, now: u64)
    requires
        ends_released(s),
        s.wait == Wait::Idle,
    ensures
        ({
            let (after, _, action) = advanced(s, keys, now);
            &&& ends_released(after)
            &&& after.pressed == s.pressed || (s.pressed.len() > 0 && after.pressed
                == s.pressed.drop_first() && action == Some(
                ActionView::Perform(Command::KeyUp(s.pressed[0])),
            ))
        }),
    decreases s.todo.len(),
{
    if s.todo.len() > 0 {
        match s.todo[0] {
            Op::Record { record_key, down } => {
                lemma_advanced_releases(
                    s.awaits(Wait::Idle),
                    recorded(keys, record_key, down, now),
                    now,
                );
            },
            Op::ReleasePressed => {
                if s.pressed.len() == 0 {
                    lemma_advanced_releases(s.awaits(Wait::Idle), keys, now);
                }
            },
            _ => {},
        }
    }
}

/// What is heard only puts steps before those that were left, and only adds to the
/// modifiers that were pressed.
proof fn lemma_heard_keeps_steps(s: SessionView, keys: Map<u64, u64>, reply: bool)
    ensures
        ({
            let h = heard(s, keys, reply);
            &&& h.todo.len() >= s.todo.len()
            &&& s.todo.len() > 0 ==> h.todo.last() == s.todo.last()
            &&& s.pressed.is_prefix_of(h.pressed)
        }),
{
    assert(Seq::<Op>::empty() + s.todo =~= s.todo);
    match s.wait {
        Wait::KeyState { goal: Goal::Press { key, .. } }
        | Wait::ModifierState { goal: Goal::Press { key, .. }, .. } => {
            assert(s.pressed.is_prefix_of(s.pressed.push(key)));
        },
        Wait::Chr { chr: Some(chr) } => {
            lemma_char_range(chr);
        },
        _ => {},
    }
}

/// A modifier that is pressed for an event is let go of before the handling ends,
/// whatever the machine answers: it leaves the list of the pressed ones only with
/// the action that lets go of it, and the dialogue does not end before the list is
/// empty.
pub proof fn law_pressed_modifiers_are_let_go(
    s: SessionView,
    keys: Map<u64, u64>,
    reply: bool,
    now: u64,
)
    requires
        ends_released(s),
    ensures
        ({
            let before = heard(s, keys, reply).pressed;
            let (after, _, action) = resumed(s, keys, reply, now);
            &&& s.pressed.is_prefix_of(before)
            &&& ends_released(after)
            &&& after.pressed == before || (before.len() > 0 && after.pressed
                == before.drop_first() && action == Some(
                ActionView::Perform(Command::KeyUp(before[0])),
            ))
            &&& action is None ==> after.pressed.len() == 0
        }),
{
    let h = heard(s, keys, reply);
    lemma_heard_size(s, keys, reply);
    lemma_heard_keeps_steps(s, keys, reply);
    lemma_advanced_releases(h, keys, now);
    lemma_advanced_size(h, keys, now);
}

/// Whether some steps press no modifiers.
pub open spec fn press_none(ops: Seq<Op>) -> bool {
    forall|i: int| 0 <= i < ops.len() ==> match #[trigger] ops[i] {
        Op::KeyState { goal, .. } => goal !is Press,
        Op::ModifierState { goal, .. } => goal !is Press,
        _ => true,
    }
}

/// Whether a session has pressed no modifiers and will press none.
pub open spec fn presses_none(s: SessionView) -> bool {
    &&& s.pressed.len() == 0
    &&& press_none(s.todo)
    &&& match s.wait {
        Wait::KeyState { goal } => goal !is Press,
        Wait::ModifierState { goal, .. } => goal !is Press,
        _ => true,
    }
}

proof fn lemma_concluded_presses_none(s: SessionView, keys: Map<u64, u64>, goal: Goal, held: bool)
    requires
        s.pressed.len() == 0,
        press_none(s.todo),
        goal !is Press,
    ensures
        presses_none(concluded(s, keys, goal, held)),
{
}

proof fn lemma_advanced_presses_none(s: SessionView, keys: Map<u64, u64>, now: u64)
    requires
        presses_none(s),
    ensures
        presses_none(advanced(s, keys, now).0),
    decreases s.todo.len(),
{
    if s.todo.len() > 0 {
        match s.todo[0] {
            Op::Record { record_key, down } => {
                lemma_advanced_presses_none(
                    s.awaits(Wait::Idle),
                    recorded(keys, record_key, down, now),
                    now,
                );
            },
            Op::ReleasePressed => {
                lemma_advanced_presses_none(s.awaits(Wait::Idle), keys, now);
            },
            _ => {},
        }
    }
}

/// A session that presses no modifiers keeps to that, whatever the machine answers.
pub proof fn law_no_modifiers_are_pressed(
    s: SessionView,
    keys: Map<u64, u64>,
    reply: bool,
    now: u64,
)
    requires
        presses_none(s),
    ensures
        presses_none(resumed(s, keys, reply, now).0),
{
    match s.wait {
        Wait::KeyState { goal } => {
            lemma_concluded_presses_none(s, keys, goal, reply);
        },
        Wait::ModifierState { goal, .. } => {
            lemma_concluded_presses_none(s, keys, goal, reply);
        },
        Wait::Chr { chr: Some(chr) } => {
            lemma_char_range(chr);
        },
        _ => {},
    }
    lemma_advanced_presses_none(heard(s, keys, reply), keys, now);
}

} // verus!
