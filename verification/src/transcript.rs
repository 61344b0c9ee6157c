use vstd::prelude::*;

use crate::dialogue::{lemma_advanced_size, lemma_char_range, lemma_heard_size};
use crate::keys::{twin, Key};
use crate::notes::{conversed, ended, Turn};
use crate::records::recorded;
use crate::script::{Command, Goal, Op};
use crate::session::{advanced, concluded, heard, ActionView, SessionView, Wait};
use crate::text::uppercase;

verus! {

/// The actions that a dialogue gives over some turns, in order.
pub open spec fn said(s: SessionView, keys: Map<u64, u64>, turns: Seq<Turn>) -> Seq<ActionView>
    decreases turns.len(),
{
    if turns.len() == 0 {
        Seq::empty()
    } else {
        match conversed(s, keys, turns).2 {
            Some(action) => said(s, keys, turns.drop_last()).push(action),
            None => said(s, keys, turns.drop_last()),
        }
    }
}

/// Which of its actions a dialogue is looked at for.
pub enum Look {
    /// Everything but keys, texts and the pause after a modifier.
    Plain,
    /// Everything but keys and the pause after a modifier.
    Texts,
    /// Everything.
    All,
    /// The presses of one key.
    Press(Key),
}

/// Whether an action is among those that are looked at.
pub open spec fn shows(action: ActionView, look: Look) -> bool {
    match look {
        Look::All => true,
        Look::Press(key) => action == ActionView::Perform(Command::KeyDown(key)),
        _ => match action {
            ActionView::Perform(command) => match command {
                Command::KeyState(_)
                | Command::KeyDown(_)
                | Command::KeyUp(_)
                | Command::KeyClick(_) => false,
                Command::Sleep(nanos) => nanos != 1,
                _ => true,
            },
            ActionView::KeySequence(_) => look is Texts,
        },
    }
}

/// The actions of a sequence that are looked at.
pub open spec fn shown(actions: Seq<ActionView>, look: Look) -> Seq<ActionView>
    decreases actions.len(),
{
    if actions.len() == 0 {
        Seq::empty()
    } else if shows(actions.last(), look) {
        shown(actions.drop_last(), look).push(actions.last())
    } else {
        shown(actions.drop_last(), look)
    }
}

pub(crate) proof fn lemma_shown_all(actions: Seq<ActionView>)
    ensures
        shown(actions, Look::All) == actions,
    decreases actions.len(),
{
    if actions.len() > 0 {
        lemma_shown_all(actions.drop_last());
        assert(actions.drop_last().push(actions.last()) =~= actions);
    } else {
        assert(actions =~= Seq::empty());
    }
}

/// The action that a step gives whatever the machine has answered.
pub(crate) open spec fn op_action(op: Op, text: Seq<char>) -> Option<ActionView> {
    match op {
        Op::Do(command) => Some(ActionView::Perform(command)),
        Op::TypeChar(c) => Some(ActionView::KeySequence(seq![c])),
        Op::TypeUpper(c) => Some(ActionView::KeySequence(uppercase(seq![c]))),
        Op::TypeText => Some(ActionView::KeySequence(text)),
        Op::Chr { key, .. } => Some(ActionView::Perform(Command::KeyDown(key))),
        _ => None,
    }
}

/// Whether what a key is wanted for leads to no action that is looked at.
pub(crate) open spec fn goal_is_calm(goal: Goal, look: Look) -> bool {
    match look {
        Look::Plain => true,
        Look::Texts => !(goal is Shift) && !(goal is Capital),
        Look::All => false,
        Look::Press(key) => match goal {
            Goal::Press { key: other, .. } => other != key,
            Goal::Caps { .. } | Goal::Num { .. } => key != Key::CapsLock,
            _ => true,
        },
    }
}

pub(crate) open spec fn op_shows(op: Op, text: Seq<char>, look: Look) -> bool {
    op_action(op, text) is Some && shows(op_action(op, text)->0, look)
}

/// The actions of some steps that are looked at.
pub(crate) open spec fn shown_of(ops: Seq<Op>, text: Seq<char>, look: Look) -> Seq<ActionView>
    decreases ops.len(),
{
    if ops.len() == 0 {
        Seq::empty()
    } else if op_shows(ops[0], text, look) {
        seq![op_action(ops[0], text)->0] + shown_of(ops.drop_first(), text, look)
    } else {
        shown_of(ops.drop_first(), text, look)
    }
}

pub(crate) proof fn lemma_shown_of_concat(a: Seq<Op>, b: Seq<Op>, text: Seq<char>, look: Look)
    ensures
        shown_of(a + b, text, look) == shown_of(a, text, look) + shown_of(b, text, look),
    decreases a.len(),
{
    if a.len() == 0 {
        assert(a + b =~= b);
        assert(shown_of(a, text, look) + shown_of(b, text, look) =~= shown_of(b, text, look));
    } else {
        assert((a + b).drop_first() =~= a.drop_first() + b);
        lemma_shown_of_concat(a.drop_first(), b, text, look);
        assert(shown_of(a + b, text, look) =~= shown_of(a, text, look) + shown_of(b, text, look));
    }
}

/// Whether none of the actions of some steps is looked at.
pub(crate) open spec fn show_none(ops: Seq<Op>, text: Seq<char>, look: Look) -> bool {
    forall|i: int| 0 <= i < ops.len() ==> !op_shows(#[trigger] ops[i], text, look)
}

pub(crate) proof fn lemma_show_none(ops: Seq<Op>, text: Seq<char>, look: Look)
    requires
        show_none(ops, text, look),
    ensures
        shown_of(ops, text, look) == Seq::<ActionView>::empty(),
    decreases ops.len(),
{
    if ops.len() > 0 {
        lemma_show_none(ops.drop_first(), text, look);
    }
}

/// Whether a step leads to no action that is looked at but its own.
pub(crate) open spec fn is_calm(op: Op, look: Look) -> bool {
    match op {
        Op::Chr { .. } => look is Plain || look is Press,
        Op::KeyState { goal, .. } | Op::ModifierState { goal, .. } => goal_is_calm(goal, look),
        _ => true,
    }
}

pub(crate) open spec fn all_calm(ops: Seq<Op>, look: Look) -> bool {
    forall|i: int| 0 <= i < ops.len() ==> is_calm(#[trigger] ops[i], look)
}

/// Whether nothing but the steps that are left leads to actions that are looked at.
spec fn calm(s: SessionView, look: Look) -> bool {
    &&& all_calm(s.todo, look)
    &&& match s.wait {
        Wait::Idle => true,
        Wait::KeyState { goal } | Wait::ModifierState { goal, .. } => goal_is_calm(goal, look),
        Wait::Chr { .. } => look is Plain || look is Press,
    }
    &&& look is All ==> s.pressed.len() == 0
}

/// Some steps that show nothing, before those that were left.
proof fn lemma_added(s: SessionView, after: SessionView, look: Look)
    requires
        after.text == s.text,
        after.todo.len() >= s.todo.len(),
        ({
            let added = after.todo.take(after.todo.len() - s.todo.len());
            &&& after.todo == added + s.todo
            &&& show_none(added, s.text, look)
            &&& all_calm(added, look)
        }),
        all_calm(s.todo, look),
    ensures
        shown_of(after.todo, after.text, look) == shown_of(s.todo, s.text, look),
        all_calm(after.todo, look),
{
    let added = after.todo.take(after.todo.len() - s.todo.len());
    lemma_show_none(added, s.text, look);
    lemma_shown_of_concat(added, s.todo, s.text, look);
    let none = Seq::<ActionView>::empty();
    assert(none + shown_of(s.todo, s.text, look) =~= shown_of(s.todo, s.text, look));
}

proof fn lemma_concluded_shows(
    s: SessionView,
    keys: Map<u64, u64>,
    goal: Goal,
    held: bool,
    look: Look,
)
    requires
        all_calm(s.todo, look),
        goal_is_calm(goal, look),
    ensures
        ({
            let after = concluded(s, keys, goal, held);
            &&& shown_of(after.todo, after.text, look) == shown_of(s.todo, s.text, look)
            &&& after.text == s.text
            &&& calm(after, look)
        }),
{
    let after = concluded(s, keys, goal, held);
    let added = after.todo.take(after.todo.len() - s.todo.len());
    assert(after.todo =~= added + s.todo);
    match goal {
        Goal::Shift { chr } | Goal::Capital { chr } => {
            lemma_char_range(chr);
        },
        _ => {},
    }
    lemma_added(s, after, look);
}

proof fn lemma_heard_shows(s: SessionView, keys: Map<u64, u64>, reply: bool, look: Look)
    requires
        calm(s, look),
    ensures
        ({
            let after = heard(s, keys, reply);
            &&& shown_of(after.todo, after.text, look) == shown_of(s.todo, s.text, look)
            &&& after.text == s.text
            &&& calm(after, look)
        }),
{
    assert(Seq::<Op>::empty() + s.todo =~= s.todo);
    let after = heard(s, keys, reply);
    match s.wait {
        Wait::Idle => {},
        Wait::KeyState { goal } => {
            lemma_concluded_shows(s, keys, goal, reply, look);
        },
        Wait::ModifierState { key, goal } => {
            lemma_concluded_shows(s, keys, goal, reply, look);
            if !reply && twin(key) is Some {
                let added = after.todo.take(after.todo.len() - s.todo.len());
                assert(after.todo =~= added + s.todo);
                lemma_added(s, after, look);
            }
        },
        Wait::Chr { chr } => {
            if let Some(c) = chr {
                lemma_char_range(c);
                if !reply {
                    let added = after.todo.take(after.todo.len() - s.todo.len());
                    assert(after.todo =~= added + s.todo);
                    lemma_added(s, after, look);
                }
            }
        },
    }
}

spec fn shown_one(action: Option<ActionView>, look: Look) -> Seq<ActionView> {
    match action {
        Some(action) if shows(action, look) => seq![action],
        _ => Seq::empty(),
    }
}

proof fn lemma_advanced_shows(s: SessionView, keys: Map<u64, u64>, now: u64, look: Look)
    requires
        calm(s, look),
        s.wait == Wait::Idle,
    ensures
        ({
            let (after, _, action) = advanced(s, keys, now);
            &&& shown_one(action, look) + shown_of(after.todo, after.text, look) == shown_of(
                s.todo,
                s.text,
                look,
            )
            &&& after.text == s.text
            &&& calm(after, look)
        }),
    decreases s.todo.len(),
{
    let none = Seq::<ActionView>::empty();
    let (after, _, action) = advanced(s, keys, now);
    assert(none + shown_of(after.todo, s.text, look) =~= shown_of(after.todo, s.text, look));
    if s.todo.len() > 0 {
        let rest = s.awaits(Wait::Idle);
        assert forall|i: int| 0 <= i < rest.todo.len() implies is_calm(
            #[trigger] rest.todo[i],
            look,
        ) by {
            assert(rest.todo[i] == s.todo[i + 1]);
        }
        match s.todo[0] {
            Op::Record { record_key, down } => {
                lemma_advanced_shows(rest, recorded(keys, record_key, down, now), now, look);
            },
            Op::ReleasePressed => {
                if s.pressed.len() == 0 {
                    lemma_advanced_shows(rest, keys, now, look);
                }
            },
            _ => {
                assert(is_calm(s.todo[0], look));
            },
        }
    }
}

proof fn lemma_conversed_shows(s: SessionView, keys: Map<u64, u64>, turns: Seq<Turn>, look: Look)
    requires
        calm(s, look),
    ensures
        ({
            let after = conversed(s, keys, turns).0;
            &&& shown(said(s, keys, turns), look) + shown_of(after.todo, after.text, look)
                == shown_of(s.todo, s.text, look)
            &&& after.text == s.text
            &&& calm(after, look)
        }),
    decreases turns.len(),
{
    let (after, _, action) = conversed(s, keys, turns);
    let so_far = shown(said(s, keys, turns), look);
    if turns.len() == 0 {
        assert(so_far + shown_of(s.todo, s.text, look) =~= shown_of(s.todo, s.text, look));
    } else {
        let init = turns.drop_last();
        let last = turns.last();
        lemma_conversed_shows(s, keys, init, look);
        let (s1, keys1, _) = conversed(s, keys, init);
        lemma_heard_shows(s1, keys1, last.reply, look);
        lemma_heard_size(s1, keys1, last.reply);
        lemma_advanced_shows(heard(s1, keys1, last.reply), keys1, last.now, look);
        let before = shown(said(s, keys, init), look);
        if let Some(a) = action {
            assert(said(s, keys, turns).drop_last() =~= said(s, keys, init));
        }
        assert(so_far =~= before + shown_one(action, look));
        let rest = shown_of(after.todo, after.text, look);
        assert(so_far + rest =~= before + (shown_one(action, look) + rest));
    }
}

/// A dialogue that has ended has given the actions of its steps, as far as they are
/// looked at.
pub(crate) proof fn lemma_all_is_said(
    s: SessionView,
    keys: Map<u64, u64>,
    turns: Seq<Turn>,
    look: Look,
)
    requires
        ended(s, keys, turns),
        s.wait == Wait::Idle,
        s.pressed.len() == 0,
        all_calm(s.todo, look),
    ensures
        shown(said(s, keys, turns), look) == shown_of(s.todo, s.text, look),
{
    lemma_conversed_shows(s, keys, turns, look);
    let (s1, keys1, _) = conversed(s, keys, turns.drop_last());
    let last = turns.last();
    lemma_heard_size(s1, keys1, last.reply);
    lemma_advanced_size(heard(s1, keys1, last.reply), keys1, last.now);
    let after = conversed(s, keys, turns).0;
    let all = shown(said(s, keys, turns), look);
    assert(shown_of(after.todo, after.text, look) =~= Seq::empty());
    assert(all + Seq::<ActionView>::empty() =~= all);
}

} // verus!
