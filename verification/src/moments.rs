use vstd::prelude::*;

use crate::device::{all_released, key_released, lemma_heard_effect, performed, session_effect};
use crate::dialogue::{lemma_advanced_size, lemma_char_range, lemma_heard_size, session_size};
use crate::keys::Key;
use crate::records::recorded;
use crate::script::{Command, Goal, Op};
use crate::session::{concluded, heard, resumed, ActionView, SessionView, Wait};

verus! {

/// What happens in a dialogue with a machine that works as it should: each action, with
/// the keys that are down and the locks that are on when it is performed.
pub open spec fn played(
    s: SessionView,
    keys: Map<u64, u64>,
    held: Set<Key>,
    reply: bool,
    now: u64,
    turns: nat,
) -> Seq<(Set<Key>, ActionView)>
    decreases turns,
{
    if turns == 0 {
        Seq::empty()
    } else {
        let (s2, keys2, action) = resumed(s, keys, reply, now);
        match action {
            Some(action) => {
                let (held2, reply2) = performed(held, action);
                seq![(held, action)] + played(s2, keys2, held2, reply2, now, (turns - 1) as nat)
            },
            None => Seq::empty(),
        }
    }
}

/// Whether an action is performed at some moment of a dialogue.
pub open spec fn happens(
    moments: Seq<(Set<Key>, ActionView)>,
    held: Set<Key>,
    action: ActionView,
) -> bool {
    exists|i: int| 0 <= i < moments.len() && #[trigger] moments[i] == (held, action)
}

/// A session with some steps behind those that are left.
pub(crate) open spec fn followed_by(s: SessionView, ops: Seq<Op>) -> SessionView {
    SessionView { todo: s.todo + ops, ..s }
}

proof fn lemma_concluded_frame(
    s: SessionView,
    ops: Seq<Op>,
    keys: Map<u64, u64>,
    goal: Goal,
    held: bool,
)
    ensures
        concluded(followed_by(s, ops), keys, goal, held) == followed_by(
            concluded(s, keys, goal, held),
            ops,
        ),
{
    match goal {
        Goal::Shift { chr } | Goal::Capital { chr } => {
            lemma_char_range(chr);
        },
        _ => {},
    }
    assert(concluded(followed_by(s, ops), keys, goal, held).todo =~= concluded(
        s,
        keys,
        goal,
        held,
    ).todo + ops);
}

proof fn lemma_heard_frame(s: SessionView, ops: Seq<Op>, keys: Map<u64, u64>, reply: bool)
    ensures
        heard(followed_by(s, ops), keys, reply) == followed_by(heard(s, keys, reply), ops),
{
    match s.wait {
        Wait::KeyState { goal } | Wait::ModifierState { goal, .. } => {
            lemma_concluded_frame(s, ops, keys, goal, reply);
        },
        Wait::Chr { chr: Some(chr) } => {
            lemma_char_range(chr);
        },
        _ => {},
    }
    assert(heard(followed_by(s, ops), keys, reply).todo =~= heard(s, keys, reply).todo + ops);
}

pub(crate) open spec fn acts(op: Op) -> bool {
    op is Do || op is Chr
}

pub(crate) open spec fn act(op: Op) -> ActionView {
    match op {
        Op::Do(command) => ActionView::Perform(command),
        Op::Chr { key, .. } => ActionView::Perform(Command::KeyDown(key)),
        _ => arbitrary(),
    }
}

proof fn lemma_happens_later(
    moment: (Set<Key>, ActionView),
    rest: Seq<(Set<Key>, ActionView)>,
    held: Set<Key>,
    action: ActionView,
)
    requires
        happens(rest, held, action),
    ensures
        happens(seq![moment] + rest, held, action),
{
    let i = choose|i: int| 0 <= i < rest.len() && #[trigger] rest[i] == (held, action);
    assert((seq![moment] + rest)[i + 1] == (held, action));
}

/// The step behind some others is performed when these have had their effect.
pub(crate) proof fn lemma_reaches(
    s: SessionView,
    ops: Seq<Op>,
    keys: Map<u64, u64>,
    held: Set<Key>,
    reply: bool,
    now: u64,
    turns: nat,
)
    requires
        s.wait == Wait::Idle,
        ops.len() > 0,
        acts(ops[0]),
        turns > session_size(followed_by(s, ops)),
    ensures
        happens(
            played(followed_by(s, ops), keys, held, reply, now, turns),
            session_effect(s, held, keys, now).held,
            act(ops[0]),
        ),
    decreases session_size(s), s.todo.len(),
{
    let all = followed_by(s, ops);
    lemma_advanced_size(all, keys, now);
    lemma_advanced_size(s, keys, now);
    let (all2, keys2, action) = resumed(all, keys, reply, now);
    let moments = played(all, keys, held, reply, now, turns);
    if s.todo.len() == 0 {
        assert(all.todo =~= ops);
        assert(moments[0] == (held, act(ops[0])));
    } else {
        let skipped = s.awaits(Wait::Idle);
        assert(all.todo.drop_first() =~= s.todo.drop_first() + ops);
        match s.todo[0] {
            Op::Record { record_key, down } => {
                let keys2 = recorded(keys, record_key, down, now);
                lemma_reaches(skipped, ops, keys2, held, reply, now, turns);
                assert(resumed(followed_by(skipped, ops), keys2, reply, now) == resumed(
                    all,
                    keys,
                    reply,
                    now,
                ));
            },
            Op::ReleasePressed => {
                if s.pressed.len() == 0 {
                    lemma_reaches(skipped, ops, keys, held, reply, now, turns);
                    assert(resumed(followed_by(skipped, ops), keys, reply, now) == resumed(
                        all,
                        keys,
                        reply,
                        now,
                    ));
                    assert(all_released(held, s.pressed) =~= held);
                    assert(s.pressed =~= Seq::<Key>::empty());
                } else {
                    let key = s.pressed[0];
                    let rest = s.pressed.drop_first();
                    let s2 = SessionView { pressed: rest, ..s };
                    let held2 = key_released(held, key);
                    assert(followed_by(s2, ops) == all2);
                    lemma_reaches(s2, ops, keys, held2, true, now, (turns - 1) as nat);
                    assert forall|k: Key| s.pressed.contains(k) <==> k == key || rest.contains(
                        k,
                    ) by {
                        if rest.contains(k) {
                            let i = choose|i: int| 0 <= i < rest.len() && rest[i] == k;
                            assert(s.pressed[i + 1] == k);
                        }
                        if s.pressed.contains(k) && k != key {
                            let i = choose|i: int| 0 <= i < s.pressed.len() && s.pressed[i] == k;
                            assert(rest[i - 1] == k);
                        }
                        assert(s.pressed[0] == key);
                    }
                    assert(all_released(held2, rest) =~= all_released(held, s.pressed));
                    lemma_happens_later(
                        (held, action->0),
                        played(all2, keys, held2, true, now, (turns - 1) as nat),
                        session_effect(s, held, keys, now).held,
                        act(ops[0]),
                    );
                }
            },
            _ => {
                let (s2, _, own) = resumed(s, keys, reply, now);
                assert(own == action);
                assert(followed_by(s2, ops) == all2);
                let action = action->0;
                let (held2, reply2) = performed(held, action);
                let s3 = heard(s2, keys, reply2);
                let all3 = heard(all2, keys, reply2);
                lemma_heard_frame(s2, ops, keys, reply2);
                lemma_heard_size(s2, keys, reply2);
                lemma_heard_size(all2, keys, reply2);
                lemma_reaches(s3, ops, keys, held2, reply2, now, (turns - 1) as nat);
                assert(resumed(all3, keys, reply2, now) == resumed(all2, keys, reply2, now));
                assert(played(all2, keys, held2, reply2, now, (turns - 1) as nat) == played(
                    all3,
                    keys,
                    held2,
                    reply2,
                    now,
                    (turns - 1) as nat,
                ));
                lemma_heard_effect(s2, held2, keys, reply2, now);
                lemma_happens_later(
                    (held, action),
                    played(all2, keys, held2, reply2, now, (turns - 1) as nat),
                    session_effect(s, held, keys, now).held,
                    act(ops[0]),
                );
            },
        }
    }
}

} // verus!
