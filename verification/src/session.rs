use std::collections::VecDeque;

use vstd::prelude::*;

use crate::events::is_not_same_status;
use crate::keys::{twin, twin_key, ControlKey, Key, Platform};
use crate::records::{altgr_down, is_altgr_pressed, record_pressed_key, recorded, KeysDown};
use crate::script::{Command, Goal, Op, MODIFIER_SLEEP};
use crate::text::{char_to_string, to_uppercase, uppercase};

verus! {

/// What a session wants to be done next.
#[derive(Debug)]
pub enum Action {
    Perform(Command),
    /// Type a text.
    KeySequence(String),
}

/// The model of an `Action`.
pub enum ActionView {
    Perform(Command),
    KeySequence(Seq<char>),
}

impl View for Action {
    type V = ActionView;

    open spec fn view(&self) -> ActionView {
        match *self {
            Action::Perform(command) => ActionView::Perform(command),
            Action::KeySequence(text) => ActionView::KeySequence(text@),
        }
    }
}

/// What the answer to the last action is for.
#[derive(Clone, Copy, Debug, PartialEq, Eq, Structural)]
pub enum Wait {
    /// Nothing: it is not looked at.
    Idle,
    KeyState { goal: Goal },
    ModifierState { key: Key, goal: Goal },
    Chr { chr: Option<char> },
}

/// The handling of one event, as a dialogue with the machine: each call of
/// `resume` takes the answer to the action before and gives the next action.
pub struct Session {
    platform: Platform,
    text: String,
    todo: VecDeque<Op>,
    pressed: Vec<Key>,
    wait: Wait,
}

/// The model of a `Session`.
pub struct SessionView {
    pub platform: Platform,
    /// The text that `Op::TypeText` types.
    pub text: Seq<char>,
    /// The steps that are left, the next one first.
    pub todo: Seq<Op>,
    /// The modifiers that were pressed for the event and are still to be let go of.
    pub pressed: Seq<Key>,
    pub wait: Wait,
}

impl View for Session {
    type V = SessionView;

    closed spec fn view(&self) -> SessionView {
        SessionView {
            platform: self.platform,
            text: self.text@,
            todo: self.todo@,
            pressed: self.pressed@,
            wait: self.wait,
        }
    }
}

/// A session that has not begun.
pub open spec fn fresh(platform: Platform, text: Seq<char>, plan: Seq<Op>) -> SessionView {
    SessionView { platform, text, todo: plan, pressed: Seq::empty(), wait: Wait::Idle }
}

impl SessionView {
    /// The session once its last answer has been heard, with some steps put before
    /// those that were left.
    pub open spec fn then_first(self, ops: Seq<Op>) -> SessionView {
        SessionView { todo: ops + self.todo, wait: Wait::Idle, ..self }
    }

    /// The session without its next step, waiting for an answer.
    pub open spec fn awaits(self, wait: Wait) -> SessionView {
        SessionView { todo: self.todo.drop_first(), wait, ..self }
    }
}

/// The steps that bring caps lock and num lock in line with the peer's.
pub open spec fn click_ops(platform: Platform, caps: bool, num: bool) -> Seq<Op> {
    (if caps {
        click_capslock_ops(platform)
    } else {
        Seq::empty()
    }) + (if num {
        click_numlock_ops(platform)
    } else {
        Seq::empty()
    })
}

/// The steps that toggle caps lock.
pub open spec fn click_capslock_ops(platform: Platform) -> Seq<Op> {
    let click = Op::Do(Command::KeyClick(Key::CapsLock));
    if platform == Platform::MacOs {
        seq![click, Op::Do(Command::KeyDown(Key::CapsLock))]
    } else {
        seq![click]
    }
}

/// The steps that toggle num lock, which macOS does not have.
pub open spec fn click_numlock_ops(platform: Platform) -> Seq<Op> {
    if platform == Platform::MacOs {
        Seq::empty()
    } else {
        seq![Op::Do(Command::KeyClick(Key::NumLock))]
    }
}

/// The steps that press a modifier.
pub open spec fn press_ops(platform: Platform, key: Key) -> Seq<Op> {
    let press = Op::Do(Command::KeyDown(key));
    if platform == Platform::Windows {
        seq![press, Op::Do(Command::Sleep(MODIFIER_SLEEP))]
    } else {
        seq![press]
    }
}

/// The session once the state of a key is known that was wanted for something.
pub open spec fn concluded(
    s: SessionView,
    keys: Map<u64, u64>,
    goal: Goal,
    held: bool,
) -> SessionView {
    match goal {
        Goal::Caps { caps, num, num_disabled } => s.then_first(
            seq![
                Op::KeyState {
                    key: Key::NumLock,
                    goal: Goal::Num { click_caps: caps != held, num, num_disabled },
                },
            ],
        ),
        Goal::Num { click_caps, num, num_disabled } => s.then_first(
            click_ops(s.platform, click_caps, num != held && !num_disabled),
        ),
        Goal::Fix { key0, key1, listed } => if !held || listed {
            s.then_first(Seq::empty())
        } else if s.platform == Platform::Windows && key0 == ControlKey::Control {
            s.then_first(
                seq![Op::ModifierState { key: Key::Alt, goal: Goal::FixUnlessAlt { key1 } }],
            )
        } else {
            s.then_first(seq![Op::Do(Command::KeyUp(key1))])
        },
        Goal::FixUnlessAlt { key1 } => if held {
            s.then_first(Seq::empty())
        } else {
            s.then_first(seq![Op::Do(Command::KeyUp(key1))])
        },
        Goal::Press { key, spare_altgr } => if held || (spare_altgr && altgr_down(keys)) {
            s.then_first(Seq::empty())
        } else {
            SessionView {
                pressed: s.pressed.push(key),
                ..s.then_first(press_ops(s.platform, key))
            }
        },
        Goal::Shift { chr } => if held {
            s.then_first(seq![Op::TypeUpper(chr)])
        } else {
            s.then_first(seq![Op::ModifierState { key: Key::CapsLock, goal: Goal::Capital { chr } }])
        },
        Goal::Capital { chr } => if held {
            s.then_first(seq![Op::TypeUpper(chr)])
        } else {
            s.then_first(seq![Op::TypeChar(chr)])
        },
    }
}

/// The session once the answer to its last action has been heard.
pub open spec fn heard(s: SessionView, keys: Map<u64, u64>, reply: bool) -> SessionView {
    match s.wait {
        Wait::Idle => s,
        Wait::KeyState { goal } => concluded(s, keys, goal, reply),
        Wait::ModifierState { key, goal } => if !reply && twin(key) is Some {
            s.then_first(seq![Op::KeyState { key: twin(key)->0, goal }])
        } else {
            concluded(s, keys, goal, reply)
        },
        Wait::Chr { chr: Some(chr) } => if !reply {
            s.then_first(seq![Op::ModifierState { key: Key::Shift, goal: Goal::Shift { chr } }])
        } else {
            s.then_first(Seq::empty())
        },
        Wait::Chr { chr: None } => s.then_first(Seq::empty()),
    }
}

/// The session, the table of keys and the action after the steps up to the next
/// action; there is none when no steps are left.
pub open spec fn advanced(s: SessionView, keys: Map<u64, u64>, now: u64) -> (
    SessionView,
    Map<u64, u64>,
    Option<ActionView>,
)
    decreases s.todo.len(),
{
    if s.todo.len() == 0 {
        (s, keys, None)
    } else {
        match s.todo[0] {
            Op::Do(command) => (s.awaits(Wait::Idle), keys, Some(ActionView::Perform(command))),
            Op::TypeChar(c) => (
                s.awaits(Wait::Idle),
                keys,
                Some(ActionView::KeySequence(seq![c])),
            ),
            Op::TypeUpper(c) => (
                s.awaits(Wait::Idle),
                keys,
                Some(ActionView::KeySequence(uppercase(seq![c]))),
            ),
            Op::TypeText => (s.awaits(Wait::Idle), keys, Some(ActionView::KeySequence(s.text))),
            Op::Record { record_key, down } => advanced(
                s.awaits(Wait::Idle),
                recorded(keys, record_key, down, now),
                now,
            ),
            Op::KeyState { key, goal } => (
                s.awaits(Wait::KeyState { goal }),
                keys,
                Some(ActionView::Perform(Command::KeyState(key))),
            ),
            Op::ModifierState { key, goal } => (
                s.awaits(Wait::ModifierState { key, goal }),
                keys,
                Some(ActionView::Perform(Command::KeyState(key))),
            ),
            Op::Chr { key, chr } => (
                s.awaits(Wait::Chr { chr }),
                keys,
                Some(ActionView::Perform(Command::KeyDown(key))),
            ),
            Op::ReleasePressed => if s.pressed.len() == 0 {
                advanced(s.awaits(Wait::Idle), keys, now)
            } else {
                (
                    SessionView { pressed: s.pressed.drop_first(), wait: Wait::Idle, ..s },
                    keys,
                    Some(ActionView::Perform(Command::KeyUp(s.pressed[0]))),
                )
            },
        }
    }
}

/// One turn of the dialogue.
pub open spec fn resumed(s: SessionView, keys: Map<u64, u64>, reply: bool, now: u64) -> (
    SessionView,
    Map<u64, u64>,
    Option<ActionView>,
) {
    advanced(heard(s, keys, reply), keys, now)
}

impl Session {
    pub fn new(platform: Platform, text: String, plan: Vec<Op>) -> (session: Session)
        ensures
            session@ == fresh(platform, text@, plan@),
    {
        let mut todo: VecDeque<Op> = VecDeque::new();
        let mut i: usize = 0;
        while i < plan.len()
            invariant
                i <= plan.len(),
                todo@ == plan@.take(i as int),
            decreases plan.len() - i,
        {
            todo.push_back(plan[i]);
            assert(plan@.take(i + 1) =~= plan@.take(i as int).push(plan@[i as int]));
            i = i + 1;
        }
        assert(plan@.take(i as int) =~= plan@);
        Session { platform, text, todo, pressed: Vec::new(), wait: Wait::Idle }
    }

    /// Puts a step before those that are left.
    fn first(&mut self, op: Op)
        ensures
            final(self)@ == (SessionView { todo: seq![op] + old(self)@.todo, ..old(self)@ }),
    {
        self.todo.push_front(op);
        assert(self.todo@ =~= seq![op] + old(self).todo@);
    }

    fn click_capslock(&mut self)
        ensures
            final(self)@ == (SessionView {
                todo: click_capslock_ops(old(self)@.platform) + old(self)@.todo,
                ..old(self)@
            }),
    {
        if self.platform == Platform::MacOs {
            self.first(Op::Do(Command::KeyDown(Key::CapsLock)));
        }
        self.first(Op::Do(Command::KeyClick(Key::CapsLock)));
        assert(self@.todo =~= click_capslock_ops(old(self)@.platform) + old(self)@.todo);
    }

    fn click_numlock(&mut self)
        ensures
            final(self)@ == (SessionView {
                todo: click_numlock_ops(old(self)@.platform) + old(self)@.todo,
                ..old(self)@
            }),
    {
        if self.platform != Platform::MacOs {
            self.first(Op::Do(Command::KeyClick(Key::NumLock)));
        }
        assert(self@.todo =~= click_numlock_ops(old(self)@.platform) + old(self)@.todo);
    }

    /// Decides on the state of a key that was wanted for something.
    fn conclude(&mut self, keys: &KeysDown, goal: Goal, held: bool)
        ensures
            final(self)@ == concluded(old(self)@, keys@, goal, held),
    {
        self.wait = Wait::Idle;
        assert(self@.todo =~= Seq::<Op>::empty() + old(self)@.todo);
        match goal {
            Goal::Caps { caps, num, num_disabled } => {
                let click_caps: bool = is_not_same_status(caps, held);
                self.first(
                    Op::KeyState {
                        key: Key::NumLock,
                        goal: Goal::Num { click_caps, num, num_disabled },
                    },
                );
            },
            Goal::Num { click_caps, num, num_disabled } => {
                let click_num: bool = is_not_same_status(num, held);
                if click_num && !num_disabled {
                    self.click_numlock();
                }
                if click_caps {
                    self.click_capslock();
                }
                assert(self@.todo =~= click_ops(
                    old(self)@.platform,
                    click_caps,
                    click_num && !num_disabled,
                ) + old(self)@.todo);
            },
            Goal::Fix { key0, key1, listed } => {
                if held && !listed {
                    if self.platform == Platform::Windows && key0 == ControlKey::Control {
                        self.first(
                            Op::ModifierState { key: Key::Alt, goal: Goal::FixUnlessAlt { key1 } },
                        );
                    } else {
                        self.first(Op::Do(Command::KeyUp(key1)));
                    }
                }
            },
            Goal::FixUnlessAlt { key1 } => {
                if !held {
                    self.first(Op::Do(Command::KeyUp(key1)));
                }
            },
            Goal::Press { key, spare_altgr } => {
                if !held && !(spare_altgr && is_altgr_pressed(keys)) {
                    if self.platform == Platform::Windows {
                        self.first(Op::Do(Command::Sleep(MODIFIER_SLEEP)));
                    }
                    self.first(Op::Do(Command::KeyDown(key)));
                    self.pressed.push(key);
                    assert(self@.todo =~= press_ops(old(self)@.platform, key) + old(self)@.todo);
                }
            },
            Goal::Shift { chr } => {
                if held {
                    self.first(Op::TypeUpper(chr));
                } else {
                    self.first(
                        Op::ModifierState { key: Key::CapsLock, goal: Goal::Capital { chr } },
                    );
                }
            },
            Goal::Capital { chr } => {
                if held {
                    self.first(Op::TypeUpper(chr));
                } else {
                    self.first(Op::TypeChar(chr));
                }
            },
        }
    }

    /// Hears the answer to the last action.
    fn hear(&mut self, keys: &KeysDown, reply: bool)
        ensures
            final(self)@ == heard(old(self)@, keys@, reply),
    {
        let wait: Wait = self.wait;
        self.wait = Wait::Idle;
        assert(self@.todo =~= Seq::<Op>::empty() + old(self)@.todo);
        match wait {
            Wait::Idle => {},
            Wait::KeyState { goal } => {
                self.conclude(keys, goal, reply);
            },
            Wait::ModifierState { key, goal } => {
                let other: Option<Key> = if reply {
                    None
                } else {
                    twin_key(key)
                };
                if let Some(other) = other {
                    self.first(Op::KeyState { key: other, goal });
                } else {
                    self.conclude(keys, goal, reply);
                }
            },
            Wait::Chr { chr } => {
                if let Some(chr) = chr {
                    if !reply {
                        self.first(
                            Op::ModifierState { key: Key::Shift, goal: Goal::Shift { chr } },
                        );
                    }
                }
            },
        }
    }

    /// Takes the steps up to the next action.
    fn advance(&mut self, keys: &mut KeysDown, now: u64) -> (action: Option<Action>)
        ensures
            (final(self)@, final(keys)@, action_view(action)) == advanced(
                old(self)@,
                old(keys)@,
                now,
            ),
    {
        loop
            invariant
                advanced(self@, keys@, now) == advanced(old(self)@, old(keys)@, now),
            decreases self@.todo.len(),
        {
            let ghost before = *self;
            let op: Op = match self.todo.pop_front() {
                Some(op) => op,
                None => {
                    return None;
                },
            };
            assert(self.todo@ =~= before@.todo.drop_first());
            match op {
                Op::Do(command) => {
                    self.wait = Wait::Idle;
                    return Some(Action::Perform(command));
                },
                Op::TypeChar(c) => {
                    self.wait = Wait::Idle;
                    return Some(Action::KeySequence(char_to_string(c)));
                },
                Op::TypeUpper(c) => {
                    self.wait = Wait::Idle;
                    let text: String = char_to_string(c);
                    return Some(Action::KeySequence(to_uppercase(text.as_str())));
                },
                Op::TypeText => {
                    self.wait = Wait::Idle;
                    return Some(Action::KeySequence(self.text.clone()));
                },
                Op::Record { record_key, down } => {
                    self.wait = Wait::Idle;
                    record_pressed_key(keys, record_key, down, now);
                },
                Op::KeyState { key, goal } => {
                    self.wait = Wait::KeyState { goal };
                    return Some(Action::Perform(Command::KeyState(key)));
                },
                Op::ModifierState { key, goal } => {
                    self.wait = Wait::ModifierState { key, goal };
                    return Some(Action::Perform(Command::KeyState(key)));
                },
                Op::Chr { key, chr } => {
                    self.wait = Wait::Chr { chr };
                    return Some(Action::Perform(Command::KeyDown(key)));
                },
                Op::ReleasePressed => {
                    self.wait = Wait::Idle;
                    if self.pressed.len() > 0 {
                        let key: Key = self.pressed.remove(0);
                        self.todo.push_front(Op::ReleasePressed);
                        assert(self.todo@ =~= before@.todo);
                        assert(self.pressed@ =~= before@.pressed.drop_first());
                        return Some(Action::Perform(Command::KeyUp(key)));
                    }
                },
            }
        }
    }

    /// Takes the answer to the last action and gives the next one, until none is
    /// left. The answer is the state of the key after `Command::KeyState`, and
    /// whether it worked after `Command::KeyDown`; after any other action, and in
    /// the first call, it is not looked at.
    pub fn resume(&mut self, keys: &mut KeysDown, reply: bool, now: u64) -> (action: Option<Action>)
        ensures
            (final(self)@, final(keys)@, action_view(action)) == resumed(
                old(self)@,
                old(keys)@,
                reply,
                now,
            ),
    {
        self.hear(keys, reply);
        self.advance(keys, now)
    }
}

/// The model of what `Session::resume` gives.
pub open spec fn action_view(action: Option<Action>) -> Option<ActionView> {
    match action {
        Some(action) => Some(action@),
        None => None,
    }
}

/// A modifier that is not down is pressed before anything else is done, and kept in mind
/// to be let go of; Windows is given a nanosecond after it. One that is down is not
/// touched, nor is one that a noted right alt key stands in for.
pub proof fn law_modifier_is_pressed_once(
    s: SessionView,
    keys: Map<u64, u64>,
    key: Key,
    spare_altgr: bool,
    held: bool,
)
    ensures
        ({
            let after = concluded(s, keys, Goal::Press { key, spare_altgr }, held);
            let spared = held || (spare_altgr && keys.contains_key(75));
            let press = Op::Do(Command::KeyDown(key));
            &&& spared ==> after.todo == s.todo && after.pressed == s.pressed
            &&& !spared ==> after.pressed == s.pressed.push(key)
            &&& !spared && s.platform == Platform::Windows ==> after.todo == seq![
                press,
                Op::Do(Command::Sleep(1)),
            ] + s.todo
            &&& !spared && s.platform != Platform::Windows ==> after.todo == seq![press] + s.todo
        }),
{
    assert(Seq::<Op>::empty() + s.todo =~= s.todo);
}

/// Before a key goes down, caps lock and num lock are looked at, and those are clicked
/// that are not as the peer has them, before anything else is done: caps lock first,
/// which macOS also has pressed, and num lock unless it is to be left alone, which macOS
/// does not have.
pub proof fn law_locks_are_clicked_where_they_differ(
    s: SessionView,
    keys: Map<u64, u64>,
    caps: bool,
    num: bool,
    num_disabled: bool,
    caps_on: bool,
    num_on: bool,
    now: u64,
)
    requires
        s.wait == Wait::Idle,
        s.todo.len() > 0,
        s.todo[0] == (Op::KeyState {
            key: Key::CapsLock,
            goal: Goal::Caps { caps, num, num_disabled },
        }),
    ensures
        ({
            let (s1, keys1, asked) = resumed(s, keys, true, now);
            let (s2, keys2, asked_next) = resumed(s1, keys1, caps_on, now);
            let after = heard(s2, keys2, num_on);
            let mac = s.platform == Platform::MacOs;
            let click_caps: Seq<Op> = if caps == caps_on {
                Seq::empty()
            } else if mac {
                seq![
                    Op::Do(Command::KeyClick(Key::CapsLock)),
                    Op::Do(Command::KeyDown(Key::CapsLock)),
                ]
            } else {
                seq![Op::Do(Command::KeyClick(Key::CapsLock))]
            };
            let click_num: Seq<Op> = if num == num_on || num_disabled || mac {
                Seq::empty()
            } else {
                seq![Op::Do(Command::KeyClick(Key::NumLock))]
            };
            &&& asked == Some(ActionView::Perform(Command::KeyState(Key::CapsLock)))
            &&& asked_next == Some(ActionView::Perform(Command::KeyState(Key::NumLock)))
            &&& keys2 == keys && s2.pressed == s.pressed
            &&& after.todo == click_caps + click_num + s.todo.drop_first()
        }),
{
    let (s1, keys1, _) = resumed(s, keys, true, now);
    let h = heard(s1, keys1, caps_on);
    assert(h.todo.drop_first() =~= s.todo.drop_first());
}

/// A modifier counts as down if it or its twin on the other side is, whatever the
/// platform: the twin is asked for when the key itself is not down, and any other key
/// is asked for alone.
pub proof fn law_modifier_is_down_with_its_twin(
    s: SessionView,
    keys: Map<u64, u64>,
    key: Key,
    goal: Goal,
    reply: bool,
)
    requires
        s.wait == (Wait::ModifierState { key, goal }),
    ensures
        reply || twin(key) is None ==> heard(s, keys, reply) == concluded(s, keys, goal, reply),
        !reply && twin(key) is Some ==> {
            let after = heard(s, keys, reply);
            &&& after.todo == seq![Op::KeyState { key: twin(key)->0, goal }] + s.todo
            &&& after.wait == Wait::Idle && after.pressed == s.pressed && after.platform
                == s.platform && after.text == s.text
        },
{
}

/// A modifier that is down and that the peer does not list is let go of before anything
/// else is done. On Windows a control key is so only if no alt key is down.
pub proof fn law_stray_modifier_is_let_go(
    s: SessionView,
    keys: Map<u64, u64>,
    key0: ControlKey,
    key1: Key,
    listed: bool,
    held: bool,
)
    ensures
        ({
            let after = concluded(s, keys, Goal::Fix { key0, key1, listed }, held);
            let stray = held && !listed;
            let asks = s.platform == Platform::Windows && key0 == ControlKey::Control;
            &&& after.pressed == s.pressed
            &&& !stray ==> after.todo == s.todo
            &&& stray && !asks ==> after.todo == seq![Op::Do(Command::KeyUp(key1))] + s.todo
            &&& stray && asks ==> after.todo == seq![
                Op::ModifierState { key: Key::Alt, goal: Goal::FixUnlessAlt { key1 } },
            ] + s.todo
        }),
        ({
            let after = concluded(s, keys, Goal::FixUnlessAlt { key1 }, held);
            &&& after.pressed == s.pressed
            &&& held ==> after.todo == s.todo
            &&& !held ==> after.todo == seq![Op::Do(Command::KeyUp(key1))] + s.todo
        }),
{
    assert(Seq::<Op>::empty() + s.todo =~= s.todo);
}

} // verus!
