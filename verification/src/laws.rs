use vstd::prelude::*;

use crate::device::{
    all_released, clicked, desk, holds, is_lock, key_clicked, key_pressed, key_released,
    law_dialogue_follows_steps, lemma_ops_effect_concat, lemma_ops_effect_one, op_effect,
    ops_effect, outcome, session_effect, Desk,
};
use crate::dialogue::{ends_released, press_none, presses_none, session_size};
use crate::events::{lists, numlock_disabled, KeyEvent, KeyUnion, KeyboardMode, MouseEvent};
use crate::keyboard::{
    fix_modifiers_ops, fix_op, fix_ops, flag_ops, for_each_key, handle_key_ops, is_function_event,
    key_session, legacy_mode_ops, map_mode_ops, press_modifiers_ops, press_op, sync_locks_op,
    sync_modifiers_ops, union_ops,
};
use crate::keys::{local_key_of_code, ControlKey, Key, MouseButton, Platform, RawKey, RdevKey};
use crate::moments::{act, followed_by, happens, lemma_reaches, played};
use crate::mouse::{
    button_modifiers_ops, handle_mouse_ops, mouse_ops, mouse_session, press_mouse_modifiers_ops,
    press_unless_lock_ops,
};
use crate::notes::{event_record, target_record};
use crate::records::{
    altgr_down, char_record, recorded, recorded_key, release_all_ops, release_ops,
};
use crate::script::{Command, Goal, Op};
use crate::session::{fresh, heard, resumed, ActionView};
use crate::text::layout_key;

verus! {

/// Whether a key is a modifier that the peer does not hold, and not the very key
/// that the event is about.
pub open spec fn unlisted(modifiers: Seq<i32>, ck: i32, key: Key) -> bool {
    match key {
        Key::Shift => ck != ControlKey::Shift.code() && !lists(modifiers, ControlKey::Shift),
        Key::RightShift => ck != ControlKey::RShift.code() && !lists(modifiers, ControlKey::Shift),
        Key::Alt => ck != ControlKey::Alt.code() && !lists(modifiers, ControlKey::Alt),
        Key::RightAlt => ck != ControlKey::RAlt.code() && !lists(modifiers, ControlKey::Alt),
        Key::Control => ck != ControlKey::Control.code() && !lists(modifiers, ControlKey::Control),
        Key::RightControl => ck != ControlKey::RControl.code() && !lists(
            modifiers,
            ControlKey::Control,
        ),
        Key::Meta => ck != ControlKey::Meta.code() && !lists(modifiers, ControlKey::Meta),
        Key::RWin => ck != ControlKey::RWin.code() && !lists(modifiers, ControlKey::Meta),
        _ => false,
    }
}

/// Whether an alt key is down that the peer holds or that the event is about.
pub open spec fn alt_stays(held: Set<Key>, modifiers: Seq<i32>, ck: i32) -> bool {
    ||| held.contains(Key::Alt) && !unlisted(modifiers, ck, Key::Alt)
    ||| held.contains(Key::RightAlt) && !unlisted(modifiers, ck, Key::RightAlt)
}

/// The modifiers that have to be let go of for an event: those that the peer does
/// not hold, but on Windows not a control key that may be part of AltGr.
pub open spec fn strays(
    platform: Platform,
    held: Set<Key>,
    modifiers: Seq<i32>,
    ck: i32,
) -> Set<Key> {
    Set::new(
        |key: Key|
            unlisted(modifiers, ck, key) && !(platform == Platform::Windows && (key == Key::Control
                || key == Key::RightControl) && alt_stays(held, modifiers, ck)),
    )
}

/// One of the modifiers: its own control key, the one that the peer lists it by,
/// and its local key.
struct Modifier {
    own: ControlKey,
    key0: ControlKey,
    key1: Key,
}

/// The modifiers, in the order in which they are looked at.
spec fn all_modifiers() -> Seq<Modifier> {
    seq![
        Modifier { own: ControlKey::Shift, key0: ControlKey::Shift, key1: Key::Shift },
        Modifier { own: ControlKey::RShift, key0: ControlKey::Shift, key1: Key::RightShift },
        Modifier { own: ControlKey::Alt, key0: ControlKey::Alt, key1: Key::Alt },
        Modifier { own: ControlKey::RAlt, key0: ControlKey::Alt, key1: Key::RightAlt },
        Modifier { own: ControlKey::Control, key0: ControlKey::Control, key1: Key::Control },
        Modifier { own: ControlKey::RControl, key0: ControlKey::Control, key1: Key::RightControl },
        Modifier { own: ControlKey::Meta, key0: ControlKey::Meta, key1: Key::Meta },
        Modifier { own: ControlKey::RWin, key0: ControlKey::Meta, key1: Key::RWin },
    ]
}

/// What letting go of one modifier leads to.
spec fn after_fix(
    platform: Platform,
    held: Set<Key>,
    modifiers: Seq<i32>,
    ck: i32,
    m: Modifier,
) -> Set<Key> {
    if ck != m.own.code() && !lists(modifiers, m.key0) && !(platform == Platform::Windows && m.key0
        == ControlKey::Control && holds(held, Key::Alt)) {
        key_released(held, m.key1)
    } else {
        held
    }
}

/// What letting go of the first `n` modifiers leads to.
spec fn after_fixes(
    platform: Platform,
    held: Set<Key>,
    modifiers: Seq<i32>,
    ck: i32,
    n: nat,
) -> Set<Key>
    decreases n,
{
    if n == 0 {
        held
    } else {
        let before = after_fixes(platform, held, modifiers, ck, (n - 1) as nat);
        after_fix(platform, before, modifiers, ck, all_modifiers()[n - 1])
    }
}

/// The steps that let go of the first `n` modifiers.
spec fn fixes(modifiers: Seq<i32>, ck: i32, n: nat) -> Seq<Op>
    decreases n,
{
    if n == 0 {
        Seq::empty()
    } else {
        let m = all_modifiers()[n - 1];
        fixes(modifiers, ck, (n - 1) as nat) + fix_ops(modifiers, ck, m.own, m.key0, m.key1)
    }
}

proof fn lemma_fixes_are_all(modifiers: Seq<i32>, ck: i32)
    ensures
        fixes(modifiers, ck, 8) == fix_modifiers_ops(modifiers, ck),
{
    reveal_with_fuel(fixes, 9);
    let m = all_modifiers()[0];
    let first = fix_ops(modifiers, ck, m.own, m.key0, m.key1);
    assert(Seq::<Op>::empty() + first =~= first);
}

proof fn lemma_fixes_effect(
    platform: Platform,
    modifiers: Seq<i32>,
    ck: i32,
    n: nat,
    d: Desk,
    now: u64,
)
    ensures
        ops_effect(platform, fixes(modifiers, ck, n), d, now) == (Desk {
            held: after_fixes(platform, d.held, modifiers, ck, n),
            ..d
        }),
    decreases n,
{
    if n > 0 {
        let m = all_modifiers()[n - 1];
        let before = fixes(modifiers, ck, (n - 1) as nat);
        lemma_fixes_effect(platform, modifiers, ck, (n - 1) as nat, d, now);
        let d1 = ops_effect(platform, before, d, now);
        lemma_ops_effect_concat(
            platform,
            before,
            fix_ops(modifiers, ck, m.own, m.key0, m.key1),
            d,
            now,
        );
        lemma_ops_effect_one(platform, fix_op(modifiers, m.key0, m.key1), d1, now);
        if !holds(d1.held, m.key1) {
            assert(key_released(d1.held, m.key1) =~= d1.held);
        }
    }
}

proof fn lemma_fixes_take_strays(
    platform: Platform,
    held: Set<Key>,
    modifiers: Seq<i32>,
    ck: i32,
)
    ensures
        after_fixes(platform, held, modifiers, ck, 8) == held.difference(
            strays(platform, held, modifiers, ck),
        ),
{
    reveal_with_fuel(after_fixes, 9);
    let alt = alt_stays(held, modifiers, ck);
    assert(holds(after_fixes(platform, held, modifiers, ck, 4), Key::Alt) == alt);
    assert(holds(after_fixes(platform, held, modifiers, ck, 5), Key::Alt) == alt);
    assert(after_fixes(platform, held, modifiers, ck, 8) =~= held.difference(
        strays(platform, held, modifiers, ck),
    ));
}

/// On a machine that works as it should, the modifiers that the peer does not hold
/// are up before a key or a button is pressed, and nothing else has changed.
pub proof fn law_stray_modifiers_go_up(
    platform: Platform,
    modifiers: Seq<i32>,
    ck: i32,
    d: Desk,
    now: u64,
)
    ensures
        ops_effect(platform, fix_modifiers_ops(modifiers, ck), d, now) == (Desk {
            held: d.held.difference(strays(platform, d.held, modifiers, ck)),
            ..d
        }),
{
    lemma_fixes_effect(platform, modifiers, ck, 8, d, now);
    lemma_fixes_are_all(modifiers, ck);
    lemma_fixes_take_strays(platform, d.held, modifiers, ck);
}

/// Whether steps for a key do nothing, or press it if it is not down.
spec fn presses_at_most(ops: Seq<Op>, key: Key) -> bool {
    ||| ops == Seq::<Op>::empty()
    ||| exists|spare_altgr: bool| #[trigger] press_steps(key, spare_altgr) == ops
}

spec fn press_steps(key: Key, spare_altgr: bool) -> Seq<Op> {
    seq![Op::ModifierState { key, goal: Goal::Press { key, spare_altgr } }]
}

/// Whether a key is the local key of one of the control keys of a list.
pub open spec fn lists_local_key(modifiers: Seq<i32>, key: Key) -> bool {
    exists|i: int| 0 <= i < modifiers.len() && local_key_of_code(#[trigger] modifiers[i]) == Some(key)
}

/// Whether between two desks nothing happened but that some keys were pressed which
/// were not down, all of them local keys of the control keys of a list.
pub open spec fn only_pressed(before: Desk, after: Desk, modifiers: Seq<i32>) -> bool {
    &&& after.keys == before.keys
    &&& after.held == before.held.union(after.pressed.to_set())
    &&& forall|key: Key| #[trigger]
        after.pressed.contains(key) ==> !before.held.contains(key) && lists_local_key(
            modifiers,
            key,
        )
}

proof fn lemma_presses_effect(
    platform: Platform,
    modifiers: Seq<i32>,
    ops: spec_fn(Key) -> Seq<Op>,
    d: Desk,
    now: u64,
)
    requires
        d.pressed == Seq::<Key>::empty(),
        forall|key: Key| presses_at_most(#[trigger] ops(key), key),
    ensures
        ({
            let after = ops_effect(platform, for_each_key(modifiers, ops), d, now);
            &&& only_pressed(d, after, modifiers)
            &&& forall|key: Key|
                lists_local_key(modifiers, key) ==> holds(after.held, key) || #[trigger] ops(key)
                    == Seq::<Op>::empty() || (ops(key) == press_steps(key, true) && altgr_down(
                    d.keys,
                ))
            &&& forall|key: Key| #[trigger]
                after.pressed.contains(key) ==> ops(key) != Seq::<Op>::empty()
        }),
    decreases modifiers.len(),
{
    let after = ops_effect(platform, for_each_key(modifiers, ops), d, now);
    if modifiers.len() == 0 {
        assert(after.held =~= d.held.union(after.pressed.to_set()));
    } else {
        let init = modifiers.drop_last();
        lemma_presses_effect(platform, init, ops, d, now);
        let mid = ops_effect(platform, for_each_key(init, ops), d, now);
        let code = modifiers.last();
        assert forall|key: Key| lists_local_key(modifiers, key) <==> lists_local_key(init, key)
            || local_key_of_code(code) == Some(key) by {
            if lists_local_key(init, key) {
                let i = choose|i: int|
                    0 <= i < init.len() && local_key_of_code(#[trigger] init[i]) == Some(key);
                assert(local_key_of_code(modifiers[i]) == Some(key));
            }
            if local_key_of_code(code) == Some(key) {
                assert(local_key_of_code(modifiers[modifiers.len() - 1]) == Some(key));
            }
            if lists_local_key(modifiers, key) && local_key_of_code(code) != Some(key) {
                let i = choose|i: int|
                    0 <= i < modifiers.len() && local_key_of_code(#[trigger] modifiers[i])
                        == Some(key);
                assert(local_key_of_code(init[i]) == Some(key));
            }
        }
        match local_key_of_code(code) {
            Some(key) => {
                lemma_ops_effect_concat(platform, for_each_key(init, ops), ops(key), d, now);
                assert(presses_at_most(ops(key), key));
                if ops(key) != Seq::<Op>::empty() {
                    let spare_altgr = choose|spare_altgr: bool| #[trigger]
                        press_steps(key, spare_altgr) == ops(key);
                    lemma_ops_effect_one(
                        platform,
                        Op::ModifierState { key, goal: Goal::Press { key, spare_altgr } },
                        mid,
                        now,
                    );
                    if after.pressed != mid.pressed {
                        assert(after.pressed == mid.pressed.push(key));
                        broadcast use vstd::seq_lib::lemma_seq_contains_after_push;

                        assert(after.pressed.to_set() =~= mid.pressed.to_set().insert(key));
                        assert(after.held == mid.held.insert(key));
                    } else {
                        assert(after.held == mid.held) by {
                            assert(mid.pressed.push(key).len() != mid.pressed.len());
                        }
                    }
                } else {
                    assert(after == mid);
                }
            },
            None => {
                assert(for_each_key(init, ops) + Seq::<Op>::empty() =~= for_each_key(init, ops));
                assert(after == mid);
            },
        }
        assert(after.held =~= d.held.union(after.pressed.to_set()));
    }
}

/// On a machine that works as it should, the modifiers that the peer holds are down
/// when a key is pressed, and nothing else has changed: the left alt key alone may
/// be up on Linux, while the right one is noted as down.
pub proof fn law_held_modifiers_go_down(
    platform: Platform,
    modifiers: Seq<i32>,
    d: Desk,
    now: u64,
)
    requires
        d.pressed == Seq::<Key>::empty(),
    ensures
        ({
            let after = ops_effect(platform, press_modifiers_ops(platform, modifiers), d, now);
            &&& only_pressed(d, after, modifiers)
            &&& forall|key: Key| #[trigger]
                lists_local_key(modifiers, key) ==> holds(after.held, key) || (platform
                    == Platform::Linux && key == Key::Alt && altgr_down(d.keys))
        }),
{
    let ops = |key: Key| seq![press_op(platform, key)];
    assert forall|key: Key| presses_at_most(#[trigger] ops(key), key) by {
        assert(press_steps(key, platform == Platform::Linux && key == Key::Alt) == ops(key));
    }
    lemma_presses_effect(platform, modifiers, ops, d, now);
    assert forall|key: Key| #[trigger]
        lists_local_key(modifiers, key) implies holds(
        ops_effect(platform, press_modifiers_ops(platform, modifiers), d, now).held,
        key,
    ) || (platform == Platform::Linux && key == Key::Alt && altgr_down(d.keys)) by {
        assert(ops(key)[0] == press_op(platform, key));
        assert(ops(key).len() == 1);
        assert(press_steps(key, true)[0] == (Op::ModifierState {
            key,
            goal: Goal::Press { key, spare_altgr: true },
        }));
    }
}

/// On a machine that works as it should, the modifiers that the peer holds are down
/// when a button is pressed, but for caps lock and num lock, which are left alone, and
/// nothing else has changed.
pub proof fn law_held_modifiers_go_down_for_buttons(
    platform: Platform,
    modifiers: Seq<i32>,
    d: Desk,
    now: u64,
)
    requires
        d.pressed == Seq::<Key>::empty(),
    ensures
        ({
            let after = ops_effect(platform, press_mouse_modifiers_ops(modifiers), d, now);
            &&& only_pressed(d, after, modifiers)
            &&& forall|key: Key| #[trigger]
                lists_local_key(modifiers, key) && key != Key::CapsLock && key != Key::NumLock
                    ==> holds(after.held, key)
            &&& !after.pressed.contains(Key::CapsLock)
            &&& !after.pressed.contains(Key::NumLock)
        }),
{
    let ops = |key: Key| press_unless_lock_ops(key);
    assert forall|key: Key| presses_at_most(#[trigger] ops(key), key) by {
        if key != Key::CapsLock && key != Key::NumLock {
            assert(press_steps(key, false) == ops(key));
        }
    }
    lemma_presses_effect(platform, modifiers, ops, d, now);
    assert(ops(Key::CapsLock) == Seq::<Op>::empty() && ops(Key::NumLock) == Seq::<Op>::empty());
    assert forall|key: Key| #[trigger]
        lists_local_key(modifiers, key) && key != Key::CapsLock && key
            != Key::NumLock implies holds(
        ops_effect(platform, press_mouse_modifiers_ops(modifiers), d, now).held,
        key,
    ) by {
        assert(ops(key).len() == 1);
        assert(ops(key)[0] == (Op::ModifierState {
            key,
            goal: Goal::Press { key, spare_altgr: false },
        }));
        assert(press_steps(key, true)[0] == (Op::ModifierState {
            key,
            goal: Goal::Press { key, spare_altgr: true },
        }));
    }
}

/// The locks after they have been brought in line with the peer's.
pub open spec fn synced(
    platform: Platform,
    held: Set<Key>,
    evt: KeyEvent,
    win_key: RdevKey,
) -> Set<Key> {
    clicked(
        platform,
        held,
        lists(evt.modifiers@, ControlKey::CapsLock) != held.contains(Key::CapsLock),
        lists(evt.modifiers@, ControlKey::NumLock) != held.contains(Key::NumLock) && !(platform
            == Platform::Windows && numlock_disabled(evt, win_key)),
    )
}

/// On a machine that works as it should and is not one of Apple's, the locks are as
/// the peer has them before a key is pressed, but that num lock is left alone for a
/// key that it would turn into a digit; no key goes down or up for it.
pub proof fn law_locks_follow_peer(
    platform: Platform,
    evt: KeyEvent,
    win_key: RdevKey,
    d: Desk,
    now: u64,
)
    ensures
        ({
            let after = op_effect(platform, sync_locks_op(platform, evt, win_key), d, now);
            &&& after == (Desk { held: synced(platform, d.held, evt, win_key), ..d })
            &&& platform != Platform::MacOs ==> after.held.contains(Key::CapsLock) == lists(
                evt.modifiers@,
                ControlKey::CapsLock,
            )
            &&& platform != Platform::MacOs && !(platform == Platform::Windows && numlock_disabled(
                evt,
                win_key,
            )) ==> after.held.contains(Key::NumLock) == lists(
                evt.modifiers@,
                ControlKey::NumLock,
            )
            &&& forall|key: Key|
                key != Key::CapsLock && key != Key::NumLock ==> (#[trigger] after.held.contains(key)
                    <==> d.held.contains(key))
        }),
{
}

proof fn lemma_flag_ops_effect(platform: Platform, modifiers: Seq<i32>, d: Desk, now: u64)
    ensures
        ops_effect(platform, flag_ops(modifiers), d, now) == d,
{
    let ops = |key: Key| seq![Op::Do(Command::AddFlag(key))];
    lemma_ops_effect_one(platform, Op::Do(Command::ResetFlag), d, now);
    lemma_ops_effect_concat(
        platform,
        seq![Op::Do(Command::ResetFlag)],
        for_each_key(modifiers, ops),
        d,
        now,
    );
    lemma_add_flags_effect(platform, modifiers, ops, d, now);
}

proof fn lemma_add_flags_effect(
    platform: Platform,
    modifiers: Seq<i32>,
    ops: spec_fn(Key) -> Seq<Op>,
    d: Desk,
    now: u64,
)
    requires
        ops == |key: Key| seq![Op::Do(Command::AddFlag(key))],
    ensures
        ops_effect(platform, for_each_key(modifiers, ops), d, now) == d,
    decreases modifiers.len(),
{
    if modifiers.len() > 0 {
        let init = modifiers.drop_last();
        lemma_add_flags_effect(platform, init, ops, d, now);
        match local_key_of_code(modifiers.last()) {
            Some(key) => {
                lemma_ops_effect_one(platform, Op::Do(Command::AddFlag(key)), d, now);
                lemma_ops_effect_concat(platform, for_each_key(init, ops), ops(key), d, now);
            },
            None => {
                assert(for_each_key(init, ops) + Seq::<Op>::empty() =~= for_each_key(init, ops));
            },
        }
    }
}

proof fn lemma_desktop_effect(platform: Platform, d: Desk, now: u64)
    ensures
        ops_effect(platform, desktop_ops(platform), d, now) == d,
{
    lemma_ops_effect_one(platform, Op::Do(Command::TryChangeDesktop), d, now);
}

spec fn desktop_ops(platform: Platform) -> Seq<Op> {
    if platform == Platform::Windows {
        seq![Op::Do(Command::TryChangeDesktop)]
    } else {
        Seq::empty()
    }
}

spec fn end_ops(released: bool) -> Seq<Op> {
    if released {
        seq![Op::ReleasePressed]
    } else {
        Seq::empty()
    }
}

/// The keys that are down and the locks that are on after some keys were pressed and
/// let go of again which were not down: the locks among them stay on.
pub open spec fn with_pressed_locks(held: Set<Key>, pressed: Seq<Key>) -> Set<Key> {
    held.union(Set::new(|key: Key| pressed.contains(key) && is_lock(key)))
}

/// Keys that were pressed for an event and let go of again leave those as they were
/// that were down before, and locks on.
proof fn lemma_release_undoes_press(
    platform: Platform,
    before: Desk,
    after: Desk,
    modifiers: Seq<i32>,
    now: u64,
)
    requires
        only_pressed(before, after, modifiers),
    ensures
        ops_effect(platform, end_ops(true), after, now).held == with_pressed_locks(
            before.held,
            after.pressed,
        ),
        ops_effect(platform, end_ops(true), after, now).keys == before.keys,
{
    lemma_ops_effect_one(platform, Op::ReleasePressed, after, now);
    assert(all_released(after.held, after.pressed) =~= with_pressed_locks(
        before.held,
        after.pressed,
    ));
}

proof fn lemma_mouse_ops_effect(platform: Platform, evt: MouseEvent, d: Desk, now: u64)
    ensures
        ops_effect(platform, mouse_ops(platform, evt), d, now) == d,
{
    reveal_with_fuel(ops_effect, 3);
}

proof fn lemma_button_modifiers_effect(
    platform: Platform,
    modifiers: Seq<i32>,
    d: Desk,
    now: u64,
)
    requires
        d.pressed == Seq::<Key>::empty(),
    ensures
        ({
            let fixed = Desk {
                held: d.held.difference(strays(platform, d.held, modifiers, 0)),
                ..d
            };
            let after = ops_effect(platform, button_modifiers_ops(platform, modifiers), d, now);
            &&& only_pressed(fixed, after, modifiers)
            &&& platform == Platform::MacOs ==> after == fixed
            &&& platform != Platform::MacOs ==> with_pressed_locks(fixed.held, after.pressed)
                == with_scroll_lock(fixed.held, modifiers)
        }),
{
    let fixed = Desk { held: d.held.difference(strays(platform, d.held, modifiers, 0)), ..d };
    law_stray_modifiers_go_up(platform, modifiers, 0, d, now);
    if platform == Platform::MacOs {
        lemma_flag_ops_effect(platform, modifiers, fixed, now);
        lemma_ops_effect_concat(
            platform,
            fix_modifiers_ops(modifiers, 0),
            flag_ops(modifiers),
            d,
            now,
        );
        assert(fixed.held =~= fixed.held.union(fixed.pressed.to_set()));
    } else {
        law_held_modifiers_go_down_for_buttons(platform, modifiers, fixed, now);
        lemma_ops_effect_concat(
            platform,
            fix_modifiers_ops(modifiers, 0),
            press_mouse_modifiers_ops(modifiers),
            d,
            now,
        );
        let after = ops_effect(platform, button_modifiers_ops(platform, modifiers), d, now);
        if lists_local_key(modifiers, Key::Scroll) {
            assert(holds(after.held, Key::Scroll));
        }
        assert(with_pressed_locks(fixed.held, after.pressed) =~= with_scroll_lock(
            fixed.held,
            modifiers,
        ));
    }
}

/// The keys that are down and the locks that are on once scroll lock is on if the
/// peer lists it.
pub open spec fn with_scroll_lock(held: Set<Key>, modifiers: Seq<i32>) -> Set<Key> {
    if lists_local_key(modifiers, Key::Scroll) {
        held.insert(Key::Scroll)
    } else {
        held
    }
}

/// The keys that are down and the locks that are on after a button went down: the
/// modifiers are up that the peer does not hold, and scroll lock, which is pressed
/// like one of them, is on if the peer lists it, but for macOS.
pub open spec fn after_button(platform: Platform, held: Set<Key>, modifiers: Seq<i32>) -> Set<Key> {
    let fixed = held.difference(strays(platform, held, modifiers, 0));
    if platform == Platform::MacOs {
        fixed
    } else {
        with_scroll_lock(fixed, modifiers)
    }
}

/// The handling of a mouse event by a machine that works as it should ends, with
/// the keys and locks as they were and none noted: but for a button that goes down,
/// as `after_button` says.
pub proof fn law_mouse_event_leaves_keys(
    platform: Platform,
    evt: MouseEvent,
    keys: Map<u64, u64>,
    held: Set<Key>,
    reply: bool,
    now: u64,
)
    ensures
        ({
            let s = fresh(platform, Seq::empty(), handle_mouse_ops(platform, evt));
            outcome(s, keys, held, reply, now, session_size(s) + 1) == Some(
                (
                    if evt.kind() == 1 {
                        after_button(platform, held, evt.modifiers@)
                    } else {
                        held
                    },
                    keys,
                ),
            )
        }),
{
    let s = fresh(platform, Seq::empty(), handle_mouse_ops(platform, evt));
    law_dialogue_follows_steps(s, keys, held, reply, now, session_size(s) + 1);
    let d = desk(s, held, keys);
    let fixed = if evt.kind() == 1 {
        Desk { held: held.difference(strays(platform, held, evt.modifiers@, 0)), ..d }
    } else {
        d
    };
    let a = desktop_ops(platform);
    let b: Seq<Op> = if evt.kind() == 1 {
        button_modifiers_ops(platform, evt.modifiers@)
    } else {
        Seq::empty()
    };
    let c = mouse_ops(platform, evt);
    let e = end_ops(platform != Platform::MacOs);
    assert(s.todo == a + b + c + e);
    lemma_ops_effect_concat(platform, a + b + c, e, d, now);
    lemma_ops_effect_concat(platform, a + b, c, d, now);
    lemma_ops_effect_concat(platform, a, b, d, now);
    lemma_desktop_effect(platform, d, now);
    let mid = ops_effect(platform, b, d, now);
    if evt.kind() == 1 {
        lemma_button_modifiers_effect(platform, evt.modifiers@, d, now);
    }
    assert(only_pressed(fixed, mid, evt.modifiers@)) by {
        if evt.kind() != 1 {
            assert(d.held =~= d.held.union(d.pressed.to_set()));
        }
    }
    lemma_mouse_ops_effect(platform, evt, mid, now);
    if platform != Platform::MacOs {
        lemma_release_undoes_press(platform, fixed, mid, evt.modifiers@, now);
        if evt.kind() != 1 {
            assert(with_pressed_locks(held, mid.pressed) =~= held);
        }
    }
}

/// The local key that an event presses or lets go of.
pub open spec fn target_key(evt: KeyEvent) -> Option<Key> {
    match evt.union {
        Some(KeyUnion::ControlKey(ck)) => local_key_of_code(ck),
        Some(KeyUnion::Chr(chr)) => Some(layout_key(chr)),
        _ => None,
    }
}

/// The table of keys after an event.
pub open spec fn noted(keys: Map<u64, u64>, record: Option<u64>, down: bool, now: u64) -> Map<
    u64,
    u64,
> {
    match record {
        Some(record_key) => recorded(keys, record_key, down, now),
        None => keys,
    }
}

/// The keys that are down once the modifiers are up that the peer does not hold,
/// which are let go of for a key that goes down.
pub open spec fn rid_of_strays(platform: Platform, held: Set<Key>, evt: KeyEvent) -> Set<Key> {
    if evt.down {
        held.difference(strays(platform, held, evt.modifiers@, evt.control_key_code()))
    } else {
        held
    }
}

/// The keys that are down and the locks that are on once the locks are as the peer
/// has them, which are looked at for a key that goes down.
pub open spec fn with_locks(
    platform: Platform,
    held: Set<Key>,
    evt: KeyEvent,
    win_key: RdevKey,
) -> Set<Key> {
    if evt.down {
        synced(platform, held, evt, win_key)
    } else {
        held
    }
}

/// The keys that are down and the locks that are on when the key of an event is
/// pressed, but for the modifiers that are pressed for the event alone.
pub open spec fn prepared(
    platform: Platform,
    held: Set<Key>,
    evt: KeyEvent,
    win_key: RdevKey,
) -> Set<Key> {
    rid_of_strays(platform, with_locks(platform, held, evt, win_key), evt)
}

/// The modifiers that are pressed for an event alone.
pub open spec fn pressed_for(
    platform: Platform,
    held: Set<Key>,
    keys: Map<u64, u64>,
    evt: KeyEvent,
    now: u64,
) -> Seq<Key> {
    if evt.down && platform != Platform::MacOs {
        ops_effect(
            platform,
            press_modifiers_ops(platform, evt.modifiers@),
            Desk { held, pressed: Seq::empty(), keys },
            now,
        ).pressed
    } else {
        Seq::empty()
    }
}

proof fn lemma_sync_modifiers_effect(platform: Platform, evt: KeyEvent, d: Desk, now: u64)
    requires
        d.pressed == Seq::<Key>::empty(),
    ensures
        ({
            let fixed = Desk {
                held: rid_of_strays(platform, d.held, evt),
                ..d
            };
            let after = ops_effect(platform, sync_modifiers_ops(platform, evt), d, now);
            &&& only_pressed(fixed, after, evt.modifiers@)
            &&& after.pressed == pressed_for(platform, fixed.held, d.keys, evt, now)
        }),
{
    let m = evt.modifiers@;
    let ck = evt.control_key_code();
    let fixed = Desk {
        held: rid_of_strays(platform, d.held, evt),
        ..d
    };
    let a: Seq<Op> = if platform == Platform::MacOs {
        flag_ops(m)
    } else {
        Seq::empty()
    };
    let b: Seq<Op> = if evt.down {
        fix_modifiers_ops(m, ck)
    } else {
        Seq::empty()
    };
    let c: Seq<Op> = if evt.down && platform != Platform::MacOs {
        press_modifiers_ops(platform, m)
    } else {
        Seq::empty()
    };
    assert(sync_modifiers_ops(platform, evt) == a + b + c);
    lemma_ops_effect_concat(platform, a + b, c, d, now);
    lemma_ops_effect_concat(platform, a, b, d, now);
    lemma_flag_ops_effect(platform, m, d, now);
    law_stray_modifiers_go_up(platform, m, ck, d, now);
    assert(ops_effect(platform, a + b, d, now) == fixed);
    if evt.down && platform != Platform::MacOs {
        law_held_modifiers_go_down(platform, m, fixed, now);
    } else {
        assert(fixed.held =~= fixed.held.union(fixed.pressed.to_set()));
    }
}

proof fn lemma_union_effect(platform: Platform, evt: KeyEvent, d: Desk, now: u64)
    ensures
        ops_effect(platform, union_ops(evt), d, now) == (if is_function_event(evt) {
            d
        } else {
            Desk {
                held: match target_key(evt) {
                    Some(key) => if evt.down {
                        key_pressed(d.held, key)
                    } else {
                        key_released(d.held, key)
                    },
                    None => d.held,
                },
                keys: noted(d.keys, target_record(evt), evt.down, now),
                ..d
            }
        }),
{
    reveal_with_fuel(ops_effect, 3);
}

/// The keys that are down and the locks that are on after the key of an event was
/// pressed or let go of, and the modifiers were let go of that were pressed for it.
pub open spec fn with_target(held: Set<Key>, pressed: Seq<Key>, evt: KeyEvent) -> Set<Key> {
    match target_key(evt) {
        Some(key) => if !evt.down {
            key_released(held, key)
        } else if pressed.contains(key) && !is_lock(key) {
            held
        } else {
            key_pressed(held, key)
        },
        None => held,
    }
}

/// The effect of an event in the peer's layout, up to the end of it.
proof fn lemma_legacy_mode_effect(platform: Platform, evt: KeyEvent, d: Desk, now: u64)
    requires
        d.pressed == Seq::<Key>::empty(),
    ensures
        ({
            let fixed = rid_of_strays(platform, d.held, evt);
            let pressed = pressed_for(platform, fixed, d.keys, evt, now);
            let after = ops_effect(platform, legacy_mode_ops(platform, evt), d, now);
            if is_function_event(evt) {
                after.held == fixed.union(pressed.to_set()) && after.keys == d.keys
            } else {
                &&& after.held == with_target(with_pressed_locks(fixed, pressed), pressed, evt)
                &&& after.keys == noted(d.keys, target_record(evt), evt.down, now)
            }
        }),
        forall|key: Key| #[trigger]
            pressed_for(platform, rid_of_strays(platform, d.held, evt), d.keys, evt, now).contains(
                key,
            ) ==> lists_local_key(evt.modifiers@, key),
{
    let fixed = Desk {
        held: rid_of_strays(platform, d.held, evt),
        ..d
    };
    let a = desktop_ops(platform);
    let b = sync_modifiers_ops(platform, evt);
    let c = union_ops(evt);
    let e = end_ops(platform != Platform::MacOs && !is_function_event(evt));
    assert(legacy_mode_ops(platform, evt) == a + b + c + e);
    lemma_ops_effect_concat(platform, a + b + c, e, d, now);
    lemma_ops_effect_concat(platform, a + b, c, d, now);
    lemma_ops_effect_concat(platform, a, b, d, now);
    lemma_desktop_effect(platform, d, now);
    lemma_sync_modifiers_effect(platform, evt, d, now);
    let mid = ops_effect(platform, b, d, now);
    lemma_union_effect(platform, evt, mid, now);
    let then = ops_effect(platform, c, mid, now);
    lemma_ops_effect_one(platform, Op::ReleasePressed, then, now);
    let after = ops_effect(platform, legacy_mode_ops(platform, evt), d, now);
    let pressed = pressed_for(platform, fixed.held, d.keys, evt, now);
    assert(pressed == mid.pressed);
    if !is_function_event(evt) {
        assert(after.held == all_released(then.held, pressed)) by {
            if platform == Platform::MacOs {
                assert(then.held =~= all_released(then.held, pressed));
            }
        }
        assert(mid.held == fixed.held.union(pressed.to_set()));
        assert(after.held =~= with_target(
            with_pressed_locks(fixed.held, pressed),
            pressed,
            evt,
        ));
    }
}

/// The handling of a key event in the peer's layout by a machine that works as it
/// should ends, with the locks as the peer has them and with the modifiers up that
/// the peer does not hold if the key went down; with the key itself down or up and
/// noted as such; and with everything else as it was. A lock is toggled by its press
/// and left by its release, also one that is pressed as a modifier of the event. Any
/// other key that is pressed as a modifier of the very event that presses it is up
/// again in the end.
pub proof fn law_key_event_moves_its_key(
    platform: Platform,
    is_x11: bool,
    evt: KeyEvent,
    win_key: RdevKey,
    keys: Map<u64, u64>,
    held: Set<Key>,
    reply: bool,
    now: u64,
)
    requires
        evt.mode != KeyboardMode::MapKeys,
        !is_function_event(evt),
    ensures
        ({
            let s = fresh(platform, evt.text(), handle_key_ops(platform, is_x11, evt, win_key));
            let prepared = prepared(platform, held, evt, win_key);
            let pressed = pressed_for(platform, prepared, keys, evt, now);
            let after = with_target(with_pressed_locks(prepared, pressed), pressed, evt);
            &&& outcome(s, keys, held, reply, now, session_size(s) + 1) == Some(
                (after, noted(keys, target_record(evt), evt.down, now)),
            )
            &&& forall|key: Key| #[trigger]
                pressed.contains(key) ==> lists_local_key(evt.modifiers@, key)
        }),
{
    lemma_key_session(platform, is_x11, evt, win_key, keys, held, reply, now);
    lemma_legacy_mode_effect(
        platform,
        evt,
        Desk {
            held: with_locks(platform, held, evt, win_key),
            pressed: Seq::empty(),
            keys,
        },
        now,
    );
}

/// What asks for something else than a key press leaves the modifiers down that
/// were pressed for it, and notes nothing.
pub proof fn law_function_key_leaves_modifiers_down(
    platform: Platform,
    is_x11: bool,
    evt: KeyEvent,
    win_key: RdevKey,
    keys: Map<u64, u64>,
    held: Set<Key>,
    reply: bool,
    now: u64,
)
    requires
        evt.mode != KeyboardMode::MapKeys,
        is_function_event(evt),
    ensures
        ({
            let s = fresh(platform, evt.text(), handle_key_ops(platform, is_x11, evt, win_key));
            let prepared = prepared(platform, held, evt, win_key);
            let pressed = pressed_for(platform, prepared, keys, evt, now);
            outcome(s, keys, held, reply, now, session_size(s) + 1) == Some(
                (prepared.union(pressed.to_set()), keys),
            )
        }),
{
    lemma_key_session(platform, is_x11, evt, win_key, keys, held, reply, now);
    lemma_legacy_mode_effect(
        platform,
        evt,
        Desk {
            held: with_locks(platform, held, evt, win_key),
            pressed: Seq::empty(),
            keys,
        },
        now,
    );
}

/// A key event ends as its steps do once the locks are in line.
proof fn lemma_key_session(
    platform: Platform,
    is_x11: bool,
    evt: KeyEvent,
    win_key: RdevKey,
    keys: Map<u64, u64>,
    held: Set<Key>,
    reply: bool,
    now: u64,
)
    ensures
        ({
            let s = fresh(platform, evt.text(), handle_key_ops(platform, is_x11, evt, win_key));
            let d = Desk {
                held: with_locks(platform, held, evt, win_key),
                pressed: Seq::empty(),
                keys,
            };
            let after = ops_effect(
                platform,
                match evt.mode {
                    KeyboardMode::MapKeys => map_mode_ops(platform, is_x11, evt),
                    _ => legacy_mode_ops(platform, evt),
                },
                d,
                now,
            );
            outcome(s, keys, held, reply, now, session_size(s) + 1) == Some(
                (after.held, after.keys),
            )
        }),
{
    let s = fresh(platform, evt.text(), handle_key_ops(platform, is_x11, evt, win_key));
    law_dialogue_follows_steps(s, keys, held, reply, now, session_size(s) + 1);
    let d = desk(s, held, keys);
    let op = sync_locks_op(platform, evt, win_key);
    lemma_ops_effect_one(platform, op, d, now);
    law_locks_follow_peer(platform, evt, win_key, d, now);
    lemma_ops_effect_concat(
        platform,
        if evt.down {
            seq![op]
        } else {
            Seq::empty()
        },
        match evt.mode {
            KeyboardMode::MapKeys => map_mode_ops(platform, is_x11, evt),
            _ => legacy_mode_ops(platform, evt),
        },
        d,
        now,
    );
}

/// The handling of an event that is about a key code of this platform touches the
/// locks and that key alone, and notes the key.
pub proof fn law_mapped_key_moves_alone(
    platform: Platform,
    is_x11: bool,
    evt: KeyEvent,
    win_key: RdevKey,
    keys: Map<u64, u64>,
    held: Set<Key>,
    reply: bool,
    now: u64,
)
    requires
        evt.mode == KeyboardMode::MapKeys,
    ensures
        ({
            let s = fresh(platform, evt.text(), handle_key_ops(platform, is_x11, evt, win_key));
            let locks = with_locks(platform, held, evt, win_key);
            let raw = Key::Raw((evt.code() % 0x1_0000) as u16);
            let after = if platform != Platform::Linux || is_x11 {
                locks
            } else if evt.down {
                locks.insert(raw)
            } else {
                locks.remove(raw)
            };
            outcome(s, keys, held, reply, now, session_size(s) + 1) == Some(
                (after, recorded(keys, char_record(evt.code()), evt.down, now)),
            )
        }),
{
    lemma_key_session(platform, is_x11, evt, win_key, keys, held, reply, now);
    reveal_with_fuel(ops_effect, 5);
}

/// The key of the injecting device that an event presses or lets go of. Key codes of
/// the platform go through it on Wayland alone.
pub open spec fn injected_key(platform: Platform, is_x11: bool, evt: KeyEvent) -> Option<Key> {
    if evt.mode != KeyboardMode::MapKeys {
        target_key(evt)
    } else if platform == Platform::Linux && !is_x11 {
        Some(Key::Raw((evt.code() % 0x1_0000) as u16))
    } else {
        None
    }
}

/// The keys that are down and the locks that are on when the key of an event is
/// pressed, in every mode, but for the modifiers that are pressed for the event
/// alone and are no locks.
pub open spec fn settled(
    platform: Platform,
    held: Set<Key>,
    keys: Map<u64, u64>,
    evt: KeyEvent,
    win_key: RdevKey,
    now: u64,
) -> Set<Key> {
    if evt.mode == KeyboardMode::MapKeys {
        with_locks(platform, held, evt, win_key)
    } else {
        let prepared = prepared(platform, held, evt, win_key);
        with_pressed_locks(prepared, pressed_for(platform, prepared, keys, evt, now))
    }
}

/// Whether an event asks, in its mode, for something that is no key press.
pub open spec fn asks_for_function(evt: KeyEvent) -> bool {
    evt.mode != KeyboardMode::MapKeys && is_function_event(evt)
}

/// What any key event leads to, but for its own key.
proof fn lemma_key_event_outcome(
    platform: Platform,
    is_x11: bool,
    evt: KeyEvent,
    win_key: RdevKey,
    keys: Map<u64, u64>,
    held: Set<Key>,
    reply: bool,
    now: u64,
)
    ensures
        ({
            let s = fresh(platform, evt.text(), handle_key_ops(platform, is_x11, evt, win_key));
            let settled = settled(platform, held, keys, evt, win_key, now);
            &&& outcome(s, keys, held, reply, now, session_size(s) + 1) matches Some((after, table))
            &&& table == noted(keys, event_record(evt), evt.down, now)
            &&& match injected_key(platform, is_x11, evt) {
                Some(key) => if evt.down {
                    key_released(after, key) == key_clicked(settled, key)
                } else {
                    after == key_released(settled, key)
                },
                None => evt.down && asks_for_function(evt) || after == settled,
            }
        }),
{
    let s = fresh(platform, evt.text(), handle_key_ops(platform, is_x11, evt, win_key));
    let before = settled(platform, held, keys, evt, win_key, now);
    if evt.mode == KeyboardMode::MapKeys {
        law_mapped_key_moves_alone(platform, is_x11, evt, win_key, keys, held, reply, now);
    } else if is_function_event(evt) {
        law_function_key_leaves_modifiers_down(
            platform,
            is_x11,
            evt,
            win_key,
            keys,
            held,
            reply,
            now,
        );
        let prepared = prepared(platform, held, evt, win_key);
        let none = Seq::<Key>::empty();
        assert(prepared.union(none.to_set()) =~= with_pressed_locks(prepared, none));
    } else {
        law_key_event_moves_its_key(platform, is_x11, evt, win_key, keys, held, reply, now);
    }
    let (after, _) = outcome(s, keys, held, reply, now, session_size(s) + 1)->0;
    if let Some(key) = injected_key(platform, is_x11, evt) {
        if evt.down {
            assert(key_released(after, key) =~= key_clicked(before, key));
        }
    }
}

/// In every mode, on a machine that works as it should, a key that goes down and
/// then up has been clicked and is not noted in the end, whatever modifiers the peer
/// holds: it is up, or toggled if it is a lock. Everything else is as it was when the
/// key was pressed, but for what asks for something else than a key press, which
/// leaves modifiers down.
pub proof fn law_press_and_release_is_a_click(
    platform: Platform,
    is_x11: bool,
    down: KeyEvent,
    up: KeyEvent,
    win_key: RdevKey,
    keys: Map<u64, u64>,
    held: Set<Key>,
    reply: bool,
    now: u64,
    later: u64,
)
    requires
        down.down,
        !up.down,
        injected_key(platform, is_x11, up) == injected_key(platform, is_x11, down),
        event_record(up) == event_record(down),
    ensures
        ({
            let s = fresh(platform, down.text(), handle_key_ops(platform, is_x11, down, win_key));
            let t = fresh(platform, up.text(), handle_key_ops(platform, is_x11, up, win_key));
            let settled = settled(platform, held, keys, down, win_key, now);
            &&& outcome(s, keys, held, reply, now, session_size(s) + 1) matches Some((held1, keys1))
            &&& outcome(t, keys1, held1, reply, later, session_size(t) + 1) matches Some(
                (held2, keys2),
            )
            &&& match injected_key(platform, is_x11, down) {
                Some(key) => held2 == key_clicked(settled, key),
                None => asks_for_function(down) || held2 == settled,
            }
            &&& match event_record(down) {
                Some(record_key) => keys2 == keys.remove(record_key),
                None => keys2 == keys,
            }
        }),
{
    lemma_key_event_outcome(platform, is_x11, down, win_key, keys, held, reply, now);
    let s = fresh(platform, down.text(), handle_key_ops(platform, is_x11, down, win_key));
    let (held1, keys1) = outcome(s, keys, held, reply, now, session_size(s) + 1)->0;
    lemma_key_event_outcome(platform, is_x11, up, win_key, keys1, held1, reply, later);
    let t = fresh(platform, up.text(), handle_key_ops(platform, is_x11, up, win_key));
    let (held2, keys2) = outcome(t, keys1, held1, reply, later, session_size(t) + 1)->0;
    assert(settled(platform, held1, keys1, up, win_key, later) =~= held1);
    if let Some(record_key) = event_record(down) {
        assert(keys2 =~= keys.remove(record_key));
    }
}

/// Whether a key is the local key of one of some numbers of the table.
pub open spec fn any_records(record_keys: Seq<u64>, key: Key) -> bool {
    exists|i: int| 0 <= i < record_keys.len() && recorded_key(#[trigger] record_keys[i]) == Some(key)
}

/// The release of keys of the table leaves up, on a machine that works as it should,
/// the keys that were noted under the numbers of control keys, and touches no lock and
/// no other key of the injecting device.
pub proof fn law_release_lets_keys_go(
    platform: Platform,
    record_keys: Seq<u64>,
    d: Desk,
    now: u64,
)
    ensures
        ops_effect(platform, release_all_ops(platform, record_keys), d, now) == (Desk {
            held: d.held.difference(Set::new(|key: Key| any_records(record_keys, key) && !is_lock(key))),
            ..d
        }),
    decreases record_keys.len(),
{
    let after = ops_effect(platform, release_all_ops(platform, record_keys), d, now);
    if record_keys.len() == 0 {
        assert(after.held =~= d.held.difference(
            Set::new(|key: Key| any_records(record_keys, key) && !is_lock(key)),
        ));
    } else {
        let init = record_keys.drop_last();
        let last = record_keys.last();
        law_release_lets_keys_go(platform, init, d, now);
        let mid = ops_effect(platform, release_all_ops(platform, init), d, now);
        lemma_ops_effect_concat(
            platform,
            release_all_ops(platform, init),
            release_ops(platform, last),
            d,
            now,
        );
        assert(after == (Desk {
            held: match recorded_key(last) {
                Some(key) => key_released(mid.held, key),
                None => mid.held,
            },
            ..mid
        })) by {
            reveal_with_fuel(ops_effect, 3);
        }
        assert forall|key: Key| any_records(record_keys, key) <==> any_records(init, key)
            || recorded_key(last) == Some(key) by {
            if any_records(init, key) {
                let i = choose|i: int|
                    0 <= i < init.len() && recorded_key(#[trigger] init[i]) == Some(key);
                assert(recorded_key(record_keys[i]) == Some(key));
            }
            if recorded_key(last) == Some(key) {
                assert(recorded_key(record_keys[record_keys.len() - 1]) == Some(key));
            }
            if any_records(record_keys, key) && recorded_key(last) != Some(key) {
                let i = choose|i: int|
                    0 <= i < record_keys.len() && recorded_key(#[trigger] record_keys[i])
                        == Some(key);
                assert(recorded_key(init[i]) == Some(key));
            }
        }
        assert(after.held =~= d.held.difference(
            Set::new(|key: Key| any_records(record_keys, key) && !is_lock(key)),
        ));
    }
}

/// The handling of an event begins so that it lets go of every modifier that it
/// presses before it ends, whatever the machine answers: but for what asks for
/// something else than a key press. On macOS, and for key codes of the platform, it
/// presses none.
pub proof fn law_events_end_released(
    platform: Platform,
    is_x11: bool,
    mouse: MouseEvent,
    key: KeyEvent,
    win_key: RdevKey,
)
    ensures
        ({
            let s = fresh(platform, Seq::empty(), handle_mouse_ops(platform, mouse));
            if platform == Platform::MacOs {
                presses_none(s)
            } else {
                ends_released(s)
            }
        }),
        ({
            let s = fresh(platform, key.text(), handle_key_ops(platform, is_x11, key, win_key));
            if platform == Platform::MacOs || key.mode == KeyboardMode::MapKeys {
                presses_none(s)
            } else {
                !is_function_event(key) ==> ends_released(s)
            }
        }),
{
    if platform == Platform::MacOs {
        lemma_macos_mouse_ops_press_none(mouse);
    } else {
        lemma_mouse_ops_end(platform, mouse);
    }
    let locks: Seq<Op> = if key.down {
        seq![sync_locks_op(platform, key, win_key)]
    } else {
        Seq::empty()
    };
    if key.mode == KeyboardMode::MapKeys {
        assert(handle_key_ops(platform, is_x11, key, win_key) == locks + map_mode_ops(
            platform,
            is_x11,
            key,
        ));
    } else if platform == Platform::MacOs {
        lemma_macos_key_ops_press_none(key);
        assert(handle_key_ops(platform, is_x11, key, win_key) == locks + legacy_mode_ops(
            platform,
            key,
        ));
    } else if !is_function_event(key) {
        lemma_key_ops_end(platform, key);
        let ops = legacy_mode_ops(platform, key);
        assert(handle_key_ops(platform, is_x11, key, win_key) == locks + ops);
        lemma_last_of_concat(locks, ops);
    }
}

proof fn lemma_flag_ops_press_none(modifiers: Seq<i32>)
    ensures
        press_none(flag_ops(modifiers)),
{
    lemma_add_flags_press_none(modifiers, |key: Key| seq![Op::Do(Command::AddFlag(key))]);
}

proof fn lemma_add_flags_press_none(modifiers: Seq<i32>, ops: spec_fn(Key) -> Seq<Op>)
    requires
        ops == |key: Key| seq![Op::Do(Command::AddFlag(key))],
    ensures
        press_none(for_each_key(modifiers, ops)),
    decreases modifiers.len(),
{
    if modifiers.len() > 0 {
        lemma_add_flags_press_none(modifiers.drop_last(), ops);
    }
}

proof fn lemma_concat_press_none(a: Seq<Op>, b: Seq<Op>)
    requires
        press_none(a),
        press_none(b),
    ensures
        press_none(a + b),
{
}

proof fn lemma_fix_modifiers_press_none(modifiers: Seq<i32>, ck: i32)
    ensures
        press_none(fix_modifiers_ops(modifiers, ck)),
{
}

proof fn lemma_macos_mouse_ops_press_none(evt: MouseEvent)
    ensures
        press_none(handle_mouse_ops(Platform::MacOs, evt)),
{
    let m = evt.modifiers@;
    let fix = fix_modifiers_ops(m, 0);
    let b: Seq<Op> = if evt.kind() == 1 {
        button_modifiers_ops(Platform::MacOs, m)
    } else {
        Seq::empty()
    };
    let c = mouse_ops(Platform::MacOs, evt);
    lemma_fix_modifiers_press_none(m, 0);
    lemma_flag_ops_press_none(m);
    lemma_concat_press_none(fix, flag_ops(m));
    lemma_concat_press_none(Seq::empty(), b);
    lemma_concat_press_none(Seq::empty() + b, c);
    lemma_concat_press_none(Seq::empty() + b + c, Seq::empty());
    assert(handle_mouse_ops(Platform::MacOs, evt) == Seq::empty() + b + c + Seq::empty());
}

proof fn lemma_macos_key_ops_press_none(evt: KeyEvent)
    ensures
        press_none(legacy_mode_ops(Platform::MacOs, evt)),
{
    let m = evt.modifiers@;
    let fix: Seq<Op> = if evt.down {
        fix_modifiers_ops(m, evt.control_key_code())
    } else {
        Seq::empty()
    };
    lemma_fix_modifiers_press_none(m, evt.control_key_code());
    lemma_flag_ops_press_none(m);
    lemma_concat_press_none(flag_ops(m), fix);
    lemma_concat_press_none(flag_ops(m) + fix, Seq::empty());
    let b = sync_modifiers_ops(Platform::MacOs, evt);
    assert(b == flag_ops(m) + fix + Seq::empty());
    let c = union_ops(evt);
    lemma_concat_press_none(Seq::empty(), b);
    lemma_concat_press_none(Seq::empty() + b, c);
    lemma_concat_press_none(Seq::empty() + b + c, Seq::empty());
    assert(legacy_mode_ops(Platform::MacOs, evt) == Seq::empty() + b + c + Seq::empty());
}

proof fn lemma_last_of_concat(a: Seq<Op>, b: Seq<Op>)
    requires
        b.len() > 0,
    ensures
        (a + b).len() > 0,
        (a + b).last() == b.last(),
{
}

proof fn lemma_mouse_ops_end(platform: Platform, evt: MouseEvent)
    requires
        platform != Platform::MacOs,
    ensures
        handle_mouse_ops(platform, evt).len() > 0,
        handle_mouse_ops(platform, evt).last() == Op::ReleasePressed,
{
    let a = desktop_ops(platform);
    let b: Seq<Op> = if evt.kind() == 1 {
        button_modifiers_ops(platform, evt.modifiers@)
    } else {
        Seq::empty()
    };
    let c = mouse_ops(platform, evt);
    assert(handle_mouse_ops(platform, evt) == a + b + c + end_ops(true));
    lemma_last_of_concat(a + b + c, end_ops(true));
}

proof fn lemma_key_ops_end(platform: Platform, evt: KeyEvent)
    requires
        platform != Platform::MacOs,
        !is_function_event(evt),
    ensures
        legacy_mode_ops(platform, evt).len() > 0,
        legacy_mode_ops(platform, evt).last() == Op::ReleasePressed,
{
    let a = desktop_ops(platform);
    let b = sync_modifiers_ops(platform, evt);
    let c = union_ops(evt);
    assert(legacy_mode_ops(platform, evt) == a + b + c + end_ops(true));
    lemma_last_of_concat(a + b + c, end_ops(true));
}

/// Whether a step sets the flag of a key.
pub open spec fn sets_flag(op: Op, key: Key) -> bool {
    op == Op::Do(Command::AddFlag(key))
}

/// On macOS the flags of the modifiers that the peer holds, and of no other key, are
/// set before a key goes down or up.
pub proof fn law_flags_go_before_keys(evt: KeyEvent, key: Key)
    ensures
        flag_ops(evt.modifiers@).is_prefix_of(legacy_mode_ops(Platform::MacOs, evt)),
        flag_ops(evt.modifiers@)[0] == Op::Do(Command::ResetFlag),
        (exists|i: int|
            0 <= i < flag_ops(evt.modifiers@).len() && sets_flag(
                #[trigger] flag_ops(evt.modifiers@)[i],
                key,
            )) <==> lists_local_key(evt.modifiers@, key),
{
    let m = evt.modifiers@;
    let ops = |key: Key| seq![Op::Do(Command::AddFlag(key))];
    let flags = for_each_key(m, ops);
    lemma_flags_of_list(m, ops, key);
    assert(flag_ops(m) == seq![Op::Do(Command::ResetFlag)] + flags);
    assert(Seq::<Op>::empty() + sync_modifiers_ops(Platform::MacOs, evt) =~= sync_modifiers_ops(
        Platform::MacOs,
        evt,
    ));
    if exists|i: int| 0 <= i < flags.len() && sets_flag(#[trigger] flags[i], key) {
        let i = choose|i: int| 0 <= i < flags.len() && sets_flag(#[trigger] flags[i], key);
        assert(sets_flag(flag_ops(m)[i + 1], key));
    }
    if exists|i: int| 0 <= i < flag_ops(m).len() && sets_flag(#[trigger] flag_ops(m)[i], key) {
        let i = choose|i: int|
            0 <= i < flag_ops(m).len() && sets_flag(#[trigger] flag_ops(m)[i], key);
        assert(sets_flag(flags[i - 1], key));
    }
}

proof fn lemma_flags_of_list(modifiers: Seq<i32>, ops: spec_fn(Key) -> Seq<Op>, key: Key)
    requires
        ops == |key: Key| seq![Op::Do(Command::AddFlag(key))],
    ensures
        ({
            let flags = for_each_key(modifiers, ops);
            (exists|i: int| 0 <= i < flags.len() && sets_flag(#[trigger] flags[i], key))
                <==> lists_local_key(modifiers, key)
        }),
    decreases modifiers.len(),
{
    if modifiers.len() > 0 {
        let init = modifiers.drop_last();
        let before = for_each_key(init, ops);
        let flags = for_each_key(modifiers, ops);
        let last = local_key_of_code(modifiers.last());
        lemma_flags_of_list(init, ops, key);
        if lists_local_key(modifiers, key) {
            let i = choose|i: int|
                0 <= i < modifiers.len() && local_key_of_code(#[trigger] modifiers[i])
                    == Some(key);
            if i < init.len() {
                assert(local_key_of_code(init[i]) == Some(key));
                let j = choose|j: int| 0 <= j < before.len() && sets_flag(#[trigger] before[j], key);
                assert(sets_flag(flags[j], key));
            } else {
                assert(sets_flag(flags[flags.len() - 1], key));
            }
        }
        if exists|i: int| 0 <= i < flags.len() && sets_flag(#[trigger] flags[i], key) {
            let i = choose|i: int| 0 <= i < flags.len() && sets_flag(#[trigger] flags[i], key);
            if i < before.len() {
                assert(sets_flag(before[i], key));
                let j = choose|j: int|
                    0 <= j < init.len() && local_key_of_code(#[trigger] init[j]) == Some(key);
                assert(local_key_of_code(modifiers[j]) == Some(key));
            } else {
                assert(last == Some(key));
                assert(local_key_of_code(modifiers[modifiers.len() - 1]) == Some(key));
            }
        }
    }
}

/// Nothing is done for an event that comes when the service is exiting: its session
/// gives no action and leaves the table as it was.
pub proof fn law_nothing_is_done_when_exiting(
    platform: Platform,
    is_x11: bool,
    key: KeyEvent,
    win_key: RdevKey,
    mouse: MouseEvent,
    keys: Map<u64, u64>,
    reply: bool,
    now: u64,
)
    ensures
        ({
            let s = key_session(true, platform, is_x11, key, win_key);
            resumed(s, keys, reply, now) == (s, keys, None::<ActionView>)
        }),
        ({
            let s = mouse_session(true, platform, mouse);
            resumed(s, keys, reply, now) == (s, keys, None::<ActionView>)
        }),
{
}

/// Events that say the same are handled in the same way, so one that was copied for
/// the main queue is handled there as it would have been right away.
pub proof fn law_same_events_are_handled_alike(
    exiting: bool,
    platform: Platform,
    is_x11: bool,
    key: KeyEvent,
    key_copy: KeyEvent,
    win_key: RdevKey,
    mouse: MouseEvent,
    mouse_copy: MouseEvent,
)
    requires
        key_copy.same(key),
        mouse_copy.same(mouse),
    ensures
        key_session(exiting, platform, is_x11, key_copy, win_key) == key_session(
            exiting,
            platform,
            is_x11,
            key,
            win_key,
        ),
        mouse_session(exiting, platform, mouse_copy) == mouse_session(exiting, platform, mouse),
{
    assert(sync_modifiers_ops(platform, key_copy) == sync_modifiers_ops(platform, key));
    assert(union_ops(key_copy) == union_ops(key));
    assert(legacy_mode_ops(platform, key_copy) == legacy_mode_ops(platform, key));
    assert(map_mode_ops(platform, is_x11, key_copy) == map_mode_ops(platform, is_x11, key));
    assert(mouse_ops(platform, mouse_copy) == mouse_ops(platform, mouse));
}

/// Whether the modifiers are in line with the peer's, but for what no key press changes:
/// those that the peer lists are down, the left alt key aside while the right one is
/// noted on Linux; and of those that the peer does not hold none is down, but for a
/// control key that may be part of AltGr on Windows, and the key that the event is about.
pub open spec fn in_line(
    platform: Platform,
    held: Set<Key>,
    modifiers: Seq<i32>,
    ck: i32,
    keys: Map<u64, u64>,
) -> bool {
    &&& forall|key: Key|
        platform != Platform::MacOs && #[trigger] lists_local_key(modifiers, key) && key
            != Key::CapsLock && key != Key::NumLock ==> holds(held, key) || (platform
            == Platform::Linux && key == Key::Alt && keys.contains_key(75))
    &&& forall|key: Key| #[trigger]
        unlisted(modifiers, ck, key) && held.contains(key) ==> lists_local_key(modifiers, key) || (
        platform == Platform::Windows && (key == Key::Control || key == Key::RightControl) && (
        held.contains(Key::Alt) || held.contains(Key::RightAlt)))
}

proof fn lemma_in_line(
    platform: Platform,
    before: Set<Key>,
    after: Desk,
    modifiers: Seq<i32>,
    ck: i32,
)
    requires
        after.held == before.difference(strays(platform, before, modifiers, ck)).union(
            after.pressed.to_set(),
        ),
        forall|key: Key| #[trigger]
            after.pressed.contains(key) ==> lists_local_key(modifiers, key),
        forall|key: Key|
            platform != Platform::MacOs && #[trigger] lists_local_key(modifiers, key) && key
                != Key::CapsLock && key != Key::NumLock ==> holds(after.held, key) || (platform
                == Platform::Linux && key == Key::Alt && altgr_down(after.keys)),
    ensures
        in_line(platform, after.held, modifiers, ck, after.keys),
{
    assert forall|key: Key| #[trigger]
        unlisted(modifiers, ck, key) && after.held.contains(key) implies lists_local_key(
        modifiers,
        key,
    ) || (platform == Platform::Windows && (key == Key::Control || key == Key::RightControl) && (
    after.held.contains(Key::Alt) || after.held.contains(Key::RightAlt))) by {
        if !lists_local_key(modifiers, key) {
            assert(!after.pressed.contains(key));
            assert(!strays(platform, before, modifiers, ck).contains(key));
            assert(alt_stays(before, modifiers, ck));
        }
    }
}

/// Whether the locks are as the peer has them: on macOS nothing is said, and num lock is
/// left alone on Windows for some keys.
pub open spec fn locks_in_line(
    platform: Platform,
    held: Set<Key>,
    evt: KeyEvent,
    win_key: RdevKey,
) -> bool {
    &&& platform != Platform::MacOs ==> held.contains(Key::CapsLock) == lists(
        evt.modifiers@,
        ControlKey::CapsLock,
    )
    &&& platform == Platform::Linux || (platform == Platform::Windows && !numlock_disabled(
        evt,
        win_key,
    )) ==> held.contains(Key::NumLock) == lists(evt.modifiers@, ControlKey::NumLock)
}

/// A key of the peer's layout goes down on a machine that works as it should, at a
/// moment when the modifiers and the locks are in line with the peer's.
#[verifier::rlimit(40)]
pub proof fn law_key_goes_down_under_modifiers(
    platform: Platform,
    is_x11: bool,
    evt: KeyEvent,
    win_key: RdevKey,
    key: Key,
    keys: Map<u64, u64>,
    held: Set<Key>,
    reply: bool,
    now: u64,
)
    requires
        evt.mode != KeyboardMode::MapKeys,
        evt.down,
        match evt.union {
            Some(KeyUnion::ControlKey(ck)) => local_key_of_code(ck) == Some(key),
            Some(KeyUnion::Chr(c)) => key == Key::Layout(
                if c <= 0xd7ff || 0xe000 <= c <= 0x10ffff {
                    c as char
                } else {
                    '\0'
                },
            ),
            _ => false,
        },
    ensures
        ({
            let s = key_session(false, platform, is_x11, evt, win_key);
            let moments = played(s, keys, held, reply, now, session_size(s) + 1);
            exists|then: Set<Key>|
                {
                    &&& #[trigger] happens(moments, then, ActionView::Perform(Command::KeyDown(key)))
                    &&& in_line(platform, then, evt.modifiers@, evt.control_key_code(), keys)
                    &&& locks_in_line(platform, then, evt, win_key)
                }
        }),
{
    let s = key_session(false, platform, is_x11, evt, win_key);
    let m = evt.modifiers@;
    let ck = evt.control_key_code();
    let locks = seq![sync_locks_op(platform, evt, win_key)];
    let a = desktop_ops(platform);
    let b = sync_modifiers_ops(platform, evt);
    let c = union_ops(evt);
    let e = end_ops(platform != Platform::MacOs);
    crate::keyboard::law_functions_are_two(evt);
    crate::keys::law_control_keys_are_injected_by_name(0);
    assert(c.len() == 2);
    let note = seq![c[0]];
    let rest = seq![c[1]] + e;
    let pre = locks + (a + b + note);
    assert(legacy_mode_ops(platform, evt) == a + b + c + e);
    assert(s.todo =~= pre + rest);
    let sa = fresh(platform, evt.text(), pre);
    assert(followed_by(sa, rest) == s);
    lemma_reaches(sa, rest, keys, held, reply, now, session_size(s) + 1);
    let d = desk(sa, held, keys);
    lemma_ops_effect_concat(platform, locks, a + b + note, d, now);
    lemma_ops_effect_one(platform, locks[0], d, now);
    law_locks_follow_peer(platform, evt, win_key, d, now);
    let d1 = Desk { held: synced(platform, held, evt, win_key), ..d };
    lemma_ops_effect_concat(platform, a + b, note, d1, now);
    lemma_ops_effect_concat(platform, a, b, d1, now);
    lemma_desktop_effect(platform, d1, now);
    lemma_sync_modifiers_effect(platform, evt, d1, now);
    let after = ops_effect(platform, b, d1, now);
    lemma_ops_effect_one(platform, c[0], after, now);
    let then = session_effect(sa, held, keys, now).held;
    assert(then == after.held);
    let fixed = Desk { held: rid_of_strays(platform, d1.held, evt), ..d1 };
    if platform != Platform::MacOs {
        law_held_modifiers_go_down(platform, m, fixed, now);
        let pressed = ops_effect(platform, press_modifiers_ops(platform, m), fixed, now);
        assert(pressed.held =~= after.held);
    }
    lemma_in_line(platform, d1.held, after, m, ck);
    assert forall|lock: Key| #[trigger] after.pressed.contains(lock) && lock
        == Key::CapsLock implies lists(m, ControlKey::CapsLock) by {
        assert(lists_local_key(m, lock));
        let i = choose|i: int|
            0 <= i < m.len() && local_key_of_code(#[trigger] m[i]) == Some(lock);
        crate::keys::law_control_keys_keep_apart(m[i], 3);
    }
    assert forall|lock: Key| #[trigger] after.pressed.contains(lock) && lock
        == Key::NumLock implies lists(m, ControlKey::NumLock) by {
        assert(lists_local_key(m, lock));
        let i = choose|i: int|
            0 <= i < m.len() && local_key_of_code(#[trigger] m[i]) == Some(lock);
        crate::keys::law_control_keys_keep_apart(m[i], 63);
    }
    assert(locks_in_line(platform, then, evt, win_key));
}

/// A button goes down on a machine that works as it should, at a moment when the
/// modifiers are in line with the peer's; caps lock and num lock are left alone for it.
pub proof fn law_button_goes_down_under_modifiers(
    platform: Platform,
    evt: MouseEvent,
    button: MouseButton,
    keys: Map<u64, u64>,
    held: Set<Key>,
    reply: bool,
    now: u64,
)
    requires
        evt.mask & 7 == 1,
        (evt.mask >> 3 == 1 && button == MouseButton::Left) || (evt.mask >> 3 == 2 && button
            == MouseButton::Right) || (evt.mask >> 3 == 4 && button == MouseButton::Middle),
    ensures
        ({
            let s = mouse_session(false, platform, evt);
            let moments = played(s, keys, held, reply, now, session_size(s) + 1);
            exists|then: Set<Key>|
                {
                    &&& #[trigger] happens(
                        moments,
                        then,
                        ActionView::Perform(Command::MouseDown(button)),
                    )
                    &&& in_line(platform, then, evt.modifiers@, 0, Map::empty())
                    &&& then.contains(Key::CapsLock) == held.contains(Key::CapsLock)
                    &&& then.contains(Key::NumLock) == held.contains(Key::NumLock)
                }
        }),
{
    let s = mouse_session(false, platform, evt);
    let m = evt.modifiers@;
    crate::events::law_mask_has_two_parts(evt);
    let a = desktop_ops(platform);
    let b = button_modifiers_ops(platform, m);
    let c = mouse_ops(platform, evt);
    let e = end_ops(platform != Platform::MacOs);
    assert(c =~= seq![Op::Do(Command::MouseDown(button))]);
    let pre = a + b;
    let rest = c + e;
    assert(s.todo =~= pre + rest);
    let sa = fresh(platform, Seq::empty(), pre);
    assert(followed_by(sa, rest) == s);
    lemma_reaches(sa, rest, keys, held, reply, now, session_size(s) + 1);
    let d = desk(sa, held, keys);
    lemma_ops_effect_concat(platform, a, b, d, now);
    lemma_desktop_effect(platform, d, now);
    lemma_button_modifiers_effect(platform, m, d, now);
    let after = ops_effect(platform, b, d, now);
    let then = session_effect(sa, held, keys, now).held;
    assert(then == after.held);
    let fixed = Desk { held: held.difference(strays(platform, held, m, 0)), ..d };
    if platform != Platform::MacOs {
        law_stray_modifiers_go_up(platform, m, 0, d, now);
        law_held_modifiers_go_down_for_buttons(platform, m, fixed, now);
        lemma_ops_effect_concat(
            platform,
            fix_modifiers_ops(m, 0),
            press_mouse_modifiers_ops(m),
            d,
            now,
        );
    }
    let unnoted = Desk { keys: Map::empty(), ..after };
    lemma_in_line(platform, held, unnoted, m, 0);
}

/// In map mode the key of the event goes down on a machine that works as it should, at a
/// moment when the locks are in line with the peer's, and the modifiers are as they were.
pub proof fn law_mapped_key_goes_down_under_locks(
    platform: Platform,
    is_x11: bool,
    evt: KeyEvent,
    win_key: RdevKey,
    code: u32,
    command: Command,
    keys: Map<u64, u64>,
    held: Set<Key>,
    reply: bool,
    now: u64,
)
    requires
        evt.mode == KeyboardMode::MapKeys,
        evt.down,
        match evt.union {
            Some(KeyUnion::Chr(c)) => code == c,
            _ => code == 0,
        },
        command == match platform {
            Platform::Windows => Command::Simulate {
                key: RdevKey::RawKey(RawKey::ScanCode(code)),
                down: true,
            },
            Platform::MacOs => Command::Simulate {
                key: RdevKey::RawKey(RawKey::MacVirtualKeycode(code)),
                down: true,
            },
            Platform::Linux => if is_x11 {
                Command::Simulate { key: RdevKey::RawKey(RawKey::LinuxXorgKeycode(code)), down: true }
            } else {
                Command::KeyDown(Key::Raw((code % 0x1_0000) as u16))
            },
        },
    ensures
        ({
            let s = key_session(false, platform, is_x11, evt, win_key);
            let moments = played(s, keys, held, reply, now, session_size(s) + 1);
            exists|then: Set<Key>|
                {
                    &&& #[trigger] happens(moments, then, ActionView::Perform(command))
                    &&& locks_in_line(platform, then, evt, win_key)
                    &&& forall|key: Key|
                        key != Key::CapsLock && key != Key::NumLock ==> (#[trigger] then.contains(
                            key,
                        ) <==> held.contains(key))
                }
        }),
{
    let s = key_session(false, platform, is_x11, evt, win_key);
    let locks = seq![sync_locks_op(platform, evt, win_key)];
    let ops = map_mode_ops(platform, is_x11, evt);
    let n: int = if platform == Platform::Windows {
        2
    } else {
        1
    };
    let first = ops.take(n);
    let rest = ops.skip(n);
    let pre = locks + first;
    assert(s.todo =~= pre + rest);
    let sa = fresh(platform, evt.text(), pre);
    assert(followed_by(sa, rest) == s);
    lemma_reaches(sa, rest, keys, held, reply, now, session_size(s) + 1);
    let d = desk(sa, held, keys);
    lemma_ops_effect_concat(platform, locks, first, d, now);
    lemma_ops_effect_one(platform, locks[0], d, now);
    law_locks_follow_peer(platform, evt, win_key, d, now);
    reveal_with_fuel(ops_effect, 3);
    let then = session_effect(sa, held, keys, now).held;
    assert(then == synced(platform, held, evt, win_key));
    assert(act(rest[0]) == ActionView::Perform(command));
}

proof fn lemma_altgr_spares_alt(
    modifiers: Seq<i32>,
    ops: spec_fn(Key) -> Seq<Op>,
    d: Desk,
    now: u64,
)
    requires
        ops == |key: Key| seq![press_op(Platform::Linux, key)],
        d.keys.contains_key(75),
        !d.pressed.contains(Key::Alt),
    ensures
        ({
            let after = ops_effect(Platform::Linux, for_each_key(modifiers, ops), d, now);
            &&& !after.pressed.contains(Key::Alt)
            &&& after.keys == d.keys
        }),
    decreases modifiers.len(),
{
    if modifiers.len() > 0 {
        let init = modifiers.drop_last();
        let before = for_each_key(init, ops);
        lemma_altgr_spares_alt(init, ops, d, now);
        let mid = ops_effect(Platform::Linux, before, d, now);
        match local_key_of_code(modifiers.last()) {
            Some(key) => {
                lemma_ops_effect_concat(Platform::Linux, before, ops(key), d, now);
                lemma_ops_effect_one(Platform::Linux, press_op(Platform::Linux, key), mid, now);
                broadcast use vstd::seq_lib::lemma_seq_contains_after_push;

            },
            None => {
                assert(before + Seq::<Op>::empty() =~= before);
            },
        }
    }
}

/// On Linux the left alt key is not pressed for an event while the right one is noted as
/// down.
pub proof fn law_noted_altgr_spares_alt(
    evt: KeyEvent,
    held: Set<Key>,
    keys: Map<u64, u64>,
    now: u64,
)
    requires
        keys.contains_key(75),
    ensures
        !pressed_for(Platform::Linux, held, keys, evt, now).contains(Key::Alt),
{
    lemma_altgr_spares_alt(
        evt.modifiers@,
        |key: Key| seq![press_op(Platform::Linux, key)],
        Desk { held, pressed: Seq::empty(), keys },
        now,
    );
}

/// Whatever the machine answers about its locks, in every mode and on every platform, a
/// key that goes down first has those clicked which are not as the peer lists them.
pub proof fn law_locks_are_brought_in_line(
    platform: Platform,
    is_x11: bool,
    evt: KeyEvent,
    win_key: RdevKey,
    keys: Map<u64, u64>,
    caps_on: bool,
    num_on: bool,
    now: u64,
)
    requires
        evt.down,
    ensures
        ({
            let s = key_session(false, platform, is_x11, evt, win_key);
            let (s1, keys1, asked) = resumed(s, keys, true, now);
            let (s2, keys2, asked_next) = resumed(s1, keys1, caps_on, now);
            let after = heard(s2, keys2, num_on);
            let m = evt.modifiers@;
            let mac = platform == Platform::MacOs;
            let left_alone = mac || (platform == Platform::Windows && numlock_disabled(
                evt,
                win_key,
            ));
            let click_caps: Seq<Op> = if m.contains(ControlKey::CapsLock.code()) == caps_on {
                Seq::empty()
            } else if mac {
                seq![
                    Op::Do(Command::KeyClick(Key::CapsLock)),
                    Op::Do(Command::KeyDown(Key::CapsLock)),
                ]
            } else {
                seq![Op::Do(Command::KeyClick(Key::CapsLock))]
            };
            let click_num: Seq<Op> = if left_alone || m.contains(ControlKey::NumLock.code())
                == num_on {
                Seq::empty()
            } else {
                seq![Op::Do(Command::KeyClick(Key::NumLock))]
            };
            &&& asked == Some(ActionView::Perform(Command::KeyState(Key::CapsLock)))
            &&& asked_next == Some(ActionView::Perform(Command::KeyState(Key::NumLock)))
            &&& keys2 == keys
            &&& after.todo == click_caps + click_num + s.todo.drop_first()
        }),
{
    let s = key_session(false, platform, is_x11, evt, win_key);
    crate::session::law_locks_are_clicked_where_they_differ(
        s,
        keys,
        lists(evt.modifiers@, ControlKey::CapsLock),
        lists(evt.modifiers@, ControlKey::NumLock),
        platform == Platform::Windows && numlock_disabled(evt, win_key),
        caps_on,
        num_on,
        now,
    );
}

/// On Windows the desktop that has the input is followed before anything is done with
/// keys or the mouse, but for the locks, and it is done once those are in line.
pub proof fn law_desktop_is_followed_before_keys(
    is_x11: bool,
    key: KeyEvent,
    win_key: RdevKey,
    mouse: MouseEvent,
)
    ensures
        ({
            let todo = mouse_session(false, Platform::Windows, mouse).todo;
            todo.len() > 0 && todo[0] == Op::Do(Command::TryChangeDesktop)
        }),
        ({
            let todo = key_session(false, Platform::Windows, is_x11, key, win_key).todo;
            let locks: int = if key.down {
                1
            } else {
                0
            };
            let notes: int = if key.mode == KeyboardMode::MapKeys {
                1
            } else {
                0
            };
            &&& todo.len() > locks + notes
            &&& todo[locks + notes] == Op::Do(Command::TryChangeDesktop)
            &&& notes == 1 ==> todo[locks] is Record
            &&& locks == 1 ==> todo[0] is KeyState
        }),
{
    let a = desktop_ops(Platform::Windows);
    let b: Seq<Op> = if mouse.kind() == 1 {
        button_modifiers_ops(Platform::Windows, mouse.modifiers@)
    } else {
        Seq::empty()
    };
    let c = mouse_ops(Platform::Windows, mouse);
    assert(handle_mouse_ops(Platform::Windows, mouse) == a + b + c + end_ops(true));
    lemma_first_of_concat(a + b + c, end_ops(true));
    lemma_first_of_concat(a + b, c);
    lemma_first_of_concat(a, b);
    let locks: Seq<Op> = if key.down {
        seq![sync_locks_op(Platform::Windows, key, win_key)]
    } else {
        Seq::empty()
    };
    let todo = key_session(false, Platform::Windows, is_x11, key, win_key).todo;
    if key.mode == KeyboardMode::MapKeys {
        assert(todo == locks + map_mode_ops(Platform::Windows, is_x11, key));
    } else {
        let d = sync_modifiers_ops(Platform::Windows, key);
        let e = union_ops(key);
        let f = end_ops(!is_function_event(key));
        let ops = a + d + e + f;
        assert(legacy_mode_ops(Platform::Windows, key) == ops);
        lemma_first_of_concat(a + d + e, f);
        lemma_first_of_concat(a + d, e);
        lemma_first_of_concat(a, d);
        assert(todo == locks + ops);
        assert(todo[locks.len() as int] == ops[0]);
    }
}

proof fn lemma_first_of_concat(a: Seq<Op>, b: Seq<Op>)
    requires
        a.len() > 0,
    ensures
        (a + b).len() > 0,
        (a + b)[0] == a[0],
{
}

} // verus!
