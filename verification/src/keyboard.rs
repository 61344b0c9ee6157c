use vstd::prelude::*;

use crate::events::{
    contains_control_key, get_control_key_value, is_modifier_in_key_event, is_numlock_disabled,
    lists, numlock_disabled, KeyEvent, KeyUnion, KeyboardMode,
};
use crate::keys::{
    control_key_value_to_key, local_key_of_code, ControlKey, Key, Platform, RdevKey,
};
use crate::records::{char_record, char_record_key, control_record, control_record_key};
use crate::script::{raw_key, sim_rdev_rawkey, simulate_ops, Command, Goal, Op};
use crate::session::{fresh, Session, SessionView};
use crate::text::{char_value_to_key, layout_key, scalar};

verus! {

/// Where an event is handled.
#[derive(Clone, Copy, Debug, PartialEq, Eq, Structural)]
pub enum Route {
    /// Right here.
    Direct,
    /// In the main queue of the process.
    MainQueue,
    /// In the portable service.
    PortableService,
}

/// Where events are handled: on macOS in the main thread if the process has a
/// window, on Windows by the portable service.
pub open spec fn route(platform: Platform, is_server: bool) -> Route {
    match platform {
        Platform::MacOs if !is_server => Route::MainQueue,
        Platform::Windows => Route::PortableService,
        _ => Route::Direct,
    }
}

/// `is_server` tells whether the process was started as the server, without a window.
pub(crate) fn event_route(platform: Platform, is_server: bool) -> (res: Route)
    ensures
        res == route(platform, is_server),
{
    if platform == Platform::MacOs && !is_server {
        return Route::MainQueue;
    }
    if platform == Platform::Windows {
        Route::PortableService
    } else {
        Route::Direct
    }
}

/// The step that finds out whether a key or its twin is down.
pub fn get_modifier_state(plan: &mut Vec<Op>, key: Key, goal: Goal)
    ensures
        final(plan)@ == old(plan)@.push(Op::ModifierState { key, goal }),
{
    plan.push(Op::ModifierState { key, goal });
}

/// The steps that some keys take, one key after the other, for the control keys of
/// a list that have a local key.
pub open spec fn for_each_key(modifiers: Seq<i32>, ops: spec_fn(Key) -> Seq<Op>) -> Seq<Op>
    decreases modifiers.len(),
{
    if modifiers.len() == 0 {
        Seq::empty()
    } else {
        for_each_key(modifiers.drop_last(), ops) + match local_key_of_code(modifiers.last()) {
            Some(key) => ops(key),
            None => Seq::empty(),
        }
    }
}

/// The step that lets go of a modifier if it is down and the peer does not hold it.
pub open spec fn fix_op(modifiers: Seq<i32>, key0: ControlKey, key1: Key) -> Op {
    Op::ModifierState {
        key: key1,
        goal: Goal::Fix { key0, key1, listed: lists(modifiers, key0) },
    }
}

/// Lets go of `key1` if it is down and the peer does not hold `key0`, so that the
/// modifiers here are in the state that they are in at the peer's.
pub fn fix_modifier(plan: &mut Vec<Op>, modifiers: &Vec<i32>, key0: ControlKey, key1: Key)
    ensures
        final(plan)@ == old(plan)@.push(fix_op(modifiers@, key0, key1)),
{
    let listed: bool = contains_control_key(modifiers, key0);
    get_modifier_state(plan, key1, Goal::Fix { key0, key1, listed });
}

/// `fix_op` as a sequence, and nothing if `own`, the control key of `key1`, is the
/// very key that the event is about.
pub open spec fn fix_ops(
    modifiers: Seq<i32>,
    ck: i32,
    own: ControlKey,
    key0: ControlKey,
    key1: Key,
) -> Seq<Op> {
    if ck != own.code() {
        seq![fix_op(modifiers, key0, key1)]
    } else {
        Seq::empty()
    }
}

/// The steps that let go of the modifiers that the peer does not hold. The peer
/// names both keys of a pair by the left one.
pub open spec fn fix_modifiers_ops(modifiers: Seq<i32>, ck: i32) -> Seq<Op> {
    fix_ops(modifiers, ck, ControlKey::Shift, ControlKey::Shift, Key::Shift)
        + fix_ops(modifiers, ck, ControlKey::RShift, ControlKey::Shift, Key::RightShift)
        + fix_ops(modifiers, ck, ControlKey::Alt, ControlKey::Alt, Key::Alt)
        + fix_ops(modifiers, ck, ControlKey::RAlt, ControlKey::Alt, Key::RightAlt)
        + fix_ops(modifiers, ck, ControlKey::Control, ControlKey::Control, Key::Control)
        + fix_ops(modifiers, ck, ControlKey::RControl, ControlKey::Control, Key::RightControl)
        + fix_ops(modifiers, ck, ControlKey::Meta, ControlKey::Meta, Key::Meta)
        + fix_ops(modifiers, ck, ControlKey::RWin, ControlKey::Meta, Key::RWin)
}

fn fix_modifier_unless_own(
    plan: &mut Vec<Op>,
    modifiers: &Vec<i32>,
    ck: i32,
    own: ControlKey,
    key0: ControlKey,
    key1: Key,
)
    ensures
        final(plan)@ == old(plan)@ + fix_ops(modifiers@, ck, own, key0, key1),
{
    if ck != own.value() {
        fix_modifier(plan, modifiers, key0, key1);
    }
    assert(plan@ =~= old(plan)@ + fix_ops(modifiers@, ck, own, key0, key1));
}

/// `ck` is the wire number of the control key that the event is about.
pub fn fix_modifiers(plan: &mut Vec<Op>, modifiers: &Vec<i32>, ck: i32)
    ensures
        final(plan)@ == old(plan)@ + fix_modifiers_ops(modifiers@, ck),
{
    broadcast use lemma_concat_associates;

    fix_modifier_unless_own(
        plan,
        modifiers,
        ck,
        ControlKey::Shift,
        ControlKey::Shift,
        Key::Shift,
    );
    fix_modifier_unless_own(
        plan,
        modifiers,
        ck,
        ControlKey::RShift,
        ControlKey::Shift,
        Key::RightShift,
    );
    fix_modifier_unless_own(plan, modifiers, ck, ControlKey::Alt, ControlKey::Alt, Key::Alt);
    fix_modifier_unless_own(plan, modifiers, ck, ControlKey::RAlt, ControlKey::Alt, Key::RightAlt);
    fix_modifier_unless_own(
        plan,
        modifiers,
        ck,
        ControlKey::Control,
        ControlKey::Control,
        Key::Control,
    );
    fix_modifier_unless_own(
        plan,
        modifiers,
        ck,
        ControlKey::RControl,
        ControlKey::Control,
        Key::RightControl,
    );
    fix_modifier_unless_own(plan, modifiers, ck, ControlKey::Meta, ControlKey::Meta, Key::Meta);
    fix_modifier_unless_own(plan, modifiers, ck, ControlKey::RWin, ControlKey::Meta, Key::RWin);
}

broadcast proof fn lemma_concat_associates(a: Seq<Op>, b: Seq<Op>, c: Seq<Op>)
    ensures
        #[trigger] ((a + b) + c) == a + (b + c),
{
    assert((a + b) + c =~= a + (b + c));
}

/// The step that brings the locks in line with the peer's, who lists them among the
/// modifiers when they are on.
pub open spec fn sync_locks_op(platform: Platform, evt: KeyEvent, win_key: RdevKey) -> Op {
    Op::KeyState {
        key: Key::CapsLock,
        goal: Goal::Caps {
            caps: lists(evt.modifiers@, ControlKey::CapsLock),
            num: lists(evt.modifiers@, ControlKey::NumLock),
            num_disabled: platform == Platform::Windows && numlock_disabled(evt, win_key),
        },
    }
}

/// `win_key` is the key that Windows knows under the event's scan code.
pub fn sync_numlock_capslock_status(
    plan: &mut Vec<Op>,
    platform: Platform,
    key_event: &KeyEvent,
    win_key: RdevKey,
)
    ensures
        final(plan)@ == old(plan)@.push(sync_locks_op(platform, *key_event, win_key)),
{
    let caps: bool = is_modifier_in_key_event(ControlKey::CapsLock, key_event);
    let num: bool = is_modifier_in_key_event(ControlKey::NumLock, key_event);
    let num_disabled: bool = platform == Platform::Windows && is_numlock_disabled(
        key_event,
        win_key,
    );
    plan.push(
        Op::KeyState { key: Key::CapsLock, goal: Goal::Caps { caps, num, num_disabled } },
    );
}

/// The step that presses a key or lets it go.
pub open spec fn key_op(key: Key, down: bool) -> Op {
    if down {
        Op::Do(Command::KeyDown(key))
    } else {
        Op::Do(Command::KeyUp(key))
    }
}

/// The steps for an event whose code is a key code of this platform. Wayland takes
/// the key by the low 16 bits of its code; everything else goes through the
/// simulator.
pub open spec fn map_mode_ops(platform: Platform, is_x11: bool, evt: KeyEvent) -> Seq<Op> {
    let record = Op::Record { record_key: char_record(evt.code()), down: evt.down };
    match platform {
        Platform::Windows => seq![record, Op::Do(Command::TryChangeDesktop)] + simulate_ops(
            platform,
            raw_key(platform, evt.code()),
            evt.down,
        ),
        Platform::Linux if !is_x11 => seq![
            record,
            key_op(Key::Raw((evt.code() % 0x1_0000) as u16), evt.down),
        ],
        _ => seq![record] + simulate_ops(platform, raw_key(platform, evt.code()), evt.down),
    }
}

/// `is_x11` tells whether a Linux desktop is one of X11 rather than of Wayland.
pub fn map_keyboard_mode(plan: &mut Vec<Op>, platform: Platform, is_x11: bool, evt: &KeyEvent)
    ensures
        final(plan)@ == old(plan)@ + map_mode_ops(platform, is_x11, *evt),
{
    let record_key: u64 = char_record_key(evt.chr());
    plan.push(Op::Record { record_key, down: evt.down });
    if platform == Platform::Windows {
        plan.push(Op::Do(Command::TryChangeDesktop));
    }
    if platform == Platform::Linux && !is_x11 {
        let chr: u32 = evt.chr();
        assert(chr as u16 == chr % 0x1_0000) by (bit_vector);
        let code: u16 = chr as u16;
        if evt.down {
            plan.push(Op::Do(Command::KeyDown(Key::Raw(code))));
        } else {
            plan.push(Op::Do(Command::KeyUp(Key::Raw(code))));
        }
        assert(plan@ =~= old(plan)@ + map_mode_ops(platform, is_x11, *evt));
        return;
    }
    sim_rdev_rawkey(plan, platform, evt.chr(), evt.down);
    assert(plan@ =~= old(plan)@ + map_mode_ops(platform, is_x11, *evt));
}

/// The steps that set the flags of the modifiers that the peer holds, and no other.
pub open spec fn flag_ops(modifiers: Seq<i32>) -> Seq<Op> {
    seq![Op::Do(Command::ResetFlag)] + for_each_key(
        modifiers,
        |key: Key| seq![Op::Do(Command::AddFlag(key))],
    )
}

pub fn add_flags_to_enigo(plan: &mut Vec<Op>, modifiers: &Vec<i32>)
    ensures
        final(plan)@ == old(plan)@ + flag_ops(modifiers@),
{
    plan.push(Op::Do(Command::ResetFlag));
    let ghost start = plan@;
    let ghost ops = |key: Key| seq![Op::Do(Command::AddFlag(key))];
    let mut i: usize = 0;
    while i < modifiers.len()
        invariant
            i <= modifiers.len(),
            ops == |key: Key| seq![Op::Do(Command::AddFlag(key))],
            plan@ == start + for_each_key(modifiers@.take(i as int), ops),
        decreases modifiers.len() - i,
    {
        assert(modifiers@.take(i + 1).drop_last() =~= modifiers@.take(i as int));
        let ghost before = plan@;
        if let Some(key) = control_key_value_to_key(modifiers[i]) {
            plan.push(Op::Do(Command::AddFlag(key)));
            assert(plan@ =~= before + ops(key));
        }
        assert(plan@ =~= start + for_each_key(modifiers@.take(i + 1), ops));
        i = i + 1;
    }
    assert(modifiers@.take(i as int) =~= modifiers@);
    assert(plan@ =~= old(plan)@ + flag_ops(modifiers@));
}

pub fn release_unpressed_modifiers(plan: &mut Vec<Op>, key_event: &KeyEvent)
    ensures
        final(plan)@ == old(plan)@ + fix_modifiers_ops(
            key_event.modifiers@,
            key_event.control_key_code(),
        ),
{
    let ck_value: i32 = get_control_key_value(key_event);
    fix_modifiers(plan, &key_event.modifiers, ck_value);
}

/// The step that presses a modifier that the peer holds. On Linux the left alt key
/// stays up while the right one is down.
pub open spec fn press_op(platform: Platform, key: Key) -> Op {
    Op::ModifierState {
        key,
        goal: Goal::Press {
            key,
            spare_altgr: platform == Platform::Linux && key == Key::Alt,
        },
    }
}

/// The steps that press the modifiers that the peer holds.
pub open spec fn press_modifiers_ops(platform: Platform, modifiers: Seq<i32>) -> Seq<Op> {
    for_each_key(modifiers, |key: Key| seq![press_op(platform, key)])
}

pub fn press_modifiers(plan: &mut Vec<Op>, platform: Platform, key_event: &KeyEvent)
    ensures
        final(plan)@ == old(plan)@ + press_modifiers_ops(platform, key_event.modifiers@),
{
    let ghost ops = |key: Key| seq![press_op(platform, key)];
    let modifiers = &key_event.modifiers;
    let mut i: usize = 0;
    while i < modifiers.len()
        invariant
            i <= modifiers.len(),
            ops == |key: Key| seq![press_op(platform, key)],
            plan@ == old(plan)@ + for_each_key(modifiers@.take(i as int), ops),
        decreases modifiers.len() - i,
    {
        assert(modifiers@.take(i + 1).drop_last() =~= modifiers@.take(i as int));
        let ghost before = plan@;
        if let Some(key) = control_key_value_to_key(modifiers[i]) {
            let spare_altgr: bool = platform == Platform::Linux && key == Key::Alt;
            get_modifier_state(plan, key, Goal::Press { key, spare_altgr });
            assert(plan@ =~= before + ops(key));
        }
        assert(plan@ =~= old(plan)@ + for_each_key(modifiers@.take(i + 1), ops));
        i = i + 1;
    }
    assert(modifiers@.take(i as int) =~= modifiers@);
}

/// The steps that bring the modifiers in line with the peer's before a key.
pub open spec fn sync_modifiers_ops(platform: Platform, evt: KeyEvent) -> Seq<Op> {
    (if platform == Platform::MacOs {
        flag_ops(evt.modifiers@)
    } else {
        Seq::empty()
    }) + (if evt.down {
        fix_modifiers_ops(evt.modifiers@, evt.control_key_code())
    } else {
        Seq::empty()
    }) + (if evt.down && platform != Platform::MacOs {
        press_modifiers_ops(platform, evt.modifiers@)
    } else {
        Seq::empty()
    })
}

pub fn sync_modifiers(plan: &mut Vec<Op>, platform: Platform, key_event: &KeyEvent)
    ensures
        final(plan)@ == old(plan)@ + sync_modifiers_ops(platform, *key_event),
{
    if platform == Platform::MacOs {
        add_flags_to_enigo(plan, &key_event.modifiers);
    }
    if key_event.down {
        release_unpressed_modifiers(plan, key_event);
        if platform != Platform::MacOs {
            press_modifiers(plan, platform, key_event);
        }
    }
    assert(plan@ =~= old(plan)@ + sync_modifiers_ops(platform, *key_event));
}

/// The steps that press a control key or let it go.
pub open spec fn control_key_ops(ck: i32, down: bool) -> Seq<Op> {
    match local_key_of_code(ck) {
        Some(key) => seq![key_op(key, down)],
        None => Seq::empty(),
    }
}

pub fn process_control_key(plan: &mut Vec<Op>, ck: i32, down: bool)
    ensures
        final(plan)@ == old(plan)@ + control_key_ops(ck, down),
{
    if let Some(key) = control_key_value_to_key(ck) {
        if down {
            plan.push(Op::Do(Command::KeyDown(key)));
        } else {
            plan.push(Op::Do(Command::KeyUp(key)));
        }
    }
    assert(plan@ =~= old(plan)@ + control_key_ops(ck, down));
}

/// The step that presses the key of a character, or types it where there is no such
/// key; or that lets the key go.
pub open spec fn chr_op(chr: u32, down: bool) -> Op {
    if down {
        Op::Chr { key: layout_key(chr), chr: scalar(chr) }
    } else {
        Op::Do(Command::KeyUp(layout_key(chr)))
    }
}

pub fn process_chr(plan: &mut Vec<Op>, chr: u32, down: bool)
    ensures
        final(plan)@ == old(plan)@.push(chr_op(chr, down)),
{
    let key: Key = char_value_to_key(chr);
    if down {
        plan.push(Op::Chr { key, chr: std::char::from_u32(chr) });
    } else {
        plan.push(Op::Do(Command::KeyUp(key)));
    }
}

/// The steps that type a character.
pub open spec fn unicode_ops(chr: u32) -> Seq<Op> {
    match scalar(chr) {
        Some(c) => seq![Op::TypeChar(c)],
        None => Seq::empty(),
    }
}

pub fn process_unicode(plan: &mut Vec<Op>, chr: u32)
    ensures
        final(plan)@ == old(plan)@ + unicode_ops(chr),
{
    if let Some(c) = std::char::from_u32(chr) {
        plan.push(Op::TypeChar(c));
    }
    assert(plan@ =~= old(plan)@ + unicode_ops(chr));
}

pub fn process_seq(plan: &mut Vec<Op>)
    ensures
        final(plan)@ == old(plan)@.push(Op::TypeText),
{
    plan.push(Op::TypeText);
}

pub fn release_keys(plan: &mut Vec<Op>)
    ensures
        final(plan)@ == old(plan)@.push(Op::ReleasePressed),
{
    plan.push(Op::ReleasePressed);
}

/// What a control key asks for that is no key press.
pub open spec fn function_command(ck: i32) -> Option<Command> {
    match ControlKey::of_code(ck) {
        Some(ControlKey::CtrlAltDel) => Some(Command::SendSas),
        Some(ControlKey::LockScreen) => Some(Command::LockScreen),
        _ => None,
    }
}

pub fn is_function_key(plan: &mut Vec<Op>, ck: i32) -> (res: bool)
    ensures
        res == function_command(ck) is Some,
        final(plan)@ == (match function_command(ck) {
            Some(command) => old(plan)@.push(Op::Do(command)),
            None => old(plan)@,
        }),
{
    let mut res: bool = false;
    if ck == ControlKey::CtrlAltDel.value() {
        plan.push(Op::Do(Command::SendSas));
        res = true;
    } else if ck == ControlKey::LockScreen.value() {
        plan.push(Op::Do(Command::LockScreen));
        res = true;
    }
    res
}

/// The steps for what an event is about.
pub open spec fn union_ops(evt: KeyEvent) -> Seq<Op> {
    match evt.union {
        Some(KeyUnion::ControlKey(ck)) => match function_command(ck) {
            Some(command) => seq![Op::Do(command)],
            None => seq![Op::Record { record_key: control_record(ck), down: evt.down }]
                + control_key_ops(ck, evt.down),
        },
        Some(KeyUnion::Chr(chr)) => seq![
            Op::Record { record_key: char_record(chr), down: evt.down },
            chr_op(chr, evt.down),
        ],
        Some(KeyUnion::Unicode(chr)) => unicode_ops(chr),
        Some(KeyUnion::Sequence(_)) => seq![Op::TypeText],
        None => Seq::empty(),
    }
}

/// Whether an event asks for something that is no key press.
pub open spec fn is_function_event(evt: KeyEvent) -> bool {
    evt.union matches Some(KeyUnion::ControlKey(ck)) && function_command(ck) is Some
}

/// The steps for an event that is about a key of the peer's layout. What asks for
/// something else than a key press ends the handling there and then.
pub open spec fn legacy_mode_ops(platform: Platform, evt: KeyEvent) -> Seq<Op> {
    (if platform == Platform::Windows {
        seq![Op::Do(Command::TryChangeDesktop)]
    } else {
        Seq::empty()
    }) + sync_modifiers_ops(platform, evt) + union_ops(evt) + (if platform == Platform::MacOs
        || is_function_event(evt) {
        Seq::empty()
    } else {
        seq![Op::ReleasePressed]
    })
}

pub fn legacy_keyboard_mode(plan: &mut Vec<Op>, platform: Platform, evt: &KeyEvent)
    ensures
        final(plan)@ == old(plan)@ + legacy_mode_ops(platform, *evt),
{
    let ghost desktop: Seq<Op> = if platform == Platform::Windows {
        seq![Op::Do(Command::TryChangeDesktop)]
    } else {
        Seq::empty()
    };
    if platform == Platform::Windows {
        plan.push(Op::Do(Command::TryChangeDesktop));
    }
    assert(plan@ =~= old(plan)@ + desktop);
    sync_modifiers(plan, platform, evt);
    let done: bool = process_union(plan, evt);
    assert(plan@ =~= old(plan)@ + (desktop + sync_modifiers_ops(platform, *evt) + union_ops(*evt)));
    if !done && platform != Platform::MacOs {
        release_keys(plan);
    }
    assert(plan@ =~= old(plan)@ + legacy_mode_ops(platform, *evt));
}

/// Adds the steps for what an event is about, and tells whether it asks for
/// something that is no key press.
fn process_union(plan: &mut Vec<Op>, evt: &KeyEvent) -> (done: bool)
    ensures
        final(plan)@ == old(plan)@ + union_ops(*evt),
        done == is_function_event(*evt),
{
    let down: bool = evt.down;
    match &evt.union {
        Some(KeyUnion::ControlKey(ck)) => {
            if is_function_key(plan, *ck) {
                assert(plan@ =~= old(plan)@ + union_ops(*evt));
                return true;
            }
            let record_key: u64 = control_record_key(*ck);
            plan.push(Op::Record { record_key, down });
            process_control_key(plan, *ck, down);
        },
        Some(KeyUnion::Chr(chr)) => {
            let record_key: u64 = char_record_key(*chr);
            plan.push(Op::Record { record_key, down });
            process_chr(plan, *chr, down);
        },
        Some(KeyUnion::Unicode(chr)) => {
            process_unicode(plan, *chr);
        },
        Some(KeyUnion::Sequence(_)) => {
            process_seq(plan);
        },
        None => {},
    }
    assert(plan@ =~= old(plan)@ + union_ops(*evt));
    false
}

/// The steps for a key event.
pub open spec fn handle_key_ops(
    platform: Platform,
    is_x11: bool,
    evt: KeyEvent,
    win_key: RdevKey,
) -> Seq<Op> {
    (if evt.down {
        seq![sync_locks_op(platform, evt, win_key)]
    } else {
        Seq::empty()
    }) + (match evt.mode {
        KeyboardMode::MapKeys => map_mode_ops(platform, is_x11, evt),
        _ => legacy_mode_ops(platform, evt),
    })
}

/// The handling of a key event, which is one that does nothing once the service is
/// exiting.
pub open spec fn key_session(
    exiting: bool,
    platform: Platform,
    is_x11: bool,
    evt: KeyEvent,
    win_key: RdevKey,
) -> SessionView {
    fresh(
        platform,
        evt.text(),
        if exiting {
            Seq::empty()
        } else {
            handle_key_ops(platform, is_x11, evt, win_key)
        },
    )
}

/// What becomes of an event.
pub enum Handling<E> {
    /// It is handled right here.
    Here(Session),
    /// It is to be handled in the main queue of the process.
    InMainQueue(E),
    /// It is to be handed to the portable service.
    ByPortableService,
}

/// Takes a key event in: begins its handling, or says where else it is handled.
/// `is_server` tells whether the process was started as the server, without a window;
/// the rest is as for `handle_key_`.
pub fn handle_key(
    exiting: bool,
    platform: Platform,
    is_server: bool,
    is_x11: bool,
    evt: &KeyEvent,
    win_key: RdevKey,
) -> (res: Handling<KeyEvent>)
    ensures
        match route(platform, is_server) {
            Route::Direct => res matches Handling::Here(session) && session@ == key_session(
                exiting,
                platform,
                is_x11,
                *evt,
                win_key,
            ),
            Route::MainQueue => res matches Handling::InMainQueue(copy) && copy.same(*evt),
            Route::PortableService => res is ByPortableService,
        },
        platform == Platform::Linux ==> (res matches Handling::Here(session) && session@
            == key_session(exiting, platform, is_x11, *evt, win_key)),
{
    match event_route(platform, is_server) {
        Route::Direct => Handling::Here(handle_key_(exiting, platform, is_x11, evt, win_key)),
        Route::MainQueue => Handling::InMainQueue(evt.clone()),
        Route::PortableService => Handling::ByPortableService,
    }
}

/// Begins the handling of a key event; nothing is done for one once the service is
/// exiting. `is_x11` tells whether a Linux desktop is one of X11 rather than of
/// Wayland, `win_key` is the key that Windows knows under the event's scan code.
pub fn handle_key_(
    exiting: bool,
    platform: Platform,
    is_x11: bool,
    evt: &KeyEvent,
    win_key: RdevKey,
) -> (session: Session)
    ensures
        session@ == key_session(exiting, platform, is_x11, *evt, win_key),
{
    let mut plan: Vec<Op> = Vec::new();
    if exiting {
        return Session::new(platform, evt.seq(), plan);
    }
    if evt.down {
        sync_numlock_capslock_status(&mut plan, platform, evt, win_key);
    }
    match evt.mode {
        KeyboardMode::MapKeys => {
            map_keyboard_mode(&mut plan, platform, is_x11, evt);
        },
        KeyboardMode::Translate => {
            legacy_keyboard_mode(&mut plan, platform, evt);
        },
        _ => {
            legacy_keyboard_mode(&mut plan, platform, evt);
        },
    }
    assert(plan@ =~= handle_key_ops(platform, is_x11, *evt, win_key));
    Session::new(platform, evt.seq(), plan)
}

/// How the screen is locked.
#[derive(Debug)]
pub enum LockScreen {
    /// By handling some key events, one after the other.
    Keys(Vec<KeyEvent>),
    /// By the platform's own means.
    Native,
}

/// The character and the modifiers that lock the screen, where keys lock it.
pub open spec fn lock_keys(platform: Platform) -> Option<(char, Seq<i32>)> {
    match platform {
        Platform::Linux => Some(('l', seq![ControlKey::Meta.code()])),
        Platform::MacOs => Some(
            ('q', seq![ControlKey::Meta.code(), ControlKey::Control.code()]),
        ),
        Platform::Windows => None,
    }
}

/// Whether an event is about a character, under some modifiers.
pub open spec fn is_chr_event(evt: KeyEvent, chr: char, modifiers: Seq<i32>, down: bool) -> bool {
    &&& evt.down == down
    &&& evt.union == Some(KeyUnion::Chr(chr as u32))
    &&& evt.modifiers@ == modifiers
    &&& evt.mode == KeyboardMode::Legacy
}

/// The events of a character going down and up, under some modifiers.
fn chr_events(chr: char, modifiers: Vec<i32>) -> (events: Vec<KeyEvent>)
    ensures
        events.len() == 2,
        is_chr_event(events[0], chr, modifiers@, true),
        is_chr_event(events[1], chr, modifiers@, false),
{
    let down = KeyEvent {
        down: true,
        union: Some(KeyUnion::Chr(chr as u32)),
        modifiers: modifiers.clone(),
        mode: KeyboardMode::Legacy,
    };
    assert(down.modifiers@ =~= modifiers@);
    let up = KeyEvent {
        down: false,
        union: Some(KeyUnion::Chr(chr as u32)),
        modifiers,
        mode: KeyboardMode::Legacy,
    };
    let mut events: Vec<KeyEvent> = Vec::new();
    events.push(down);
    events.push(up);
    events
}

/// Says how the screen is locked: by a key going down and up where the desktop has
/// a shortcut for it.
pub fn lock_screen(platform: Platform) -> (res: LockScreen)
    ensures
        match lock_keys(platform) {
            Some((chr, modifiers)) => res matches LockScreen::Keys(events) && events.len() == 2
                && is_chr_event(events[0], chr, modifiers, true) && is_chr_event(
                events[1],
                chr,
                modifiers,
                false,
            ),
            None => res is Native,
        },
{
    match platform {
        Platform::Linux => {
            let modifiers: Vec<i32> = vec![ControlKey::Meta.value()];
            assert(modifiers@ =~= seq![ControlKey::Meta.code()]);
            LockScreen::Keys(chr_events('l', modifiers))
        },
        Platform::MacOs => {
            let modifiers: Vec<i32> = vec![ControlKey::Meta.value(), ControlKey::Control.value()];
            assert(modifiers@ =~= seq![ControlKey::Meta.code(), ControlKey::Control.code()]);
            LockScreen::Keys(chr_events('q', modifiers))
        },
        Platform::Windows => LockScreen::Native,
    }
}

/// Events are handled right here on Linux, and on macOS where there is no window; in
/// the main queue on macOS where there is one; and by the portable service on Windows.
pub proof fn law_events_have_their_places(is_server: bool)
    ensures
        route(Platform::Linux, is_server) == Route::Direct,
        route(Platform::Windows, is_server) == Route::PortableService,
        route(Platform::MacOs, true) == Route::Direct,
        route(Platform::MacOs, false) == Route::MainQueue,
{
}

/// Two control keys ask for something that is no key press, in any mode but that of
/// key codes.
pub proof fn law_functions_are_two(evt: KeyEvent)
    ensures
        is_function_event(evt) <==> evt.union == Some(KeyUnion::ControlKey(100)) || evt.union
            == Some(KeyUnion::ControlKey(101)),
{
}

/// The screen is locked by Super and L on Linux, by Command, Control and Q on macOS, and
/// by no keys on Windows.
pub proof fn law_screen_is_locked_by_shortcut()
    ensures
        lock_keys(Platform::Linux) matches Some((c, m)) && c == 'l' && m == seq![23i32],
        lock_keys(Platform::MacOs) matches Some((c, m)) && c == 'q' && m == seq![23i32, 4i32],
        lock_keys(Platform::Windows) is None,
{
}

} // verus!
