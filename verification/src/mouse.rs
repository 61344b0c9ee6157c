use vstd::prelude::*;

use crate::events::{contains_control_key, lists, MouseEvent};
use crate::keyboard::{
    add_flags_to_enigo, event_route, fix_modifiers, fix_modifiers_ops, flag_ops, for_each_key,
    get_modifier_state, release_keys, route, Handling, Route,
};
use crate::keys::{control_key_value_to_key, ControlKey, Key, MouseButton, Platform};
use crate::script::{Command, Goal, Op};
use crate::session::{fresh, Session, SessionView};

verus! {

/// The position of a cursor that has not been seen yet.
pub const INVALID_CURSOR_POS: i32 = i32::MIN;

/// The position of an input that has been overruled: half of `INVALID_CURSOR_POS`,
/// so that its distance from a position on a screen can still be told.
pub const LOST_INPUT_POS: i32 = -1_073_741_824;

/// How long a move of the cursor on this side keeps the peers from moving it, in
/// nanoseconds.
pub const MOUSE_MOVE_PROTECTION_TIMEOUT: u64 = 1_000_000_000;

/// How far the cursor may be from where a peer has put it. The two differ by one at
/// most, but a bit more does no harm.
pub const MOUSE_ACTIVE_DISTANCE: i32 = 5;

/// The pause that lets the cursor arrive where a peer has put it, in nanoseconds.
pub const CURSOR_SETTLE_SLEEP: u64 = 10_000;

/// The last move that a peer made: by which connection, when in milliseconds of the
/// wall clock, and where to.
#[derive(Clone, Copy, Debug, PartialEq, Eq, Structural)]
pub struct Input {
    pub conn: i32,
    pub time: i64,
    pub x: i32,
    pub y: i32,
}

impl Default for Input {
    fn default() -> (input: Input)
        ensures
            input == (Input { conn: 0, time: 0, x: 0, y: 0 }),
    {
        Input { conn: 0, time: 0, x: 0, y: 0 }
    }
}

/// The position that the cursor was last seen at, and when it got there in
/// nanoseconds of a clock that never runs back.
#[derive(Clone, Copy, Debug, PartialEq, Eq, Structural)]
pub struct SysCursorPos {
    pub time: u64,
    pub x: i32,
    pub y: i32,
}

impl SysCursorPos {
    /// The position before the cursor was seen, from so long ago that it protects
    /// nothing.
    pub fn new(now: u64) -> (pos: SysCursorPos)
        requires
            now >= MOUSE_MOVE_PROTECTION_TIMEOUT,
        ensures
            pos == (SysCursorPos {
                time: (now - MOUSE_MOVE_PROTECTION_TIMEOUT) as u64,
                x: 0,
                y: 0,
            }),
    {
        SysCursorPos { time: now - MOUSE_MOVE_PROTECTION_TIMEOUT, x: 0, y: 0 }
    }

    /// Whether a move of the cursor on this side still keeps the peers from moving
    /// it.
    pub open spec fn protects(self, now: u64) -> bool {
        now - self.time <= MOUSE_MOVE_PROTECTION_TIMEOUT
    }
}

/// The last position after the cursor was seen at one.
pub open spec fn seen_at(latest: SysCursorPos, x: i32, y: i32, now: u64) -> SysCursorPos {
    if latest.x != x || latest.y != y {
        SysCursorPos { time: now, x, y }
    } else {
        latest
    }
}

pub fn update_last_cursor_pos(latest: &mut SysCursorPos, x: i32, y: i32, now: u64)
    ensures
        *final(latest) == seen_at(*old(latest), x, y, now),
{
    if latest.x != x || latest.y != y {
        *latest = SysCursorPos { time: now, x, y };
    }
}

/// Whether the distance of two coordinates fits the type of a coordinate.
pub open spec fn measurable(a: i32, b: i32) -> bool {
    i32::MIN < a - b <= i32::MAX
}

/// Whether two coordinates are as good as the same.
pub open spec fn near(a: i32, b: i32) -> bool {
    -MOUSE_ACTIVE_DISTANCE < a - b < MOUSE_ACTIVE_DISTANCE
}

pub fn in_actived_dist(a: i32, b: i32) -> (res: bool)
    requires
        measurable(a, b),
    ensures
        res == near(a, b),
{
    let d: i32 = a - b;
    let abs: i32 = if d < 0 {
        -d
    } else {
        d
    };
    abs < MOUSE_ACTIVE_DISTANCE
}

/// Where the decision stands on whether a peer may use the mouse.
#[derive(Clone, Copy, Debug, PartialEq, Eq, Structural)]
pub enum MouseGate {
    /// It may.
    Open,
    /// It may not.
    Shut,
    /// Look where the cursor is.
    Look,
    /// Wait for `CURSOR_SETTLE_SLEEP`, then look again where the cursor is. The
    /// position is the one that the peer has put it at.
    LookAgain { x: i32, y: i32 },
}

/// Whether the cursor is where a peer has put it.
pub open spec fn at_input(x: i32, y: i32, pos: (i32, i32)) -> bool {
    near(x, pos.0) && near(y, pos.1)
}

/// Whether it can be told if the cursor is where a peer has put it.
pub open spec fn comparable(x: i32, y: i32, pos: Option<(i32, i32)>) -> bool {
    match pos {
        Some((px, py)) => measurable(x, px) && (near(x, px) ==> measurable(y, py)),
        None => true,
    }
}

/// Where the decision stands before the cursor has been looked at.
pub open spec fn first_gate(sys: SysCursorPos, peer: Input, conn: i32, now: u64) -> MouseGate {
    if !sys.protects(now) {
        MouseGate::Open
    } else if peer.conn != conn {
        MouseGate::Shut
    } else {
        MouseGate::Look
    }
}

/// Begins the decision on whether the peer of a connection may use the mouse: while
/// the cursor moves on this side, only the peer may that moved it last, and only if
/// the cursor still is where that peer has put it.
pub fn active_mouse_(sys: &SysCursorPos, peer: &Input, conn: i32, now: u64) -> (gate: MouseGate)
    ensures
        gate == first_gate(*sys, *peer, conn, now),
{
    if now.saturating_sub(sys.time) > MOUSE_MOVE_PROTECTION_TIMEOUT {
        return MouseGate::Open;
    }
    if peer.conn != conn {
        return MouseGate::Shut;
    }
    MouseGate::Look
}

/// Where the decision stands after a look, and the last input, whose position is
/// given up with the decision against the peer.
pub open spec fn looked(gate: MouseGate, peer: Input, pos: Option<(i32, i32)>) -> (
    MouseGate,
    Input,
) {
    match gate {
        MouseGate::Look => match pos {
            Some(pos) if !at_input(peer.x, peer.y, pos) => (
                MouseGate::LookAgain { x: peer.x, y: peer.y },
                peer,
            ),
            _ => (MouseGate::Open, peer),
        },
        MouseGate::LookAgain { x, y } => match pos {
            Some(pos) if at_input(x, y, pos) => (MouseGate::Open, peer),
            _ => (MouseGate::Shut, Input { x: LOST_INPUT_POS, y: LOST_INPUT_POS, ..peer }),
        },
        _ => (gate, peer),
    }
}

impl MouseGate {
    /// Whether the decision can go on from a look that found the cursor at `pos`.
    pub open spec fn can_look(self, peer: Input, pos: Option<(i32, i32)>) -> bool {
        match self {
            MouseGate::Look => comparable(peer.x, peer.y, pos),
            MouseGate::LookAgain { x, y } => comparable(x, y, pos),
            _ => true,
        }
    }

    /// Goes on with the decision after a look, which may not have found the cursor.
    pub fn look(self, peer: &mut Input, pos: Option<(i32, i32)>) -> (gate: MouseGate)
        requires
            self.can_look(*old(peer), pos),
        ensures
            (gate, *final(peer)) == looked(self, *old(peer), pos),
    {
        match self {
            MouseGate::Look => {
                if let Some((x, y)) = pos {
                    let last_in_x: i32 = peer.x;
                    let last_in_y: i32 = peer.y;
                    if !(in_actived_dist(last_in_x, x) && in_actived_dist(last_in_y, y)) {
                        return MouseGate::LookAgain { x: last_in_x, y: last_in_y };
                    }
                }
                MouseGate::Open
            },
            MouseGate::LookAgain { x: last_in_x, y: last_in_y } => {
                let mut can_active: bool = false;
                if let Some((x2, y2)) = pos {
                    can_active = in_actived_dist(last_in_x, x2) && in_actived_dist(last_in_y, y2);
                }
                if !can_active {
                    peer.x = LOST_INPUT_POS;
                    peer.y = LOST_INPUT_POS;
                    return MouseGate::Shut;
                }
                MouseGate::Open
            },
            MouseGate::Open => MouseGate::Open,
            MouseGate::Shut => MouseGate::Shut,
        }
    }
}

/// Where a mouse event of a connection is handled, if the decision on its peer let it
/// through, and the last input after it.
pub open spec fn passed_on(
    platform: Platform,
    is_server: bool,
    active: bool,
    evt: MouseEvent,
    conn: i32,
    time: i64,
    peer: Input,
) -> (Option<Route>, Input) {
    if !active {
        (None, peer)
    } else if evt.kind() == 0 {
        (Some(route(platform, is_server)), Input { conn, time, x: evt.x, y: evt.y })
    } else {
        (Some(route(platform, is_server)), peer)
    }
}

/// Whether something becomes of a mouse event that fits where it is handled.
pub open spec fn is_handled(
    res: Option<Handling<MouseEvent>>,
    route: Option<Route>,
    exiting: bool,
    platform: Platform,
    evt: MouseEvent,
) -> bool {
    match route {
        Some(Route::Direct) => res matches Some(Handling::Here(session)) && session@
            == mouse_session(exiting, platform, evt),
        Some(Route::MainQueue) => res matches Some(Handling::InMainQueue(copy)) && copy.same(evt),
        Some(Route::PortableService) => res matches Some(Handling::ByPortableService),
        None => res is None,
    }
}

/// Takes a mouse event of a connection in: begins its handling, or says where else it
/// is handled, if at all. `active` is the outcome of the decision that `active_mouse_`
/// begins; a move is noted as the last input, at the wall clock's `time`.
pub fn handle_mouse(
    exiting: bool,
    platform: Platform,
    is_server: bool,
    active: bool,
    evt: &MouseEvent,
    conn: i32,
    time: i64,
    peer: &mut Input,
) -> (res: Option<Handling<MouseEvent>>)
    requires
        active && route(platform, is_server) == Route::Direct && !exiting && (evt.kind() == 3
            || evt.kind() == 4) ==> can_scroll(platform, *evt),
    ensures
        ({
            let (route, input) = passed_on(
                platform,
                is_server,
                active,
                *evt,
                conn,
                time,
                *old(peer),
            );
            is_handled(res, route, exiting, platform, *evt) && *final(peer) == input
        }),
        platform == Platform::Linux && active ==> (res matches Some(Handling::Here(session))
            && session@ == mouse_session(exiting, platform, *evt)),
{
    if !active {
        return None;
    }
    let evt_type: i32 = evt.event_type();
    if evt_type == 0 {
        *peer = Input { conn, time, x: evt.x, y: evt.y };
    }
    match event_route(platform, is_server) {
        Route::Direct => Some(Handling::Here(handle_mouse_(exiting, platform, evt))),
        Route::MainQueue => Some(Handling::InMainQueue(evt.clone())),
        Route::PortableService => Some(Handling::ByPortableService),
    }
}

/// The steps that press the modifiers that the peer holds, but for the locks.
pub open spec fn press_mouse_modifiers_ops(modifiers: Seq<i32>) -> Seq<Op> {
    for_each_key(modifiers, |key: Key| press_unless_lock_ops(key))
}

pub open spec fn press_unless_lock_ops(key: Key) -> Seq<Op> {
    if key == Key::CapsLock || key == Key::NumLock {
        Seq::empty()
    } else {
        seq![Op::ModifierState { key, goal: Goal::Press { key, spare_altgr: false } }]
    }
}

fn press_mouse_modifiers(plan: &mut Vec<Op>, modifiers: &Vec<i32>)
    ensures
        final(plan)@ == old(plan)@ + press_mouse_modifiers_ops(modifiers@),
{
    let ghost ops = |key: Key| press_unless_lock_ops(key);
    let mut i: usize = 0;
    while i < modifiers.len()
        invariant
            i <= modifiers.len(),
            ops == |key: Key| press_unless_lock_ops(key),
            plan@ == old(plan)@ + for_each_key(modifiers@.take(i as int), ops),
        decreases modifiers.len() - i,
    {
        assert(modifiers@.take(i + 1).drop_last() =~= modifiers@.take(i as int));
        let ghost before = plan@;
        if let Some(key) = control_key_value_to_key(modifiers[i]) {
            if key != Key::CapsLock && key != Key::NumLock {
                get_modifier_state(plan, key, Goal::Press { key, spare_altgr: false });
            }
            assert(plan@ =~= before + ops(key));
        }
        assert(plan@ =~= old(plan)@ + for_each_key(modifiers@.take(i + 1), ops));
        i = i + 1;
    }
    assert(modifiers@.take(i as int) =~= modifiers@);
}

/// The steps that bring the modifiers in line with the peer's before a button goes
/// down.
pub open spec fn button_modifiers_ops(platform: Platform, modifiers: Seq<i32>) -> Seq<Op> {
    fix_modifiers_ops(modifiers, 0) + if platform == Platform::MacOs {
        flag_ops(modifiers)
    } else {
        press_mouse_modifiers_ops(modifiers)
    }
}

/// The button that a number stands for.
pub open spec fn button_of(buttons: int) -> Option<MouseButton> {
    if buttons == 1 {
        Some(MouseButton::Left)
    } else if buttons == 2 {
        Some(MouseButton::Right)
    } else if buttons == 4 {
        Some(MouseButton::Middle)
    } else {
        None
    }
}

fn event_button(evt: &MouseEvent) -> (button: Option<MouseButton>)
    ensures
        button == button_of(evt.buttons()),
{
    match evt.event_buttons() {
        1 => Some(MouseButton::Left),
        2 => Some(MouseButton::Right),
        4 => Some(MouseButton::Middle),
        _ => None,
    }
}

/// How far to scroll: only Windows counts in the direction that the peer does, and
/// on macOS shift makes a wheel scroll sideways.
pub open spec fn scroll_lengths(platform: Platform, evt: MouseEvent) -> (int, int) {
    if platform == Platform::Windows {
        (evt.x as int, evt.y as int)
    } else if platform == Platform::MacOs && !lists(evt.modifiers@, ControlKey::Scroll) && lists(
        evt.modifiers@,
        ControlKey::Shift,
    ) {
        (-evt.y, 0)
    } else {
        (-evt.x, -evt.y)
    }
}

/// The steps that scroll; a direction without a length is left out.
pub open spec fn scroll_ops(platform: Platform, evt: MouseEvent) -> Seq<Op> {
    let (x, y) = scroll_lengths(platform, evt);
    let track_pad = platform == Platform::MacOs && lists(evt.modifiers@, ControlKey::Scroll);
    (if x != 0 {
        seq![Op::Do(Command::MouseScrollX { length: x as i32, track_pad })]
    } else {
        Seq::empty()
    }) + (if y != 0 {
        seq![Op::Do(Command::MouseScrollY { length: y as i32, track_pad })]
    } else {
        Seq::empty()
    })
}

/// Whether a length has a counterpart in the other direction, where one is needed.
pub open spec fn can_scroll(platform: Platform, evt: MouseEvent) -> bool {
    platform == Platform::Windows || (evt.x != i32::MIN && evt.y != i32::MIN)
}

fn scroll(plan: &mut Vec<Op>, platform: Platform, evt: &MouseEvent)
    requires
        can_scroll(platform, *evt),
    ensures
        final(plan)@ == old(plan)@ + scroll_ops(platform, *evt),
{
    let mut x: i32 = evt.x;
    let mut y: i32 = evt.y;
    if platform != Platform::Windows {
        x = -x;
        y = -y;
    }
    let mut track_pad: bool = false;
    if platform == Platform::MacOs {
        track_pad = contains_control_key(&evt.modifiers, ControlKey::Scroll);
        if !track_pad && contains_control_key(&evt.modifiers, ControlKey::Shift) {
            x = y;
            y = 0;
        }
    }
    if x != 0 {
        plan.push(Op::Do(Command::MouseScrollX { length: x, track_pad }));
    }
    if y != 0 {
        plan.push(Op::Do(Command::MouseScrollY { length: y, track_pad }));
    }
    assert(plan@ =~= old(plan)@ + scroll_ops(platform, *evt));
}

/// The steps for what a mouse event is about.
pub open spec fn mouse_ops(platform: Platform, evt: MouseEvent) -> Seq<Op> {
    let kind = evt.kind();
    if kind == 0 {
        seq![Op::Do(Command::MouseMoveTo(evt.x, evt.y))]
    } else if kind == 1 {
        match button_of(evt.buttons()) {
            Some(button) => seq![Op::Do(Command::MouseDown(button))],
            None => Seq::empty(),
        }
    } else if kind == 2 {
        match button_of(evt.buttons()) {
            Some(button) => seq![Op::Do(Command::MouseUp(button))],
            None => Seq::empty(),
        }
    } else if kind == 3 || kind == 4 {
        scroll_ops(platform, evt)
    } else {
        Seq::empty()
    }
}

fn process_mouse(plan: &mut Vec<Op>, platform: Platform, evt: &MouseEvent)
    requires
        evt.kind() == 3 || evt.kind() == 4 ==> can_scroll(platform, *evt),
    ensures
        final(plan)@ == old(plan)@ + mouse_ops(platform, *evt),
{
    match evt.event_type() {
        0 => {
            plan.push(Op::Do(Command::MouseMoveTo(evt.x, evt.y)));
        },
        1 => {
            if let Some(button) = event_button(evt) {
                plan.push(Op::Do(Command::MouseDown(button)));
            }
        },
        2 => {
            if let Some(button) = event_button(evt) {
                plan.push(Op::Do(Command::MouseUp(button)));
            }
        },
        3 | 4 => {
            scroll(plan, platform, evt);
        },
        _ => {},
    }
    assert(plan@ =~= old(plan)@ + mouse_ops(platform, *evt));
}

/// The steps for a mouse event.
pub open spec fn handle_mouse_ops(platform: Platform, evt: MouseEvent) -> Seq<Op> {
    (if platform == Platform::Windows {
        seq![Op::Do(Command::TryChangeDesktop)]
    } else {
        Seq::empty()
    }) + (if evt.kind() == 1 {
        button_modifiers_ops(platform, evt.modifiers@)
    } else {
        Seq::empty()
    }) + mouse_ops(platform, evt) + (if platform == Platform::MacOs {
        Seq::empty()
    } else {
        seq![Op::ReleasePressed]
    })
}

/// The handling of a mouse event, which is one that does nothing once the service is
/// exiting.
pub open spec fn mouse_session(exiting: bool, platform: Platform, evt: MouseEvent) -> SessionView {
    fresh(
        platform,
        Seq::empty(),
        if exiting {
            Seq::empty()
        } else {
            handle_mouse_ops(platform, evt)
        },
    )
}

/// Begins the handling of a mouse event; nothing is done for one once the service
/// is exiting.
pub fn handle_mouse_(exiting: bool, platform: Platform, evt: &MouseEvent) -> (session: Session)
    requires
        !exiting && (evt.kind() == 3 || evt.kind() == 4) ==> can_scroll(platform, *evt),
    ensures
        session@ == mouse_session(exiting, platform, *evt),
{
    let mut plan: Vec<Op> = Vec::new();
    if exiting {
        return Session::new(platform, String::new(), plan);
    }
    if platform == Platform::Windows {
        plan.push(Op::Do(Command::TryChangeDesktop));
    }
    let ghost desktop = plan@;
    if evt.event_type() == 1 {
        fix_modifiers(&mut plan, &evt.modifiers, 0);
        if platform == Platform::MacOs {
            add_flags_to_enigo(&mut plan, &evt.modifiers);
        } else {
            press_mouse_modifiers(&mut plan, &evt.modifiers);
        }
        assert(plan@ =~= desktop + button_modifiers_ops(platform, evt.modifiers@));
    }
    process_mouse(&mut plan, platform, evt);
    if platform != Platform::MacOs {
        release_keys(&mut plan);
    }
    assert(plan@ =~= handle_mouse_ops(platform, *evt));
    Session::new(platform, String::new(), plan)
}

/// The steps that move the cursor by some distance.
pub open spec fn relative_move_ops(x: i32, y: i32) -> Seq<Op> {
    seq![Op::Do(Command::TryChangeDesktop), Op::Do(Command::MouseMoveRelative(x, y))]
}

/// The steps that move the cursor by some distance.
pub fn mouse_move_relative(x: i32, y: i32) -> (plan: Vec<Op>)
    ensures
        plan@ == seq![
            Op::Do(Command::TryChangeDesktop),
            Op::Do(Command::MouseMoveRelative(x, y)),
        ],
        plan@ == relative_move_ops(x, y),
{
    let mut plan: Vec<Op> = Vec::new();
    plan.push(Op::Do(Command::TryChangeDesktop));
    plan.push(Op::Do(Command::MouseMoveRelative(x, y)));
    assert(plan@ =~= seq![
        Op::Do(Command::TryChangeDesktop),
        Op::Do(Command::MouseMoveRelative(x, y)),
    ]);
    plan
}

/// A peer may always use the mouse when the cursor has not moved on this side for
/// longer than the protection lasts.
pub proof fn law_protection_ends(sys: SysCursorPos, peer: Input, conn: i32, now: u64)
    requires
        now - sys.time > MOUSE_MOVE_PROTECTION_TIMEOUT,
    ensures
        first_gate(sys, peer, conn, now) == MouseGate::Open,
{
}

/// While the cursor is protected, a peer other than the last one is turned away
/// without a look at the cursor, and the last one is let in if the cursor is where
/// that peer has put it.
pub proof fn law_protection_spares_last_peer(
    sys: SysCursorPos,
    peer: Input,
    conn: i32,
    now: u64,
    pos: (i32, i32),
)
    requires
        sys.protects(now),
    ensures
        peer.conn != conn ==> first_gate(sys, peer, conn, now) == MouseGate::Shut,
        peer.conn == conn && at_input(peer.x, peer.y, pos) ==> looked(
            first_gate(sys, peer, conn, now),
            peer,
            Some(pos),
        ) == (MouseGate::Open, peer),
{
}

/// The decision on a peer after two looks, and the last input after it. Looks that
/// are not needed change nothing.
pub open spec fn decided(
    sys: SysCursorPos,
    peer: Input,
    conn: i32,
    now: u64,
    first: Option<(i32, i32)>,
    second: Option<(i32, i32)>,
) -> (MouseGate, Input) {
    let (gate1, peer1) = looked(first_gate(sys, peer, conn, now), peer, first);
    looked(gate1, peer1, second)
}

/// The decision takes two looks at most, whatever they find, and it only touches
/// the last input where it goes against the peer.
pub proof fn law_gate_decides(
    sys: SysCursorPos,
    peer: Input,
    conn: i32,
    now: u64,
    first: Option<(i32, i32)>,
    second: Option<(i32, i32)>,
)
    ensures
        ({
            let (gate, peer2) = decided(sys, peer, conn, now, first, second);
            &&& gate == MouseGate::Open || gate == MouseGate::Shut
            &&& gate == MouseGate::Open ==> peer2 == peer
            &&& peer2.conn == peer.conn && peer2.time == peer.time
        }),
{
}

/// While the cursor is protected, an event of another connection than the last one
/// is passed on to nobody and leaves the last input as it was.
pub proof fn law_other_peers_are_turned_away(
    sys: SysCursorPos,
    peer: Input,
    conn: i32,
    now: u64,
    first: Option<(i32, i32)>,
    second: Option<(i32, i32)>,
    platform: Platform,
    is_server: bool,
    evt: MouseEvent,
    time: i64,
)
    requires
        sys.protects(now),
        peer.conn != conn,
    ensures
        ({
            let (gate, peer2) = decided(sys, peer, conn, now, first, second);
            passed_on(platform, is_server, gate == MouseGate::Open, evt, conn, time, peer2) == (
                None::<Route>,
                peer,
            )
        }),
{
}

/// An event is passed on when the cursor is not protected, and while it is if it
/// comes over the last connection and the cursor is where that peer has put it, at
/// the first look or the second, or is not found at the first. A move becomes the
/// last input, which any other event leaves as it was.
pub proof fn law_welcome_peers_are_passed_on(
    sys: SysCursorPos,
    peer: Input,
    conn: i32,
    now: u64,
    first: Option<(i32, i32)>,
    second: Option<(i32, i32)>,
    platform: Platform,
    is_server: bool,
    evt: MouseEvent,
    time: i64,
)
    requires
        !sys.protects(now) || (peer.conn == conn && (first is None || at_input(
            peer.x,
            peer.y,
            first->0,
        ) || (second is Some && at_input(peer.x, peer.y, second->0)))),
    ensures
        ({
            let (gate, peer2) = decided(sys, peer, conn, now, first, second);
            passed_on(platform, is_server, gate == MouseGate::Open, evt, conn, time, peer2) == (
                Some(route(platform, is_server)),
                if evt.kind() == 0 {
                    Input { conn, time, x: evt.x, y: evt.y }
                } else {
                    peer
                },
            )
        }),
{
}

/// A peer that has lost the cursor is passed on to nobody, and its last input is
/// given up: the cursor was found elsewhere, and not where that peer has put it at
/// the second look.
pub proof fn law_lost_cursor_gives_input_up(
    sys: SysCursorPos,
    peer: Input,
    now: u64,
    first: (i32, i32),
    second: Option<(i32, i32)>,
    platform: Platform,
    is_server: bool,
    evt: MouseEvent,
    time: i64,
)
    requires
        sys.protects(now),
        !at_input(peer.x, peer.y, first),
        second matches Some(pos) ==> !at_input(peer.x, peer.y, pos),
    ensures
        ({
            let (gate, peer2) = decided(sys, peer, peer.conn, now, Some(first), second);
            passed_on(
                platform,
                is_server,
                gate == MouseGate::Open,
                evt,
                peer.conn,
                time,
                peer2,
            ) == (None::<Route>, Input { x: LOST_INPUT_POS, y: LOST_INPUT_POS, ..peer })
        }),
{
}

/// Once a peer has lost the cursor, it does not get it back before the protection
/// ends, as long as the cursor is where a screen can be: its next event is decided
/// against it whatever the two looks find.
pub proof fn law_lost_input_stays_lost(
    sys: SysCursorPos,
    peer: Input,
    conn: i32,
    now: u64,
    first: (i32, i32),
    second: Option<(i32, i32)>,
)
    requires
        sys.protects(now),
        peer.x == LOST_INPUT_POS,
        peer.y == LOST_INPUT_POS,
        LOST_INPUT_POS + MOUSE_ACTIVE_DISTANCE <= first.0 < -LOST_INPUT_POS,
        second matches Some(pos) ==> LOST_INPUT_POS + MOUSE_ACTIVE_DISTANCE <= pos.0
            < -LOST_INPUT_POS,
    ensures
        ({
            let gate = first_gate(sys, peer, conn, now);
            let (gate1, peer1) = looked(gate, peer, Some(first));
            let (gate2, peer2) = looked(gate1, peer1, second);
            &&& gate.can_look(peer, Some(first))
            &&& gate1.can_look(peer1, second)
            &&& gate2 == MouseGate::Shut
            &&& peer2 == peer
        }),
{
}

/// A position that the cursor has been seen at before keeps its time, so only a
/// cursor that moves is protected.
pub proof fn law_resting_cursor_is_not_protected(
    latest: SysCursorPos,
    x: i32,
    y: i32,
    now: u64,
    later: u64,
)
    ensures
        seen_at(seen_at(latest, x, y, now), x, y, later) == seen_at(latest, x, y, now),
{
}

/// A position of the cursor that is new is noted with the time, and one that is not
/// keeps the time that it had.
pub proof fn law_new_position_is_noted(latest: SysCursorPos, x: i32, y: i32, now: u64)
    ensures
        ({
            let after = seen_at(latest, x, y, now);
            &&& after.x == x && after.y == y
            &&& latest.x != x || latest.y != y ==> after.time == now
            &&& latest.x == x && latest.y == y ==> after.time == latest.time
        }),
{
}

/// A move of the cursor on this side protects it for a second. It is where a peer has
/// put it if it is less than five away in each direction. A position that was given up
/// is half of that of a cursor which has not been seen.
pub proof fn law_protection_has_its_measures(
    sys: SysCursorPos,
    now: u64,
    x: i32,
    y: i32,
    pos: (i32, i32),
)
    ensures
        sys.protects(now) <==> now - sys.time <= 1_000_000_000,
        at_input(x, y, pos) <==> -5 < x - pos.0 < 5 && -5 < y - pos.1 < 5,
        2 * LOST_INPUT_POS == INVALID_CURSOR_POS == i32::MIN,
        CURSOR_SETTLE_SLEEP == 10_000,
{
}

/// What becomes of a mouse event fits where it is handled: the session for that very
/// event, an event that says the same for the main queue, nothing to carry for the
/// portable service, and nothing at all for an event that is turned away.
pub proof fn law_handling_fits_its_place(
    res: Option<Handling<MouseEvent>>,
    exiting: bool,
    platform: Platform,
    evt: MouseEvent,
)
    ensures
        is_handled(res, None, exiting, platform, evt) ==> res is None,
        is_handled(res, Some(Route::Direct), exiting, platform, evt) ==> res is Some
            && res->0 is Here && (res->0)->Here_0@ == mouse_session(exiting, platform, evt),
        is_handled(res, Some(Route::MainQueue), exiting, platform, evt) ==> res is Some
            && res->0 is InMainQueue && (res->0)->InMainQueue_0.mask == evt.mask
            && (res->0)->InMainQueue_0.x == evt.x && (res->0)->InMainQueue_0.y == evt.y
            && (res->0)->InMainQueue_0.modifiers@ == evt.modifiers@,
        is_handled(res, Some(Route::PortableService), exiting, platform, evt) ==> res is Some
            && res->0 is ByPortableService,
{
}

} // verus!
