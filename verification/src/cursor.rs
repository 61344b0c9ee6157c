use std::collections::HashMap;
use std::sync::Arc;

use vstd::prelude::*;
use vstd::std_specs::convert::FromSpecImpl;

use crate::keys::Platform;
use crate::mouse::{seen_at, update_last_cursor_pos, Input, SysCursorPos, INVALID_CURSOR_POS};
use crate::records::{fix_key_down_timeout, release_all_ops, releases_due, KeysDown};
use crate::script::{Command, Op};

verus! {

broadcast use vstd::std_specs::hash::group_hash_axioms;

/// The looks of a cursor. `id` is the handle that the system has for it.
#[derive(Debug)]
pub struct CursorData {
    pub id: u64,
    pub hotx: i32,
    pub hoty: i32,
    pub width: i32,
    pub height: i32,
    pub colors: Vec<u8>,
}

/// The position of the cursor.
#[derive(Clone, Copy, Debug, PartialEq, Eq, Structural)]
pub struct CursorPosition {
    pub x: i32,
    pub y: i32,
}

/// A message to a peer.
#[derive(Debug)]
pub enum Message {
    /// A message that says nothing.
    Empty,
    CursorData(CursorData),
    CursorPosition(CursorPosition),
    /// The looks of the cursor, for a peer that was sent them before.
    CursorId(u64),
    /// Any other message, encoded.
    Other(Vec<u8>),
}

/// A connection to a peer.
#[derive(Clone, Copy, Debug, PartialEq, Eq, Structural)]
pub struct ConnInner {
    pub id: i32,
}

impl Default for ConnInner {
    fn default() -> (conn: ConnInner)
        ensures
            conn == (ConnInner { id: 0 }),
    {
        ConnInner { id: 0 }
    }
}

/// A peer that follows the looks of the cursor. It keeps what it was sent, so that
/// it is sent the looks under one id only once.
pub struct MouseCursorSub {
    inner: ConnInner,
    cached: HashMap<u64, Arc<Message>>,
}

/// The model of a `MouseCursorSub`: its connection, and under the id of each looks
/// that it was sent what it is sent from then on.
pub struct MouseCursorSubView {
    pub inner: ConnInner,
    pub cached: Map<u64, Arc<Message>>,
}

impl View for MouseCursorSub {
    type V = MouseCursorSubView;

    closed spec fn view(&self) -> MouseCursorSubView {
        MouseCursorSubView { inner: self.inner, cached: self.cached@ }
    }
}

impl MouseCursorSubView {
    /// A peer that was not sent anything.
    pub open spec fn fresh(inner: ConnInner) -> MouseCursorSubView {
        MouseCursorSubView { inner, cached: Map::empty() }
    }

    /// The peer is sent nothing but ids in the place of looks that it has.
    pub open spec fn wf(self) -> bool {
        forall|id: u64| #[trigger]
            self.cached.contains_key(id) ==> self.cached[id] == Arc::new(Message::CursorId(id))
    }
}

/// The peer after a message was sent, and what went out in its place.
pub open spec fn sent(sub: MouseCursorSubView, msg: Arc<Message>) -> (
    MouseCursorSubView,
    Arc<Message>,
) {
    match *msg {
        Message::CursorData(cd) => if sub.cached.contains_key(cd.id) {
            (sub, sub.cached[cd.id])
        } else {
            (
                MouseCursorSubView {
                    cached: sub.cached.insert(cd.id, Arc::new(Message::CursorId(cd.id))),
                    ..sub
                },
                msg,
            )
        },
        _ => (sub, msg),
    }
}

impl FromSpecImpl<ConnInner> for MouseCursorSub {
    open spec fn obeys_from_spec() -> bool {
        false
    }

    open spec fn from_spec(inner: ConnInner) -> MouseCursorSub {
        arbitrary()
    }
}

impl From<ConnInner> for MouseCursorSub {
    fn from(inner: ConnInner) -> (sub: MouseCursorSub)
        ensures
            sub@ == MouseCursorSubView::fresh(inner),
    {
        MouseCursorSub { inner, cached: HashMap::new() }
    }
}

impl Default for MouseCursorSub {
    fn default() -> (sub: MouseCursorSub)
        ensures
            sub@ == MouseCursorSubView::fresh(ConnInner { id: 0 }),
    {
        MouseCursorSub { inner: ConnInner { id: 0 }, cached: HashMap::new() }
    }
}

impl Clone for MouseCursorSub {
    fn clone(&self) -> (sub: MouseCursorSub)
        ensures
            sub@ == self@,
    {
        MouseCursorSub { inner: self.inner, cached: self.cached.clone() }
    }
}

impl MouseCursorSub {
    pub fn id(&self) -> (id: i32)
        ensures
            id == self@.inner.id,
    {
        self.inner.id
    }

    /// Gives what goes out on the connection for a message.
    pub fn send(&mut self, msg: Arc<Message>) -> (out: Arc<Message>)
        ensures
            (final(self)@, out) == sent(old(self)@, msg),
            old(self)@.wf() ==> final(self)@.wf(),
    {
        if let Message::CursorData(cd) = &*msg {
            let id: u64 = cd.id;
            if let Some(cached) = self.cached.get(&id) {
                return cached.clone();
            }
            // From now on only the id goes out, and the peer has to keep the looks.
            self.cached.insert(id, Arc::new(Message::CursorId(id)));
        }
        msg
    }
}

/// The peer after some messages were sent, and what went out in their place.
pub open spec fn sent_all(sub: MouseCursorSubView, msgs: Seq<Arc<Message>>) -> (
    MouseCursorSubView,
    Seq<Arc<Message>>,
)
    decreases msgs.len(),
{
    if msgs.len() == 0 {
        (sub, Seq::empty())
    } else {
        let (before, outs) = sent_all(sub, msgs.drop_last());
        let (after, out) = sent(before, msgs.last());
        (after, outs.push(out))
    }
}

/// Whether a message holds the looks of the cursor under an id.
pub open spec fn has_looks(msg: Arc<Message>, id: u64) -> bool {
    *msg matches Message::CursorData(cd) && cd.id == id
}

/// Whether one of some messages holds the looks of the cursor under an id.
pub open spec fn any_has_looks(msgs: Seq<Arc<Message>>, id: u64) -> bool {
    exists|i: int| 0 <= i < msgs.len() && has_looks(#[trigger] msgs[i], id)
}

proof fn lemma_sent_all(inner: ConnInner, msgs: Seq<Arc<Message>>)
    ensures
        ({
            let (sub, outs) = sent_all(MouseCursorSubView::fresh(inner), msgs);
            &&& sub.wf()
            &&& sub.inner == inner
            &&& outs.len() == msgs.len()
            &&& forall|id: u64| #[trigger]
                sub.cached.contains_key(id) <==> any_has_looks(msgs, id)
        }),
    decreases msgs.len(),
{
    if msgs.len() > 0 {
        let init = msgs.drop_last();
        lemma_sent_all(inner, init);
        let (sub, _) = sent_all(MouseCursorSubView::fresh(inner), msgs);
        assert forall|id: u64| #[trigger]
            sub.cached.contains_key(id) <==> any_has_looks(msgs, id) by {
            if any_has_looks(init, id) {
                let i = choose|i: int| 0 <= i < init.len() && has_looks(#[trigger] init[i], id);
                assert(has_looks(msgs[i], id));
            }
            if has_looks(msgs.last(), id) {
                assert(has_looks(msgs[msgs.len() - 1], id));
            }
            if any_has_looks(msgs, id) && !has_looks(msgs.last(), id) {
                let i = choose|i: int| 0 <= i < msgs.len() && has_looks(#[trigger] msgs[i], id);
                assert(has_looks(init[i], id));
            }
        }
    }
}

/// What a peer is sent, over all the messages since it came: the looks under an id
/// go out in full the first time and as the id from then on, and any other message
/// goes out as it is.
pub proof fn law_looks_go_out_once(inner: ConnInner, msgs: Seq<Arc<Message>>, i: int)
    requires
        0 <= i < msgs.len(),
    ensures
        ({
            let (sub, outs) = sent_all(MouseCursorSubView::fresh(inner), msgs);
            &&& sub.inner == inner
            &&& outs.len() == msgs.len()
            &&& outs[i] == match *msgs[i] {
                Message::CursorData(cd) if any_has_looks(msgs.take(i), cd.id) => Arc::new(
                    Message::CursorId(cd.id),
                ),
                _ => msgs[i],
            }
        }),
    decreases msgs.len(),
{
    lemma_sent_all(inner, msgs);
    let init = msgs.drop_last();
    lemma_sent_all(inner, init);
    if i < init.len() {
        law_looks_go_out_once(inner, init, i);
        assert(init.take(i) =~= msgs.take(i));
    } else {
        assert(msgs.take(i) =~= init);
    }
}

pub const NAME_CURSOR: &'static str = "mouse_cursor";

pub const NAME_POS: &'static str = "mouse_pos";

/// How often the cursor is looked at, in milliseconds.
pub const REPEAT_INTERVAL: u64 = 33;

/// A service that is run again and again.
pub struct Service<S> {
    pub name: &'static str,
    /// Whether a peer has to be sent a snapshot before anything else.
    pub need_snapshot: bool,
    /// The time between two runs, in milliseconds.
    pub interval: u64,
    /// What one run leaves to the next.
    pub state: S,
}

/// The service that tells the peers what the cursor looks like.
pub type MouseCursorService = Service<StateCursor>;

/// The service that tells the peers where the cursor is.
pub type MousePosService = Service<StatePos>;

pub fn new_cursor() -> (sp: MouseCursorService)
    ensures
        sp.name == NAME_CURSOR,
        sp.need_snapshot,
        sp.interval == REPEAT_INTERVAL,
        sp.state@ == StateCursorView::fresh(),
{
    Service {
        name: NAME_CURSOR,
        need_snapshot: true,
        interval: REPEAT_INTERVAL,
        state: StateCursor::default(),
    }
}

pub fn new_pos() -> (sp: MousePosService)
    ensures
        sp.name == NAME_POS,
        !sp.need_snapshot,
        sp.interval == REPEAT_INTERVAL,
        sp.state == StatePos::unseen(),
{
    Service {
        name: NAME_POS,
        need_snapshot: false,
        interval: REPEAT_INTERVAL,
        state: StatePos::default(),
    }
}

/// What the cursor looked like in the last run, and all looks that were sent.
pub struct StateCursor {
    hcursor: u64,
    cursor_data: Arc<Message>,
    cached_cursor_data: HashMap<u64, Arc<Message>>,
}

/// The model of a `StateCursor`.
pub struct StateCursorView {
    /// The handle of the cursor.
    pub hcursor: u64,
    /// The message with its looks.
    pub cursor_data: Arc<Message>,
    /// The messages with the looks of the cursors, by handle.
    pub cached: Map<u64, Arc<Message>>,
}

impl View for StateCursor {
    type V = StateCursorView;

    closed spec fn view(&self) -> StateCursorView {
        StateCursorView {
            hcursor: self.hcursor,
            cursor_data: self.cursor_data,
            cached: self.cached_cursor_data@,
        }
    }
}

impl StateCursorView {
    /// The state before the first run.
    pub open spec fn fresh() -> StateCursorView {
        StateCursorView {
            hcursor: 0,
            cursor_data: Arc::new(Message::Empty),
            cached: Map::empty(),
        }
    }

    /// The state after the cursor was found to have some looks.
    pub open spec fn shows(self, hcursor: u64, msg: Arc<Message>) -> StateCursorView {
        StateCursorView { hcursor, cursor_data: msg, ..self }
    }
}

impl Default for StateCursor {
    fn default() -> (state: StateCursor)
        ensures
            state@ == StateCursorView::fresh(),
    {
        StateCursor {
            hcursor: 0,
            cursor_data: Arc::new(Message::Empty),
            cached_cursor_data: HashMap::new(),
        }
    }
}

impl StateCursor {
    /// Forgets everything and lets go of all keys that are down.
    pub fn reset(&mut self, keys: &mut KeysDown, platform: Platform, now: u64) -> (plan: Vec<Op>)
        ensures
            final(self)@ == StateCursorView::fresh(),
            final(keys)@ == Map::<u64, u64>::empty(),
            exists|order: Seq<u64>| #[trigger]
                releases_due(old(keys)@, true, now, order) && plan@ == seq![
                    Op::Do(Command::ResetInputCache),
                ] + release_all_ops(platform, order),
    {
        *self = StateCursor::default();
        let mut plan: Vec<Op> = Vec::new();
        plan.push(Op::Do(Command::ResetInputCache));
        let mut released: Vec<Op> = fix_key_down_timeout(keys, platform, true, now);
        proof {
            crate::records::law_force_releases_every_key(old(keys)@, now);
        }
        let ghost first = plan@;
        let ghost rest = released@;
        plan.append(&mut released);
        assert(plan@ =~= seq![Op::Do(Command::ResetInputCache)] + rest);
        plan
    }
}

/// What a run of the cursor service does next.
#[derive(Debug)]
pub enum CursorStep {
    /// Get the looks of the cursor with a handle, compress its colors, and go on
    /// with `publish_cursor`.
    Fetch(u64),
    /// Send a message to all peers if there is one, and another one to the peers
    /// that have just come.
    Publish { send: Option<Arc<Message>>, snapshot: Arc<Message> },
}

/// What a run of the cursor service does first, when the system shows a cursor, if
/// it does; and the state after that.
pub open spec fn cursor_run(state: StateCursorView, hcursor: Option<u64>) -> (
    StateCursorView,
    CursorStep,
) {
    match hcursor {
        Some(h) if h != state.hcursor => if state.cached.contains_key(h) {
            let msg = state.cached[h];
            (state.shows(h, msg), CursorStep::Publish { send: Some(msg), snapshot: msg })
        } else {
            (state, CursorStep::Fetch(h))
        },
        _ => (state, CursorStep::Publish { send: None, snapshot: state.cursor_data }),
    }
}

/// Begins a run of the cursor service. `hcursor` is the handle of the cursor that
/// the system shows.
pub fn run_cursor(state: &mut StateCursor, hcursor: Option<u64>) -> (step: CursorStep)
    ensures
        (final(state)@, step) == cursor_run(old(state)@, hcursor),
{
    if let Some(hcursor) = hcursor {
        if hcursor != state.hcursor {
            let msg: Arc<Message> = match state.cached_cursor_data.get(&hcursor) {
                Some(cached) => cached.clone(),
                None => {
                    return CursorStep::Fetch(hcursor);
                },
            };
            state.hcursor = hcursor;
            state.cursor_data = msg.clone();
            return CursorStep::Publish { send: Some(msg.clone()), snapshot: msg };
        }
    }
    CursorStep::Publish { send: None, snapshot: state.cursor_data.clone() }
}

/// The message with the looks of a cursor, with its colors compressed.
pub open spec fn looks_message(data: CursorData, colors: Vec<u8>) -> Arc<Message> {
    Arc::new(Message::CursorData(CursorData { colors, ..data }))
}

/// The state once looks that had to be fetched are there.
pub open spec fn cursor_fetched(
    state: StateCursorView,
    hcursor: u64,
    data: CursorData,
    colors: Vec<u8>,
) -> StateCursorView {
    let msg = looks_message(data, colors);
    StateCursorView { cached: state.cached.insert(hcursor, msg), ..state.shows(hcursor, msg) }
}

/// Goes on with a run of the cursor service that had to fetch looks: `data` holds
/// them, `colors` their colors in compressed form.
pub fn publish_cursor(
    state: &mut StateCursor,
    hcursor: u64,
    data: CursorData,
    colors: Vec<u8>,
) -> (step: CursorStep)
    ensures
        final(state)@ == cursor_fetched(old(state)@, hcursor, data, colors),
        ({
            let msg = looks_message(data, colors);
            step == CursorStep::Publish { send: Some(msg), snapshot: msg }
        }),
{
    let mut data: CursorData = data;
    data.colors = colors;
    let msg: Arc<Message> = Arc::new(Message::CursorData(data));
    state.cached_cursor_data.insert(hcursor, msg.clone());
    state.hcursor = hcursor;
    state.cursor_data = msg.clone();
    CursorStep::Publish { send: Some(msg.clone()), snapshot: msg }
}

/// The position of the cursor in the last run.
#[derive(Clone, Copy, Debug)]
pub struct StatePos {
    pub cursor_pos: (i32, i32),
}

impl Default for StatePos {
    fn default() -> (state: StatePos)
        ensures
            state == StatePos::unseen(),
    {
        StatePos { cursor_pos: (INVALID_CURSOR_POS, INVALID_CURSOR_POS) }
    }
}

impl StatePos {
    /// The state before the cursor has been seen.
    pub open spec fn unseen() -> StatePos {
        StatePos { cursor_pos: (INVALID_CURSOR_POS, INVALID_CURSOR_POS) }
    }

    /// Whether the cursor has been seen, at another position.
    pub open spec fn moved(self, pos: (i32, i32)) -> bool {
        self.cursor_pos.0 != INVALID_CURSOR_POS && self.cursor_pos != pos
    }

    pub fn reset(&mut self)
        ensures
            *final(self) == StatePos::unseen(),
    {
        self.cursor_pos = (INVALID_CURSOR_POS, INVALID_CURSOR_POS);
    }

    pub fn is_valid(&self) -> (res: bool)
        ensures
            res == (self.cursor_pos.0 != INVALID_CURSOR_POS),
    {
        self.cursor_pos.0 != INVALID_CURSOR_POS
    }

    pub fn is_moved(&self, x: i32, y: i32) -> (res: bool)
        ensures
            res == self.moved((x, y)),
    {
        self.is_valid() && (self.cursor_pos.0 != x || self.cursor_pos.1 != y)
    }
}

/// How long a peer that moved the cursor is not told where it is, in milliseconds.
pub const PEER_INPUT_ECHO: i64 = 300;

/// What a run of the position service sends.
#[derive(Debug)]
pub struct PosUpdate {
    /// A message to all peers but that of one connection.
    pub send: Option<(Message, i32)>,
    /// A message to the peers that have just come.
    pub snapshot: Message,
}

/// The connection whose peer has just moved the cursor, and 0 if none has.
pub open spec fn excluded_conn(peer: Input, time: i64) -> i32 {
    if time - peer.time < PEER_INPUT_ECHO {
        peer.conn
    } else {
        0
    }
}

pub open spec fn position_message(pos: (i32, i32)) -> Message {
    Message::CursorPosition(CursorPosition { x: pos.0, y: pos.1 })
}

/// What a run of the position service sends, if the cursor was found at a position.
pub open spec fn pos_update(
    state: StatePos,
    peer: Input,
    pos: Option<(i32, i32)>,
    time: i64,
) -> PosUpdate {
    match pos {
        Some(pos) => PosUpdate {
            send: if state.moved(pos) {
                Some((position_message(pos), excluded_conn(peer, time)))
            } else {
                None
            },
            snapshot: position_message(pos),
        },
        None => PosUpdate { send: None, snapshot: position_message(state.cursor_pos) },
    }
}

/// The state after a run of the position service.
pub open spec fn pos_seen(state: StatePos, pos: Option<(i32, i32)>) -> StatePos {
    match pos {
        Some(pos) => StatePos { cursor_pos: pos },
        None => state,
    }
}

/// Runs the position service. `pos` is where the cursor is, if the system tells,
/// `now` is the time of the clock that never runs back in nanoseconds, `time` that
/// of the wall clock in milliseconds.
pub fn run_pos(
    state: &mut StatePos,
    latest: &mut SysCursorPos,
    peer: &Input,
    pos: Option<(i32, i32)>,
    now: u64,
    time: i64,
) -> (update: PosUpdate)
    requires
        pos matches Some(pos) ==> old(state).moved(pos) ==> i64::MIN <= time - peer.time
            <= i64::MAX,
    ensures
        update == pos_update(*old(state), *peer, pos, time),
        match pos {
            Some((x, y)) => *final(state) == (StatePos { cursor_pos: (x, y) }) && *final(latest)
                == seen_at(*old(latest), x, y, now),
            None => *final(state) == *old(state) && *final(latest) == *old(latest),
        },
        *final(state) == pos_seen(*old(state), pos),
{
    let mut send: Option<(Message, i32)> = None;
    if let Some((x, y)) = pos {
        update_last_cursor_pos(latest, x, y, now);
        if state.is_moved(x, y) {
            let exclude: i32 = if time - peer.time < PEER_INPUT_ECHO {
                peer.conn
            } else {
                0
            };
            send = Some((Message::CursorPosition(CursorPosition { x, y }), exclude));
        }
        state.cursor_pos = (x, y);
    }
    let snapshot = Message::CursorPosition(
        CursorPosition { x: state.cursor_pos.0, y: state.cursor_pos.1 },
    );
    PosUpdate { send, snapshot }
}

/// One run of the cursor service: the handle of the cursor that the system shows,
/// and the looks and compressed colors that a fetch gives, if it succeeds.
pub struct CursorTurn {
    pub hcursor: Option<u64>,
    pub fetched: Option<(CursorData, Vec<u8>)>,
}

/// The state after a run of the cursor service.
pub open spec fn cursor_turned(state: StateCursorView, turn: CursorTurn) -> StateCursorView {
    let (after, step) = cursor_run(state, turn.hcursor);
    match (step, turn.fetched) {
        (CursorStep::Fetch(hcursor), Some((data, colors))) => cursor_fetched(
            after,
            hcursor,
            data,
            colors,
        ),
        _ => after,
    }
}

/// The state after some runs of the cursor service.
pub open spec fn cursor_runs(state: StateCursorView, turns: Seq<CursorTurn>) -> StateCursorView
    decreases turns.len(),
{
    if turns.len() == 0 {
        state
    } else {
        cursor_turned(cursor_runs(state, turns.drop_last()), turns.last())
    }
}

/// Looks that were fetched under a handle are not fetched again: whatever runs come
/// in between, the handle is answered with the message that was sent before.
pub proof fn law_looks_are_fetched_once(
    state: StateCursorView,
    hcursor: u64,
    data: CursorData,
    colors: Vec<u8>,
    between: Seq<CursorTurn>,
)
    ensures
        ({
            let msg = looks_message(data, colors);
            let later = cursor_runs(cursor_fetched(state, hcursor, data, colors), between);
            &&& later.cached.contains_key(hcursor) && later.cached[hcursor] == msg
            &&& later.hcursor != hcursor ==> cursor_run(later, Some(hcursor)).1
                == (CursorStep::Publish { send: Some(msg), snapshot: msg })
            &&& later.hcursor == hcursor ==> cursor_run(later, Some(hcursor)).1
                == (CursorStep::Publish { send: None, snapshot: msg })
        }),
    decreases between.len(),
{
    if between.len() > 0 {
        law_looks_are_fetched_once(state, hcursor, data, colors, between.drop_last());
    }
}

/// A peer that has just come is sent what all peers were sent last: a run that
/// publishes gives it the looks that the state keeps, and a cursor that stays the
/// same is sent to nobody else.
pub proof fn law_snapshot_is_what_was_sent_last(state: StateCursorView, hcursor: Option<u64>)
    ensures
        ({
            let (after, step) = cursor_run(state, hcursor);
            &&& step matches CursorStep::Publish { send, snapshot } ==> snapshot
                == after.cursor_data && match send {
                Some(msg) => msg == snapshot,
                None => after == state,
            }
            &&& step matches CursorStep::Publish { send, snapshot } ==> cursor_run(
                after,
                hcursor,
            ) == (after, CursorStep::Publish { send: None, snapshot })
            &&& step is Fetch ==> after == state
        }),
{
}

/// A position goes out to all peers only when the cursor has moved since it was
/// last seen: not the first one, and not one that is found again.
pub proof fn law_resting_position_is_not_sent(
    state: StatePos,
    peer: Input,
    pos: (i32, i32),
    time: i64,
)
    ensures
        pos_update(StatePos::unseen(), peer, Some(pos), time).send is None,
        pos_update(StatePos { cursor_pos: pos }, peer, Some(pos), time).send is None,
        state.cursor_pos.0 != INVALID_CURSOR_POS && state.cursor_pos != pos ==> pos_update(
            state,
            peer,
            Some(pos),
            time,
        ).send is Some,
{
}

/// What all peers are sent in a run of the cursor service.
pub open spec fn cursor_sent(state: StateCursorView, turn: CursorTurn) -> Option<Arc<Message>> {
    match (cursor_run(state, turn.hcursor).1, turn.fetched) {
        (CursorStep::Publish { send, .. }, _) => send,
        (CursorStep::Fetch(_), Some((data, colors))) => Some(looks_message(data, colors)),
        (CursorStep::Fetch(_), None) => None,
    }
}

/// The looks of a cursor are fetched when and only when the system shows one that is
/// not the last one and was not fetched before, and it is the looks of that very
/// cursor that are fetched.
pub proof fn law_new_cursor_is_fetched(state: StateCursorView, hcursor: Option<u64>)
    ensures
        ({
            let (after, step) = cursor_run(state, hcursor);
            &&& step is Fetch <==> (hcursor is Some && hcursor->0 != state.hcursor
                && !state.cached.contains_key(hcursor->0))
            &&& step matches CursorStep::Fetch(h) ==> Some(h) == hcursor && after == state
        }),
{
}

/// After a run whose fetch succeeds, if there is one, the state is that of the cursor
/// which the system shows: its handle, and the looks that were fetched for it now or
/// before. A cursor that is not the last one is always sent to all peers, as the looks
/// that the state has then, and the last one never is.
pub proof fn law_peers_see_what_is_shown(
    state: StateCursorView,
    h: u64,
    data: CursorData,
    colors: Vec<u8>,
)
    ensures
        ({
            let turn = CursorTurn { hcursor: Some(h), fetched: Some((data, colors)) };
            let after = cursor_turned(state, turn);
            let sent = cursor_sent(state, turn);
            &&& after.hcursor == h
            &&& h == state.hcursor ==> after == state && sent is None
            &&& h != state.hcursor ==> sent == Some(after.cursor_data) && after.cached.contains_key(
                h,
            ) && after.cached[h] == after.cursor_data
            &&& h != state.hcursor && state.cached.contains_key(h) ==> after.cursor_data
                == state.cached[h]
            &&& h != state.hcursor && !state.cached.contains_key(h) ==> (
            *after.cursor_data matches Message::CursorData(looks) && looks.id == data.id
                && looks.hotx == data.hotx && looks.hoty == data.hoty && looks.width == data.width
                && looks.height == data.height && looks.colors == colors)
            &&& forall|other: u64|
                other != h ==> (#[trigger] after.cached.contains_key(other)
                    <==> state.cached.contains_key(other)) && after.cached[other]
                    == state.cached[other]
        }),
{
}

/// When no cursor is shown, or its looks cannot be fetched, nothing changes and nothing
/// is sent to all peers.
pub proof fn law_unseen_cursor_changes_nothing(state: StateCursorView, h: u64, turn: CursorTurn)
    requires
        turn.hcursor is None || (turn.hcursor == Some(h) && turn.fetched is None && h
            != state.hcursor && !state.cached.contains_key(h)),
    ensures
        cursor_turned(state, turn) == state,
        cursor_sent(state, turn) is None,
{
}

/// Over any runs from the beginning, what a peer is sent as a snapshot are the looks of
/// the cursor that was shown last: those that are kept under its handle.
pub proof fn law_state_keeps_looks_of_its_cursor(turns: Seq<CursorTurn>)
    ensures
        ({
            let state = cursor_runs(StateCursorView::fresh(), turns);
            &&& state.cached.contains_key(state.hcursor) ==> state.cursor_data
                == state.cached[state.hcursor]
            &&& state.hcursor != 0 ==> state.cached.contains_key(state.hcursor)
            &&& !state.cached.contains_key(state.hcursor) ==> state.cursor_data == Arc::new(
                Message::Empty,
            )
        }),
    decreases turns.len(),
{
    if turns.len() > 0 {
        law_state_keeps_looks_of_its_cursor(turns.drop_last());
    }
}

/// A cursor that has moved since it was last seen goes out at the position where it is
/// now: to everybody but the peer that moved it less than 300 milliseconds ago, and to
/// all peers otherwise. The peers that have just come are told where it is now, or
/// where it was last if it is not found.
pub proof fn law_position_goes_to_the_others(
    state: StatePos,
    peer: Input,
    pos: (i32, i32),
    time: i64,
)
    ensures
        ({
            let update = pos_update(state, peer, Some(pos), time);
            let seen = state.cursor_pos.0 != i32::MIN;
            let moved = state.cursor_pos.0 != pos.0 || state.cursor_pos.1 != pos.1;
            &&& update.send is Some <==> seen && moved
            &&& update.send matches Some((msg, conn)) ==> {
                &&& msg matches Message::CursorPosition(at) && at.x == pos.0 && at.y == pos.1
                &&& time - peer.time >= 300 ==> conn == 0
                &&& time - peer.time < 300 ==> conn == peer.conn
            }
            &&& update.snapshot matches Message::CursorPosition(at) && at.x == pos.0 && at.y
                == pos.1
        }),
        ({
            let update = pos_update(state, peer, None, time);
            &&& update.send is None
            &&& update.snapshot matches Message::CursorPosition(at) && at.x == state.cursor_pos.0
                && at.y == state.cursor_pos.1
        }),
{
}

/// A position that was found is remembered: found again in the next run it is not sent,
/// and another one is. A cursor that is not found is remembered where it was.
pub proof fn law_position_is_remembered(
    state: StatePos,
    peer: Input,
    pos: (i32, i32),
    next: (i32, i32),
    time: i64,
)
    ensures
        ({
            let after = pos_seen(state, Some(pos));
            let sent = pos_update(after, peer, Some(next), time).send;
            &&& next == pos ==> sent is None
            &&& next != pos && pos.0 != i32::MIN ==> sent is Some
            &&& pos_update(after, peer, None, time).snapshot == Message::CursorPosition(
                CursorPosition { x: pos.0, y: pos.1 },
            )
            &&& pos_update(pos_seen(state, None), peer, Some(next), time) == pos_update(
                state,
                peer,
                Some(next),
                time,
            )
        }),
{
}

/// A state that begins anew has no looks to show and fetches those of any cursor, but
/// for the handle that stands for none.
pub proof fn law_new_state_knows_no_looks(hcursor: u64)
    ensures
        *StateCursorView::fresh().cursor_data == Message::Empty,
        !StateCursorView::fresh().cached.contains_key(hcursor),
        hcursor != 0 ==> cursor_run(StateCursorView::fresh(), Some(hcursor)).1
            == CursorStep::Fetch(hcursor),
{
}

} // verus!
