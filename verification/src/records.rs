use std::collections::HashMap;

use vstd::prelude::*;

use crate::keys::{control_key_value_to_key, local_key_of_code, ControlKey, Key, Platform, RdevKey};
use crate::script::{rdev_key_down_or_up, simulate_ops, Command, Op};
use crate::text::char_value_to_key;

verus! {

broadcast use vstd::std_specs::hash::group_hash_axioms;

/// Where the numbers of keys that only have a number start in the table.
pub const KEY_RDEV_START: u64 = 999;

/// Where the numbers of characters and key codes start in the table.
pub const KEY_CHAR_START: u64 = 9999;

/// How long a key may stay down, in nanoseconds.
pub const KEY_DOWN_TIMEOUT: u64 = 360_000_000_000;

/// The keys that the peers have pressed and not let go of, with the time of the
/// press in nanoseconds of a clock that never runs back. Control keys have their
/// wire number as key, characters and key codes theirs behind `KEY_CHAR_START`.
pub struct KeysDown {
    times: HashMap<u64, u64>,
}

impl View for KeysDown {
    type V = Map<u64, u64>;

    closed spec fn view(&self) -> Map<u64, u64> {
        self.times@
    }
}

/// The number of a control key in the table: its wire number, as 64 bits.
pub open spec fn control_record(code: i32) -> u64 {
    if code >= 0 {
        code as u64
    } else {
        (code + 0x1_0000_0000_0000_0000) as u64
    }
}

/// The number of a character or a key code in the table.
pub open spec fn char_record(code: u32) -> u64 {
    (code + KEY_CHAR_START) as u64
}

pub fn control_record_key(code: i32) -> (key: u64)
    ensures
        key == control_record(code),
{
    assert(code >= 0 ==> code as u64 == code) by (bit_vector);
    assert(code < 0 ==> code as u64 == code + 0x1_0000_0000_0000_0000) by (bit_vector);
    code as u64
}

pub fn char_record_key(code: u32) -> (key: u64)
    ensures
        key == char_record(code),
        key == code + KEY_CHAR_START,
{
    code as u64 + KEY_CHAR_START
}

/// The table after a key went down or up.
pub open spec fn recorded(keys: Map<u64, u64>, key: u64, down: bool, now: u64) -> Map<u64, u64> {
    if down {
        keys.insert(key, now)
    } else {
        keys.remove(key)
    }
}

/// Whether the right alt key is down.
pub open spec fn altgr_down(keys: Map<u64, u64>) -> bool {
    keys.contains_key(control_record(ControlKey::RAlt.code()))
}

impl KeysDown {
    pub fn new() -> (keys: KeysDown)
        ensures
            keys@ == Map::<u64, u64>::empty(),
    {
        KeysDown { times: HashMap::new() }
    }

    /// Whether a key is down.
    pub fn contains(&self, record_key: u64) -> (res: bool)
        ensures
            res == self@.contains_key(record_key),
    {
        self.times.contains_key(&record_key)
    }

    /// Whether no key is down.
    pub fn is_empty(&self) -> (res: bool)
        ensures
            res == (self@ == Map::<u64, u64>::empty()),
    {
        let res: bool = self.times.is_empty();
        proof {
            if res {
                assert(self@ =~= Map::<u64, u64>::empty());
            }
        }
        res
    }
}

pub fn record_pressed_key(keys: &mut KeysDown, record_key: u64, down: bool, now: u64)
    ensures
        final(keys)@ == recorded(old(keys)@, record_key, down, now),
{
    if down {
        keys.times.insert(record_key, now);
    } else {
        keys.times.remove(&record_key);
    }
}

pub fn is_altgr_pressed(keys: &KeysDown) -> (res: bool)
    ensures
        res == altgr_down(keys@),
{
    keys.contains(control_record_key(ControlKey::RAlt.value()))
}

pub fn record_key_is_control_key(record_key: u64) -> (res: bool)
    ensures
        res == (record_key < KEY_CHAR_START),
{
    record_key < KEY_CHAR_START
}

pub fn record_key_is_chr(record_key: u64) -> (res: bool)
    ensures
        res == (KEY_RDEV_START <= record_key < KEY_CHAR_START),
{
    KEY_RDEV_START <= record_key && record_key < KEY_CHAR_START
}

pub fn record_key_is_rdev_layout(record_key: u64) -> (res: bool)
    ensures
        res == (KEY_CHAR_START <= record_key),
{
    KEY_CHAR_START <= record_key
}

/// The local key of a number in the table. Every number below those of the
/// characters is taken for the wire number of a control key.
pub open spec fn recorded_key(record_key: u64) -> Option<Key> {
    if record_key < KEY_CHAR_START {
        local_key_of_code(record_key as i32)
    } else {
        None
    }
}

pub fn record_key_to_key(record_key: u64) -> (key: Option<Key>)
    ensures
        key == recorded_key(record_key),
{
    if record_key_is_control_key(record_key) {
        control_key_value_to_key(record_key as i32)
    } else if record_key_is_chr(record_key) {
        let chr: u32 = (record_key - KEY_CHAR_START) as u32;
        Some(char_value_to_key(chr))
    } else {
        None
    }
}

/// The steps that let go of a key of the table.
pub open spec fn release_ops(platform: Platform, record_key: u64) -> Seq<Op> {
    if KEY_CHAR_START <= record_key {
        let code = ((record_key - KEY_RDEV_START) % 0x1_0000_0000) as u32;
        simulate_ops(platform, RdevKey::Unknown(code), false)
    } else {
        match recorded_key(record_key) {
            Some(key) => seq![Op::Do(Command::KeyUp(key))],
            None => Seq::empty(),
        }
    }
}

pub fn release_record_key(plan: &mut Vec<Op>, platform: Platform, record_key: u64)
    ensures
        final(plan)@ == old(plan)@ + release_ops(platform, record_key),
{
    if record_key_is_rdev_layout(record_key) {
        let number: u64 = record_key - KEY_RDEV_START;
        assert(number as u32 == number % 0x1_0000_0000) by (bit_vector);
        rdev_key_down_or_up(plan, platform, RdevKey::Unknown(number as u32), false);
    } else if let Some(key) = record_key_to_key(record_key) {
        plan.push(Op::Do(Command::KeyUp(key)));
    }
    assert(plan@ =~= old(plan)@ + release_ops(platform, record_key));
}

/// Whether a key that went down at a time is to be let go of: always if forced to,
/// else once it has been down for `KEY_DOWN_TIMEOUT`.
pub open spec fn is_due(time: u64, force: bool, now: u64) -> bool {
    force || now - time >= KEY_DOWN_TIMEOUT
}

/// The keys of a table that are to be let go of.
pub open spec fn due_keys(keys: Map<u64, u64>, force: bool, now: u64) -> Set<u64> {
    Set::new(|key: u64| keys.contains_key(key) && is_due(keys[key], force, now))
}

/// The steps that let go of some keys, one after the other.
pub open spec fn release_all_ops(platform: Platform, record_keys: Seq<u64>) -> Seq<Op>
    decreases record_keys.len(),
{
    if record_keys.len() == 0 {
        Seq::empty()
    } else {
        release_all_ops(platform, record_keys.drop_last()) + release_ops(
            platform,
            record_keys.last(),
        )
    }
}

/// A walk over a table meets every key of it once.
proof fn lemma_walk(times: &HashMap<u64, u64>, order: Seq<u64>)
    requires
        ({
            let walk = vstd::std_specs::iter::IteratorSpec::remaining(
                &vstd::std_specs::hash::spec_hash_map_iter(times),
            );
            &&& walk.no_duplicates()
            &&& order == Seq::new(walk.len(), |i: int| *walk[i].0)
        }),
    ensures
        order.no_duplicates(),
        order.to_set() == times@.dom(),
{
    let walk = vstd::std_specs::iter::IteratorSpec::remaining(
        &vstd::std_specs::hash::spec_hash_map_iter(times),
    );
    assert forall|i: int, j: int| 0 <= i < order.len() && 0 <= j < order.len() && i != j implies
        order[i] != order[j] by {
        assert(times@.contains_key(*walk[i].0));
        assert(times@.contains_key(*walk[j].0));
        assert(walk[i] != walk[j]);
    }
    assert forall|key: u64| order.to_set().contains(key) <==> times@.dom().contains(key) by {
        if times@.contains_key(key) {
            assert(walk.contains((&key, &times@[key])));
            let i = choose|i: int| 0 <= i < walk.len() && walk[i] == (&key, &times@[key]);
            assert(order[i] == key);
        }
        if order.contains(key) {
            let i = choose|i: int| 0 <= i < order.len() && order[i] == key;
            assert(times@.contains_key(*walk[i].0));
        }
    }
    assert(order.to_set() =~= times@.dom());
}

impl KeysDown {
    /// The keys that are to be let go of, in no particular order.
    pub fn due(&self, force: bool, now: u64) -> (record_keys: Vec<u64>)
        ensures
            record_keys@.no_duplicates(),
            record_keys@.to_set() == due_keys(self@, force, now),
    {
        let mut record_keys: Vec<u64> = Vec::new();
        let entries = self.times.iter();
        let ghost walk = vstd::std_specs::iter::IteratorSpec::remaining(&entries);
        let ghost order = Seq::new(walk.len(), |i: int| *walk[i].0);
        let ghost due = due_keys(self@, force, now);
        proof {
            lemma_walk(&self.times, order);
        }
        for entry in iter: entries
            invariant
                iter.seq() == walk,
                order == Seq::new(walk.len(), |i: int| *walk[i].0),
                order.no_duplicates(),
                forall|i: int| #![trigger order[i]]
                    0 <= i < order.len() ==> self@.contains_key(order[i]) && self@[order[i]]
                        == *walk[i].1,
                due == due_keys(self@, force, now),
                record_keys@.no_duplicates(),
                forall|key: u64| #[trigger]
                    record_keys@.contains(key) <==> order.take(iter.index()).contains(key)
                        && due.contains(key),
        {
            let (record_key, time) = entry;
            let ghost before = record_keys@;
            let ghost seen = order.take(iter.index());
            assert(*record_key == order[iter.index()]);
            assert(!seen.contains(*record_key));
            assert(!before.contains(*record_key));
            assert(order.take(iter.index() + 1) =~= seen.push(*record_key));
            if force || now.saturating_sub(*time) >= KEY_DOWN_TIMEOUT {
                record_keys.push(*record_key);
            }
            assert forall|key: u64| #[trigger]
                record_keys@.contains(key) <==> seen.push(*record_key).contains(key)
                    && due.contains(key) by {
                broadcast use vstd::seq_lib::lemma_seq_contains_after_push;
            }
        }
        assert(order.take(order.len() as int) =~= order);
        assert forall|key: u64| record_keys@.to_set().contains(key) <==> due.contains(key) by {
            assert(record_keys@.contains(key) <==> order.contains(key) && due.contains(key));
            assert(order.contains(key) <==> order.to_set().contains(key));
        }
        assert(record_keys@.to_set() =~= due);
        record_keys
    }
}

/// Lets go of some keys, one after the other.
pub fn release_record_keys(
    keys: &mut KeysDown,
    platform: Platform,
    record_keys: &Vec<u64>,
) -> (plan: Vec<Op>)
    ensures
        final(keys)@ == old(keys)@.remove_keys(record_keys@.to_set()),
        plan@ == release_all_ops(platform, record_keys@),
{
    let mut plan: Vec<Op> = Vec::new();
    let mut i: usize = 0;
    assert(keys@ =~= old(keys)@.remove_keys(record_keys@.take(0).to_set()));
    while i < record_keys.len()
        invariant
            i <= record_keys.len(),
            keys@ == old(keys)@.remove_keys(record_keys@.take(i as int).to_set()),
            plan@ == release_all_ops(platform, record_keys@.take(i as int)),
        decreases record_keys.len() - i,
    {
        let record_key: u64 = record_keys[i];
        record_pressed_key(keys, record_key, false, 0);
        release_record_key(&mut plan, platform, record_key);
        proof {
            broadcast use vstd::seq_lib::lemma_seq_contains_after_push;

            let before = record_keys@.take(i as int);
            let after = record_keys@.take(i + 1);
            assert(after.drop_last() =~= before);
            assert(after =~= before.push(record_key));
            assert(after.to_set() =~= before.to_set().insert(record_key));
            assert(keys@ =~= old(keys)@.remove_keys(after.to_set()));
        }
        i = i + 1;
    }
    assert(record_keys@.take(i as int) =~= record_keys@);
    plan
}

/// Lets go of the keys that have been down for too long, or of all keys if forced
/// to. The order in which they are let go of is left open.
pub fn fix_key_down_timeout(
    keys: &mut KeysDown,
    platform: Platform,
    force: bool,
    now: u64,
) -> (plan: Vec<Op>)
    ensures
        final(keys)@ == old(keys)@.remove_keys(due_keys(old(keys)@, force, now)),
        exists|order: Seq<u64>| #[trigger]
            releases_due(old(keys)@, force, now, order) && plan@ == release_all_ops(platform, order),
{
    let record_keys: Vec<u64> = keys.due(force, now);
    let plan: Vec<Op> = release_record_keys(keys, platform, &record_keys);
    assert(releases_due(old(keys)@, force, now, record_keys@));
    plan
}

/// Whether a sequence holds every key that is to be let go of, each once.
pub open spec fn releases_due(keys: Map<u64, u64>, force: bool, now: u64, order: Seq<u64>) -> bool {
    &&& order.no_duplicates()
    &&& order.to_set() == due_keys(keys, force, now)
}

/// Whether the service is exiting, and the table of keys, after all keys were let go of
/// at exit.
pub open spec fn after_exit(exiting: bool, keys: Map<u64, u64>) -> (bool, Map<u64, u64>) {
    if exiting {
        (true, keys)
    } else {
        (true, Map::empty())
    }
}

/// Marks the service as exiting and lets go of all keys, unless that was done
/// before.
pub fn fix_key_down_timeout_at_exit(
    exiting: &mut bool,
    keys: &mut KeysDown,
    platform: Platform,
    now: u64,
) -> (plan: Vec<Op>)
    ensures
        *final(exiting),
        (*final(exiting), final(keys)@) == after_exit(*old(exiting), old(keys)@),
        *old(exiting) ==> final(keys)@ == old(keys)@ && plan@ == Seq::<Op>::empty(),
        !*old(exiting) ==> {
            &&& final(keys)@ == Map::<u64, u64>::empty()
            &&& exists|order: Seq<u64>| #[trigger]
                releases_due(old(keys)@, true, now, order) && plan@ == release_all_ops(
                    platform,
                    order,
                )
        },
{
    if *exiting {
        return Vec::new();
    }
    *exiting = true;
    let plan = fix_key_down_timeout(keys, platform, true, now);
    proof {
        law_force_releases_every_key(old(keys)@, now);
    }
    plan
}

/// A forced release leaves no key in the table.
pub proof fn law_force_releases_every_key(keys: Map<u64, u64>, now: u64)
    ensures
        due_keys(keys, true, now) == keys.dom(),
        keys.remove_keys(due_keys(keys, true, now)) == Map::<u64, u64>::empty(),
{
    assert(due_keys(keys, true, now) =~= keys.dom());
    assert(keys.remove_keys(due_keys(keys, true, now)) =~= Map::<u64, u64>::empty());
}

/// After a release the table holds exactly the keys that had not been down for too
/// long, with the times that they had.
pub proof fn law_release_keeps_recent_keys(keys: Map<u64, u64>, force: bool, now: u64, key: u64)
    ensures
        ({
            let left = keys.remove_keys(due_keys(keys, force, now));
            &&& left.contains_key(key) <==> keys.contains_key(key) && !force && now - keys[key]
                < KEY_DOWN_TIMEOUT
            &&& left.contains_key(key) ==> left[key] == keys[key]
            &&& due_keys(left, force, now) == Set::<u64>::empty()
        }),
{
    let left = keys.remove_keys(due_keys(keys, force, now));
    assert(due_keys(left, force, now) =~= Set::<u64>::empty());
}

/// A key that goes down and up again leaves no trace in the table, and what is
/// noted of one key is not touched by what is noted of another.
pub proof fn law_key_up_undoes_key_down(
    keys: Map<u64, u64>,
    key: u64,
    other: u64,
    pressed: u64,
    released: u64,
)
    ensures
        recorded(recorded(keys, key, true, pressed), key, false, released) == keys.remove(key),
        recorded(keys, key, true, pressed).contains_key(key),
        recorded(keys, key, true, pressed)[key] == pressed,
        !recorded(keys, key, false, released).contains_key(key),
        other != key ==> forall|down: bool|
            {
                let after = #[trigger] recorded(keys, key, down, pressed);
                &&& after.contains_key(other) == keys.contains_key(other)
                &&& after[other] == keys[other]
            },
{
    assert(recorded(recorded(keys, key, true, pressed), key, false, released) =~= keys.remove(key));
}

/// The numbers of the control keys and those of the characters and key codes do
/// not meet in the table, and each tells its key apart.
pub proof fn law_records_tell_keys_apart(key: ControlKey, code: u32, other: u32)
    ensures
        control_record(key.code()) != char_record(code),
        char_record(code) == char_record(other) ==> code == other,
        recorded_key(control_record(key.code())) == key.local_key(),
        recorded_key(char_record(code)) is None,
{
    crate::keys::law_codes_name_control_keys(key, key.code());
}

/// A control key is let go of as the local key that it was pressed as; a character
/// or key code is let go of through the simulator, by its number behind that of
/// the first character and less that of the first numbered key.
pub proof fn law_release_of_records(platform: Platform, key: ControlKey, code: u32)
    ensures
        release_ops(platform, control_record(key.code())) == (match key.local_key() {
            Some(k) => seq![Op::Do(Command::KeyUp(k))],
            None => Seq::empty(),
        }),
        ({
            let number = ((code + KEY_CHAR_START - KEY_RDEV_START) % 0x1_0000_0000) as u32;
            let up = Op::Do(Command::Simulate { key: RdevKey::Unknown(number), down: false });
            release_ops(platform, char_record(code)) == if platform == Platform::MacOs {
                seq![up, Op::Do(Command::Sleep(20_000_000))]
            } else {
                seq![up]
            }
        }),
{
    law_records_tell_keys_apart(key, code, code);
}

/// A control key has its wire number in the table, and a character or key code its own
/// behind 9999. The right alt key is down while the table holds the number 75.
pub proof fn law_records_have_their_numbers(ck: i32, code: u32, keys: Map<u64, u64>)
    ensures
        ck >= 0 ==> control_record(ck) == ck,
        ck < 0 ==> control_record(ck) == ck + 0x1_0000_0000_0000_0000,
        char_record(code) == code + 9999,
        altgr_down(keys) <==> keys.contains_key(75),
{
}

/// A key is let go of when and only when it is in the table and has been there for six
/// minutes, or all are.
pub proof fn law_keys_are_due_after_six_minutes(
    keys: Map<u64, u64>,
    force: bool,
    now: u64,
    key: u64,
)
    ensures
        due_keys(keys, force, now).contains(key) <==> keys.contains_key(key) && (force || now
            - keys[key] >= 360_000_000_000),
{
}

/// One more number to let go of adds its own steps behind those of the others: the
/// release of its local key where it is below those of the characters, and otherwise
/// the release of a numbered key through the simulator, on macOS with a pause of 20
/// milliseconds.
pub proof fn law_each_record_is_released(platform: Platform, order: Seq<u64>, record_key: u64)
    ensures
        release_all_ops(platform, Seq::empty()) == Seq::<Op>::empty(),
        ({
            let number = ((record_key - 999) % 0x1_0000_0000) as u32;
            let up = Op::Do(Command::Simulate { key: RdevKey::Unknown(number), down: false });
            let added: Seq<Op> = if record_key >= 9999 {
                if platform == Platform::MacOs {
                    seq![up, Op::Do(Command::Sleep(20_000_000))]
                } else {
                    seq![up]
                }
            } else {
                match local_key_of_code(record_key as i32) {
                    Some(key) => seq![Op::Do(Command::KeyUp(key))],
                    None => Seq::empty(),
                }
            };
            release_all_ops(platform, order.push(record_key)) == release_all_ops(platform, order)
                + added
        }),
{
    assert(order.push(record_key).drop_last() =~= order);
}

/// The service exits once: the first time leaves no key in the table, and another time
/// changes nothing.
pub proof fn law_exit_happens_once(keys: Map<u64, u64>, since: Map<u64, u64>, key: u64)
    ensures
        after_exit(false, keys).0,
        !after_exit(false, keys).1.contains_key(key),
        after_exit(after_exit(false, keys).0, since) == (true, since),
{
}

} // verus!
