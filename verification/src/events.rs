use vstd::prelude::*;

use crate::keys::{ControlKey, RdevKey};

verus! {

/// A mouse event as the peer sent it. The three low bits of `mask` say what
/// happened, the bits above them which buttons it is about; `modifiers` holds the
/// wire numbers of the control keys that are held on the peer's side.
#[derive(Debug)]
pub struct MouseEvent {
    pub mask: i32,
    pub x: i32,
    pub y: i32,
    pub modifiers: Vec<i32>,
}

/// How the peer wants its key events to be understood.
#[derive(Clone, Copy, Debug, PartialEq, Eq, Structural)]
pub enum KeyboardMode {
    Legacy,
    MapKeys,
    Translate,
    Auto,
}

/// What a key event is about.
#[derive(Debug)]
pub enum KeyUnion {
    /// A control key, by its number on the wire.
    ControlKey(i32),
    /// A character of the layout, or in map mode a key code of this platform.
    Chr(u32),
    /// A character to be typed whatever the layout.
    Unicode(u32),
    /// A text to be typed.
    Sequence(String),
}

/// A key event as the peer sent it; `modifiers` is as in `MouseEvent`.
#[derive(Debug)]
pub struct KeyEvent {
    pub down: bool,
    pub union: Option<KeyUnion>,
    pub modifiers: Vec<i32>,
    pub mode: KeyboardMode,
}

impl Clone for MouseEvent {
    fn clone(&self) -> (evt: MouseEvent)
        ensures
            evt.same(*self),
    {
        let modifiers: Vec<i32> = self.modifiers.clone();
        assert(modifiers@ =~= self.modifiers@);
        MouseEvent { mask: self.mask, x: self.x, y: self.y, modifiers }
    }
}

impl Clone for KeyUnion {
    fn clone(&self) -> (union: KeyUnion)
        ensures
            match *self {
                KeyUnion::Sequence(text) => union matches KeyUnion::Sequence(copy) && copy@ == text@,
                other => union == other,
            },
    {
        match self {
            KeyUnion::ControlKey(code) => KeyUnion::ControlKey(*code),
            KeyUnion::Chr(code) => KeyUnion::Chr(*code),
            KeyUnion::Unicode(code) => KeyUnion::Unicode(*code),
            KeyUnion::Sequence(text) => KeyUnion::Sequence(text.clone()),
        }
    }
}

impl Clone for KeyEvent {
    fn clone(&self) -> (evt: KeyEvent)
        ensures
            evt.same(*self),
    {
        let union: Option<KeyUnion> = match &self.union {
            Some(union) => Some(union.clone()),
            None => None,
        };
        let modifiers: Vec<i32> = self.modifiers.clone();
        assert(modifiers@ =~= self.modifiers@);
        KeyEvent { down: self.down, union, modifiers, mode: self.mode }
    }
}

impl MouseEvent {
    /// Whether two events say the same.
    pub open spec fn same(self, other: MouseEvent) -> bool {
        &&& self.mask == other.mask
        &&& self.x == other.x
        &&& self.y == other.y
        &&& self.modifiers@ == other.modifiers@
    }

    /// What happened: 0 for a move, 1 and 2 for buttons going down and up, 3 and
    /// 4 for scrolling.
    pub open spec fn kind(self) -> int {
        self.mask as int % 8
    }

    /// The buttons: 1 for the left one, 2 for the right one, 4 for the middle one.
    pub open spec fn buttons(self) -> int {
        self.mask as int / 8
    }

    pub fn event_type(&self) -> (kind: i32)
        ensures
            kind == self.kind(),
    {
        proof {
            lemma_mask_parts(self.mask);
        }
        self.mask & 0x7
    }

    pub fn event_buttons(&self) -> (buttons: i32)
        ensures
            buttons == self.buttons(),
    {
        proof {
            lemma_mask_parts(self.mask);
        }
        self.mask >> 3
    }
}

proof fn lemma_mask_parts(mask: i32)
    ensures
        mask >> 3 == mask as int / 8,
        mask & 0x7 == mask as int % 8,
{
    assert(mask - ((mask >> 3) * 8) == (mask & 0x7)) by (bit_vector);
    assert(0 <= (mask & 0x7) < 8) by (bit_vector);
}

/// The three low bits of the mask say what happened, and the others which buttons it
/// is about.
pub proof fn law_mask_has_two_parts(evt: MouseEvent)
    ensures
        evt.kind() == evt.mask & 7,
        evt.buttons() == evt.mask >> 3,
        0 <= evt.kind() < 8,
        evt.mask == 8 * evt.buttons() + evt.kind(),
{
    lemma_mask_parts(evt.mask);
}

/// Whether an event is the release of the left button alone.
pub open spec fn left_up(evt: MouseEvent) -> bool {
    evt.buttons() == 1 && evt.kind() == 2
}

/// The left button goes up alone with one mask and with no other.
pub proof fn law_left_up_has_one_mask(evt: MouseEvent)
    ensures
        left_up(evt) <==> evt.mask == 0b1010,
{
    lemma_mask_parts(evt.mask);
}

/// Whether an event is the release of the left button alone.
pub fn is_left_up(evt: &MouseEvent) -> (res: bool)
    ensures
        res == (evt.buttons() == 1 && evt.kind() == 2),
        res == left_up(*evt),
{
    let buttons: i32 = evt.event_buttons();
    let evt_type: i32 = evt.event_type();
    buttons == 1 && evt_type == 2
}

impl KeyEvent {
    /// Whether two events say the same.
    pub open spec fn same(self, other: KeyEvent) -> bool {
        &&& self.down == other.down
        &&& match (self.union, other.union) {
            (Some(KeyUnion::Sequence(text)), Some(KeyUnion::Sequence(copy))) => text@ == copy@,
            (union, copy) => union == copy,
        }
        &&& self.modifiers@ == other.modifiers@
        &&& self.mode == other.mode
    }

    /// The character or key code of an event that is about one, and 0 of any other.
    pub open spec fn code(self) -> u32 {
        match self.union {
            Some(KeyUnion::Chr(code)) => code,
            _ => 0,
        }
    }

    /// The wire number of the control key that an event is about, and -1 where it
    /// is about something else.
    pub open spec fn control_key_code(self) -> i32 {
        match self.union {
            Some(KeyUnion::ControlKey(code)) => code,
            _ => -1i32,
        }
    }

    /// The text that an event asks to be typed.
    pub open spec fn text(self) -> Seq<char> {
        match self.union {
            Some(KeyUnion::Sequence(text)) => text@,
            _ => Seq::empty(),
        }
    }

    pub fn chr(&self) -> (code: u32)
        ensures
            code == self.code(),
    {
        match &self.union {
            Some(KeyUnion::Chr(code)) => *code,
            _ => 0,
        }
    }

    pub fn seq(&self) -> (text: String)
        ensures
            text@ == self.text(),
    {
        match &self.union {
            Some(KeyUnion::Sequence(text)) => text.clone(),
            _ => String::new(),
        }
    }
}

pub fn get_control_key_value(key_event: &KeyEvent) -> (value: i32)
    ensures
        value == key_event.control_key_code(),
{
    match &key_event.union {
        Some(KeyUnion::ControlKey(ck)) => *ck,
        _ => -1,
    }
}

/// Whether an event is about the return key or that of the numeric keypad.
pub open spec fn enters(evt: KeyEvent) -> bool {
    evt.union matches Some(KeyUnion::ControlKey(ck)) && (ck == ControlKey::Return.code() || ck
        == ControlKey::NumpadEnter.code())
}

/// Two control keys enter, and nothing else does.
pub proof fn law_two_keys_enter(evt: KeyEvent)
    ensures
        enters(evt) <==> evt.union == Some(KeyUnion::ControlKey(27)) || evt.union == Some(
            KeyUnion::ControlKey(72),
        ),
{
}

/// Whether an event is about the return key or that of the numeric keypad.
pub fn is_enter(evt: &KeyEvent) -> (res: bool)
    ensures
        res == (evt.union matches Some(KeyUnion::ControlKey(ck)) && (ck == ControlKey::Return.code()
            || ck == ControlKey::NumpadEnter.code())),
        res == enters(*evt),
{
    if let Some(KeyUnion::ControlKey(ck)) = &evt.union {
        if *ck == ControlKey::Return.value() || *ck == ControlKey::NumpadEnter.value() {
            return true;
        }
    }
    false
}

/// Whether a control key is among the wire numbers of a list of modifiers.
pub open spec fn lists(modifiers: Seq<i32>, key: ControlKey) -> bool {
    modifiers.contains(key.code())
}

pub fn contains_control_key(modifiers: &Vec<i32>, key: ControlKey) -> (res: bool)
    ensures
        res == lists(modifiers@, key),
{
    let code: i32 = key.value();
    let mut i: usize = 0;
    while i < modifiers.len()
        invariant
            i <= modifiers.len(),
            code == key.code(),
            forall|j: int| 0 <= j < i ==> modifiers@[j] != code,
        decreases modifiers.len() - i,
    {
        if modifiers[i] == code {
            return true;
        }
        i = i + 1;
    }
    false
}

pub fn is_modifier_in_key_event(control_key: ControlKey, key_event: &KeyEvent) -> (res: bool)
    ensures
        res == lists(key_event.modifiers@, control_key),
{
    contains_control_key(&key_event.modifiers, control_key)
}

pub fn is_not_same_status(client_locking: bool, remote_locking: bool) -> (res: bool)
    ensures
        res == (client_locking != remote_locking),
{
    client_locking != remote_locking
}

/// Whether a wire number stands for one of the keys that share a key of the
/// numeric keypad with a digit.
pub open spec fn is_numpad_code(code: i32) -> bool {
    match ControlKey::of_code(code) {
        Some(
            ControlKey::Home
            | ControlKey::UpArrow
            | ControlKey::PageUp
            | ControlKey::LeftArrow
            | ControlKey::RightArrow
            | ControlKey::End
            | ControlKey::DownArrow
            | ControlKey::PageDown
            | ControlKey::Insert
            | ControlKey::Delete,
        ) => true,
        _ => false,
    }
}

fn is_numpad_value(code: i32) -> (res: bool)
    ensures
        res == is_numpad_code(code),
{
    match ControlKey::from_value(code) {
        Some(
            ControlKey::Home
            | ControlKey::UpArrow
            | ControlKey::PageUp
            | ControlKey::LeftArrow
            | ControlKey::RightArrow
            | ControlKey::End
            | ControlKey::DownArrow
            | ControlKey::PageDown
            | ControlKey::Insert
            | ControlKey::Delete,
        ) => true,
        _ => false,
    }
}

pub open spec fn lists_numpad_key(modifiers: Seq<i32>) -> bool {
    exists|i: int| 0 <= i < modifiers.len() && is_numpad_code(#[trigger] modifiers[i])
}

pub fn has_numpad_key(key_event: &KeyEvent) -> (res: bool)
    ensures
        res == lists_numpad_key(key_event.modifiers@),
{
    let mut i: usize = 0;
    while i < key_event.modifiers.len()
        invariant
            i <= key_event.modifiers.len(),
            forall|j: int| 0 <= j < i ==> !is_numpad_code(#[trigger] key_event.modifiers@[j]),
        decreases key_event.modifiers.len() - i,
    {
        if is_numpad_value(key_event.modifiers[i]) {
            return true;
        }
        i = i + 1;
    }
    false
}

/// Whether a key is one of those that share a key of the numeric keypad with a
/// digit.
pub open spec fn is_numpad_key(key: RdevKey) -> bool {
    match key {
        RdevKey::Home
        | RdevKey::UpArrow
        | RdevKey::PageUp
        | RdevKey::LeftArrow
        | RdevKey::RightArrow
        | RdevKey::End
        | RdevKey::DownArrow
        | RdevKey::PageDown
        | RdevKey::Insert
        | RdevKey::Delete => true,
        _ => false,
    }
}

/// `win_key` is the key that Windows knows under the event's scan code.
pub fn is_rdev_numpad_key(win_key: RdevKey) -> (res: bool)
    ensures
        res == is_numpad_key(win_key),
{
    match win_key {
        RdevKey::Home
        | RdevKey::UpArrow
        | RdevKey::PageUp
        | RdevKey::LeftArrow
        | RdevKey::RightArrow
        | RdevKey::End
        | RdevKey::DownArrow
        | RdevKey::PageDown
        | RdevKey::Insert
        | RdevKey::Delete => true,
        _ => false,
    }
}

/// Whether num lock has to be left alone on Windows: with it switched on, keys
/// such as home would arrive as digits.
pub open spec fn numlock_disabled(evt: KeyEvent, win_key: RdevKey) -> bool {
    match evt.mode {
        KeyboardMode::MapKeys => is_numpad_key(win_key),
        _ => lists_numpad_key(evt.modifiers@),
    }
}

/// `win_key` is the key that Windows knows under the event's scan code; only map
/// mode looks at it.
pub fn is_numlock_disabled(key_event: &KeyEvent, win_key: RdevKey) -> (res: bool)
    ensures
        res == numlock_disabled(*key_event, win_key),
{
    match key_event.mode {
        KeyboardMode::MapKeys => is_rdev_numpad_key(win_key),
        _ => has_numpad_key(key_event),
    }
}

/// A control key is listed if its number is, at some place.
pub proof fn law_listed_is_somewhere(modifiers: Seq<i32>, key: ControlKey)
    ensures
        lists(modifiers, key) <==> exists|i: int|
            0 <= i < modifiers.len() && #[trigger] modifiers[i] == key.code(),
{
}

/// Num lock is left alone on Windows for the keys that share a key of the numeric keypad
/// with a digit, and for no others: home, end, insert, delete, the page keys and the
/// arrows. In map mode the key of the scan code decides, else the listed control keys.
pub proof fn law_numlock_is_left_alone_for_keypad(evt: KeyEvent, win_key: RdevKey)
    ensures
        evt.mode == KeyboardMode::MapKeys ==> (numlock_disabled(evt, win_key) <==> win_key
            == RdevKey::Home || win_key == RdevKey::End || win_key == RdevKey::Insert || win_key
            == RdevKey::Delete || win_key == RdevKey::PageUp || win_key == RdevKey::PageDown
            || win_key == RdevKey::UpArrow || win_key == RdevKey::DownArrow || win_key
            == RdevKey::LeftArrow || win_key == RdevKey::RightArrow),
        evt.mode != KeyboardMode::MapKeys ==> (numlock_disabled(evt, win_key) <==> exists|i: int|
            0 <= i < evt.modifiers@.len() && {
                let code = #[trigger] evt.modifiers@[i];
                ||| code == ControlKey::Home.code()
                ||| code == ControlKey::End.code()
                ||| code == ControlKey::Insert.code()
                ||| code == ControlKey::Delete.code()
                ||| code == ControlKey::PageUp.code()
                ||| code == ControlKey::PageDown.code()
                ||| code == ControlKey::UpArrow.code()
                ||| code == ControlKey::DownArrow.code()
                ||| code == ControlKey::LeftArrow.code()
                ||| code == ControlKey::RightArrow.code()
            }),
{
    let m = evt.modifiers@;
    assert forall|i: int| 0 <= i < m.len() implies (is_numpad_code(#[trigger] m[i]) <==> m[i]
        == ControlKey::Home.code() || m[i] == ControlKey::End.code() || m[i]
        == ControlKey::Insert.code() || m[i] == ControlKey::Delete.code() || m[i]
        == ControlKey::PageUp.code() || m[i] == ControlKey::PageDown.code() || m[i]
        == ControlKey::UpArrow.code() || m[i] == ControlKey::DownArrow.code() || m[i]
        == ControlKey::LeftArrow.code() || m[i] == ControlKey::RightArrow.code()) by {}
}

/// An event is about one thing: a code, a control key or a text, and about none of the
/// others then.
pub proof fn law_event_is_about_one_thing(evt: KeyEvent)
    ensures
        match evt.union {
            Some(KeyUnion::Chr(code)) => evt.code() == code && evt.control_key_code() == -1
                && evt.text().len() == 0,
            Some(KeyUnion::ControlKey(ck)) => evt.code() == 0 && evt.control_key_code() == ck
                && evt.text().len() == 0,
            Some(KeyUnion::Sequence(text)) => evt.code() == 0 && evt.control_key_code() == -1
                && evt.text() == text@,
            _ => evt.code() == 0 && evt.control_key_code() == -1 && evt.text().len() == 0,
        },
{
}

} // verus!
