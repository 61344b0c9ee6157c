use vstd::prelude::*;

verus! {

/// The operating system that input is injected into.
#[derive(Clone, Copy, Debug, PartialEq, Eq, Structural)]
pub enum Platform {
    Linux,
    Windows,
    MacOs,
}

/// A key of the local keyboard, as the injecting device names it.
#[derive(Clone, Copy, Debug, PartialEq, Eq, Structural)]
pub enum Key {
    Alt,
    Backspace,
    CapsLock,
    Control,
    Delete,
    DownArrow,
    End,
    Escape,
    F1,
    F10,
    F11,
    F12,
    F2,
    F3,
    F4,
    F5,
    F6,
    F7,
    F8,
    F9,
    Home,
    LeftArrow,
    Meta,
    Option,
    PageDown,
    PageUp,
    Return,
    RightArrow,
    Shift,
    Space,
    Tab,
    UpArrow,
    Numpad0,
    Numpad1,
    Numpad2,
    Numpad3,
    Numpad4,
    Numpad5,
    Numpad6,
    Numpad7,
    Numpad8,
    Numpad9,
    Cancel,
    Clear,
    Pause,
    Kana,
    Hangul,
    Junja,
    Final,
    Hanja,
    Kanji,
    Convert,
    Select,
    Print,
    Execute,
    Snapshot,
    Insert,
    Help,
    Sleep,
    Separator,
    Scroll,
    NumLock,
    RWin,
    Apps,
    Multiply,
    Add,
    Subtract,
    Decimal,
    Divide,
    Equals,
    NumpadEnter,
    RightAlt,
    RightControl,
    RightShift,
    /// The key that gives this character in the current layout.
    Layout(char),
    /// A key by its raw code.
    Raw(u16),
}

/// A button of the local mouse.
#[derive(Clone, Copy, Debug, PartialEq, Eq, Structural)]
pub enum MouseButton {
    Left,
    Middle,
    Right,
}

/// A key by the code that its platform gives to it.
#[derive(Clone, Copy, Debug, PartialEq, Eq, Structural)]
pub enum RawKey {
    ScanCode(u32),
    LinuxXorgKeycode(u32),
    MacVirtualKeycode(u32),
}

/// A key as the low-level simulator names it. Of the keys that have a name of
/// their own there, only those of the numeric keypad's second layer matter here.
#[derive(Clone, Copy, Debug, PartialEq, Eq, Structural)]
pub enum RdevKey {
    Home,
    UpArrow,
    PageUp,
    LeftArrow,
    RightArrow,
    End,
    DownArrow,
    PageDown,
    Insert,
    Delete,
    /// A key that only has a number.
    Unknown(u32),
    RawKey(RawKey),
    /// Any other key with a name of its own.
    Other,
}

/// A key without a character, as the peer names it on the wire.
#[derive(Clone, Copy, Debug, PartialEq, Eq, Structural)]
pub enum ControlKey {
    Unknown,
    Alt,
    Backspace,
    CapsLock,
    Control,
    Delete,
    DownArrow,
    End,
    Escape,
    F1,
    F10,
    F11,
    F12,
    F2,
    F3,
    F4,
    F5,
    F6,
    F7,
    F8,
    F9,
    Home,
    LeftArrow,
    Meta,
    Option,
    PageDown,
    PageUp,
    Return,
    RightArrow,
    Shift,
    Space,
    Tab,
    UpArrow,
    Numpad0,
    Numpad1,
    Numpad2,
    Numpad3,
    Numpad4,
    Numpad5,
    Numpad6,
    Numpad7,
    Numpad8,
    Numpad9,
    Cancel,
    Clear,
    Menu,
    Pause,
    Kana,
    Hangul,
    Junja,
    Final,
    Hanja,
    Kanji,
    Convert,
    Select,
    Print,
    Execute,
    Snapshot,
    Insert,
    Help,
    Sleep,
    Separator,
    Scroll,
    NumLock,
    RWin,
    Apps,
    Multiply,
    Add,
    Subtract,
    Decimal,
    Divide,
    Equals,
    NumpadEnter,
    RShift,
    RControl,
    RAlt,
    CtrlAltDel,
    LockScreen,
}

impl ControlKey {
    /// The number that stands for the key on the wire.
    pub open spec fn code(self) -> i32 {
        match self {
            ControlKey::Unknown => 0,
            ControlKey::Alt => 1,
            ControlKey::Backspace => 2,
            ControlKey::CapsLock => 3,
            ControlKey::Control => 4,
            ControlKey::Delete => 5,
            ControlKey::DownArrow => 6,
            ControlKey::End => 7,
            ControlKey::Escape => 8,
            ControlKey::F1 => 9,
            ControlKey::F10 => 10,
            ControlKey::F11 => 11,
            ControlKey::F12 => 12,
            ControlKey::F2 => 13,
            ControlKey::F3 => 14,
            ControlKey::F4 => 15,
            ControlKey::F5 => 16,
            ControlKey::F6 => 17,
            ControlKey::F7 => 18,
            ControlKey::F8 => 19,
            ControlKey::F9 => 20,
            ControlKey::Home => 21,
            ControlKey::LeftArrow => 22,
            ControlKey::Meta => 23,
            ControlKey::Option => 24,
            ControlKey::PageDown => 25,
            ControlKey::PageUp => 26,
            ControlKey::Return => 27,
            ControlKey::RightArrow => 28,
            ControlKey::Shift => 29,
            ControlKey::Space => 30,
            ControlKey::Tab => 31,
            ControlKey::UpArrow => 32,
            ControlKey::Numpad0 => 33,
            ControlKey::Numpad1 => 34,
            ControlKey::Numpad2 => 35,
            ControlKey::Numpad3 => 36,
            ControlKey::Numpad4 => 37,
            ControlKey::Numpad5 => 38,
            ControlKey::Numpad6 => 39,
            ControlKey::Numpad7 => 40,
            ControlKey::Numpad8 => 41,
            ControlKey::Numpad9 => 42,
            ControlKey::Cancel => 43,
            ControlKey::Clear => 44,
            ControlKey::Menu => 45,
            ControlKey::Pause => 46,
            ControlKey::Kana => 47,
            ControlKey::Hangul => 48,
            ControlKey::Junja => 49,
            ControlKey::Final => 50,
            ControlKey::Hanja => 51,
            ControlKey::Kanji => 52,
            ControlKey::Convert => 53,
            ControlKey::Select => 54,
            ControlKey::Print => 55,
            ControlKey::Execute => 56,
            ControlKey::Snapshot => 57,
            ControlKey::Insert => 58,
            ControlKey::Help => 59,
            ControlKey::Sleep => 60,
            ControlKey::Separator => 61,
            ControlKey::Scroll => 62,
            ControlKey::NumLock => 63,
            ControlKey::RWin => 64,
            ControlKey::Apps => 65,
            ControlKey::Multiply => 66,
            ControlKey::Add => 67,
            ControlKey::Subtract => 68,
            ControlKey::Decimal => 69,
            ControlKey::Divide => 70,
            ControlKey::Equals => 71,
            ControlKey::NumpadEnter => 72,
            ControlKey::RShift => 73,
            ControlKey::RControl => 74,
            ControlKey::RAlt => 75,
            ControlKey::CtrlAltDel => 100,
            ControlKey::LockScreen => 101,
        }
    }

    /// The key that a number on the wire stands for, if it stands for one.
    pub open spec fn of_code(code: i32) -> Option<ControlKey> {
        match code {
            0 => Some(ControlKey::Unknown),
            1 => Some(ControlKey::Alt),
            2 => Some(ControlKey::Backspace),
            3 => Some(ControlKey::CapsLock),
            4 => Some(ControlKey::Control),
            5 => Some(ControlKey::Delete),
            6 => Some(ControlKey::DownArrow),
            7 => Some(ControlKey::End),
            8 => Some(ControlKey::Escape),
            9 => Some(ControlKey::F1),
            10 => Some(ControlKey::F10),
            11 => Some(ControlKey::F11),
            12 => Some(ControlKey::F12),
            13 => Some(ControlKey::F2),
            14 => Some(ControlKey::F3),
            15 => Some(ControlKey::F4),
            16 => Some(ControlKey::F5),
            17 => Some(ControlKey::F6),
            18 => Some(ControlKey::F7),
            19 => Some(ControlKey::F8),
            20 => Some(ControlKey::F9),
            21 => Some(ControlKey::Home),
            22 => Some(ControlKey::LeftArrow),
            23 => Some(ControlKey::Meta),
            24 => Some(ControlKey::Option),
            25 => Some(ControlKey::PageDown),
            26 => Some(ControlKey::PageUp),
            27 => Some(ControlKey::Return),
            28 => Some(ControlKey::RightArrow),
            29 => Some(ControlKey::Shift),
            30 => Some(ControlKey::Space),
            31 => Some(ControlKey::Tab),
            32 => Some(ControlKey::UpArrow),
            33 => Some(ControlKey::Numpad0),
            34 => Some(ControlKey::Numpad1),
            35 => Some(ControlKey::Numpad2),
            36 => Some(ControlKey::Numpad3),
            37 => Some(ControlKey::Numpad4),
            38 => Some(ControlKey::Numpad5),
            39 => Some(ControlKey::Numpad6),
            40 => Some(ControlKey::Numpad7),
            41 => Some(ControlKey::Numpad8),
            42 => Some(ControlKey::Numpad9),
            43 => Some(ControlKey::Cancel),
            44 => Some(ControlKey::Clear),
            45 => Some(ControlKey::Menu),
            46 => Some(ControlKey::Pause),
            47 => Some(ControlKey::Kana),
            48 => Some(ControlKey::Hangul),
            49 => Some(ControlKey::Junja),
            50 => Some(ControlKey::Final),
            51 => Some(ControlKey::Hanja),
            52 => Some(ControlKey::Kanji),
            53 => Some(ControlKey::Convert),
            54 => Some(ControlKey::Select),
            55 => Some(ControlKey::Print),
            56 => Some(ControlKey::Execute),
            57 => Some(ControlKey::Snapshot),
            58 => Some(ControlKey::Insert),
            59 => Some(ControlKey::Help),
            60 => Some(ControlKey::Sleep),
            61 => Some(ControlKey::Separator),
            62 => Some(ControlKey::Scroll),
            63 => Some(ControlKey::NumLock),
            64 => Some(ControlKey::RWin),
            65 => Some(ControlKey::Apps),
            66 => Some(ControlKey::Multiply),
            67 => Some(ControlKey::Add),
            68 => Some(ControlKey::Subtract),
            69 => Some(ControlKey::Decimal),
            70 => Some(ControlKey::Divide),
            71 => Some(ControlKey::Equals),
            72 => Some(ControlKey::NumpadEnter),
            73 => Some(ControlKey::RShift),
            74 => Some(ControlKey::RControl),
            75 => Some(ControlKey::RAlt),
            100 => Some(ControlKey::CtrlAltDel),
            101 => Some(ControlKey::LockScreen),
            _ => None,
        }
    }

    /// The local key that a control key is injected as. The three keys that ask
    /// for something else than a key press have none.
    pub open spec fn local_key(self) -> Option<Key> {
        match self {
            ControlKey::Unknown => None,
            ControlKey::Alt => Some(Key::Alt),
            ControlKey::Backspace => Some(Key::Backspace),
            ControlKey::CapsLock => Some(Key::CapsLock),
            ControlKey::Control => Some(Key::Control),
            ControlKey::Delete => Some(Key::Delete),
            ControlKey::DownArrow => Some(Key::DownArrow),
            ControlKey::End => Some(Key::End),
            ControlKey::Escape => Some(Key::Escape),
            ControlKey::F1 => Some(Key::F1),
            ControlKey::F10 => Some(Key::F10),
            ControlKey::F11 => Some(Key::F11),
            ControlKey::F12 => Some(Key::F12),
            ControlKey::F2 => Some(Key::F2),
            ControlKey::F3 => Some(Key::F3),
            ControlKey::F4 => Some(Key::F4),
            ControlKey::F5 => Some(Key::F5),
            ControlKey::F6 => Some(Key::F6),
            ControlKey::F7 => Some(Key::F7),
            ControlKey::F8 => Some(Key::F8),
            ControlKey::F9 => Some(Key::F9),
            ControlKey::Home => Some(Key::Home),
            ControlKey::LeftArrow => Some(Key::LeftArrow),
            ControlKey::Meta => Some(Key::Meta),
            ControlKey::Option => Some(Key::Option),
            ControlKey::PageDown => Some(Key::PageDown),
            ControlKey::PageUp => Some(Key::PageUp),
            ControlKey::Return => Some(Key::Return),
            ControlKey::RightArrow => Some(Key::RightArrow),
            ControlKey::Shift => Some(Key::Shift),
            ControlKey::Space => Some(Key::Space),
            ControlKey::Tab => Some(Key::Tab),
            ControlKey::UpArrow => Some(Key::UpArrow),
            ControlKey::Numpad0 => Some(Key::Numpad0),
            ControlKey::Numpad1 => Some(Key::Numpad1),
            ControlKey::Numpad2 => Some(Key::Numpad2),
            ControlKey::Numpad3 => Some(Key::Numpad3),
            ControlKey::Numpad4 => Some(Key::Numpad4),
            ControlKey::Numpad5 => Some(Key::Numpad5),
            ControlKey::Numpad6 => Some(Key::Numpad6),
            ControlKey::Numpad7 => Some(Key::Numpad7),
            ControlKey::Numpad8 => Some(Key::Numpad8),
            ControlKey::Numpad9 => Some(Key::Numpad9),
            ControlKey::Cancel => Some(Key::Cancel),
            ControlKey::Clear => Some(Key::Clear),
            ControlKey::Menu => Some(Key::Alt),
            ControlKey::Pause => Some(Key::Pause),
            ControlKey::Kana => Some(Key::Kana),
            ControlKey::Hangul => Some(Key::Hangul),
            ControlKey::Junja => Some(Key::Junja),
            ControlKey::Final => Some(Key::Final),
            ControlKey::Hanja => Some(Key::Hanja),
            ControlKey::Kanji => Some(Key::Kanji),
            ControlKey::Convert => Some(Key::Convert),
            ControlKey::Select => Some(Key::Select),
            ControlKey::Print => Some(Key::Print),
            ControlKey::Execute => Some(Key::Execute),
            ControlKey::Snapshot => Some(Key::Snapshot),
            ControlKey::Insert => Some(Key::Insert),
            ControlKey::Help => Some(Key::Help),
            ControlKey::Sleep => Some(Key::Sleep),
            ControlKey::Separator => Some(Key::Separator),
            ControlKey::Scroll => Some(Key::Scroll),
            ControlKey::NumLock => Some(Key::NumLock),
            ControlKey::RWin => Some(Key::RWin),
            ControlKey::Apps => Some(Key::Apps),
            ControlKey::Multiply => Some(Key::Multiply),
            ControlKey::Add => Some(Key::Add),
            ControlKey::Subtract => Some(Key::Subtract),
            ControlKey::Decimal => Some(Key::Decimal),
            ControlKey::Divide => Some(Key::Divide),
            ControlKey::Equals => Some(Key::Equals),
            ControlKey::NumpadEnter => Some(Key::NumpadEnter),
            ControlKey::RShift => Some(Key::RightShift),
            ControlKey::RControl => Some(Key::RightControl),
            ControlKey::RAlt => Some(Key::RightAlt),
            ControlKey::CtrlAltDel => None,
            ControlKey::LockScreen => None,
        }
    }

    pub fn value(self) -> (code: i32)
        ensures
            code == self.code(),
    {
        match self {
            ControlKey::Unknown => 0,
            ControlKey::Alt => 1,
            ControlKey::Backspace => 2,
            ControlKey::CapsLock => 3,
            ControlKey::Control => 4,
            ControlKey::Delete => 5,
            ControlKey::DownArrow => 6,
            ControlKey::End => 7,
            ControlKey::Escape => 8,
            ControlKey::F1 => 9,
            ControlKey::F10 => 10,
            ControlKey::F11 => 11,
            ControlKey::F12 => 12,
            ControlKey::F2 => 13,
            ControlKey::F3 => 14,
            ControlKey::F4 => 15,
            ControlKey::F5 => 16,
            ControlKey::F6 => 17,
            ControlKey::F7 => 18,
            ControlKey::F8 => 19,
            ControlKey::F9 => 20,
            ControlKey::Home => 21,
            ControlKey::LeftArrow => 22,
            ControlKey::Meta => 23,
            ControlKey::Option => 24,
            ControlKey::PageDown => 25,
            ControlKey::PageUp => 26,
            ControlKey::Return => 27,
            ControlKey::RightArrow => 28,
            ControlKey::Shift => 29,
            ControlKey::Space => 30,
            ControlKey::Tab => 31,
            ControlKey::UpArrow => 32,
            ControlKey::Numpad0 => 33,
            ControlKey::Numpad1 => 34,
            ControlKey::Numpad2 => 35,
            ControlKey::Numpad3 => 36,
            ControlKey::Numpad4 => 37,
            ControlKey::Numpad5 => 38,
            ControlKey::Numpad6 => 39,
            ControlKey::Numpad7 => 40,
            ControlKey::Numpad8 => 41,
            ControlKey::Numpad9 => 42,
            ControlKey::Cancel => 43,
            ControlKey::Clear => 44,
            ControlKey::Menu => 45,
            ControlKey::Pause => 46,
            ControlKey::Kana => 47,
            ControlKey::Hangul => 48,
            ControlKey::Junja => 49,
            ControlKey::Final => 50,
            ControlKey::Hanja => 51,
            ControlKey::Kanji => 52,
            ControlKey::Convert => 53,
            ControlKey::Select => 54,
            ControlKey::Print => 55,
            ControlKey::Execute => 56,
            ControlKey::Snapshot => 57,
            ControlKey::Insert => 58,
            ControlKey::Help => 59,
            ControlKey::Sleep => 60,
            ControlKey::Separator => 61,
            ControlKey::Scroll => 62,
            ControlKey::NumLock => 63,
            ControlKey::RWin => 64,
            ControlKey::Apps => 65,
            ControlKey::Multiply => 66,
            ControlKey::Add => 67,
            ControlKey::Subtract => 68,
            ControlKey::Decimal => 69,
            ControlKey::Divide => 70,
            ControlKey::Equals => 71,
            ControlKey::NumpadEnter => 72,
            ControlKey::RShift => 73,
            ControlKey::RControl => 74,
            ControlKey::RAlt => 75,
            ControlKey::CtrlAltDel => 100,
            ControlKey::LockScreen => 101,
        }
    }

    pub fn from_value(code: i32) -> (key: Option<ControlKey>)
        ensures
            key == ControlKey::of_code(code),
    {
        match code {
            0 => Some(ControlKey::Unknown),
            1 => Some(ControlKey::Alt),
            2 => Some(ControlKey::Backspace),
            3 => Some(ControlKey::CapsLock),
            4 => Some(ControlKey::Control),
            5 => Some(ControlKey::Delete),
            6 => Some(ControlKey::DownArrow),
            7 => Some(ControlKey::End),
            8 => Some(ControlKey::Escape),
            9 => Some(ControlKey::F1),
            10 => Some(ControlKey::F10),
            11 => Some(ControlKey::F11),
            12 => Some(ControlKey::F12),
            13 => Some(ControlKey::F2),
            14 => Some(ControlKey::F3),
            15 => Some(ControlKey::F4),
            16 => Some(ControlKey::F5),
            17 => Some(ControlKey::F6),
            18 => Some(ControlKey::F7),
            19 => Some(ControlKey::F8),
            20 => Some(ControlKey::F9),
            21 => Some(ControlKey::Home),
            22 => Some(ControlKey::LeftArrow),
            23 => Some(ControlKey::Meta),
            24 => Some(ControlKey::Option),
            25 => Some(ControlKey::PageDown),
            26 => Some(ControlKey::PageUp),
            27 => Some(ControlKey::Return),
            28 => Some(ControlKey::RightArrow),
            29 => Some(ControlKey::Shift),
            30 => Some(ControlKey::Space),
            31 => Some(ControlKey::Tab),
            32 => Some(ControlKey::UpArrow),
            33 => Some(ControlKey::Numpad0),
            34 => Some(ControlKey::Numpad1),
            35 => Some(ControlKey::Numpad2),
            36 => Some(ControlKey::Numpad3),
            37 => Some(ControlKey::Numpad4),
            38 => Some(ControlKey::Numpad5),
            39 => Some(ControlKey::Numpad6),
            40 => Some(ControlKey::Numpad7),
            41 => Some(ControlKey::Numpad8),
            42 => Some(ControlKey::Numpad9),
            43 => Some(ControlKey::Cancel),
            44 => Some(ControlKey::Clear),
            45 => Some(ControlKey::Menu),
            46 => Some(ControlKey::Pause),
            47 => Some(ControlKey::Kana),
            48 => Some(ControlKey::Hangul),
            49 => Some(ControlKey::Junja),
            50 => Some(ControlKey::Final),
            51 => Some(ControlKey::Hanja),
            52 => Some(ControlKey::Kanji),
            53 => Some(ControlKey::Convert),
            54 => Some(ControlKey::Select),
            55 => Some(ControlKey::Print),
            56 => Some(ControlKey::Execute),
            57 => Some(ControlKey::Snapshot),
            58 => Some(ControlKey::Insert),
            59 => Some(ControlKey::Help),
            60 => Some(ControlKey::Sleep),
            61 => Some(ControlKey::Separator),
            62 => Some(ControlKey::Scroll),
            63 => Some(ControlKey::NumLock),
            64 => Some(ControlKey::RWin),
            65 => Some(ControlKey::Apps),
            66 => Some(ControlKey::Multiply),
            67 => Some(ControlKey::Add),
            68 => Some(ControlKey::Subtract),
            69 => Some(ControlKey::Decimal),
            70 => Some(ControlKey::Divide),
            71 => Some(ControlKey::Equals),
            72 => Some(ControlKey::NumpadEnter),
            73 => Some(ControlKey::RShift),
            74 => Some(ControlKey::RControl),
            75 => Some(ControlKey::RAlt),
            100 => Some(ControlKey::CtrlAltDel),
            101 => Some(ControlKey::LockScreen),
            _ => None,
        }
    }

    pub fn to_local_key(self) -> (key: Option<Key>)
        ensures
            key == self.local_key(),
    {
        match self {
            ControlKey::Unknown => None,
            ControlKey::Alt => Some(Key::Alt),
            ControlKey::Backspace => Some(Key::Backspace),
            ControlKey::CapsLock => Some(Key::CapsLock),
            ControlKey::Control => Some(Key::Control),
            ControlKey::Delete => Some(Key::Delete),
            ControlKey::DownArrow => Some(Key::DownArrow),
            ControlKey::End => Some(Key::End),
            ControlKey::Escape => Some(Key::Escape),
            ControlKey::F1 => Some(Key::F1),
            ControlKey::F10 => Some(Key::F10),
            ControlKey::F11 => Some(Key::F11),
            ControlKey::F12 => Some(Key::F12),
            ControlKey::F2 => Some(Key::F2),
            ControlKey::F3 => Some(Key::F3),
            ControlKey::F4 => Some(Key::F4),
            ControlKey::F5 => Some(Key::F5),
            ControlKey::F6 => Some(Key::F6),
            ControlKey::F7 => Some(Key::F7),
            ControlKey::F8 => Some(Key::F8),
            ControlKey::F9 => Some(Key::F9),
            ControlKey::Home => Some(Key::Home),
            ControlKey::LeftArrow => Some(Key::LeftArrow),
            ControlKey::Meta => Some(Key::Meta),
            ControlKey::Option => Some(Key::Option),
            ControlKey::PageDown => Some(Key::PageDown),
            ControlKey::PageUp => Some(Key::PageUp),
            ControlKey::Return => Some(Key::Return),
            ControlKey::RightArrow => Some(Key::RightArrow),
            ControlKey::Shift => Some(Key::Shift),
            ControlKey::Space => Some(Key::Space),
            ControlKey::Tab => Some(Key::Tab),
            ControlKey::UpArrow => Some(Key::UpArrow),
            ControlKey::Numpad0 => Some(Key::Numpad0),
            ControlKey::Numpad1 => Some(Key::Numpad1),
            ControlKey::Numpad2 => Some(Key::Numpad2),
            ControlKey::Numpad3 => Some(Key::Numpad3),
            ControlKey::Numpad4 => Some(Key::Numpad4),
            ControlKey::Numpad5 => Some(Key::Numpad5),
            ControlKey::Numpad6 => Some(Key::Numpad6),
            ControlKey::Numpad7 => Some(Key::Numpad7),
            ControlKey::Numpad8 => Some(Key::Numpad8),
            ControlKey::Numpad9 => Some(Key::Numpad9),
            ControlKey::Cancel => Some(Key::Cancel),
            ControlKey::Clear => Some(Key::Clear),
            ControlKey::Menu => Some(Key::Alt),
            ControlKey::Pause => Some(Key::Pause),
            ControlKey::Kana => Some(Key::Kana),
            ControlKey::Hangul => Some(Key::Hangul),
            ControlKey::Junja => Some(Key::Junja),
            ControlKey::Final => Some(Key::Final),
            ControlKey::Hanja => Some(Key::Hanja),
            ControlKey::Kanji => Some(Key::Kanji),
            ControlKey::Convert => Some(Key::Convert),
            ControlKey::Select => Some(Key::Select),
            ControlKey::Print => Some(Key::Print),
            ControlKey::Execute => Some(Key::Execute),
            ControlKey::Snapshot => Some(Key::Snapshot),
            ControlKey::Insert => Some(Key::Insert),
            ControlKey::Help => Some(Key::Help),
            ControlKey::Sleep => Some(Key::Sleep),
            ControlKey::Separator => Some(Key::Separator),
            ControlKey::Scroll => Some(Key::Scroll),
            ControlKey::NumLock => Some(Key::NumLock),
            ControlKey::RWin => Some(Key::RWin),
            ControlKey::Apps => Some(Key::Apps),
            ControlKey::Multiply => Some(Key::Multiply),
            ControlKey::Add => Some(Key::Add),
            ControlKey::Subtract => Some(Key::Subtract),
            ControlKey::Decimal => Some(Key::Decimal),
            ControlKey::Divide => Some(Key::Divide),
            ControlKey::Equals => Some(Key::Equals),
            ControlKey::NumpadEnter => Some(Key::NumpadEnter),
            ControlKey::RShift => Some(Key::RightShift),
            ControlKey::RControl => Some(Key::RightControl),
            ControlKey::RAlt => Some(Key::RightAlt),
            ControlKey::CtrlAltDel => None,
            ControlKey::LockScreen => None,
        }
    }
}

/// The numbers on the wire and the control keys determine each other.
pub proof fn law_codes_name_control_keys(key: ControlKey, code: i32)
    ensures
        ControlKey::of_code(key.code()) == Some(key),
        ControlKey::of_code(code) matches Some(k) ==> k.code() == code,
{
}

/// The local key that a number on the wire is injected as.
pub open spec fn local_key_of_code(code: i32) -> Option<Key> {
    match ControlKey::of_code(code) {
        Some(key) => key.local_key(),
        None => None,
    }
}

/// Every control key stands for one number on the wire, key by key, and is injected
/// as the local key of the same name: the menu key as alt, and the keys of the right
/// hand side as those of the right hand side. No other number stands for a key that
/// is injected.
pub proof fn law_control_keys_are_injected_by_name(code: i32)
    ensures
        ControlKey::Alt.code() == 1 && local_key_of_code(1) == Some(Key::Alt),
        ControlKey::Backspace.code() == 2 && local_key_of_code(2) == Some(Key::Backspace),
        ControlKey::CapsLock.code() == 3 && local_key_of_code(3) == Some(Key::CapsLock),
        ControlKey::Control.code() == 4 && local_key_of_code(4) == Some(Key::Control),
        ControlKey::Delete.code() == 5 && local_key_of_code(5) == Some(Key::Delete),
        ControlKey::DownArrow.code() == 6 && local_key_of_code(6) == Some(Key::DownArrow),
        ControlKey::End.code() == 7 && local_key_of_code(7) == Some(Key::End),
        ControlKey::Escape.code() == 8 && local_key_of_code(8) == Some(Key::Escape),
        ControlKey::F1.code() == 9 && local_key_of_code(9) == Some(Key::F1),
        ControlKey::F10.code() == 10 && local_key_of_code(10) == Some(Key::F10),
        ControlKey::F11.code() == 11 && local_key_of_code(11) == Some(Key::F11),
        ControlKey::F12.code() == 12 && local_key_of_code(12) == Some(Key::F12),
        ControlKey::F2.code() == 13 && local_key_of_code(13) == Some(Key::F2),
        ControlKey::F3.code() == 14 && local_key_of_code(14) == Some(Key::F3),
        ControlKey::F4.code() == 15 && local_key_of_code(15) == Some(Key::F4),
        ControlKey::F5.code() == 16 && local_key_of_code(16) == Some(Key::F5),
        ControlKey::F6.code() == 17 && local_key_of_code(17) == Some(Key::F6),
        ControlKey::F7.code() == 18 && local_key_of_code(18) == Some(Key::F7),
        ControlKey::F8.code() == 19 && local_key_of_code(19) == Some(Key::F8),
        ControlKey::F9.code() == 20 && local_key_of_code(20) == Some(Key::F9),
        ControlKey::Home.code() == 21 && local_key_of_code(21) == Some(Key::Home),
        ControlKey::LeftArrow.code() == 22 && local_key_of_code(22) == Some(Key::LeftArrow),
        ControlKey::Meta.code() == 23 && local_key_of_code(23) == Some(Key::Meta),
        ControlKey::Option.code() == 24 && local_key_of_code(24) == Some(Key::Option),
        ControlKey::PageDown.code() == 25 && local_key_of_code(25) == Some(Key::PageDown),
        ControlKey::PageUp.code() == 26 && local_key_of_code(26) == Some(Key::PageUp),
        ControlKey::Return.code() == 27 && local_key_of_code(27) == Some(Key::Return),
        ControlKey::RightArrow.code() == 28 && local_key_of_code(28) == Some(Key::RightArrow),
        ControlKey::Shift.code() == 29 && local_key_of_code(29) == Some(Key::Shift),
        ControlKey::Space.code() == 30 && local_key_of_code(30) == Some(Key::Space),
        ControlKey::Tab.code() == 31 && local_key_of_code(31) == Some(Key::Tab),
        ControlKey::UpArrow.code() == 32 && local_key_of_code(32) == Some(Key::UpArrow),
        ControlKey::Numpad0.code() == 33 && local_key_of_code(33) == Some(Key::Numpad0),
        ControlKey::Numpad1.code() == 34 && local_key_of_code(34) == Some(Key::Numpad1),
        ControlKey::Numpad2.code() == 35 && local_key_of_code(35) == Some(Key::Numpad2),
        ControlKey::Numpad3.code() == 36 && local_key_of_code(36) == Some(Key::Numpad3),
        ControlKey::Numpad4.code() == 37 && local_key_of_code(37) == Some(Key::Numpad4),
        ControlKey::Numpad5.code() == 38 && local_key_of_code(38) == Some(Key::Numpad5),
        ControlKey::Numpad6.code() == 39 && local_key_of_code(39) == Some(Key::Numpad6),
        ControlKey::Numpad7.code() == 40 && local_key_of_code(40) == Some(Key::Numpad7),
        ControlKey::Numpad8.code() == 41 && local_key_of_code(41) == Some(Key::Numpad8),
        ControlKey::Numpad9.code() == 42 && local_key_of_code(42) == Some(Key::Numpad9),
        ControlKey::Cancel.code() == 43 && local_key_of_code(43) == Some(Key::Cancel),
        ControlKey::Clear.code() == 44 && local_key_of_code(44) == Some(Key::Clear),
        ControlKey::Menu.code() == 45 && local_key_of_code(45) == Some(Key::Alt),
        ControlKey::Pause.code() == 46 && local_key_of_code(46) == Some(Key::Pause),
        ControlKey::Kana.code() == 47 && local_key_of_code(47) == Some(Key::Kana),
        ControlKey::Hangul.code() == 48 && local_key_of_code(48) == Some(Key::Hangul),
        ControlKey::Junja.code() == 49 && local_key_of_code(49) == Some(Key::Junja),
        ControlKey::Final.code() == 50 && local_key_of_code(50) == Some(Key::Final),
        ControlKey::Hanja.code() == 51 && local_key_of_code(51) == Some(Key::Hanja),
        ControlKey::Kanji.code() == 52 && local_key_of_code(52) == Some(Key::Kanji),
        ControlKey::Convert.code() == 53 && local_key_of_code(53) == Some(Key::Convert),
        ControlKey::Select.code() == 54 && local_key_of_code(54) == Some(Key::Select),
        ControlKey::Print.code() == 55 && local_key_of_code(55) == Some(Key::Print),
        ControlKey::Execute.code() == 56 && local_key_of_code(56) == Some(Key::Execute),
        ControlKey::Snapshot.code() == 57 && local_key_of_code(57) == Some(Key::Snapshot),
        ControlKey::Insert.code() == 58 && local_key_of_code(58) == Some(Key::Insert),
        ControlKey::Help.code() == 59 && local_key_of_code(59) == Some(Key::Help),
        ControlKey::Sleep.code() == 60 && local_key_of_code(60) == Some(Key::Sleep),
        ControlKey::Separator.code() == 61 && local_key_of_code(61) == Some(Key::Separator),
        ControlKey::Scroll.code() == 62 && local_key_of_code(62) == Some(Key::Scroll),
        ControlKey::NumLock.code() == 63 && local_key_of_code(63) == Some(Key::NumLock),
        ControlKey::RWin.code() == 64 && local_key_of_code(64) == Some(Key::RWin),
        ControlKey::Apps.code() == 65 && local_key_of_code(65) == Some(Key::Apps),
        ControlKey::Multiply.code() == 66 && local_key_of_code(66) == Some(Key::Multiply),
        ControlKey::Add.code() == 67 && local_key_of_code(67) == Some(Key::Add),
        ControlKey::Subtract.code() == 68 && local_key_of_code(68) == Some(Key::Subtract),
        ControlKey::Decimal.code() == 69 && local_key_of_code(69) == Some(Key::Decimal),
        ControlKey::Divide.code() == 70 && local_key_of_code(70) == Some(Key::Divide),
        ControlKey::Equals.code() == 71 && local_key_of_code(71) == Some(Key::Equals),
        ControlKey::NumpadEnter.code() == 72 && local_key_of_code(72) == Some(Key::NumpadEnter),
        ControlKey::RShift.code() == 73 && local_key_of_code(73) == Some(Key::RightShift),
        ControlKey::RControl.code() == 74 && local_key_of_code(74) == Some(Key::RightControl),
        ControlKey::RAlt.code() == 75 && local_key_of_code(75) == Some(Key::RightAlt),
        ControlKey::Unknown.code() == 0 && local_key_of_code(0) is None,
        ControlKey::CtrlAltDel.code() == 100 && local_key_of_code(100) is None,
        ControlKey::LockScreen.code() == 101 && local_key_of_code(101) is None,
        code < 0 || (75 < code && code != 100 && code != 101) ==> ControlKey::of_code(code) is None
            && local_key_of_code(code) is None,
{
}

/// A control key that is injected is injected as a key of its own: two that share a
/// local key are the alt key and the menu key. None is injected as a character or by
/// a raw code.
pub proof fn law_control_keys_keep_apart(a: i32, b: i32)
    requires
        local_key_of_code(a) is Some,
        local_key_of_code(a) == local_key_of_code(b),
    ensures
        a == b || (a == 1 && b == 45) || (a == 45 && b == 1),
        !(local_key_of_code(a)->0 is Layout),
        !(local_key_of_code(a)->0 is Raw),
{
}

pub fn control_key_value_to_key(value: i32) -> (key: Option<Key>)
    ensures
        key == local_key_of_code(value),
{
    match ControlKey::from_value(value) {
        Some(key) => key.to_local_key(),
        None => None,
    }
}

/// The key on the other side of the keyboard that does the same as a modifier.
pub open spec fn twin(key: Key) -> Option<Key> {
    match key {
        Key::Shift => Some(Key::RightShift),
        Key::Control => Some(Key::RightControl),
        Key::Alt => Some(Key::RightAlt),
        Key::Meta => Some(Key::RWin),
        Key::RightShift => Some(Key::Shift),
        Key::RightControl => Some(Key::Control),
        Key::RightAlt => Some(Key::Alt),
        Key::RWin => Some(Key::Meta),
        _ => None,
    }
}

pub fn twin_key(key: Key) -> (other: Option<Key>)
    ensures
        other == twin(key),
{
    match key {
        Key::Shift => Some(Key::RightShift),
        Key::Control => Some(Key::RightControl),
        Key::Alt => Some(Key::RightAlt),
        Key::Meta => Some(Key::RWin),
        Key::RightShift => Some(Key::Shift),
        Key::RightControl => Some(Key::Control),
        Key::RightAlt => Some(Key::Alt),
        Key::RWin => Some(Key::Meta),
        _ => None,
    }
}

/// The modifiers come in pairs, a left one and a right one, each the twin of the other;
/// no other key has a twin.
pub proof fn law_twins_are_left_and_right(key: Key)
    ensures
        twin(Key::Shift) == Some(Key::RightShift) && twin(Key::RightShift) == Some(Key::Shift),
        twin(Key::Control) == Some(Key::RightControl) && twin(Key::RightControl) == Some(
            Key::Control,
        ),
        twin(Key::Alt) == Some(Key::RightAlt) && twin(Key::RightAlt) == Some(Key::Alt),
        twin(Key::Meta) == Some(Key::RWin) && twin(Key::RWin) == Some(Key::Meta),
        twin(key) is Some ==> key == Key::Shift || key == Key::RightShift || key == Key::Control
            || key == Key::RightControl || key == Key::Alt || key == Key::RightAlt || key
            == Key::Meta || key == Key::RWin,
{
}

} // verus!
