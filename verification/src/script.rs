use vstd::prelude::*;

use crate::keys::{ControlKey, Key, MouseButton, Platform, RawKey, RdevKey};

verus! {

/// Something that is done to the machine, or asked of it.
#[derive(Clone, Copy, Debug, PartialEq, Eq, Structural)]
pub enum Command {
    /// Tell whether a key is down, or for a lock whether it is on.
    KeyState(Key),
    /// Press a key, and tell whether that worked.
    KeyDown(Key),
    KeyUp(Key),
    /// Press a key and let it go.
    KeyClick(Key),
    /// Forget the modifier flags of the events to come.
    ResetFlag,
    /// Add the flag of a modifier to the events to come.
    AddFlag(Key),
    MouseMoveTo(i32, i32),
    MouseMoveRelative(i32, i32),
    MouseDown(MouseButton),
    MouseUp(MouseButton),
    /// `track_pad` is about macOS alone.
    MouseScrollX { length: i32, track_pad: bool },
    /// `track_pad` is about macOS alone.
    MouseScrollY { length: i32, track_pad: bool },
    /// Send a key event through the low-level simulator.
    Simulate { key: RdevKey, down: bool },
    /// Wait, for a number of nanoseconds.
    Sleep(u64),
    /// Follow the desktop that has the input, on Windows.
    TryChangeDesktop,
    /// Forget what the platform keeps about the state of the input.
    ResetInputCache,
    /// Send the secure attention sequence, without waiting for it.
    SendSas,
    /// Lock the screen.
    LockScreen,
}

/// What the state of a key is wanted for.
#[derive(Clone, Copy, Debug, PartialEq, Eq, Structural)]
pub enum Goal {
    /// Caps lock: compare it with the peer's, then look at num lock.
    Caps { caps: bool, num: bool, num_disabled: bool },
    /// Num lock: compare it with the peer's, then click the locks that differ.
    Num { click_caps: bool, num: bool, num_disabled: bool },
    /// A modifier that the peer may not hold any more: let go of it if so.
    Fix { key0: ControlKey, key1: Key, listed: bool },
    /// The alt key, before a control key is let go of: the two may be AltGr.
    FixUnlessAlt { key1: Key },
    /// A modifier that the peer holds: press it if it is not down. With
    /// `spare_altgr`, a recorded right alt key stands in for it.
    Press { key: Key, spare_altgr: bool },
    /// Shift, for a character that is to be typed as text.
    Shift { chr: char },
    /// Caps lock, for a character that is to be typed as text.
    Capital { chr: char },
}

/// A step in the handling of an event. What later steps do may depend on what the
/// machine answered to earlier ones.
#[derive(Clone, Copy, Debug, PartialEq, Eq, Structural)]
pub enum Op {
    Do(Command),
    /// Type a character as text.
    TypeChar(char),
    /// Type a character as text, in upper case.
    TypeUpper(char),
    /// Type the text of the event.
    TypeText,
    /// Note in the table of the keys that are down that a key went down or up.
    Record { record_key: u64, down: bool },
    /// Find out whether a key is down.
    KeyState { key: Key, goal: Goal },
    /// Find out whether a key or its twin on the other side is down.
    ModifierState { key: Key, goal: Goal },
    /// Press the key of a character. Where the machine has no such key, type it
    /// as text.
    Chr { key: Key, chr: Option<char> },
    /// Let go of the modifiers that were pressed for the event.
    ReleasePressed,
}

/// The pause after a modifier on Windows, in nanoseconds. It is only there for
/// keying into a remote desktop session on the machine.
pub const MODIFIER_SLEEP: u64 = 1;

/// The pause after a simulated key on macOS, in nanoseconds.
pub const SIMULATE_SLEEP: u64 = 20_000_000;

/// The steps that simulate a key going down or up.
pub open spec fn simulate_ops(platform: Platform, key: RdevKey, down: bool) -> Seq<Op> {
    let simulate = Op::Do(Command::Simulate { key, down });
    if platform == Platform::MacOs {
        seq![simulate, Op::Do(Command::Sleep(SIMULATE_SLEEP))]
    } else {
        seq![simulate]
    }
}

pub fn rdev_key_down_or_up(plan: &mut Vec<Op>, platform: Platform, key: RdevKey, down_or_up: bool)
    ensures
        final(plan)@ == old(plan)@ + simulate_ops(platform, key, down_or_up),
{
    plan.push(Op::Do(Command::Simulate { key, down: down_or_up }));
    if platform == Platform::MacOs {
        plan.push(Op::Do(Command::Sleep(SIMULATE_SLEEP)));
    }
    assert(plan@ =~= old(plan)@ + simulate_ops(platform, key, down_or_up));
}

/// A key code of the platform, as the simulator takes it.
pub open spec fn raw_key(platform: Platform, code: u32) -> RdevKey {
    match platform {
        Platform::Windows => RdevKey::RawKey(RawKey::ScanCode(code)),
        Platform::Linux => RdevKey::RawKey(RawKey::LinuxXorgKeycode(code)),
        Platform::MacOs => RdevKey::RawKey(RawKey::MacVirtualKeycode(code)),
    }
}

pub fn sim_rdev_rawkey(plan: &mut Vec<Op>, platform: Platform, code: u32, down_or_up: bool)
    ensures
        final(plan)@ == old(plan)@ + simulate_ops(platform, raw_key(platform, code), down_or_up),
{
    let rawkey = match platform {
        Platform::Windows => RawKey::ScanCode(code),
        Platform::Linux => RawKey::LinuxXorgKeycode(code),
        Platform::MacOs => RawKey::MacVirtualKeycode(code),
    };
    rdev_key_down_or_up(plan, platform, RdevKey::RawKey(rawkey), down_or_up);
}

} // verus!
