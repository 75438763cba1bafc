//! Key presses, and the actions that they stand for.
use vstd::prelude::*;

verus! {

/// The keys that the interface knows; any other key is `Other`.
#[derive(Debug, Clone, Copy, PartialEq, Eq, Structural)]
pub enum KeyCode {
    Backspace,
    Enter,
    Esc,
    Up,
    Down,
    Char(char),
    Other,
}

/// The bits of a key press without modifiers.
pub const NO_MODIFIERS: u8 = 0;

/// The bit of the control key.
pub const CONTROL: u8 = 2;

/// A key press: the key, and the bits of the modifiers that were held.
#[derive(Debug, Clone, Copy, PartialEq, Eq, Structural)]
pub struct KeyEvent {
    pub code: KeyCode,
    pub modifiers: u8,
}

impl KeyEvent {
    /// The press of `code` with `modifiers`.
    pub fn new(code: KeyCode, modifiers: u8) -> (key: KeyEvent)
        ensures
            key == (KeyEvent { code, modifiers }),
    {
        KeyEvent { code, modifiers }
    }

    /// The control key was held.
    pub open spec fn with_control(self) -> bool {
        self.modifiers & CONTROL == CONTROL
    }
}

/// `KeyModifiers::contains` for `KeyModifiers::CONTROL`, on the modifiers that
/// `KeyModifiers::from_bits_retain` makes of the bits: whether the bit of the control key is set.
#[verifier::external_body]
pub(crate) fn control_held(modifiers: u8) -> (held: bool)
    ensures
        held == (modifiers & CONTROL == CONTROL),
{
    let modifiers = crossterm::event::KeyModifiers::from_bits_retain(modifiers);
    modifiers.contains(crossterm::event::KeyModifiers::CONTROL)
}

/// Actions that can result from key handling.
#[derive(Debug, Clone, PartialEq)]
pub enum Action {
    Nothing,
    ToggleScan,
    ConnectToggle,
    Pair,
    RequestUnpair,
    ConfirmUnpair,
    TrustToggle,
    ConfirmUntrust,
    CancelConfirm,
    AgentSubmit,
    AgentCancel,
    ToggleDetail,
    CloseDetail,
    OpenProfiles,
    SelectProfile,
    CloseProfiles,
    ToggleHelp,
    CloseHelp,
    PowerOn,
    PowerOff,
}

} // verus!
