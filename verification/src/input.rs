//! Game-pad targets and emulator hotkeys that key bindings resolve to.
use vstd::prelude::*;

verus! {

/// A joypad target: a bit in the D-pad nibble or the action-button nibble.
#[derive(Debug, Clone, Copy, PartialEq, Eq, Structural)]
pub enum Pad {
    Dpad(u8),
    Btn(u8),
}

/// Emulator hotkeys (not game input).
#[derive(Debug, Clone, Copy, PartialEq, Eq, Structural)]
pub enum Hotkey {
    Quit,
    Debug,
    Pause,
    QuickSave,
    QuickLoad,
    SaveFile,
    LoadRom,
    FastForward,
}

} // verus!
