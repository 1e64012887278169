//! The decisions of the windowed frontend: what each key press does to the
//! frontend state, and which outside work (printing, saving, loading) it asks
//! the caller to perform.
use vstd::prelude::*;
use crate::input::{Hotkey, Pad};

verus! {

/// What the frontend is currently doing.
#[derive(Debug, Clone, Copy, PartialEq, Eq, Structural)]
pub enum AppState {
    Playing,
    Paused,
    /// Transient: prompt for and switch to a new ROM, then back to Playing.
    LoadRom,
}

/// Outside work a hotkey asks for.
#[derive(Debug, Clone, Copy, PartialEq, Eq, Structural)]
pub enum Action {
    Nothing,
    /// Print the CPU state.
    PrintDebug,
    /// Copy the machine into the in-memory quick-save slot.
    QuickSave,
    /// Restore the machine from the quick-save slot, if it holds one.
    QuickLoad,
    /// Write a save-state file next to the ROM.
    SaveFile,
}

/// Frontend state that input changes (the emulator itself lives beside it).
pub struct Controls {
    pub state: AppState,
    pub dpad: u8,
    pub buttons: u8,
    pub should_quit: bool,
    /// True while the fast-forward key is held.
    pub fast_forward: bool,
    /// Fast-forward multiplier (frames run per loop while held).
    pub speed_mult: u32,
    /// Show the debug overlay.
    pub show_debug: bool,
}

/// `target` after the bits of `mask` are set (`pressed`) or cleared.
pub open spec fn pad_bits(target: u8, mask: u8, pressed: bool) -> u8 {
    if pressed { target | mask } else { target & !mask }
}

impl Controls {
    /// The state after a hotkey press (`repeat` marks key auto-repeat, which
    /// edge-triggered hotkeys ignore).
    pub open spec fn after_hotkey(self, hk: Hotkey, repeat: bool) -> (Controls, Action) {
        if repeat {
            (self, Action::Nothing)
        } else {
            match hk {
                Hotkey::Quit => (Controls { should_quit: true, ..self }, Action::Nothing),
                Hotkey::Debug => (self, Action::PrintDebug),
                Hotkey::Pause => (
                    Controls {
                        state: if self.state == AppState::Playing { AppState::Paused } else { AppState::Playing },
                        ..self
                    },
                    Action::Nothing,
                ),
                Hotkey::QuickSave => (self, Action::QuickSave),
                Hotkey::QuickLoad => (self, Action::QuickLoad),
                Hotkey::FastForward => (Controls { fast_forward: true, ..self }, Action::Nothing),
                Hotkey::LoadRom => (Controls { state: AppState::LoadRom, ..self }, Action::Nothing),
                Hotkey::SaveFile => (self, Action::SaveFile),
            }
        }
    }

    pub fn new() -> (r: Self)
        ensures
            r == (Controls {
                state: AppState::Playing,
                dpad: 0,
                buttons: 0,
                should_quit: false,
                fast_forward: false,
                speed_mult: 4,
                show_debug: false,
            }),
    {
        Controls {
            state: AppState::Playing,
            dpad: 0,
            buttons: 0,
            should_quit: false,
            fast_forward: false,
            speed_mult: 4,
            show_debug: false,
        }
    }

    /// Press or release a game-pad bit.
    pub fn set_pad(&mut self, pad: Pad, pressed: bool)
        ensures
            *final(self) == match pad {
                Pad::Dpad(m) => Controls { dpad: pad_bits(old(self).dpad, m, pressed), ..*old(self) },
                Pad::Btn(m) => Controls { buttons: pad_bits(old(self).buttons, m, pressed), ..*old(self) },
            },
    {
        match pad {
            Pad::Dpad(m) => {
                if pressed {
                    self.dpad |= m;
                } else {
                    self.dpad &= !m;
                }
            },
            Pad::Btn(m) => {
                if pressed {
                    self.buttons |= m;
                } else {
                    self.buttons &= !m;
                }
            },
        }
    }

    /// React to a hotkey press and say what outside work to do.
    pub fn handle_hotkey(&mut self, hk: Hotkey, repeat: bool) -> (r: Action)
        ensures
            (*final(self), r) == old(self).after_hotkey(hk, repeat),
    {
        if repeat {
            return Action::Nothing;  // ignore key auto-repeat for edge-triggered hotkeys
        }
        match hk {
            Hotkey::Quit => {
                self.should_quit = true;
                Action::Nothing
            },
            Hotkey::Debug => Action::PrintDebug,
            Hotkey::Pause => {
                self.state = match self.state {
                    AppState::Playing => AppState::Paused,
                    _ => AppState::Playing,
                };
                Action::Nothing
            },
            Hotkey::QuickSave => Action::QuickSave,
            Hotkey::QuickLoad => Action::QuickLoad,
            Hotkey::FastForward => {
                self.fast_forward = true;
                Action::Nothing
            },
            Hotkey::LoadRom => {
                self.state = AppState::LoadRom;
                Action::Nothing
            },
            Hotkey::SaveFile => Action::SaveFile,
        }
    }

    /// React to a hotkey release: releasing fast-forward stops it.
    pub fn release_hotkey(&mut self, hk: Hotkey)
        ensures
            *final(self) == if hk == Hotkey::FastForward {
                Controls { fast_forward: false, ..*old(self) }
            } else {
                *old(self)
            },
    {
        if let Hotkey::FastForward = hk {
            self.fast_forward = false;
        }
    }

    /// Frames to run per paced step: the multiplier while fast-forwarding.
    pub fn frames_per_step(&self) -> (r: u32)
        ensures
            r == if self.fast_forward { self.speed_mult } else { 1 },
    {
        if self.fast_forward { self.speed_mult } else { 1 }
    }

    /// After a new ROM was loaded: pad state cleared, back to playing.
    pub fn rom_switched(&mut self)
        ensures
            *final(self) == (Controls { dpad: 0, buttons: 0, state: AppState::Playing, ..*old(self) }),
    {
        self.dpad = 0;
        self.buttons = 0;
        self.state = AppState::Playing;
    }
}

/// Pressing a pad target sets its bits; releasing clears exactly those bits,
/// so a press followed by a release of the same target restores every other
/// bit (and all of them, if the target's bits were clear before).
pub proof fn lemma_press_release(t: u8, m: u8)
    by (bit_vector)
    ensures
        pad_bits(t, m, true) & m == m,
        pad_bits(t, m, false) & m == 0,
        pad_bits(pad_bits(t, m, true), m, false) == t & !m,
        pad_bits(t, m, true) & !m == t & !m,
{
}

/// Pause toggles between playing and paused: pressing it twice from either
/// returns there, and the load-ROM prompt is left for playing.
pub proof fn lemma_pause_toggles(c: Controls)
    requires
        c.state != AppState::LoadRom,
    ensures
        c.after_hotkey(Hotkey::Pause, false).0.after_hotkey(Hotkey::Pause, false).0 == c,
        c.after_hotkey(Hotkey::Pause, false).0.state != c.state,
{
}

/// Key auto-repeat never changes the frontend state or asks for work.
pub proof fn lemma_repeat_ignored(c: Controls, hk: Hotkey)
    ensures
        c.after_hotkey(hk, true) == (c, Action::Nothing),
{
}

} // verus!
