use gbc::frontend::{Action, AppState, Controls};
use gbc::input::{Hotkey, Pad};
use gbc::overlay::font3x5;
use gbc::registers::Registers;

#[test]
fn controls_start_playing_with_nothing_held() {
    let c = Controls::new();
    assert_eq!(c.state, AppState::Playing);
    assert_eq!((c.dpad, c.buttons), (0, 0));
    assert!(!c.should_quit && !c.fast_forward && !c.show_debug);
    assert_eq!(c.speed_mult, 4);
    assert_eq!(c.frames_per_step(), 1);
}

#[test]
fn pad_press_and_release_touch_only_their_bit() {
    let mut c = Controls::new();
    c.set_pad(Pad::Dpad(0x01), true);
    c.set_pad(Pad::Dpad(0x04), true);
    c.set_pad(Pad::Btn(0x08), true);
    assert_eq!((c.dpad, c.buttons), (0x05, 0x08));
    c.set_pad(Pad::Dpad(0x01), false);
    assert_eq!((c.dpad, c.buttons), (0x04, 0x08));
    c.set_pad(Pad::Btn(0x08), false);
    c.set_pad(Pad::Btn(0x08), false);
    assert_eq!((c.dpad, c.buttons), (0x04, 0x00));
}

#[test]
fn pause_toggles_and_repeat_is_ignored() {
    let mut c = Controls::new();
    assert_eq!(c.handle_hotkey(Hotkey::Pause, false), Action::Nothing);
    assert_eq!(c.state, AppState::Paused);
    assert_eq!(c.handle_hotkey(Hotkey::Pause, true), Action::Nothing);
    assert_eq!(c.state, AppState::Paused);
    c.handle_hotkey(Hotkey::Pause, false);
    assert_eq!(c.state, AppState::Playing);
}

#[test]
fn hotkeys_ask_for_their_work() {
    let mut c = Controls::new();
    assert_eq!(c.handle_hotkey(Hotkey::Debug, false), Action::PrintDebug);
    assert_eq!(c.handle_hotkey(Hotkey::QuickSave, false), Action::QuickSave);
    assert_eq!(c.handle_hotkey(Hotkey::QuickLoad, false), Action::QuickLoad);
    assert_eq!(c.handle_hotkey(Hotkey::SaveFile, false), Action::SaveFile);
    assert_eq!(c.handle_hotkey(Hotkey::QuickSave, true), Action::Nothing);
    assert_eq!(c.state, AppState::Playing);
    assert!(!c.should_quit);
    c.handle_hotkey(Hotkey::Quit, false);
    assert!(c.should_quit);
}

#[test]
fn fast_forward_while_held() {
    let mut c = Controls::new();
    c.handle_hotkey(Hotkey::FastForward, false);
    assert_eq!(c.frames_per_step(), 4);
    c.release_hotkey(Hotkey::Pause);
    assert_eq!(c.frames_per_step(), 4);
    c.release_hotkey(Hotkey::FastForward);
    assert_eq!(c.frames_per_step(), 1);
}

#[test]
fn loading_a_rom_clears_the_pad_and_resumes() {
    let mut c = Controls::new();
    c.set_pad(Pad::Btn(0x01), true);
    c.handle_hotkey(Hotkey::LoadRom, false);
    assert_eq!(c.state, AppState::LoadRom);
    c.rom_switched();
    assert_eq!(c.state, AppState::Playing);
    assert_eq!((c.dpad, c.buttons), (0, 0));
}

#[test]
fn font_glyphs() {
    assert_eq!(font3x5('A'), [0b010, 0b101, 0b111, 0b101, 0b101]);
    assert_eq!(font3x5('7'), [0b111, 0b001, 0b010, 0b010, 0b010]);
    assert_eq!(font3x5('%'), [0b101, 0b001, 0b010, 0b100, 0b101]);
    assert_eq!(font3x5(' '), [0; 5]);
    assert_eq!(font3x5('a'), [0; 5]);
}

#[test]
fn clearing_subtract_clears_only_n() {
    let mut r = Registers::new();
    r.f = 0x60;
    r.set_flag_subtract(false);
    assert_eq!(r.f, 0x20);
    assert!(!r.flag_subtract());
    assert!(r.flag_half_carry());
}
