# gbc

A Game Boy / Game Boy Color emulator core whose behaviour is specified and
proved with Verus.

- `src/` is the verified library: the register file and flag arithmetic
  (`registers`), the whole SM83 instruction set with interrupts and the timer
  (`cpu`), the address space with MBC1/2/3/5 banking, CGB banks, DMA, joypad,
  serial, timer registers and palettes (`memory`),
  the audio unit's channels, register interface and frame sequencer (`apu`),
  the headless runner (`headless`), save-state framing (`savestate`), the
  decisions of the windowed frontend (`frontend`, `input`) and the debug
  overlay's text and font (`overlay`). The CPU and the address space have
  abstract views (`CpuState`, `MemState`), the audio unit and its channels are
  described by spec functions, and each public function states its result
  over them.
- `tests/` exercises the library on concrete inputs.
- `app/` is the program around it: argument handling, files, the SDL3
  window, audio sampling in floating point, and bincode save states.

Run a cartridge headless with `gbc <rom.gb>` (it stops when the serial output
reports "Passed" or "Failed"), or in a window with `gbc --gui <rom.gb>`.
