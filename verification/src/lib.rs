pub mod bits;
pub mod registers;
pub mod apu;
pub mod memory;
pub mod cpu;
pub mod headless;
pub mod savestate;
pub mod input;
pub mod frontend;
pub mod overlay;
