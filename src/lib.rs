//! A verified execution engine for a small 8-bit register machine with a
//! 64x32 monochrome display and a sixteen-key keypad.

pub mod display;
pub mod keyboard;
pub mod cpu;
pub mod theorems;
