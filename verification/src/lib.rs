//! A CHIP-8 virtual machine: 4 KiB of memory, sixteen 8-bit registers, a
//! call stack of 32 return addresses, two countdown timers, a 64x32
//! monochrome display and a hexadecimal keypad.
//!
//! [`state`] holds the machine as a mathematical value and the meaning of
//! each instruction; [`emulator`] holds the machine that runs, whose
//! contracts are stated over that model; [`laws`] holds what follows for
//! every state. The host owns the window, the keyboard, the clock and the
//! program file: it hands the library plain values and acts on the outcome
//! of each step.

#![allow(non_snake_case)]

pub mod decoder;
pub mod display;
pub mod emulator;
pub mod keypad;
pub mod laws;
mod random;
pub mod state;
pub mod timing;
