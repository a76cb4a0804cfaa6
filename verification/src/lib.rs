//! A CHIP-8 style virtual machine: instruction decoder, register and memory
//! store, decaying timers, shared framebuffer and keypad state, and the
//! fetch-decode-execute engine, each with a machine-checked contract.

pub mod display;
pub mod error;
pub mod game;
pub mod instruction;
pub mod interpreter;
pub mod laws;
pub mod memory;
pub mod rom;
pub mod semantics;
pub mod sprite;
pub mod timer;
