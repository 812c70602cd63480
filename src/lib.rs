//! A user-mode emulator for a 64-bit RISC-V style instruction set with a small
//! supervisor that services environment calls through a handle table, together
//! with the bitmap, text-layout and code-generation pieces that run alongside it.
use vstd::prelude::*;

pub mod bitblt;
pub mod chase;
pub mod codegen;
pub mod cpu;
pub mod emul_state;
pub mod events;
pub mod gadgets;
pub mod mediator;
pub mod parser;
pub mod program_instance;
pub mod stencil;
pub mod symtab;
pub mod view;

verus! {

/// Capacity of guest memory in bytes (1 MiB).
pub const RAM_SIZE: u64 = 1048576;

} // verus!
