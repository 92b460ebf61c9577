//! A verified model of the SunyAT virtual machine: an 8-bit machine with
//! 255 bytes of RAM, a register file reached through a sliding register
//! window, and an 80 by 24 character terminal mapped at address 0xFF.
//!
//! The library decides; the program around it performs the terminal and
//! file input and output that the decisions call for.
use vstd::prelude::*;

pub mod constants;
pub mod decode;
pub mod isa;
pub mod laws;
pub mod machine;
pub mod screen;

pub use decode::{get_dreg, get_grimm, get_grwp, get_imm, get_mem, get_opcode, get_sreg, set_flags};
pub use isa::{HaltReason, KeyInput, KeyReport, StepOutcome};
pub use machine::{load_rom, load_state, start_sunyat, RomFile, SunyAT};
pub use screen::{frame_action, Echo, FrameAction, SatScreen};

verus! {
} // verus!
