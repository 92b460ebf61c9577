//! Sizes, register numbers, opcodes and exit codes of the SunyAT machine.
use vstd::prelude::*;

verus! {

/// Memory address that stands for the terminal: reading it gives a key,
/// writing it prints a character.
pub const IO_TERMINAL: u8 = 0xFF;

/// Exit code of a run that ended without error.
pub const EXIT_SUCCESS: usize = 0;

/// Number of bytes of the application message that leads a ROM file.
pub const SIZE_APP_MSG: usize = 70;

/// Size of the machine's RAM in bytes.
pub const SIZE_APP_RAM: usize = 0xFF;

/// Largest ROM file: the message followed by a RAM image.
pub const SIZE_APP_ROM: usize = 0x145;

/// Register holding the program counter.
pub const REG_PC: usize = 0;

/// Register holding the high byte of the current instruction.
pub const REG_IRH: usize = 1;

/// Register holding the low byte of the current instruction.
pub const REG_IRL: usize = 2;

/// Register holding the start of the register window.
pub const REG_WIN: usize = 3;

/// Register holding the stack pointer.
pub const REG_SP: usize = 4;

/// Number of system registers; the general purpose registers follow them.
pub const NUM_SYS_REG: usize = 5;

/// Number of general purpose registers.
pub const NUM_GEN_REG: usize = 32;

/// Total number of registers.
pub const SIZE_REG: usize = 37;

/// Size of the register window.
pub const SIZE_WIN: usize = 8;

pub const OPCODE_MOV_RR: u8 = 0;
pub const OPCODE_MOV_RI: u8 = 1;
pub const OPCODE_ADD_RR: u8 = 2;
pub const OPCODE_ADD_RI: u8 = 3;
pub const OPCODE_SUB_RR: u8 = 4;
pub const OPCODE_MUL_RR: u8 = 5;
pub const OPCODE_MUL_RI: u8 = 6;
pub const OPCODE_DIV_RR: u8 = 7;
pub const OPCODE_DIV_RI: u8 = 8;
pub const OPCODE_CMP_RR: u8 = 9;
pub const OPCODE_CMP_RI: u8 = 10;
pub const OPCODE_JMP_M: u8 = 11;
pub const OPCODE_JEQ_M: u8 = 12;
pub const OPCODE_JNE_M: u8 = 13;
pub const OPCODE_JGR_M: u8 = 14;
pub const OPCODE_JLS_M: u8 = 15;
pub const OPCODE_CALL_M: u8 = 16;
pub const OPCODE_RET: u8 = 17;
pub const OPCODE_AND_RR: u8 = 18;
pub const OPCODE_AND_RI: u8 = 19;
pub const OPCODE_OR_RR: u8 = 20;
pub const OPCODE_OR_RI: u8 = 21;
pub const OPCODE_XOR_RR: u8 = 22;
pub const OPCODE_XOR_RI: u8 = 23;
pub const OPCODE_LOAD_RM: u8 = 24;
pub const OPCODE_LOADP_RR: u8 = 25;
pub const OPCODE_STOR_MR: u8 = 26;
pub const OPCODE_STORP_RR: u8 = 27;
/// Push when the low instruction byte is zero, pop otherwise.
pub const OPCODE_STACKER_R: u8 = 28;
pub const OPCODE_SWR_I: u8 = 29;
pub const OPCODE_AWR_I: u8 = 30;
pub const OPCODE_AUX_I: u8 = 31;

/// No ROM file was named.
pub const EXT_ERR_NO_FILE_ARG: usize = 1;
/// The ROM is too large.
pub const EXT_ERR_ROM_BIG: usize = 2;
/// The ROM has the wrong size.
pub const EXT_ERR_BYTE_SIZE: usize = 3;
/// The ROM file could not be opened.
pub const EXT_ERR_FILE_NOT_OPEN: usize = 4;
/// The ROM file could not be read.
pub const EXT_ERR_FILE_READ: usize = 5;
/// The terminal could not be set up.
pub const EXT_ERR_NCURSES: usize = 6;
/// Loading a saved state, which this machine does not support.
pub const EXT_ERR_LOAD_STATE: usize = 255;

/// Columns of the emulated terminal.
pub const TERMINAL_WIDTH: i32 = 80;
/// Rows of the emulated terminal.
pub const TERMINAL_HEIGHT: i32 = 24;
/// Distance between tab stops.
pub const TAB_SIZE: usize = 4;

} // verus!
