//! The instruction set of the SunyAT machine as mathematics: the machine
//! state, what one fetch-decode-execute step does to it, and what a key
//! read from the terminal does.
use vstd::prelude::*;

use crate::constants::{
    IO_TERMINAL, SIZE_APP_MSG, OPCODE_ADD_RI, OPCODE_ADD_RR, OPCODE_AND_RI, OPCODE_AND_RR, OPCODE_AWR_I,
    OPCODE_CALL_M, OPCODE_CMP_RI, OPCODE_CMP_RR, OPCODE_DIV_RI, OPCODE_DIV_RR, OPCODE_JEQ_M,
    OPCODE_JGR_M, OPCODE_JLS_M, OPCODE_JMP_M, OPCODE_JNE_M, OPCODE_LOADP_RR, OPCODE_LOAD_RM,
    OPCODE_MOV_RI, OPCODE_MOV_RR, OPCODE_MUL_RI, OPCODE_MUL_RR, OPCODE_OR_RI, OPCODE_OR_RR,
    OPCODE_RET, OPCODE_STACKER_R, OPCODE_STORP_RR, OPCODE_STOR_MR, OPCODE_SUB_RR, OPCODE_SWR_I,
    OPCODE_XOR_RI, OPCODE_XOR_RR, REG_IRH, REG_IRL, REG_PC, REG_SP, REG_WIN, SIZE_APP_RAM,
    SIZE_REG,
};
use crate::decode::{signed_value, trunc_div, window_add, window_register};

verus! {

/// Why a run of the machine stops.
#[derive(PartialEq, Eq, Structural, Clone, Copy, Debug)]
pub enum HaltReason {
    /// The program counter points past the last full instruction in RAM.
    InvalidPc,
    /// A division by zero.
    DivideByZero,
    /// A jump to the terminal address.
    JumpOutOfRange,
    /// A call with a full stack.
    CallStackOverflow,
    /// A call to the terminal address.
    CallOutOfRange,
    /// A return with an empty stack: the normal end of a program.
    StackEmpty,
    /// A push with a full stack.
    PushStackOverflow,
    /// A pop with an empty stack.
    PopStackUnderflow,
}

/// What the caller of a step has to do next.
#[derive(PartialEq, Eq, Structural, Clone, Copy, Debug)]
pub enum StepOutcome {
    /// Nothing: the next step may follow.
    Continue,
    /// Read a key from the terminal and hand it to `deliver_key` with this
    /// register.
    ReadKey(usize),
    /// Print this byte on the terminal.
    Write(u8),
    /// Stop running.
    Halt(HaltReason),
}

/// A key as the terminal reports it.
#[derive(PartialEq, Eq, Structural, Clone, Copy, Debug)]
pub enum KeyInput {
    /// No key was pressed.
    NoKey,
    /// A character key, with its character code.
    Character(u32),
    /// A key the terminal library could not name, with its code.
    Unknown(i32),
    /// The enter key.
    Enter,
    /// A named key, such as an arrow or function key.
    Other,
}

/// What a key read leaves to be reported to the user.
#[derive(PartialEq, Eq, Structural, Clone, Copy, Debug)]
pub enum KeyReport {
    /// Nothing to report.
    Quiet,
    /// The terminal library reported a key code it cannot translate.
    NcursesKey(i32),
    /// A key code that is not positive.
    UnknownKey(i32),
}

/// The state of the machine.
pub struct MachineState {
    pub ram: Seq<u8>,
    pub registers: Seq<u8>,
    pub zero_flag: bool,
    pub sign_flag: bool,
    pub interrupt_flag: bool,
    pub linefeed_buffered: bool,
    pub debug: bool,
    pub clock_ticks: usize,
}

/// The byte that an integer wraps to.
pub open spec fn byte_of(x: int) -> u8 {
    (x % 256) as u8
}

impl MachineState {
    /// RAM and register file have their sizes.
    pub open spec fn wf(self) -> bool {
        &&& self.ram.len() == SIZE_APP_RAM
        &&& self.registers.len() == SIZE_REG
    }

    pub open spec fn pc(self) -> u8 {
        self.registers[REG_PC as int]
    }

    pub open spec fn sp(self) -> u8 {
        self.registers[REG_SP as int]
    }

    pub open spec fn win(self) -> u8 {
        self.registers[REG_WIN as int]
    }

    pub open spec fn set_reg(self, i: int, v: u8) -> MachineState {
        MachineState { registers: self.registers.update(i, v), ..self }
    }

    pub open spec fn set_ram(self, a: int, v: u8) -> MachineState {
        MachineState { ram: self.ram.update(a, v), ..self }
    }

    /// The zero and sign flags that a result sets.
    pub open spec fn set_flags_for(self, v: u8) -> MachineState {
        MachineState { zero_flag: v == 0, sign_flag: v >= 128, ..self }
    }

    /// An ALU result stored in register `d`, with the flags it sets.
    pub open spec fn alu(self, d: int, v: u8) -> MachineState {
        self.set_reg(d, v).set_flags_for(v)
    }

    pub open spec fn set_linefeed(self, b: bool) -> MachineState {
        MachineState { linefeed_buffered: b, ..self }
    }

    pub open spec fn tick(self) -> MachineState {
        MachineState {
            clock_ticks: vstd::wrapping::usize_specs::wrapping_add(self.clock_ticks, 1),
            ..self
        }
    }
}

/// The state a new machine starts in: RAM and registers zero but the window,
/// which starts at the first general purpose register, and the stack
/// pointer, which starts at the top of RAM (an empty stack).
pub open spec fn initial_state() -> MachineState {
    MachineState {
        ram: Seq::new(SIZE_APP_RAM as nat, |i: int| 0u8),
        registers: Seq::new(SIZE_REG as nat, |i: int| 0u8).update(REG_WIN as int, 5u8).update(
            REG_SP as int,
            255u8,
        ),
        zero_flag: false,
        sign_flag: false,
        interrupt_flag: false,
        linefeed_buffered: false,
        debug: false,
        clock_ticks: 0,
    }
}

/// What a ROM file sets RAM to: the file starts with the application
/// message, which is skipped, and RAM takes the bytes after it, zero where
/// the file ends early.
pub open spec fn rom_ram(image: Seq<u8>) -> Seq<u8> {
    Seq::new(
        SIZE_APP_RAM as nat,
        |i: int| if SIZE_APP_MSG + i < image.len() { image[SIZE_APP_MSG + i] } else { 0u8 },
    )
}

/// The state a machine starts a program in: a new machine with the ROM
/// image in RAM.
pub open spec fn loaded_state(image: Seq<u8>) -> MachineState {
    MachineState { ram: rom_ram(image), ..initial_state() }
}

/// The signed quotient of two bytes, rounded toward zero, as a byte.
pub open spec fn signed_quotient(a: u8, b: u8) -> u8 {
    byte_of(trunc_div(signed_value(a), signed_value(b)))
}

/// The one signed byte division that overflows: -128 / -1.
pub open spec fn division_overflows(a: u8, b: u8) -> bool {
    a == 128 && b == 255
}

/// A read from `addr` into register `d`. The terminal address gives a
/// line feed when one is buffered and otherwise asks for a key.
pub open spec fn read_from(s: MachineState, d: int, addr: u8) -> (MachineState, StepOutcome) {
    if addr < IO_TERMINAL {
        (s.set_reg(d, s.ram[addr as int]), StepOutcome::Continue)
    } else if s.linefeed_buffered {
        (s.set_reg(d, 0x0A).set_linefeed(false), StepOutcome::Continue)
    } else {
        (s, StepOutcome::ReadKey(d as usize))
    }
}

/// A write of `v` to `addr`; the terminal address prints it.
pub open spec fn write_to(s: MachineState, addr: u8, v: u8) -> (MachineState, StepOutcome) {
    if addr < IO_TERMINAL {
        (s.set_ram(addr as int, v), StepOutcome::Continue)
    } else {
        (s, StepOutcome::Write(v))
    }
}

/// A call to `target`: push the program counter, then jump.
pub open spec fn call_to(s: MachineState, target: u8) -> (MachineState, StepOutcome) {
    if s.sp() == 0 {
        (s, StepOutcome::Halt(HaltReason::CallStackOverflow))
    } else if target == IO_TERMINAL {
        (s, StepOutcome::Halt(HaltReason::CallOutOfRange))
    } else {
        let sp = s.sp() - 1;
        (
            s.set_reg(REG_SP as int, sp as u8).set_ram(sp, s.pc()).set_reg(REG_PC as int, target),
            StepOutcome::Continue,
        )
    }
}

/// A return: pop the program counter; with an empty stack the program ends.
pub open spec fn return_from(s: MachineState) -> (MachineState, StepOutcome) {
    if s.sp() == 255 {
        (s, StepOutcome::Halt(HaltReason::StackEmpty))
    } else {
        (
            s.set_reg(REG_PC as int, s.ram[s.sp() as int]).set_reg(REG_SP as int, (s.sp() + 1) as u8),
            StepOutcome::Continue,
        )
    }
}

/// Push register `d` (when `low` is zero) or pop into it.
pub open spec fn stack_op(s: MachineState, d: int, low: u8) -> (MachineState, StepOutcome) {
    if low == 0 {
        if s.sp() == 0 {
            (s, StepOutcome::Halt(HaltReason::PushStackOverflow))
        } else {
            let sp = s.sp() - 1;
            (s.set_reg(REG_SP as int, sp as u8).set_ram(sp, s.registers[d]), StepOutcome::Continue)
        }
    } else {
        if s.sp() == 255 {
            (s, StepOutcome::Halt(HaltReason::PopStackUnderflow))
        } else {
            (
                s.set_reg(d, s.ram[s.sp() as int]).set_reg(REG_SP as int, (s.sp() + 1) as u8),
                StepOutcome::Continue,
            )
        }
    }
}

/// A conditional jump to `target`.
pub open spec fn jump_if(s: MachineState, taken: bool, target: u8) -> (MachineState, StepOutcome) {
    if taken {
        (s.set_reg(REG_PC as int, target), StepOutcome::Continue)
    } else {
        (s, StepOutcome::Continue)
    }
}

/// The opcodes that store a computed value and set the flags from it
/// (division aside).
pub open spec fn is_alu_op(op: u8) -> bool {
    ||| OPCODE_ADD_RR <= op <= OPCODE_MUL_RI
    ||| OPCODE_AND_RR <= op <= OPCODE_XOR_RI
}

/// The value an ALU instruction computes from the destination register
/// `rd`, the source register `rs` and the low byte `low`. Arithmetic wraps
/// around modulo 256.
pub open spec fn alu_value(op: u8, rd: u8, rs: u8, low: u8) -> u8 {
    if op == OPCODE_ADD_RR {
        byte_of(rd + rs)
    } else if op == OPCODE_ADD_RI {
        byte_of(rd + low)
    } else if op == OPCODE_SUB_RR {
        byte_of(rd - rs)
    } else if op == OPCODE_MUL_RR {
        byte_of(rd * rs)
    } else if op == OPCODE_MUL_RI {
        byte_of(rd * low)
    } else if op == OPCODE_AND_RR {
        rd & rs
    } else if op == OPCODE_AND_RI {
        rd & low
    } else if op == OPCODE_OR_RR {
        rd | rs
    } else if op == OPCODE_OR_RI {
        rd | low
    } else if op == OPCODE_XOR_RR {
        rd ^ rs
    } else {
        rd ^ low
    }
}

/// Executes the decoded instruction `op` with destination register `d`,
/// source register `sr` and low byte `low` (the immediate, as a signed byte,
/// or the memory address), on the state `s` whose program counter already
/// points past the instruction.
#[verifier::opaque]
pub open spec fn execute(s: MachineState, op: u8, d: int, sr: int, low: u8) -> (MachineState, StepOutcome) {
    let rd = s.registers[d];
    let rs = s.registers[sr];
    let go = StepOutcome::Continue;
    if op == OPCODE_MOV_RR {
        (s.set_reg(d, rs), go)
    } else if op == OPCODE_MOV_RI {
        (s.set_reg(d, low), go)
    } else if is_alu_op(op) {
        (s.alu(d, alu_value(op, rd, rs, low)), go)
    } else if op == OPCODE_DIV_RR {
        if rs == 0 {
            (s, StepOutcome::Halt(HaltReason::DivideByZero))
        } else {
            (s.alu(d, signed_quotient(rd, rs)), go)
        }
    } else if op == OPCODE_DIV_RI {
        if low == 0 {
            (s, StepOutcome::Halt(HaltReason::DivideByZero))
        } else {
            (s.alu(d, signed_quotient(rd, low)), go)
        }
    } else if op == OPCODE_CMP_RR {
        (s.set_flags_for(byte_of(rd - rs)), go)
    } else if op == OPCODE_CMP_RI {
        (s.set_flags_for(byte_of(rd - low)), go)
    } else if op == OPCODE_JMP_M {
        if low == IO_TERMINAL {
            (s, StepOutcome::Halt(HaltReason::JumpOutOfRange))
        } else {
            (s.set_reg(REG_PC as int, low), go)
        }
    } else if op == OPCODE_JEQ_M {
        jump_if(s, s.zero_flag, low)
    } else if op == OPCODE_JNE_M {
        jump_if(s, !s.zero_flag, low)
    } else if op == OPCODE_JGR_M {
        jump_if(s, !s.sign_flag && !s.zero_flag, low)
    } else if op == OPCODE_JLS_M {
        jump_if(s, s.sign_flag, low)
    } else if op == OPCODE_CALL_M {
        call_to(s, low)
    } else if op == OPCODE_RET {
        return_from(s)
    } else if op == OPCODE_LOAD_RM {
        read_from(s, d, low)
    } else if op == OPCODE_LOADP_RR {
        read_from(s, d, rs)
    } else if op == OPCODE_STOR_MR {
        write_to(s, low, rd)
    } else if op == OPCODE_STORP_RR {
        write_to(s, rd, rs)
    } else if op == OPCODE_STACKER_R {
        stack_op(s, d, low)
    } else if op == OPCODE_SWR_I {
        (s.set_reg(REG_WIN as int, low), go)
    } else if op == OPCODE_AWR_I {
        (s.set_reg(REG_WIN as int, byte_of(window_add(s.win(), low as i8))), go)
    } else {
        (s, go)
    }
}

/// The state after the clock tick and the fetch of the instruction at the
/// program counter: both instruction bytes in their registers and the
/// program counter advanced past them.
pub open spec fn fetched(s: MachineState) -> MachineState {
    let t = s.tick();
    let pc = t.pc() as int;
    t.set_reg(REG_IRH as int, t.ram[pc]).set_reg(REG_IRL as int, t.ram[pc + 1]).set_reg(
        REG_PC as int,
        (pc + 2) as u8,
    )
}

/// One step of the machine: tick the clock, fetch, decode, execute.
pub open spec fn step_spec(s: MachineState) -> (MachineState, StepOutcome) {
    if s.pc() > 253 {
        (s.tick(), StepOutcome::Halt(HaltReason::InvalidPc))
    } else {
        let f = fetched(s);
        let high = f.registers[REG_IRH as int];
        let low = f.registers[REG_IRL as int];
        execute(
            f,
            high / 8,
            window_register(f.win() as int, (high % 8) as int),
            window_register(f.win() as int, (low % 8) as int),
            low,
        )
    }
}

/// The step at this state divides -128 by -1, which the machine's signed
/// byte division cannot represent.
pub open spec fn step_traps(s: MachineState) -> bool {
    &&& s.pc() <= 253
    &&& {
        let f = fetched(s);
        let high = f.registers[REG_IRH as int];
        let low = f.registers[REG_IRL as int];
        let rd = f.registers[window_register(f.win() as int, (high % 8) as int)];
        let rs = f.registers[window_register(f.win() as int, (low % 8) as int)];
        ||| high / 8 == OPCODE_DIV_RR && division_overflows(rd, rs)
        ||| high / 8 == OPCODE_DIV_RI && division_overflows(rd, low)
    }
}

/// What a key from the terminal does to register `d`: no key gives 0, a
/// character key the low byte of its code; an unknown key code that is
/// positive gives 0, one that is not gives its low byte; enter gives a
/// carriage return and buffers a line feed for the next read; a named key
/// leaves the register alone.
pub open spec fn key_effect(s: MachineState, d: int, key: KeyInput) -> (MachineState, KeyReport) {
    match key {
        KeyInput::NoKey => (s.set_reg(d, 0), KeyReport::Quiet),
        KeyInput::Character(code) => (s.set_reg(d, byte_of(code as int)), KeyReport::Quiet),
        KeyInput::Unknown(code) => if 0 < code {
            (s.set_reg(d, 0), KeyReport::NcursesKey(code))
        } else {
            (s.set_reg(d, byte_of(code as int)), KeyReport::UnknownKey(code))
        },
        KeyInput::Enter => (s.set_reg(d, 0x0D).set_linefeed(true), KeyReport::Quiet),
        KeyInput::Other => (s, KeyReport::Quiet),
    }
}

/// Every instruction keeps the sizes of RAM and register file.
pub proof fn lemma_execute_keeps_wf(s: MachineState, op: u8, d: int, sr: int, low: u8)
    requires
        s.wf(),
        0 <= d < SIZE_REG,
        0 <= sr < SIZE_REG,
    ensures
        execute(s, op, d, sr, low).0.wf(),
{
    reveal(execute);
}

/// Every step keeps the sizes of RAM and register file.
pub proof fn lemma_step_keeps_wf(s: MachineState)
    requires
        s.wf(),
    ensures
        step_spec(s).0.wf(),
{
    if s.pc() <= 253 {
        let f = fetched(s);
        let high = f.registers[REG_IRH as int];
        let low = f.registers[REG_IRL as int];
        lemma_execute_keeps_wf(
            f,
            high / 8,
            window_register(f.win() as int, (high % 8) as int),
            window_register(f.win() as int, (low % 8) as int),
            low,
        );
    }
}

} // verus!
