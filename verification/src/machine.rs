//! The executable SunyAT machine: loading a ROM, stepping through
//! instructions and taking keys from the terminal.
use vstd::prelude::*;

use crate::constants::{
    EXIT_SUCCESS, EXT_ERR_FILE_NOT_OPEN, EXT_ERR_FILE_READ, EXT_ERR_LOAD_STATE, EXT_ERR_ROM_BIG,
    NUM_SYS_REG, SIZE_APP_ROM,
    OPCODE_ADD_RI, OPCODE_ADD_RR, OPCODE_AND_RI, OPCODE_AND_RR, OPCODE_AWR_I, OPCODE_CALL_M,
    OPCODE_CMP_RI, OPCODE_CMP_RR, OPCODE_DIV_RI, OPCODE_DIV_RR, OPCODE_JEQ_M, OPCODE_JGR_M,
    OPCODE_JLS_M, OPCODE_JMP_M, OPCODE_JNE_M, OPCODE_LOADP_RR, OPCODE_LOAD_RM, OPCODE_MOV_RI,
    OPCODE_MOV_RR, OPCODE_MUL_RI, OPCODE_MUL_RR, OPCODE_OR_RI, OPCODE_OR_RR, OPCODE_RET,
    OPCODE_STACKER_R, OPCODE_STORP_RR, OPCODE_STOR_MR, OPCODE_SUB_RR, OPCODE_SWR_I, OPCODE_XOR_RI,
    OPCODE_XOR_RR, REG_IRH, REG_IRL, REG_PC, REG_SP, REG_WIN, SIZE_APP_MSG, SIZE_APP_RAM, SIZE_REG,
};
use crate::decode::{
    get_dreg, get_grimm, get_grwp, get_imm, get_mem, get_opcode, get_sreg, lemma_as_signed,
    lemma_div_shrinks, set_flags, signed_value, window_add,
};
use crate::isa::{
    alu_value, byte_of, call_to, division_overflows, execute, fetched, initial_state, is_alu_op,
    jump_if, key_effect, loaded_state, read_from, return_from, rom_ram, signed_quotient, stack_op,
    step_spec, step_traps, write_to, HaltReason, KeyInput, KeyReport, MachineState, StepOutcome,
};

verus! {

/// A SunyAT machine: RAM, registers, flags and a clock.
pub struct SunyAT {
    linefeed_buffered: bool,
    debug: bool,
    clock_ticks: usize,
    zero_flag: bool,
    sign_flag: bool,
    interrupt_flag: bool,
    ram: Vec<u8>,
    registers: Vec<u8>,
}

impl View for SunyAT {
    type V = MachineState;

    closed spec fn view(&self) -> MachineState {
        MachineState {
            ram: self.ram@,
            registers: self.registers@,
            zero_flag: self.zero_flag,
            sign_flag: self.sign_flag,
            interrupt_flag: self.interrupt_flag,
            linefeed_buffered: self.linefeed_buffered,
            debug: self.debug,
            clock_ticks: self.clock_ticks,
        }
    }
}

/// The value an ALU instruction computes; arithmetic wraps around as the
/// machine's byte arithmetic does. The low byte of a sum or product does not
/// depend on whether its operands are read as signed or unsigned, so the
/// immediate forms compute on the unsigned low byte.
fn compute_alu(opcode: u8, rd: u8, rs: u8, mem: u8) -> (r: u8)
    requires
        is_alu_op(opcode),
    ensures
        r == alu_value(opcode, rd, rs, mem),
{
    if opcode == OPCODE_ADD_RR {
        rd.wrapping_add(rs)
    } else if opcode == OPCODE_ADD_RI {
        rd.wrapping_add(mem)
    } else if opcode == OPCODE_SUB_RR {
        rd.wrapping_sub(rs)
    } else if opcode == OPCODE_MUL_RR {
        rd.wrapping_mul(rs)
    } else if opcode == OPCODE_MUL_RI {
        rd.wrapping_mul(mem)
    } else if opcode == OPCODE_AND_RR {
        rd & rs
    } else if opcode == OPCODE_AND_RI {
        rd & mem
    } else if opcode == OPCODE_OR_RR {
        rd | rs
    } else if opcode == OPCODE_OR_RI {
        rd | mem
    } else if opcode == OPCODE_XOR_RR {
        rd ^ rs
    } else {
        rd ^ mem
    }
}

/// The low byte of an `i32`, through its unsigned reading.
proof fn lemma_low_byte_bits(x: i32)
    by (bit_vector)
    ensures
        (x as u8) as u32 == (x as u32) % 256,
{
}

/// The low byte of an `i32`.
proof fn lemma_low_byte(x: i32)
    ensures
        x as u8 == byte_of(x as int),
{
    lemma_low_byte_bits(x);
    lemma_i32_as_u32(x);
}

/// The unsigned reading of an `i32`.
proof fn lemma_i32_as_u32(x: i32)
    by (bit_vector)
    ensures
        (x as u32) as int == if x >= 0 { x as int } else { x as int + 0x1_0000_0000 },
{
}

/// The bytes of a signed byte read back as an unsigned one.
proof fn lemma_as_unsigned(x: i8)
    by (bit_vector)
    ensures
        (x as u8) as int == if x >= 0 { x as int } else { x as int + 256 },
{
}

impl SunyAT {
    fn set_reg(&mut self, i: usize, v: u8)
        requires
            old(self)@.wf(),
            i < SIZE_REG,
        ensures
            final(self)@ == old(self)@.set_reg(i as int, v),
    {
        self.registers.set(i, v);
    }

    fn set_ram(&mut self, a: usize, v: u8)
        requires
            old(self)@.wf(),
            a < SIZE_APP_RAM,
        ensures
            final(self)@ == old(self)@.set_ram(a as int, v),
    {
        self.ram.set(a, v);
    }

    /// Stores an ALU result and sets the zero and sign flags from it.
    fn alu(&mut self, d: usize, v: u8)
        requires
            old(self)@.wf(),
            d < SIZE_REG,
        ensures
            final(self)@ == old(self)@.alu(d as int, v),
    {
        self.set_reg(d, v);
        proof { lemma_as_signed(v); }
        let re = set_flags(v as i8);
        self.zero_flag = re.0;
        self.sign_flag = re.1;
    }

    /// Sets the zero and sign flags from a result that is not stored.
    fn flags_only(&mut self, v: u8)
        requires
            old(self)@.wf(),
        ensures
            final(self)@ == old(self)@.set_flags_for(v),
    {
        proof { lemma_as_signed(v); }
        let re = set_flags(v as i8);
        self.zero_flag = re.0;
        self.sign_flag = re.1;
    }

    fn read_from(&mut self, d: usize, addr: u8) -> (r: StepOutcome)
        requires
            old(self)@.wf(),
            d < SIZE_REG,
        ensures
            (final(self)@, r) == read_from(old(self)@, d as int, addr),
    {
        if (addr as usize) < SIZE_APP_RAM {
            let v = self.ram[addr as usize];
            self.set_reg(d, v);
            StepOutcome::Continue
        } else if self.linefeed_buffered {
            self.set_reg(d, 0x0A);
            self.linefeed_buffered = false;
            StepOutcome::Continue
        } else {
            StepOutcome::ReadKey(d)
        }
    }

    fn write_to(&mut self, addr: u8, v: u8) -> (r: StepOutcome)
        requires
            old(self)@.wf(),
        ensures
            (final(self)@, r) == write_to(old(self)@, addr, v),
    {
        if (addr as usize) < SIZE_APP_RAM {
            self.set_ram(addr as usize, v);
            StepOutcome::Continue
        } else {
            StepOutcome::Write(v)
        }
    }

    fn call_to(&mut self, target: u8) -> (r: StepOutcome)
        requires
            old(self)@.wf(),
        ensures
            (final(self)@, r) == call_to(old(self)@, target),
    {
        if 0 >= self.registers[REG_SP] {
            return StepOutcome::Halt(HaltReason::CallStackOverflow);
        }
        if target as usize >= SIZE_APP_RAM {
            return StepOutcome::Halt(HaltReason::CallOutOfRange);
        }
        let sp = self.registers[REG_SP] - 1;
        self.set_reg(REG_SP, sp);
        let pc = self.registers[REG_PC];
        self.set_ram(sp as usize, pc);
        self.set_reg(REG_PC, target);
        StepOutcome::Continue
    }

    fn return_from(&mut self) -> (r: StepOutcome)
        requires
            old(self)@.wf(),
        ensures
            (final(self)@, r) == return_from(old(self)@),
    {
        if SIZE_APP_RAM <= self.registers[REG_SP] as usize {
            return StepOutcome::Halt(HaltReason::StackEmpty);
        }
        let sp = self.registers[REG_SP];
        let v = self.ram[sp as usize];
        self.set_reg(REG_PC, v);
        self.set_reg(REG_SP, sp + 1);
        StepOutcome::Continue
    }

    fn stack_op(&mut self, d: usize, imm: i8) -> (r: StepOutcome)
        requires
            old(self)@.wf(),
            NUM_SYS_REG <= d < SIZE_REG,
        ensures
            (final(self)@, r) == stack_op(old(self)@, d as int, imm as u8),
    {
        proof { lemma_as_unsigned(imm); }
        if 0 == imm {
            if 0 >= self.registers[REG_SP] {
                return StepOutcome::Halt(HaltReason::PushStackOverflow);
            }
            let sp = self.registers[REG_SP] - 1;
            self.set_reg(REG_SP, sp);
            let v = self.registers[d];
            self.set_ram(sp as usize, v);
        } else {
            if (self.registers[REG_SP] as usize) >= SIZE_APP_RAM {
                return StepOutcome::Halt(HaltReason::PopStackUnderflow);
            }
            let sp = self.registers[REG_SP];
            let v = self.ram[sp as usize];
            self.set_reg(d, v);
            self.set_reg(REG_SP, sp + 1);
        }
        StepOutcome::Continue
    }

    fn jump_if(&mut self, taken: bool, target: u8) -> (r: StepOutcome)
        requires
            old(self)@.wf(),
        ensures
            (final(self)@, r) == jump_if(old(self)@, taken, target),
    {
        if taken {
            self.set_reg(REG_PC, target);
        }
        StepOutcome::Continue
    }

    /// Signed division of register `dreg` by `divisor`.
    fn divide(&mut self, dreg: usize, divisor: u8) -> (r: StepOutcome)
        requires
            old(self)@.wf(),
            dreg < SIZE_REG,
            !division_overflows(old(self)@.registers[dreg as int], divisor),
        ensures
            divisor == 0 ==> final(self)@ == old(self)@ && r == StepOutcome::Halt(HaltReason::DivideByZero),
            divisor != 0 ==> final(self)@ == old(self)@.alu(dreg as int, signed_quotient(old(self)@.registers[dreg as int], divisor))
                && r == StepOutcome::Continue,
    {
        if 0 == divisor {
            return StepOutcome::Halt(HaltReason::DivideByZero);
        }
        let rd = self.registers[dreg];
        proof {
            lemma_as_signed(rd);
            lemma_as_signed(divisor);
        }
        proof {
            let x = signed_value(rd);
            let d = signed_value(divisor);
            lemma_div_shrinks(if x >= 0 { x } else { -x }, if d >= 0 { d } else { -d });
        }
        let q = match (rd as i8).checked_div(divisor as i8) {
            Some(q) => q,
            None => {
                proof { assert(false); }
                0
            },
        };
        proof { lemma_as_unsigned(q); }
        assert(q as u8 == byte_of(q as int));
        self.alu(dreg, q as u8);
        StepOutcome::Continue
    }

    /// Moves the register window by `imm`.
    fn shift_window(&mut self, imm: i8)
        requires
            old(self)@.wf(),
        ensures
            final(self)@ == old(self)@.set_reg(REG_WIN as int, byte_of(window_add(old(self)@.win(), imm))),
    {
        let w = get_grimm(self.registers[REG_WIN], imm);
        proof { lemma_as_unsigned(w); }
        assert(w as u8 == byte_of(w as int));
        self.set_reg(REG_WIN, w as u8);
    }

    /// Data moves and arithmetic: opcodes `MOV_RR ..= CMP_RI`.
    fn execute_arith(&mut self, opcode: u8, dreg: usize, sreg: usize, imm: i8, mem: u8) -> (r: StepOutcome)
        requires
            old(self)@.wf(),
            opcode <= OPCODE_CMP_RI,
            NUM_SYS_REG <= dreg < SIZE_REG,
            NUM_SYS_REG <= sreg < SIZE_REG,
            imm == mem as i8,
            !(opcode == OPCODE_DIV_RR && division_overflows(old(self)@.registers[dreg as int], old(self)@.registers[sreg as int])),
            !(opcode == OPCODE_DIV_RI && division_overflows(old(self)@.registers[dreg as int], mem)),
        ensures
            (final(self)@, r) == execute(old(self)@, opcode, dreg as int, sreg as int, mem),
    {
        if opcode <= OPCODE_MUL_RI {
            self.execute_move_alu(opcode, dreg, sreg, mem)
        } else {
            self.execute_divide_compare(opcode, dreg, sreg, mem)
        }
    }

    /// Moves and wrapping arithmetic: opcodes `MOV_RR ..= MUL_RI`.
    fn execute_move_alu(&mut self, opcode: u8, dreg: usize, sreg: usize, mem: u8) -> (r: StepOutcome)
        requires
            old(self)@.wf(),
            opcode <= OPCODE_MUL_RI,
            dreg < SIZE_REG,
            sreg < SIZE_REG,
        ensures
            (final(self)@, r) == execute(old(self)@, opcode, dreg as int, sreg as int, mem),
    {
        reveal(execute);
        let rd = self.registers[dreg];
        let rs = self.registers[sreg];
        if opcode == OPCODE_MOV_RR {
            self.set_reg(dreg, rs);
        } else if opcode == OPCODE_MOV_RI {
            self.set_reg(dreg, mem);
        } else {
            let v = compute_alu(opcode, rd, rs, mem);
            self.alu(dreg, v);
        }
        StepOutcome::Continue
    }

    /// Division and comparison: opcodes `DIV_RR ..= CMP_RI`.
    fn execute_divide_compare(&mut self, opcode: u8, dreg: usize, sreg: usize, mem: u8) -> (r: StepOutcome)
        requires
            old(self)@.wf(),
            OPCODE_DIV_RR <= opcode <= OPCODE_CMP_RI,
            dreg < SIZE_REG,
            sreg < SIZE_REG,
            !(opcode == OPCODE_DIV_RR && division_overflows(old(self)@.registers[dreg as int], old(self)@.registers[sreg as int])),
            !(opcode == OPCODE_DIV_RI && division_overflows(old(self)@.registers[dreg as int], mem)),
        ensures
            (final(self)@, r) == execute(old(self)@, opcode, dreg as int, sreg as int, mem),
    {
        reveal(execute);
        let rd = self.registers[dreg];
        let rs = self.registers[sreg];
        if opcode == OPCODE_DIV_RR {
            self.divide(dreg, rs)
        } else if opcode == OPCODE_DIV_RI {
            // the divisor is the immediate: the low byte read as signed
            self.divide(dreg, mem)
        } else if opcode == OPCODE_CMP_RR {
            let v = compute_alu(OPCODE_SUB_RR, rd, rs, mem);
            self.flags_only(v);
            StepOutcome::Continue
        } else {
            // the low byte of a difference does not depend on signedness
            let v = compute_alu(OPCODE_SUB_RR, rd, mem, mem);
            self.flags_only(v);
            StepOutcome::Continue
        }
    }

    /// Jumps, calls and returns: opcodes `JMP_M ..= RET`.
    fn execute_flow(&mut self, opcode: u8, mem: u8) -> (r: StepOutcome)
        requires
            old(self)@.wf(),
            OPCODE_JMP_M <= opcode <= OPCODE_RET,
        ensures
            forall|d: int, sr: int| (final(self)@, r) == #[trigger] execute(old(self)@, opcode, d, sr, mem),
    {
        reveal(execute);
        if opcode == OPCODE_JMP_M {
            if mem as usize >= SIZE_APP_RAM {
                return StepOutcome::Halt(HaltReason::JumpOutOfRange);
            }
            self.set_reg(REG_PC, mem);
            StepOutcome::Continue
        } else if opcode == OPCODE_JEQ_M {
            let taken = self.zero_flag;
            self.jump_if(taken, mem)
        } else if opcode == OPCODE_JNE_M {
            let taken = !self.zero_flag;
            self.jump_if(taken, mem)
        } else if opcode == OPCODE_JGR_M {
            let taken = !self.sign_flag && !self.zero_flag;
            self.jump_if(taken, mem)
        } else if opcode == OPCODE_JLS_M {
            let taken = self.sign_flag;
            self.jump_if(taken, mem)
        } else if opcode == OPCODE_CALL_M {
            self.call_to(mem)
        } else {
            self.return_from()
        }
    }

    /// Bitwise logic: opcodes `AND_RR ..= XOR_RI`.
    fn execute_logic(&mut self, opcode: u8, dreg: usize, sreg: usize, mem: u8) -> (r: StepOutcome)
        requires
            old(self)@.wf(),
            OPCODE_AND_RR <= opcode <= OPCODE_XOR_RI,
            dreg < SIZE_REG,
            sreg < SIZE_REG,
        ensures
            (final(self)@, r) == execute(old(self)@, opcode, dreg as int, sreg as int, mem),
    {
        reveal(execute);
        let rd = self.registers[dreg];
        let rs = self.registers[sreg];
        let v = compute_alu(opcode, rd, rs, mem);
        self.alu(dreg, v);
        StepOutcome::Continue
    }

    /// Memory, terminal, stack and window: opcodes `LOAD_RM ..= AUX_I`.
    fn execute_memory(&mut self, opcode: u8, dreg: usize, sreg: usize, imm: i8, mem: u8) -> (r: StepOutcome)
        requires
            old(self)@.wf(),
            OPCODE_LOAD_RM <= opcode < 32,
            NUM_SYS_REG <= dreg < SIZE_REG,
            NUM_SYS_REG <= sreg < SIZE_REG,
            imm == mem as i8,
        ensures
            (final(self)@, r) == execute(old(self)@, opcode, dreg as int, sreg as int, mem),
    {
        reveal(execute);
        proof {
            lemma_as_unsigned(imm);
            lemma_as_signed(mem);
        }
        if opcode == OPCODE_LOAD_RM {
            self.read_from(dreg, mem)
        } else if opcode == OPCODE_LOADP_RR {
            let addr = self.registers[sreg];
            self.read_from(dreg, addr)
        } else if opcode == OPCODE_STOR_MR {
            let v = self.registers[dreg];
            self.write_to(mem, v)
        } else if opcode == OPCODE_STORP_RR {
            let addr = self.registers[dreg];
            let v = self.registers[sreg];
            self.write_to(addr, v)
        } else if opcode == OPCODE_STACKER_R {
            self.stack_op(dreg, imm)
        } else if opcode == OPCODE_SWR_I {
            self.set_reg(REG_WIN, imm as u8);
            StepOutcome::Continue
        } else if opcode == OPCODE_AWR_I {
            self.shift_window(imm);
            StepOutcome::Continue
        } else {
            StepOutcome::Continue
        }
    }

    /// Dispatches a decoded instruction to the group that executes it.
    fn execute(&mut self, opcode: u8, dreg: usize, sreg: usize, imm: i8, mem: u8) -> (r: StepOutcome)
        requires
            old(self)@.wf(),
            opcode < 32,
            NUM_SYS_REG <= dreg < SIZE_REG,
            NUM_SYS_REG <= sreg < SIZE_REG,
            imm == mem as i8,
            !(opcode == OPCODE_DIV_RR && division_overflows(old(self)@.registers[dreg as int], old(self)@.registers[sreg as int])),
            !(opcode == OPCODE_DIV_RI && division_overflows(old(self)@.registers[dreg as int], mem)),
        ensures
            (final(self)@, r) == execute(old(self)@, opcode, dreg as int, sreg as int, mem),
    {
        if opcode <= OPCODE_CMP_RI {
            self.execute_arith(opcode, dreg, sreg, imm, mem)
        } else if opcode <= OPCODE_RET {
            let r = self.execute_flow(opcode, mem);
            assert((final(self)@, r) == execute(old(self)@, opcode, dreg as int, sreg as int, mem));
            r
        } else if opcode <= OPCODE_XOR_RI {
            self.execute_logic(opcode, dreg, sreg, mem)
        } else {
            self.execute_memory(opcode, dreg, sreg, imm, mem)
        }
    }

    /// Runs one clock cycle: tick the clock, fetch the instruction at the
    /// program counter, decode it through the register window and execute it.
    /// Reading a key or printing a byte is left to the caller, which the
    /// outcome tells.
    pub fn step(&mut self) -> (r: StepOutcome)
        requires
            old(self)@.wf(),
            !step_traps(old(self)@),
        ensures
            final(self)@.wf(),
            (final(self)@, r) == step_spec(old(self)@),
    {
        self.clock_ticks = self.clock_ticks.wrapping_add(1);
        if self.registers[REG_PC] > (SIZE_APP_RAM - 2) as u8 {
            return StepOutcome::Halt(HaltReason::InvalidPc);
        }
        let ghost ticked = self@;
        let pc = self.registers[REG_PC];
        let irh = self.ram[pc as usize];
        self.set_reg(REG_IRH, irh);
        self.set_reg(REG_PC, pc + 1);
        let pc = self.registers[REG_PC];
        let irl = self.ram[pc as usize];
        self.set_reg(REG_IRL, irl);
        self.set_reg(REG_PC, pc + 1);
        proof {
            assert(self@.registers =~= fetched(old(self)@).registers);
            assert(self@ == fetched(old(self)@));
        }
        let opcode = get_opcode(self.registers[REG_IRH]);
        let sreg = get_grwp(self.registers[REG_WIN], get_sreg(self.registers[REG_IRL])) as usize;
        let dreg = get_grwp(self.registers[REG_WIN], get_dreg(self.registers[REG_IRH])) as usize;
        let imm = get_imm(self.registers[REG_IRL] as i8);
        let mem = get_mem(self.registers[REG_IRL]);
        proof { crate::isa::lemma_step_keeps_wf(old(self)@); }
        self.execute(opcode, dreg, sreg, imm, mem)
    }

    /// Whether the next step would divide -128 by -1, the one signed byte
    /// division whose quotient does not fit a byte.
    pub fn next_step_traps(&self) -> (r: bool)
        requires
            self@.wf(),
        ensures
            r == step_traps(self@),
    {
        let pc = self.registers[REG_PC];
        if pc > (SIZE_APP_RAM - 2) as u8 {
            return false;
        }
        let high = self.ram[pc as usize];
        let low = self.ram[pc as usize + 1];
        let win = self.registers[REG_WIN];
        let opcode = get_opcode(high);
        let dreg = get_grwp(win, get_dreg(high)) as usize;
        let sreg = get_grwp(win, get_sreg(low)) as usize;
        let rd = self.registers[dreg];
        let rs = self.registers[sreg];
        let divisor = if opcode == OPCODE_DIV_RR {
            rs
        } else {
            low
        };
        (opcode == OPCODE_DIV_RR || opcode == OPCODE_DIV_RI) && rd == 128 && divisor == 255
    }

    /// Hands the key read for a terminal read back to the machine, which
    /// stores its code in register `reg`.
    pub fn deliver_key(&mut self, reg: usize, key: KeyInput) -> (r: KeyReport)
        requires
            old(self)@.wf(),
            reg < SIZE_REG,
        ensures
            final(self)@.wf(),
            (final(self)@, r) == key_effect(old(self)@, reg as int, key),
    {
        match key {
            KeyInput::NoKey => {
                self.set_reg(reg, 0);
                KeyReport::Quiet
            },
            KeyInput::Character(code) => {
                self.set_reg(reg, (code % 256) as u8);
                KeyReport::Quiet
            },
            KeyInput::Unknown(code) => {
                if 0 < code {
                    self.set_reg(reg, 0);
                    KeyReport::NcursesKey(code)
                } else {
                    proof { lemma_low_byte(code); }
                    self.set_reg(reg, code as u8);
                    KeyReport::UnknownKey(code)
                }
            },
            KeyInput::Enter => {
                self.set_reg(reg, 0x0D);
                self.linefeed_buffered = true;
                KeyReport::Quiet
            },
            KeyInput::Other => KeyReport::Quiet,
        }
    }

    /// Register `i`.
    pub fn register(&self, i: usize) -> (r: u8)
        requires
            self@.wf(),
            i < SIZE_REG,
        ensures
            r == self@.registers[i as int],
    {
        self.registers[i]
    }

    /// The RAM byte at `addr`.
    pub fn ram_byte(&self, addr: usize) -> (r: u8)
        requires
            self@.wf(),
            addr < SIZE_APP_RAM,
        ensures
            r == self@.ram[addr as int],
    {
        self.ram[addr]
    }

    pub fn zero_flag(&self) -> (r: bool)
        ensures
            r == self@.zero_flag,
    {
        self.zero_flag
    }

    pub fn sign_flag(&self) -> (r: bool)
        ensures
            r == self@.sign_flag,
    {
        self.sign_flag
    }

    pub fn linefeed_buffered(&self) -> (r: bool)
        ensures
            r == self@.linefeed_buffered,
    {
        self.linefeed_buffered
    }

    pub fn clock_ticks(&self) -> (r: usize)
        ensures
            r == self@.clock_ticks,
    {
        self.clock_ticks
    }

    pub fn debug(&self) -> (r: bool)
        ensures
            r == self@.debug,
    {
        self.debug
    }
}

/// A zeroed byte vector of length `n`.
fn zeros(n: usize) -> (v: Vec<u8>)
    ensures
        v@ == Seq::new(n as nat, |i: int| 0u8),
{
    let mut v: Vec<u8> = Vec::new();
    let mut i: usize = 0;
    while i < n
        invariant
            i <= n,
            v@ == Seq::new(i as nat, |j: int| 0u8),
        decreases n - i,
    {
        v.push(0);
        i = i + 1;
        assert(v@ =~= Seq::new(i as nat, |j: int| 0u8));
    }
    v
}

impl Default for SunyAT {
    /// A machine with zero RAM and registers, the register window at the
    /// first general purpose register and an empty stack.
    fn default() -> (r: SunyAT)
        ensures
            r@ == initial_state(),
    {
        let mut new_sat = SunyAT {
            linefeed_buffered: false,
            debug: false,
            clock_ticks: 0,
            zero_flag: false,
            sign_flag: false,
            interrupt_flag: false,
            ram: zeros(SIZE_APP_RAM),
            registers: zeros(SIZE_REG),
        };
        new_sat.set_reg(0, 0);
        new_sat.set_reg(1, 0);
        new_sat.set_reg(2, 0);
        new_sat.set_reg(REG_WIN, NUM_SYS_REG as u8);
        new_sat.set_reg(REG_SP, SIZE_APP_RAM as u8);
        assert(new_sat@.registers =~= initial_state().registers);
        new_sat
    }
}

/// Puts a ROM file's contents into RAM: the application message that leads
/// the file is skipped and RAM takes the bytes after it, zero where the file
/// ends early. A file longer than `SIZE_APP_ROM` (message and RAM) is
/// refused with `EXT_ERR_ROM_BIG` and the machine left as it was.
pub fn load_rom(sunyat: &mut SunyAT, image: &[u8]) -> (r: usize)
    requires
        old(sunyat)@.wf(),
    ensures
        image@.len() > SIZE_APP_ROM ==> r == EXT_ERR_ROM_BIG && final(sunyat)@ == old(sunyat)@,
        image@.len() <= SIZE_APP_ROM ==> r == EXIT_SUCCESS && final(sunyat)@ == (MachineState {
            ram: rom_ram(image@),
            ..old(sunyat)@
        }),
{
    if image.len() > SIZE_APP_ROM {
        return EXT_ERR_ROM_BIG;
    }
    let size_msg = if image.len() < SIZE_APP_MSG {
        image.len()
    } else {
        SIZE_APP_MSG
    };
    let mut file_buffer = zeros(SIZE_APP_RAM);
    let mut i: usize = 0;
    while i < SIZE_APP_RAM
        invariant
            i <= SIZE_APP_RAM,
            size_msg == if image.len() < SIZE_APP_MSG { image.len() } else { SIZE_APP_MSG },
            file_buffer@.len() == SIZE_APP_RAM,
            forall|j: int| 0 <= j < i ==> file_buffer@[j] == rom_ram(image@)[j],
            forall|j: int| i <= j < SIZE_APP_RAM ==> file_buffer@[j] == 0,
        decreases SIZE_APP_RAM - i,
    {
        if i < image.len() - size_msg {
            file_buffer.set(i, image[size_msg + i]);
        }
        i = i + 1;
    }
    assert(file_buffer@ =~= rom_ram(image@));
    sunyat.ram = file_buffer;
    EXIT_SUCCESS
}

/// Loading a saved state is not supported: it always fails, with exit code
/// 255, and leaves the machine alone.
pub fn load_state(sunyat: &mut SunyAT, rom: &str) -> (r: usize)
    ensures
        r == EXT_ERR_LOAD_STATE,
        final(sunyat)@ == old(sunyat)@,
{
    EXT_ERR_LOAD_STATE
}

/// What reading a ROM file gave.
pub enum RomFile {
    /// The file could not be opened.
    OpenFailed,
    /// The file could not be read.
    ReadFailed,
    /// The file's bytes.
    Loaded(Vec<u8>),
}

/// The outcome of starting the machine: the state it runs from, or the exit
/// code of the failure.
pub open spec fn start_outcome(rom: RomFile, l_state: bool) -> Result<MachineState, usize> {
    if l_state {
        Err(EXT_ERR_LOAD_STATE)
    } else {
        match rom {
            RomFile::OpenFailed => Err(EXT_ERR_FILE_NOT_OPEN),
            RomFile::ReadFailed => Err(EXT_ERR_FILE_READ),
            RomFile::Loaded(image) => if image@.len() > SIZE_APP_ROM {
                Err(EXT_ERR_ROM_BIG)
            } else {
                Ok(loaded_state(image@))
            },
        }
    }
}

/// Prepares a machine to run: from a saved state (not supported) when
/// `l_state` is set, else from the ROM file. Gives the machine, or the exit
/// code to end with. `l_debug` asks for the debugger, which does nothing yet.
pub fn start_sunyat(rom: RomFile, l_state: bool, l_debug: bool) -> (r: Result<SunyAT, usize>)
    ensures
        match r {
            Ok(m) => start_outcome(rom, l_state) == Ok::<MachineState, usize>(m@) && m@.wf(),
            Err(code) => start_outcome(rom, l_state) == Err::<MachineState, usize>(code),
        },
{
    let mut cur_sunyat = SunyAT::default();
    let re_val = if l_state {
        load_state(&mut cur_sunyat, "")
    } else {
        match &rom {
            RomFile::OpenFailed => EXT_ERR_FILE_NOT_OPEN,
            RomFile::ReadFailed => EXT_ERR_FILE_READ,
            RomFile::Loaded(image) => load_rom(&mut cur_sunyat, image.as_slice()),
        }
    };
    if EXIT_SUCCESS != re_val {
        return Err(re_val);
    }
    Ok(cur_sunyat)
}

} // verus!
