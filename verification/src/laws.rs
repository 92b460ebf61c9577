//! Properties of the machine that span instructions and calls.
use vstd::prelude::*;

use crate::constants::{
    IO_TERMINAL, OPCODE_ADD_RI, OPCODE_ADD_RR, OPCODE_AND_RI, OPCODE_AND_RR, OPCODE_CALL_M,
    OPCODE_CMP_RI, OPCODE_CMP_RR, OPCODE_DIV_RI, OPCODE_DIV_RR, OPCODE_JEQ_M, OPCODE_JGR_M,
    OPCODE_JLS_M, OPCODE_JMP_M, OPCODE_JNE_M, OPCODE_LOAD_RM, OPCODE_MOV_RI, OPCODE_MOV_RR,
    OPCODE_MUL_RI, OPCODE_MUL_RR, OPCODE_OR_RI, OPCODE_OR_RR, OPCODE_RET, OPCODE_STACKER_R,
    OPCODE_STORP_RR, OPCODE_STOR_MR, OPCODE_SUB_RR, OPCODE_SWR_I, OPCODE_AWR_I, OPCODE_LOADP_RR,
    OPCODE_XOR_RI, OPCODE_XOR_RR, REG_PC, REG_WIN, SIZE_REG, TAB_SIZE,
};
use crate::decode::{
    congruent32, lemma_window_add, signed_value, trunc_div, window_add, window_register,
};
use crate::isa::{
    byte_of, division_overflows, execute, key_effect, step_spec, HaltReason, KeyInput, MachineState,
    StepOutcome,
};
use crate::screen::{cursor_in_range, put_spec, put_traps, cell_index, ScreenState};

verus! {

/// Inside the general purpose registers, a register field names the
/// register that many places after the window start, wrapping from the last
/// general purpose register back to the first.
pub proof fn lemma_window_register_wraps(reg_win: int, reg: int)
    requires
        5 <= reg_win <= 36,
        0 <= reg < 8,
    ensures
        window_register(reg_win, reg) == if reg_win + reg <= 36 { reg_win + reg } else { reg_win + reg - 32 },
{
}

/// Register fields name the same register whenever window starts agree
/// modulo 32.
pub proof fn lemma_window_register_congruent(w1: int, w2: int, reg: int)
    requires
        congruent32(w1, w2),
    ensures
        window_register(w1, reg) == window_register(w2, reg),
{
    vstd::arithmetic::div_mod::lemma_fundamental_div_mod(w1 - w2, 32);
    let k = (w1 - w2) / 32;
    assert(w1 + reg + 27 == (w2 + reg + 27) + 32 * k);
    vstd::arithmetic::div_mod::lemma_mod_multiples_vanish(k, w2 + reg + 27, 32);
}

/// Adding `imm` to the window start moves every register field `imm`
/// registers on through the general purpose registers.
pub proof fn lemma_window_shift(reg_win: u8, imm: i8, reg: int)
    ensures
        window_register(byte_of(window_add(reg_win, imm)) as int, reg)
            == window_register(reg_win + imm, reg),
{
    lemma_window_add(reg_win, imm);
    let w = window_add(reg_win, imm);
    let b = byte_of(w) as int;
    if w < 0 {
        assert(b == w + 256);
        vstd::arithmetic::div_mod::lemma_mod_multiples_vanish(8, w - (reg_win + imm), 32);
        assert(congruent32(b, w));
    } else {
        assert(b == w);
    }
    assert(congruent32(b, reg_win + imm)) by {
        vstd::arithmetic::div_mod::lemma_fundamental_div_mod(b - w, 32);
        vstd::arithmetic::div_mod::lemma_fundamental_div_mod(w - (reg_win + imm), 32);
        vstd::arithmetic::div_mod::lemma_mod_multiples_vanish(
            (b - w) / 32 + (w - (reg_win + imm)) / 32,
            0,
            32,
        );
    }
    lemma_window_register_congruent(b, reg_win + imm, reg);
}

/// Pushing a register and then popping into another copies the value and
/// leaves the stack pointer where it was.
pub proof fn lemma_push_then_pop(s: MachineState, d: int, sr: int, d2: int, sr2: int, low2: u8)
    requires
        s.wf(),
        5 <= d < SIZE_REG,
        5 <= d2 < SIZE_REG,
        s.sp() > 0,
        low2 != 0,
    ensures
        ({
            let (s1, r1) = execute(s, OPCODE_STACKER_R, d, sr, 0);
            let (s2, r2) = execute(s1, OPCODE_STACKER_R, d2, sr2, low2);
            &&& r1 == StepOutcome::Continue
            &&& r2 == StepOutcome::Continue
            &&& s2.registers[d2] == s.registers[d]
            &&& s2.sp() == s.sp()
            &&& s2.pc() == s.pc()
        }),
{
    reveal(execute);
}

/// A call followed by a return comes back to the instruction after the call
/// with the registers as they were; RAM keeps the return address just below
/// the stack pointer.
pub proof fn lemma_call_then_return(s: MachineState, target: u8, d: int, sr: int, d2: int, sr2: int, low2: u8)
    requires
        s.wf(),
        s.sp() > 0,
        target != IO_TERMINAL,
    ensures
        ({
            let (s1, r1) = execute(s, OPCODE_CALL_M, d, sr, target);
            let (s2, r2) = execute(s1, OPCODE_RET, d2, sr2, low2);
            &&& r1 == StepOutcome::Continue
            &&& s1.pc() == target
            &&& r2 == StepOutcome::Continue
            &&& s2.registers == s.registers
            &&& s2.ram == s.ram.update(s.sp() - 1, s.pc())
        }),
{
    reveal(execute);
    let (s1, r1) = execute(s, OPCODE_CALL_M, d, sr, target);
    let (s2, r2) = execute(s1, OPCODE_RET, d2, sr2, low2);
    assert(s2.registers =~= s.registers);
}

/// A return with an empty stack ends the program.
pub proof fn lemma_return_on_empty_stack_halts(s: MachineState, d: int, sr: int, low: u8)
    requires
        s.sp() == 255,
    ensures
        execute(s, OPCODE_RET, d, sr, low) == (s, StepOutcome::Halt(HaltReason::StackEmpty)),
{
    reveal(execute);
}

/// Enter answers a terminal read with a carriage return and buffers a line
/// feed, which the next terminal read gives without asking for a key.
pub proof fn lemma_enter_then_line_feed(s: MachineState, d: int, d2: int, sr2: int)
    requires
        s.wf(),
        5 <= d < SIZE_REG,
        5 <= d2 < SIZE_REG,
    ensures
        ({
            let (s1, _) = key_effect(s, d, KeyInput::Enter);
            let (s2, r2) = execute(s1, OPCODE_LOAD_RM, d2, sr2, IO_TERMINAL);
            &&& s1.registers[d] == 0x0D
            &&& r2 == StepOutcome::Continue
            &&& s2.registers[d2] == 0x0A
            &&& !s2.linefeed_buffered
        }),
{
    reveal(execute);
}

/// Only arithmetic, logic and comparison instructions touch the flags.
pub proof fn lemma_flags_only_from_alu(s: MachineState, op: u8, d: int, sr: int, low: u8)
    requires
        op == OPCODE_MOV_RR || op == OPCODE_MOV_RI || (OPCODE_JMP_M <= op <= OPCODE_RET) || (
        OPCODE_LOAD_RM <= op),
    ensures
        execute(s, op, d, sr, low).0.zero_flag == s.zero_flag,
        execute(s, op, d, sr, low).0.sign_flag == s.sign_flag,
{
    reveal(execute);
}

/// Instructions that are neither jumps, calls nor returns leave the
/// program counter after the instruction.
pub proof fn lemma_straight_line(s: MachineState, op: u8, d: int, sr: int, low: u8)
    requires
        s.wf(),
        5 <= d < SIZE_REG,
        5 <= sr < SIZE_REG,
        !(OPCODE_JMP_M <= op <= OPCODE_RET),
    ensures
        execute(s, op, d, sr, low).0.pc() == s.pc(),
{
    reveal(execute);
}

/// Each step advances the clock by one tick.
pub proof fn lemma_step_ticks_once(s: MachineState)
    requires
        s.wf(),
    ensures
        step_spec(s).0.clock_ticks == vstd::wrapping::usize_specs::wrapping_add(s.clock_ticks, 1),
{
    reveal(execute);
}

/// A step that asks for a key names a general purpose register to put it
/// in.
pub proof fn lemma_read_key_register(s: MachineState)
    requires
        s.wf(),
    ensures
        step_spec(s).1 matches StepOutcome::ReadKey(reg) ==> 5 <= reg < SIZE_REG,
{
    reveal(execute);
}

/// A cursor on the terminal stays on it whatever is written, and no write
/// fails.
pub proof fn lemma_cursor_stays_on_terminal(s: ScreenState, c: u8, printable: bool)
    requires
        s.wf(),
        cursor_in_range(s.cur_x as int, s.cur_y as int),
    ensures
        !put_traps(s, c, printable),
        put_spec(s, c, printable).0.wf(),
        cursor_in_range(put_spec(s, c, printable).0.cur_x as int, put_spec(s, c, printable).0.cur_y as int),
{
}

/// From a cursor on the terminal, a tab moves to a tab stop.
pub proof fn lemma_tab_reaches_tab_stop(s: ScreenState, printable: bool)
    requires
        s.wf(),
        cursor_in_range(s.cur_x as int, s.cur_y as int),
    ensures
        put_spec(s, 0x09, printable).0.cur_x as int % TAB_SIZE as int == 0,
{
}

/// A printable byte is stored where the cursor was.
pub proof fn lemma_write_then_read(s: ScreenState, c: u8)
    requires
        s.wf(),
        cursor_in_range(s.cur_x as int, s.cur_y as int),
        c != 0x09 && c != 0x0A && c != 0x0D,
    ensures
        put_spec(s, c, true).0.cells[cell_index(s.cur_x as int, s.cur_y as int)] == c as char,
{
}

/// `a` and `b` are congruent modulo 256.
pub open spec fn congruent256(a: int, b: int) -> bool {
    (a - b) % 256 == 0
}

proof fn lemma_byte_of_congruent(x: int)
    ensures
        byte_of(x) as int == x % 256,
        congruent256(byte_of(x) as int, x),
        congruent256(signed_value(byte_of(x)), x),
{
    vstd::arithmetic::div_mod::lemma_fundamental_div_mod(x, 256);
    let k = x / 256;
    vstd::arithmetic::div_mod::lemma_mod_multiples_vanish(-k, 0, 256);
    assert(byte_of(x) as int - x == 256 * (-k));
    vstd::arithmetic::div_mod::lemma_mod_multiples_vanish(-k - 1, 0, 256);
}

proof fn lemma_signed_congruent(v: u8)
    ensures
        congruent256(signed_value(v), v as int),
{
    vstd::arithmetic::div_mod::lemma_mod_multiples_vanish(-1, 0, 256);
}

proof fn lemma_congruent256_trans(a: int, b: int, c: int)
    requires
        congruent256(a, b),
        congruent256(b, c),
    ensures
        congruent256(a, c),
{
    vstd::arithmetic::div_mod::lemma_fundamental_div_mod(a - b, 256);
    vstd::arithmetic::div_mod::lemma_fundamental_div_mod(b - c, 256);
    vstd::arithmetic::div_mod::lemma_mod_multiples_vanish((a - b) / 256 + (b - c) / 256, 0, 256);
    assert(a - c == 256 * ((a - b) / 256 + (b - c) / 256) + 0) by (nonlinear_arith)
        requires
            a - b == 256 * ((a - b) / 256),
            b - c == 256 * ((b - c) / 256),
    ;
}

proof fn lemma_congruent256_mul(a: int, a2: int, b: int, b2: int)
    requires
        congruent256(a, a2),
        congruent256(b, b2),
    ensures
        congruent256(a * b, a2 * b2),
{
    vstd::arithmetic::div_mod::lemma_fundamental_div_mod(a - a2, 256);
    vstd::arithmetic::div_mod::lemma_fundamental_div_mod(b - b2, 256);
    let k = (a - a2) / 256;
    let j = (b - b2) / 256;
    let m = k * b + a2 * j;
    assert(a * b - a2 * b2 == 256 * m) by (nonlinear_arith)
        requires
            a - a2 == 256 * k,
            b - b2 == 256 * j,
            m == k * b + a2 * j,
    ;
    vstd::arithmetic::div_mod::lemma_mod_multiples_vanish(m, 0, 256);
}

/// The byte an ALU instruction stores, read as signed, is congruent modulo
/// 256 to the signed sum, difference or product of its operands (the
/// immediate read as a signed byte); the zero flag tells whether it is zero
/// and the sign flag whether it is negative. Nothing but the destination
/// register and the flags changes.
#[verifier::rlimit(30)]
pub proof fn lemma_arithmetic_results(s: MachineState, op: u8, d: int, sr: int, low: u8)
    requires
        s.wf(),
        5 <= d < SIZE_REG,
        5 <= sr < SIZE_REG,
        op == OPCODE_ADD_RR || op == OPCODE_ADD_RI || op == OPCODE_SUB_RR || op == OPCODE_MUL_RR
            || op == OPCODE_MUL_RI,
    ensures
        ({
            let (s2, r) = execute(s, op, d, sr, low);
            let rd = signed_value(s.registers[d]);
            let rs = signed_value(s.registers[sr]);
            let imm = signed_value(low);
            let v = s2.registers[d];
            &&& r == StepOutcome::Continue
            &&& op == OPCODE_ADD_RR ==> congruent256(signed_value(v), rd + rs)
            &&& op == OPCODE_ADD_RI ==> congruent256(signed_value(v), rd + imm)
            &&& op == OPCODE_SUB_RR ==> congruent256(signed_value(v), rd - rs)
            &&& op == OPCODE_MUL_RR ==> congruent256(signed_value(v), rd * rs)
            &&& op == OPCODE_MUL_RI ==> congruent256(signed_value(v), rd * imm)
            &&& s2.zero_flag == (v == 0)
            &&& s2.sign_flag == (signed_value(v) < 0)
            &&& s2.registers == s.registers.update(d, v)
            &&& s2.ram == s.ram
        }),
{
    reveal(execute);
    let a = s.registers[d];
    let b = if op == OPCODE_ADD_RI || op == OPCODE_MUL_RI { low } else { s.registers[sr] };
    lemma_signed_congruent(a);
    lemma_signed_congruent(b);
    let x: int = if op == OPCODE_ADD_RR || op == OPCODE_ADD_RI {
        a + b
    } else if op == OPCODE_SUB_RR {
        a - b
    } else {
        a * b
    };
    let y: int = if op == OPCODE_ADD_RR || op == OPCODE_ADD_RI {
        signed_value(a) + signed_value(b)
    } else if op == OPCODE_SUB_RR {
        signed_value(a) - signed_value(b)
    } else {
        signed_value(a) * signed_value(b)
    };
    lemma_byte_of_congruent(x);
    if op == OPCODE_MUL_RR || op == OPCODE_MUL_RI {
        lemma_congruent256_mul(a as int, signed_value(a), b as int, signed_value(b));
    } else {
        assert(congruent256(x, y)) by {
            vstd::arithmetic::div_mod::lemma_fundamental_div_mod(a - signed_value(a), 256);
            vstd::arithmetic::div_mod::lemma_fundamental_div_mod(b - signed_value(b), 256);
            let k = (a - signed_value(a)) / 256;
            let j = (b - signed_value(b)) / 256;
            if op == OPCODE_SUB_RR {
                assert(x - y == 256 * (k - j));
                vstd::arithmetic::div_mod::lemma_mod_multiples_vanish(k - j, 0, 256);
            } else {
                assert(x - y == 256 * (k + j));
                vstd::arithmetic::div_mod::lemma_mod_multiples_vanish(k + j, 0, 256);
            }
        }
    }
    lemma_congruent256_trans(signed_value(byte_of(x)), x, y);
}

/// A comparison sets the flags of the signed difference, wrapped to a byte,
/// and changes nothing else.
pub proof fn lemma_compare_results(s: MachineState, op: u8, d: int, sr: int, low: u8)
    requires
        s.wf(),
        5 <= d < SIZE_REG,
        5 <= sr < SIZE_REG,
        op == OPCODE_CMP_RR || op == OPCODE_CMP_RI,
    ensures
        ({
            let (s2, r) = execute(s, op, d, sr, low);
            let b = if op == OPCODE_CMP_RR { s.registers[sr] } else { low };
            &&& r == StepOutcome::Continue
            &&& s2.zero_flag == (s.registers[d] == b)
            &&& s2.sign_flag == (signed_value(byte_of(signed_value(s.registers[d]) - signed_value(b))) < 0)
            &&& s2.registers == s.registers
            &&& s2.ram == s.ram
        }),
{
    reveal(execute);
    let a = s.registers[d];
    let b = if op == OPCODE_CMP_RR { s.registers[sr] } else { low };
    lemma_byte_of_congruent(a - b);
    lemma_byte_of_congruent(signed_value(a) - signed_value(b));
    assert(byte_of(a - b) == byte_of(signed_value(a) - signed_value(b))) by {
        if a >= 128 && b < 128 {
            vstd::arithmetic::div_mod::lemma_mod_add_multiples_vanish(a - b - 256, 256);
        } else if a < 128 && b >= 128 {
            vstd::arithmetic::div_mod::lemma_mod_sub_multiples_vanish(a - b + 256, 256);
        }
    }
}

/// Bitwise results, bit by bit: AND keeps exactly the bits set in both
/// operands, OR has every bit of either and no other, XOR undone with
/// either operand gives back the other.
pub proof fn lemma_logic_results(s: MachineState, op: u8, d: int, sr: int, low: u8)
    requires
        s.wf(),
        5 <= d < SIZE_REG,
        5 <= sr < SIZE_REG,
        OPCODE_AND_RR <= op <= OPCODE_XOR_RI,
    ensures
        ({
            let (s2, r) = execute(s, op, d, sr, low);
            let a = s.registers[d];
            let b = if op == OPCODE_AND_RR || op == OPCODE_OR_RR || op == OPCODE_XOR_RR {
                s.registers[sr]
            } else {
                low
            };
            let v = s2.registers[d];
            &&& r == StepOutcome::Continue
            &&& (op == OPCODE_AND_RR || op == OPCODE_AND_RI) ==> (v & a == v && v & b == v && (a & b) & !v == 0)
            &&& (op == OPCODE_OR_RR || op == OPCODE_OR_RI) ==> (v & a == a && v & b == b && v & !a & !b == 0)
            &&& (op == OPCODE_XOR_RR || op == OPCODE_XOR_RI) ==> (v ^ a == b && v ^ b == a)
            &&& s2.zero_flag == (v == 0)
            &&& s2.sign_flag == (v >= 128)
            &&& s2.registers == s.registers.update(d, v)
            &&& s2.ram == s.ram
        }),
{
    reveal(execute);
    let a = s.registers[d];
    let b = if op == OPCODE_AND_RR || op == OPCODE_OR_RR || op == OPCODE_XOR_RR {
        s.registers[sr]
    } else {
        low
    };
    assert(forall|x: u8, y: u8| #![trigger x & y] (x & y) & x == x & y && (x & y) & y == x & y && (x & y) & !(x & y) == 0) by (bit_vector);
    assert(forall|x: u8, y: u8| #![trigger x | y] (x | y) & x == x && (x | y) & y == y && (x | y) & !x & !y == 0) by (bit_vector);
    assert(forall|x: u8, y: u8| #![trigger x ^ y] (x ^ y) ^ x == y && (x ^ y) ^ y == x) by (bit_vector);
    assert(a & b == b & a) by (bit_vector);
}

/// The conditional jumps go to their target exactly when their condition
/// holds — JEQ when the zero flag is set, JNE when it is clear, JGR when
/// both zero and sign flags are clear, JLS when the sign flag is set — and
/// otherwise leave the program counter after the jump. Nothing else changes.
pub proof fn lemma_branch_results(s: MachineState, op: u8, d: int, sr: int, target: u8)
    requires
        s.wf(),
        OPCODE_JEQ_M <= op <= OPCODE_JLS_M,
    ensures
        ({
            let (s2, r) = execute(s, op, d, sr, target);
            let taken = if op == OPCODE_JEQ_M {
                s.zero_flag
            } else if op == OPCODE_JNE_M {
                !s.zero_flag
            } else if op == OPCODE_JGR_M {
                !s.zero_flag && !s.sign_flag
            } else {
                s.sign_flag
            };
            &&& r == StepOutcome::Continue
            &&& s2.pc() == if taken { target } else { s.pc() }
            &&& s2.registers == s.registers.update(REG_PC as int, s2.pc())
            &&& s2.ram == s.ram
            &&& s2.zero_flag == s.zero_flag
            &&& s2.sign_flag == s.sign_flag
        }),
{
    reveal(execute);
    let (s2, r) = execute(s, op, d, sr, target);
    assert(s2.registers =~= s.registers.update(REG_PC as int, s2.pc()));
}

/// A comparison of equal values followed by JGR does not jump, and one of
/// a greater value does: JGR means "greater", strictly.
pub proof fn lemma_compare_then_jump_greater(s: MachineState, d: int, sr: int, imm: u8, target: u8)
    requires
        s.wf(),
        5 <= d < SIZE_REG,
        5 <= sr < SIZE_REG,
        -64 <= signed_value(s.registers[d]) <= 63,
        -64 <= signed_value(imm) <= 63,
    ensures
        ({
            let (s1, _) = execute(s, OPCODE_CMP_RI, d, sr, imm);
            let (s2, _) = execute(s1, OPCODE_JGR_M, d, sr, target);
            s2.pc() == if signed_value(s.registers[d]) > signed_value(imm) { target } else { s.pc() }
        }),
{
    lemma_compare_results(s, OPCODE_CMP_RI, d, sr, imm);
    let (s1, _) = execute(s, OPCODE_CMP_RI, d, sr, imm);
    lemma_branch_results(s1, OPCODE_JGR_M, d, sr, target);
    let diff = signed_value(s.registers[d]) - signed_value(imm);
    lemma_byte_of_congruent(diff);
    if diff < 0 {
        assert(byte_of(diff) as int == diff + 256);
    } else {
        assert(byte_of(diff) as int == diff);
    }
}

/// Signed division rounds toward zero: for a divisor `b` that is not zero
/// (and not the one overflowing case -128 / -1) the quotient `q` stored and
/// the remainder `r = a - q * b` satisfy |r| < |b|, with `r` zero or of the
/// sign of `a`. Division by zero halts and changes nothing.
#[verifier::rlimit(30)]
pub proof fn lemma_division_results(s: MachineState, op: u8, d: int, sr: int, low: u8)
    requires
        s.wf(),
        5 <= d < SIZE_REG,
        5 <= sr < SIZE_REG,
        op == OPCODE_DIV_RR || op == OPCODE_DIV_RI,
    ensures
        ({
            let (s2, r) = execute(s, op, d, sr, low);
            let divisor = if op == OPCODE_DIV_RR { s.registers[sr] } else { low };
            let a = signed_value(s.registers[d]);
            let b = signed_value(divisor);
            let q = signed_value(s2.registers[d]);
            let rem = a - q * b;
            &&& divisor == 0 ==> s2 == s && r == StepOutcome::Halt(HaltReason::DivideByZero)
            &&& (divisor != 0 && !division_overflows(s.registers[d], divisor)) ==> {
                &&& r == StepOutcome::Continue
                &&& (if rem >= 0 { rem } else { -rem }) < (if b >= 0 { b } else { -b })
                &&& (rem == 0 || (rem > 0) == (a > 0))
                &&& s2.zero_flag == (q == 0)
                &&& s2.sign_flag == (q < 0)
                &&& s2.registers == s.registers.update(d, s2.registers[d])
            }
        }),
{
    reveal(execute);
    let divisor = if op == OPCODE_DIV_RR { s.registers[sr] } else { low };
    if divisor != 0 && !division_overflows(s.registers[d], divisor) {
        let a = signed_value(s.registers[d]);
        let b = signed_value(divisor);
        lemma_trunc_div_law(a, b);
        let t = trunc_div(a, b);
        lemma_byte_of_congruent(t);
        assert(signed_value(byte_of(t)) == t) by {
            if t < 0 {
                assert(byte_of(t) as int == t + 256);
            } else {
                assert(byte_of(t) as int == t);
            }
        }
    }
}

/// Division rounded toward zero, as a law: the remainder is smaller than the
/// divisor in magnitude and is zero or has the sign of the dividend; within
/// signed bytes the quotient is a signed byte unless -128 is divided by -1.
proof fn lemma_trunc_div_law(a: int, b: int)
    requires
        -128 <= a <= 127,
        -128 <= b <= 127,
        b != 0,
        !(a == -128 && b == -1),
    ensures
        -128 <= trunc_div(a, b) <= 127,
        ({
            let rem = a - trunc_div(a, b) * b;
            &&& (if rem >= 0 { rem } else { -rem }) < (if b >= 0 { b } else { -b })
            &&& (rem == 0 || (rem > 0) == (a > 0))
        }),
{
    let x = if a >= 0 { a } else { -a };
    let y = if b >= 0 { b } else { -b };
    vstd::arithmetic::div_mod::lemma_fundamental_div_mod(x, y);
    vstd::arithmetic::div_mod::lemma_mod_pos_bound(x, y);
    crate::decode::lemma_div_shrinks(x, y);
    let q = x / y;
    let m = x % y;
    assert(x == y * q + m);
    let t = trunc_div(a, b);
    if a >= 0 && b > 0 {
        assert(t == q);
        assert(a - t * b == m) by (nonlinear_arith)
            requires x == y * q + m, a == x, b == y, t == q;
    } else if a >= 0 {
        assert(t == -q);
        assert(a - t * b == m) by (nonlinear_arith)
            requires x == y * q + m, a == x, b == -y, t == -q;
    } else if b > 0 {
        assert(t == -q);
        assert(a - t * b == -m) by (nonlinear_arith)
            requires x == y * q + m, a == -x, b == y, t == -q;
    } else {
        assert(t == q);
        assert(a - t * b == -m) by (nonlinear_arith)
            requires x == y * q + m, a == -x, b == -y, t == q;
    }
}

/// Moves copy a register or the immediate into the destination; loads and
/// stores copy between a register and RAM, except at the terminal address,
/// where a store asks for the byte to be printed. None of them touches the
/// flags.
#[verifier::rlimit(30)]
pub proof fn lemma_move_results(s: MachineState, op: u8, d: int, sr: int, low: u8)
    requires
        s.wf(),
        5 <= d < SIZE_REG,
        5 <= sr < SIZE_REG,
        op == OPCODE_MOV_RR || op == OPCODE_MOV_RI || (OPCODE_LOAD_RM <= op <= OPCODE_STORP_RR),
    ensures
        ({
            let (s2, r) = execute(s, op, d, sr, low);
            let rd = s.registers[d];
            let rs = s.registers[sr];
            &&& s2.zero_flag == s.zero_flag
            &&& s2.sign_flag == s.sign_flag
            &&& op == OPCODE_MOV_RR ==> s2.registers == s.registers.update(d, rs) && r == StepOutcome::Continue
            &&& op == OPCODE_MOV_RI ==> s2.registers == s.registers.update(d, low) && r == StepOutcome::Continue
            &&& (op == OPCODE_LOAD_RM && low != IO_TERMINAL) ==> s2.registers == s.registers.update(d, s.ram[low as int]) && s2.ram == s.ram
            &&& (op == OPCODE_LOADP_RR && rs != IO_TERMINAL) ==> s2.registers == s.registers.update(d, s.ram[rs as int]) && s2.ram == s.ram
            &&& (op == OPCODE_STOR_MR && low != IO_TERMINAL) ==> s2.ram == s.ram.update(low as int, rd) && s2.registers == s.registers
            &&& (op == OPCODE_STORP_RR && rd != IO_TERMINAL) ==> s2.ram == s.ram.update(rd as int, rs) && s2.registers == s.registers
            &&& (op == OPCODE_STOR_MR && low == IO_TERMINAL) ==> s2 == s && r == StepOutcome::Write(rd)
            &&& (op == OPCODE_STORP_RR && rd == IO_TERMINAL) ==> s2 == s && r == StepOutcome::Write(rs)
        }),
{
    reveal(execute);
}

/// SWR sets the window start to the immediate; AWR moves it by the
/// immediate, modulo the 32 general registers, keeping a window that starts
/// on a general register there. Neither touches the flags.
pub proof fn lemma_window_instructions(s: MachineState, op: u8, d: int, sr: int, low: u8)
    requires
        s.wf(),
        op == OPCODE_SWR_I || op == OPCODE_AWR_I,
    ensures
        ({
            let (s2, r) = execute(s, op, d, sr, low);
            let w = s.win() as int;
            &&& r == StepOutcome::Continue
            &&& s2.zero_flag == s.zero_flag
            &&& s2.sign_flag == s.sign_flag
            &&& s2.registers == s.registers.update(REG_WIN as int, s2.win())
            &&& op == OPCODE_SWR_I ==> s2.win() == low
            &&& (op == OPCODE_AWR_I && 5 <= w <= 36) ==> s2.win() == 5 + (w - 5 + signed_value(low)) % 32
            &&& op == OPCODE_AWR_I ==> forall|reg: int| #[trigger] window_register(s2.win() as int, reg) == window_register(w + signed_value(low), reg)
        }),
{
    reveal(execute);
    let (s2, r) = execute(s, op, d, sr, low);
    assert(s2.registers =~= s.registers.update(REG_WIN as int, s2.win()));
    if op == OPCODE_AWR_I {
        crate::decode::lemma_as_signed(low);
        let imm = low as i8;
        lemma_window_add(s.win(), imm);
        assert forall|reg: int| #[trigger] window_register(s2.win() as int, reg) == window_register(s.win() as int + signed_value(low), reg) by {
            lemma_window_shift(s.win(), imm, reg);
        }
        let wa = window_add(s.win(), imm);
        if 5 <= s.win() <= 36 {
            assert(5 <= wa <= 36);
            assert(byte_of(wa) as int == wa);
        }
    }
}

/// What each key does to the register that asked for it: no key gives 0, a
/// character key the low byte of its code, enter a carriage return (and a
/// line feed buffered for the next read), an unknown positive code 0 and a
/// non-positive one its low byte; a named key changes nothing.
pub proof fn lemma_key_results(s: MachineState, d: int, key: KeyInput)
    requires
        s.wf(),
        5 <= d < SIZE_REG,
    ensures
        ({
            let (s2, _) = key_effect(s, d, key);
            &&& s2.ram == s.ram
            &&& key == KeyInput::NoKey ==> s2.registers[d] == 0
            &&& (key matches KeyInput::Character(c) ==> s2.registers[d] as int == c as int % 256)
            &&& key == KeyInput::Enter ==> s2.registers[d] == 0x0D && s2.linefeed_buffered
            &&& (key matches KeyInput::Unknown(c) ==> (c > 0 ==> s2.registers[d] == 0) && (c <= 0 ==> s2.registers[d] as int == c as int % 256))
            &&& key == KeyInput::Other ==> s2 == s
            &&& key != KeyInput::Enter ==> s2.linefeed_buffered == s.linefeed_buffered
        }),
{
    match key {
        KeyInput::Character(c) => { lemma_byte_of_congruent(c as int); },
        KeyInput::Unknown(c) => { lemma_byte_of_congruent(c as int); },
        _ => {},
    }
}

/// A tab moves the cursor to the next tab stop on its row; when that lies
/// past the last column it moves to the first column of the next row,
/// wrapping from the last row to the first. A carriage return moves to the
/// first column, a line feed to the next row, and a printable byte moves one
/// column on, wrapping the same way.
pub proof fn lemma_cursor_moves(s: ScreenState, c: u8, printable: bool)
    requires
        s.wf(),
        cursor_in_range(s.cur_x as int, s.cur_y as int),
    ensures
        ({
            let t = put_spec(s, c, printable).0;
            let x = s.cur_x as int;
            let y = s.cur_y as int;
            let stop = (x / 4) * 4 + 4;
            let down = if y == 23 { 0 } else { y + 1 };
            &&& c == 0x09 ==> (t.cur_x == (if stop < 80 { stop } else { 0 }) && t.cur_y == (if stop < 80 { y } else { down }))
            &&& c == 0x0D ==> (t.cur_x == 0 && t.cur_y == y)
            &&& c == 0x0A ==> (t.cur_x == x && t.cur_y == down)
            &&& (c != 0x09 && c != 0x0D && c != 0x0A && printable) ==> (t.cur_x == (if x < 79 { x + 1 } else { 0 }) && t.cur_y == (if x < 79 { y } else { down }))
            &&& (c != 0x09 && c != 0x0D && c != 0x0A && !printable) ==> (t.cur_x == x && t.cur_y == y)
        }),
{
}

} // verus!
