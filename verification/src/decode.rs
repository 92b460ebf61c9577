//! Instruction decoding and the small arithmetic helpers of the SunyAT machine.
//!
//! An instruction is two bytes. The high byte holds the opcode in its five
//! high bits and the destination register in its three low bits; the low byte
//! holds the source register in its three low bits, or an immediate, or a
//! memory address.
use vstd::prelude::*;

verus! {

/// The value of a byte read as a two's complement signed number.
pub open spec fn signed_value(b: u8) -> int {
    if b < 128 { b as int } else { b as int - 256 }
}

/// The `i8` that an integer wraps to.
pub open spec fn wrap_i8(x: int) -> int {
    let m = x % 256;
    if m < 128 { m } else { m - 256 }
}

/// Division rounded toward zero.
pub open spec fn trunc_div(a: int, b: int) -> int {
    if a >= 0 {
        if b > 0 { a / b } else { -(a / -b) }
    } else {
        if b > 0 { -((-a) / b) } else { (-a) / (-b) }
    }
}

/// A quotient of naturals is a natural no larger than the dividend, and
/// smaller when the divisor exceeds one.
pub proof fn lemma_div_shrinks(x: int, d: int)
    by (nonlinear_arith)
    requires
        0 <= x,
        1 <= d,
    ensures
        0 <= x / d <= x,
        d >= 2 && x >= 1 ==> x / d < x,
{
}

/// The remainder of division rounded toward zero; it has the sign of `a`.
pub open spec fn trunc_rem(a: int, b: int) -> int {
    if a >= 0 { a % b } else { -((-a) % b) }
}

pub proof fn lemma_as_signed(x: u8)
    by (bit_vector)
    ensures
        (x as i8) as int == if x < 128 { x as int } else { x as int - 256 },
{
}

/// Reducing modulo 256 first does not change a remainder modulo 32.
pub proof fn lemma_mod256_shift(a: int, b: int)
    ensures
        (a % 256 + b) % 32 == (a + b) % 32,
{
    vstd::arithmetic::div_mod::lemma_fundamental_div_mod(a, 256);
    vstd::arithmetic::div_mod::lemma_mod_multiples_vanish(-8 * (a / 256), a + b, 32);
}

/// The opcode held in the five high bits of the high instruction byte.
pub fn get_opcode(high_bits: u8) -> (r: u8)
    ensures
        r == high_bits / 8,
        r < 32,
{
    assert(high_bits >> 3 == high_bits / 8) by (bit_vector);
    high_bits >> 3
}

/// The destination register field: the three low bits of the high byte.
pub fn get_dreg(high_bits: u8) -> (r: u8)
    ensures
        r == high_bits % 8,
{
    assert(high_bits & 0x07 == high_bits % 8) by (bit_vector);
    high_bits & 0x07
}

/// The source register field: the three low bits of the low byte.
pub fn get_sreg(low_bits: u8) -> (r: u8)
    ensures
        r == low_bits % 8,
{
    assert(low_bits & 0x07 == low_bits % 8) by (bit_vector);
    low_bits & 0x07
}

/// The memory address operand: the whole low byte.
pub fn get_mem(low_bits: u8) -> (r: u8)
    ensures
        r == low_bits,
{
    low_bits
}

/// The immediate operand: the whole low byte, signed.
pub fn get_imm(low_bits: i8) -> (r: i8)
    ensures
        r == low_bits,
{
    low_bits
}

/// The zero and sign flags that an ALU result sets: `(zero, sign)`.
pub fn set_flags(result: i8) -> (r: (bool, bool))
    ensures
        r.0 == (result == 0),
        r.1 == (result < 0),
        !(r.0 && r.1),
{
    if 0 == result {
        (true, false)
    } else if 0 < result {
        (false, false)
    } else {
        (false, true)
    }
}

/// The register that register field `reg` names inside the window that
/// starts at `reg_win`: the general purpose registers are numbered
/// `NUM_SYS_REG ..= SIZE_REG - 1` and the window wraps around them.
pub open spec fn window_register(reg_win: int, reg: int) -> int {
    (reg_win + reg + 27) % 32 + 5
}

/// Maps a register field through the register window (machine arithmetic on
/// bytes wraps around).
pub fn get_grwp(reg_win: u8, reg: u8) -> (r: u8)
    ensures
        r == window_register(reg_win as int, reg as int),
        5 <= r <= 36,
{
    let base = reg_win.wrapping_sub(5);
    let spread = (32 * (reg / 32)).wrapping_add(reg);
    let folded = spread % 32;
    let sum = base.wrapping_add(32 + folded);
    let r = sum % 32 + 5;
    proof {
        let q = (reg / 32) as int;
        assert(base == (reg_win + 251) % 256);
        assert(spread == (32 * q + reg) % 256);
        assert(sum == (base + 32 + folded) % 256);
        lemma_mod256_shift(32 * q + reg, 0);
        vstd::arithmetic::div_mod::lemma_mod_multiples_vanish(q, reg as int, 32);
        assert(folded == reg % 32);
        lemma_mod256_shift(base + 32 + folded, 0);
        lemma_mod256_shift(reg_win + 251, 32 + folded);
        vstd::arithmetic::div_mod::lemma_add_mod_noop_right(reg_win + 283, reg as int, 32);
        vstd::arithmetic::div_mod::lemma_mod_multiples_vanish(8, reg_win + reg + 27, 32);
    }
    r
}

/// The window start that adding `imm` to the window start `reg_win` gives,
/// in the machine's signed byte arithmetic (which wraps around).
pub open spec fn window_add(reg_win: u8, imm: i8) -> int {
    let high_low: int = if imm < 0 {
        imm - 32 * trunc_div(imm as int, 32)
    } else if imm > 0 {
        trunc_rem(wrap_i8(32 * trunc_div(imm as int, 32) + imm), 32)
    } else {
        0
    };
    let a = wrap_i8(wrap_i8(signed_value(reg_win) - 5) + 32 + high_low);
    trunc_rem(a, 32) + 5
}

/// `a` and `b` leave the same remainder modulo 32.
pub open spec fn congruent32(a: int, b: int) -> bool {
    (a - b) % 32 == 0
}

proof fn lemma_congruent_shift(a: int, k: int)
    ensures
        congruent32(a + 32 * k, a),
{
    vstd::arithmetic::div_mod::lemma_mod_multiples_vanish(k, 0, 32);
}

proof fn lemma_congruent_trans(a: int, b: int, c: int)
    requires
        congruent32(a, b),
        congruent32(b, c),
    ensures
        congruent32(a, c),
{
    vstd::arithmetic::div_mod::lemma_fundamental_div_mod(a - b, 32);
    vstd::arithmetic::div_mod::lemma_fundamental_div_mod(b - c, 32);
    lemma_congruent_shift(c, (a - b) / 32 + (b - c) / 32);
    assert(a == c + 32 * ((a - b) / 32 + (b - c) / 32)) by (nonlinear_arith)
        requires
            a - b == 32 * ((a - b) / 32),
            b - c == 32 * ((b - c) / 32),
    ;
}

proof fn lemma_congruent_symm(a: int, b: int)
    requires
        congruent32(a, b),
    ensures
        congruent32(b, a),
{
    vstd::arithmetic::div_mod::lemma_fundamental_div_mod(a - b, 32);
    lemma_congruent_shift(b, -((a - b) / 32));
}

proof fn lemma_congruent_add(a: int, b: int, c: int)
    requires
        congruent32(a, b),
    ensures
        congruent32(a + c, b + c),
{
    assert((a + c) - (b + c) == a - b);
}

proof fn lemma_wrap_i8_facts(x: int)
    ensures
        -128 <= wrap_i8(x) <= 127,
        congruent32(wrap_i8(x), x),
        -128 <= x <= 127 ==> wrap_i8(x) == x,
        127 < x <= 383 ==> wrap_i8(x) == x - 256,
        -384 <= x < -128 ==> wrap_i8(x) == x + 256,
{
    vstd::arithmetic::div_mod::lemma_fundamental_div_mod(x, 256);
    let k = x / 256;
    if x % 256 < 128 {
        assert(wrap_i8(x) == x + 32 * (-8 * k));
        lemma_congruent_shift(x, -8 * k);
    } else {
        assert(wrap_i8(x) == x + 32 * (-8 * k - 8));
        lemma_congruent_shift(x, -8 * k - 8);
    }
}

proof fn lemma_trunc_rem_facts(a: int)
    ensures
        -32 < trunc_rem(a, 32) < 32,
        congruent32(trunc_rem(a, 32), a),
{
    if a >= 0 {
        vstd::arithmetic::div_mod::lemma_fundamental_div_mod(a, 32);
        lemma_congruent_shift(trunc_rem(a, 32), a / 32);
        lemma_congruent_symm(a, trunc_rem(a, 32));
    } else {
        vstd::arithmetic::div_mod::lemma_fundamental_div_mod(-a, 32);
        lemma_congruent_shift(a, (-a) / 32);
    }
}

/// What the window start `reg_win` becomes when `imm` is added to it:
/// congruent to `reg_win + imm` modulo 32 and within `-26 ..= 36`.
pub proof fn lemma_window_add(reg_win: u8, imm: i8)
    ensures
        -26 <= window_add(reg_win, imm) <= 36,
        congruent32(window_add(reg_win, imm), reg_win + imm),
        5 <= reg_win <= 36 ==> window_add(reg_win, imm) == 5 + (reg_win - 5 + imm) % 32,
{
    let high_low: int = if imm < 0 {
        imm - 32 * trunc_div(imm as int, 32)
    } else if imm > 0 {
        trunc_rem(wrap_i8(32 * trunc_div(imm as int, 32) + imm), 32)
    } else {
        0
    };
    if imm < 0 {
        lemma_congruent_shift(imm as int, -trunc_div(imm as int, 32));
    } else if imm > 0 {
        let t = 32 * trunc_div(imm as int, 32) + imm;
        lemma_trunc_rem_facts(wrap_i8(t));
        lemma_wrap_i8_facts(t);
        lemma_congruent_trans(high_low, wrap_i8(t), t);
        lemma_congruent_shift(imm as int, trunc_div(imm as int, 32));
        lemma_congruent_trans(high_low, t, imm as int);
    } else {
    }
    assert(congruent32(high_low, imm as int));
    let s = signed_value(reg_win);
    assert(congruent32(s, reg_win as int)) by {
        if reg_win >= 128 {
            lemma_congruent_shift(reg_win as int, -8);
        }
    }
    lemma_wrap_i8_facts(s - 5);
    let a1 = wrap_i8(s - 5);
    lemma_wrap_i8_facts(a1 + 32 + high_low);
    let a = wrap_i8(a1 + 32 + high_low);
    lemma_trunc_rem_facts(a);
    // a1 + 32 + high_low is congruent to reg_win - 5 + imm
    lemma_congruent_add(a1, s - 5, 32 + high_low);
    lemma_congruent_add(s, reg_win as int, 27 + high_low);
    lemma_congruent_trans(a1 + 32 + high_low, s + 27 + high_low, reg_win + 27 + high_low);
    lemma_congruent_add(high_low, imm as int, reg_win + 27);
    lemma_congruent_trans(a1 + 32 + high_low, high_low + reg_win + 27, imm + reg_win + 27);
    lemma_congruent_trans(a, a1 + 32 + high_low, imm + reg_win + 27);
    lemma_congruent_trans(trunc_rem(a, 32), a, imm + reg_win + 27);
    lemma_congruent_add(trunc_rem(a, 32), imm + reg_win + 27, 5);
    lemma_congruent_shift(imm + reg_win as int, 1);
    lemma_congruent_trans(trunc_rem(a, 32) + 5, imm + reg_win + 32, imm + reg_win as int);
    if 5 <= reg_win <= 36 {
        // inside the general registers nothing wraps, so the sum is positive
        if imm < 0 {
            vstd::arithmetic::div_mod::lemma_fundamental_div_mod(-imm, 32);
            assert(-32 < high_low <= 0);
        }
        assert(-32 < high_low < 32);
        assert(a1 == s - 5);
        assert(a == a1 + 32 + high_low);
        assert(a >= 1);
        let r = trunc_rem(a, 32) + 5;
        assert(0 <= r - 5 < 32);
        lemma_congruent_add(r, reg_win + imm, -5);
        lemma_congruent_small(r - 5, reg_win - 5 + imm);
    }
}

/// A remainder in `0..32` congruent to `y` is `y % 32`.
proof fn lemma_congruent_small(x: int, y: int)
    requires
        0 <= x < 32,
        congruent32(x, y),
    ensures
        x == y % 32,
{
    vstd::arithmetic::div_mod::lemma_fundamental_div_mod(x - y, 32);
    let k = (x - y) / 32;
    vstd::arithmetic::div_mod::lemma_mod_multiples_vanish(-k, x, 32);
    assert(y == 32 * (-k) + x);
}

/// Adds an immediate to the register window start, wrapped into the range of
/// general purpose registers.
pub fn get_grimm(reg_win: u8, imm: i8) -> (r: i8)
    ensures
        r == window_add(reg_win, imm),
        -26 <= r <= 36,
        congruent32(r as int, reg_win + imm),
        5 <= reg_win <= 36 ==> r == 5 + (reg_win - 5 + imm) % 32,
{
    let mut high_low: i8 = 0;
    if 0 > imm {
        let q = imm / 32;
        assert(q == trunc_div(imm as int, 32));
        high_low = imm - 32 * q;
    } else if 0 < imm {
        let q = imm / 32;
        assert(q == trunc_div(imm as int, 32));
        let spread = (32 * q).wrapping_add(imm);
        proof { lemma_wrap_i8_facts(32 * q + imm); }
        high_low = spread % 32;
        assert(high_low == trunc_rem(spread as int, 32));
    }
    proof {
        lemma_as_signed(reg_win);
        lemma_wrap_i8_facts(signed_value(reg_win) - 5);
    }
    let shifted = (reg_win as i8).wrapping_sub(5);
    proof { lemma_wrap_i8_facts(shifted + 32 + high_low); }
    let a = shifted.wrapping_add(32 + high_low);
    let r = a % 32 + 5;
    assert(r == trunc_rem(a as int, 32) + 5);
    proof { lemma_window_add(reg_win, imm); }
    r
}

} // verus!
