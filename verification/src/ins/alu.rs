//! Integer arithmetic on the bit patterns that the operand stack holds.
//! A 32-bit value is the low half of a cell, a 64-bit value a whole
//! cell; signed values are in two's complement.

use vstd::prelude::*;
use crate::error::VmError;
use crate::reader::{signed16, signed32, signed64, signed8, to_i32, to_i64};

verus! {

/// The 32-bit pattern of an integer: the integer modulo 2^32.
pub open spec fn bits32(v: int) -> u32 {
    (v % 0x1_0000_0000) as u32
}

/// The 64-bit pattern of an integer: the integer modulo 2^64.
pub open spec fn bits64(v: int) -> u64 {
    (v % 0x1_0000_0000_0000_0000) as u64
}

/// Division that rounds toward zero.
pub open spec fn trunc_div(a: int, b: int) -> int {
    if a >= 0 && b > 0 {
        a / b
    } else if a < 0 && b > 0 {
        -((-a) / b)
    } else if a >= 0 && b < 0 {
        -(a / (-b))
    } else {
        (-a) / (-b)
    }
}

/// The remainder that goes with `trunc_div`: it has the sign of the
/// dividend.
pub open spec fn trunc_rem(a: int, b: int) -> int {
    a - trunc_div(a, b) * b
}

/// The pattern of a signed 32-bit value.
pub fn pat32(v: i64) -> (r: u32)
    requires
        -0x1_0000_0000 <= v < 0x2_0000_0000,
    ensures
        r == bits32(v as int),
{
    if v < 0 {
        (v + 0x1_0000_0000) as u32
    } else if v >= 0x1_0000_0000 {
        (v - 0x1_0000_0000) as u32
    } else {
        v as u32
    }
}

/// The pattern of a signed 64-bit value.
pub fn pat64(v: i128) -> (r: u64)
    requires
        -0x8000_0000_0000_0000 <= v <= 0xffff_ffff_ffff_ffff,
    ensures
        r == bits64(v as int),
{
    if v < 0 {
        (v + 0x1_0000_0000_0000_0000) as u64
    } else {
        v as u64
    }
}

/// `iadd`: the sum modulo 2^32.
pub open spec fn spec_iadd(a: u32, b: u32) -> u32 {
    bits32(a + b)
}

/// Adds two 32-bit integers, wrapping.
pub fn iadd(a: u32, b: u32) -> (r: u32)
    ensures
        r == spec_iadd(a, b),
{
    ((a as u64 + b as u64) % 0x1_0000_0000) as u32
}

/// `isub`: the difference modulo 2^32.
pub open spec fn spec_isub(a: u32, b: u32) -> u32 {
    bits32(a - b)
}

/// Subtracts two 32-bit integers, wrapping.
pub fn isub(a: u32, b: u32) -> (r: u32)
    ensures
        r == spec_isub(a, b),
{
    if a >= b {
        a - b
    } else {
        ((a as u64 + 0x1_0000_0000 - b as u64)) as u32
    }
}

/// `imul`: the product modulo 2^32.
pub open spec fn spec_imul(a: u32, b: u32) -> u32 {
    bits32(a * b)
}

/// Multiplies two 32-bit integers, wrapping.
pub fn imul(a: u32, b: u32) -> (r: u32)
    ensures
        r == spec_imul(a, b),
{
    proof {
        assert(0 <= a * b <= 0xffff_ffff * 0xffff_ffff) by (nonlinear_arith)
            requires
                0 <= a <= 0xffff_ffff,
                0 <= b <= 0xffff_ffff,
        ;
    }
    ((a as u64 * b as u64) % 0x1_0000_0000) as u32
}

/// The magnitude of a signed 64-bit value.
fn magnitude(v: i128) -> (r: u128)
    requires
        -0x8000_0000_0000_0000 <= v <= 0x7fff_ffff_ffff_ffff,
    ensures
        r == (if v < 0 {
            -v
        } else {
            v as int
        }),
{
    if v < 0 {
        (-v) as u128
    } else {
        v as u128
    }
}

/// Divides rounding toward zero.
fn div_trunc(a: i128, b: i128) -> (r: i128)
    requires
        -0x8000_0000_0000_0000 <= a <= 0x7fff_ffff_ffff_ffff,
        -0x8000_0000_0000_0000 <= b <= 0x7fff_ffff_ffff_ffff,
        b != 0,
    ensures
        r == trunc_div(a as int, b as int),
        -0x8000_0000_0000_0000 <= r <= 0x8000_0000_0000_0000,
{
    let ma: u128 = magnitude(a);
    let mb: u128 = magnitude(b);
    let q: u128 = ma / mb;
    proof {
        assert(q <= ma) by (nonlinear_arith)
            requires
                q == ma / mb,
                mb >= 1,
                ma >= 0,
        ;
    }
    if (a < 0) == (b < 0) {
        q as i128
    } else {
        -(q as i128)
    }
}

/// The remainder of a division that rounds toward zero.
fn rem_trunc(a: i128, b: i128) -> (r: i128)
    requires
        -0x8000_0000_0000_0000 <= a <= 0x7fff_ffff_ffff_ffff,
        -0x8000_0000_0000_0000 <= b <= 0x7fff_ffff_ffff_ffff,
        b != 0,
    ensures
        r == trunc_rem(a as int, b as int),
        -0x8000_0000_0000_0000 <= r <= 0x7fff_ffff_ffff_ffff,
{
    let ma: u128 = magnitude(a);
    let mb: u128 = magnitude(b);
    let m: u128 = ma % mb;
    proof {
        assert(ma == (ma / mb) * mb + ma % mb && ma % mb < mb) by (nonlinear_arith)
            requires
                mb >= 1,
                ma >= 0,
        ;
        let q = (ma / mb) as int;
        let bi = b as int;
        let ai = a as int;
        if a >= 0 && b > 0 {
            assert(ai - q * bi == m);
        } else if a < 0 && b > 0 {
            assert(ai - (-q) * bi == -(m as int)) by (nonlinear_arith)
                requires
                    -ai == q * bi + m,
            ;
        } else if a >= 0 && b < 0 {
            assert(ai - (-q) * bi == m) by (nonlinear_arith)
                requires
                    ai == q * (-bi) + m,
            ;
        } else {
            assert(ai - q * bi == -(m as int)) by (nonlinear_arith)
                requires
                    -ai == q * (-bi) + m,
            ;
        }
    }
    if a < 0 {
        -(m as i128)
    } else {
        m as i128
    }
}

/// What `idiv` leaves: the quotient of the signed values, rounded
/// toward zero; a division by zero is an error.
pub open spec fn spec_idiv(a: u32, b: u32) -> Result<u32, VmError> {
    if b == 0 {
        Err(VmError::Arithmetic)
    } else {
        Ok(bits32(trunc_div(signed32(a as int), signed32(b as int))))
    }
}

/// Divides two signed 32-bit integers, rounding towards zero; a zero divisor is an error.
pub fn idiv(a: u32, b: u32) -> (r: Result<u32, VmError>)
    ensures
        r == spec_idiv(a, b),
{
    if b == 0 {
        return Err(VmError::Arithmetic);
    }
    let q: i128 = div_trunc(to_i32(a) as i128, to_i32(b) as i128);
    proof {
        let sa = signed32(a as int);
        let sb = signed32(b as int);
        assert(-0x8000_0000 <= trunc_div(sa, sb) <= 0x8000_0000) by (nonlinear_arith)
            requires
                -0x8000_0000 <= sa <= 0x7fff_ffff,
                sb != 0,
                -0x8000_0000 <= sb <= 0x7fff_ffff,
                q == trunc_div(sa, sb),
        {
            lemma_trunc_div_bound(sa, sb);
        }
    }
    Ok(pat32(q as i64))
}

/// A quotient that rounds toward zero is no larger in magnitude than
/// the dividend.
pub proof fn lemma_trunc_div_bound(a: int, b: int)
    requires
        b != 0,
    ensures
        a >= 0 ==> -a <= trunc_div(a, b) <= a,
        a < 0 ==> a <= trunc_div(a, b) <= -a,
{
    let ma = if a < 0 {
        -a
    } else {
        a
    };
    let mb = if b < 0 {
        -b
    } else {
        b
    };
    assert(0 <= ma / mb <= ma) by (nonlinear_arith)
        requires
            ma >= 0,
            mb >= 1,
    ;
}

/// What `irem` leaves: the remainder of the signed values, with the
/// sign of the dividend; a division by zero is an error.
pub open spec fn spec_irem(a: u32, b: u32) -> Result<u32, VmError> {
    if b == 0 {
        Err(VmError::Arithmetic)
    } else {
        Ok(bits32(trunc_rem(signed32(a as int), signed32(b as int))))
    }
}

/// The remainder of the division of two signed 32-bit integers; a zero divisor is an error.
pub fn irem(a: u32, b: u32) -> (r: Result<u32, VmError>)
    ensures
        r == spec_irem(a, b),
{
    if b == 0 {
        return Err(VmError::Arithmetic);
    }
    let m: i128 = rem_trunc(to_i32(a) as i128, to_i32(b) as i128);
    proof {
        lemma_trunc_rem_bound(signed32(a as int), signed32(b as int));
    }
    Ok(pat32(m as i64))
}

/// A remainder is smaller in magnitude than the divisor and has the
/// sign of the dividend.
pub proof fn lemma_trunc_rem_bound(a: int, b: int)
    requires
        b != 0,
    ensures
        a >= 0 ==> 0 <= trunc_rem(a, b) <= a,
        a < 0 ==> a <= trunc_rem(a, b) <= 0,
{
    let ma = if a < 0 {
        -a
    } else {
        a
    };
    let mb = if b < 0 {
        -b
    } else {
        b
    };
    assert(ma == (ma / mb) * mb + ma % mb && 0 <= ma % mb <= ma && 0 <= ma / mb) by (nonlinear_arith)
        requires
            ma >= 0,
            mb >= 1,
    ;
    let q = ma / mb;
    if a >= 0 && b > 0 {
    } else if a < 0 && b > 0 {
        assert(a - (-q) * b == -(ma % mb)) by (nonlinear_arith)
            requires
                -a == q * b + ma % mb,
        ;
    } else if a >= 0 && b < 0 {
        assert(a - (-q) * b == ma % mb) by (nonlinear_arith)
            requires
                a == q * (-b) + ma % mb,
        ;
    } else {
        assert(a - q * b == -(ma % mb)) by (nonlinear_arith)
            requires
                -a == q * (-b) + ma % mb,
        ;
    }
}

/// `ineg`: the negation modulo 2^32.
pub open spec fn spec_ineg(a: u32) -> u32 {
    bits32(-(a as int))
}

/// Negates a 32-bit integer, wrapping.
pub fn ineg(a: u32) -> (r: u32)
    ensures
        r == spec_ineg(a),
{
    if a == 0 {
        0
    } else {
        (0x1_0000_0000u64 - a as u64) as u32
    }
}

/// `ladd`: the sum modulo 2^64.
pub open spec fn spec_ladd(a: u64, b: u64) -> u64 {
    bits64(a + b)
}

/// Adds two 64-bit integers, wrapping.
pub fn ladd(a: u64, b: u64) -> (r: u64)
    ensures
        r == spec_ladd(a, b),
{
    ((a as u128 + b as u128) % 0x1_0000_0000_0000_0000) as u64
}

/// `lsub`: the difference modulo 2^64.
pub open spec fn spec_lsub(a: u64, b: u64) -> u64 {
    bits64(a - b)
}

/// Subtracts two 64-bit integers, wrapping.
pub fn lsub(a: u64, b: u64) -> (r: u64)
    ensures
        r == spec_lsub(a, b),
{
    if a >= b {
        a - b
    } else {
        (a as u128 + 0x1_0000_0000_0000_0000 - b as u128) as u64
    }
}

/// `lmul`: the product modulo 2^64.
pub open spec fn spec_lmul(a: u64, b: u64) -> u64 {
    bits64(a * b)
}

/// Multiplies two 64-bit integers, wrapping.
pub fn lmul(a: u64, b: u64) -> (r: u64)
    ensures
        r == spec_lmul(a, b),
{
    proof {
        assert(0 <= a * b <= 0xffff_ffff_ffff_ffff * 0xffff_ffff_ffff_ffff) by (nonlinear_arith)
            requires
                0 <= a <= 0xffff_ffff_ffff_ffff,
                0 <= b <= 0xffff_ffff_ffff_ffff,
        ;
    }
    ((a as u128 * b as u128) % 0x1_0000_0000_0000_0000) as u64
}

/// What `ldiv` leaves.
pub open spec fn spec_ldiv(a: u64, b: u64) -> Result<u64, VmError> {
    if b == 0 {
        Err(VmError::Arithmetic)
    } else {
        Ok(bits64(trunc_div(signed64(a as int), signed64(b as int))))
    }
}

/// Divides two signed 64-bit integers, rounding towards zero; a zero divisor is an error.
pub fn ldiv(a: u64, b: u64) -> (r: Result<u64, VmError>)
    ensures
        r == spec_ldiv(a, b),
{
    if b == 0 {
        return Err(VmError::Arithmetic);
    }
    let q: i128 = div_trunc(to_i64(a) as i128, to_i64(b) as i128);
    Ok(pat64(q))
}

/// What `lrem` leaves.
pub open spec fn spec_lrem(a: u64, b: u64) -> Result<u64, VmError> {
    if b == 0 {
        Err(VmError::Arithmetic)
    } else {
        Ok(bits64(trunc_rem(signed64(a as int), signed64(b as int))))
    }
}

/// The remainder of the division of two signed 64-bit integers; a zero divisor is an error.
pub fn lrem(a: u64, b: u64) -> (r: Result<u64, VmError>)
    ensures
        r == spec_lrem(a, b),
{
    if b == 0 {
        return Err(VmError::Arithmetic);
    }
    let m: i128 = rem_trunc(to_i64(a) as i128, to_i64(b) as i128);
    Ok(pat64(m))
}

/// `lneg`: the negation modulo 2^64.
pub open spec fn spec_lneg(a: u64) -> u64 {
    bits64(-(a as int))
}

/// Negates a 64-bit integer, wrapping.
pub fn lneg(a: u64) -> (r: u64)
    ensures
        r == spec_lneg(a),
{
    if a == 0 {
        0
    } else {
        (0x1_0000_0000_0000_0000u128 - a as u128) as u64
    }
}

/// `i2l`: the 64-bit pattern of the signed 32-bit value.
pub open spec fn spec_i2l(a: u32) -> u64 {
    bits64(signed32(a as int))
}

/// Widens a signed 32-bit integer to 64 bits.
pub fn i2l(a: u32) -> (r: u64)
    ensures
        r == spec_i2l(a),
{
    pat64(to_i32(a) as i128)
}

/// `l2i`: the low half.
pub open spec fn spec_l2i(a: u64) -> u32 {
    (a % 0x1_0000_0000) as u32
}

/// Narrows a 64-bit integer to its low half.
pub fn l2i(a: u64) -> (r: u32)
    ensures
        r == spec_l2i(a),
{
    (a % 0x1_0000_0000) as u32
}

/// `i2b`: the low byte, sign-extended.
pub open spec fn spec_i2b(a: u32) -> u32 {
    bits32(signed8((a % 0x100) as int))
}

/// Narrows a 32-bit integer to a signed byte.
pub fn i2b(a: u32) -> (r: u32)
    ensures
        r == spec_i2b(a),
{
    let low: u32 = a % 0x100;
    if low >= 0x80 {
        pat32(low as i64 - 0x100)
    } else {
        low
    }
}

/// `i2c`: the low 16 bits.
pub open spec fn spec_i2c(a: u32) -> u32 {
    (a % 0x1_0000) as u32
}

/// Narrows a 32-bit integer to an unsigned 16-bit value.
pub fn i2c(a: u32) -> (r: u32)
    ensures
        r == spec_i2c(a),
{
    a % 0x1_0000
}

/// `i2s`: the low 16 bits, sign-extended.
pub open spec fn spec_i2s(a: u32) -> u32 {
    bits32(signed16((a % 0x1_0000) as int))
}

/// Narrows a 32-bit integer to a signed 16-bit value.
pub fn i2s(a: u32) -> (r: u32)
    ensures
        r == spec_i2s(a),
{
    let low: u32 = a % 0x1_0000;
    if low >= 0x8000 {
        pat32(low as i64 - 0x1_0000)
    } else {
        low
    }
}

/// How two signed values compare: -1, 0 or 1 as a 32-bit pattern.
pub open spec fn spec_order(a: int, b: int) -> u32 {
    if a > b {
        1
    } else if a == b {
        0
    } else {
        0xffff_ffff
    }
}

/// Compares two signed 64-bit values.
pub fn lorder(a: u64, b: u64) -> (r: u32)
    ensures
        r == spec_order(signed64(a as int), signed64(b as int)),
{
    let x: i64 = to_i64(a);
    let y: i64 = to_i64(b);
    if x > y {
        1
    } else if x == y {
        0
    } else {
        0xffff_ffff
    }
}

/// Where a branch with the offset `off` from the instruction at `pc`
/// leads: the sum, modulo 2^32.
pub open spec fn branch_target(pc: u32, off: i32) -> u32 {
    bits32(pc + off)
}

/// Where a branch with the offset `off` from the instruction at `pc` leads.
pub fn target_of(pc: u32, off: i32) -> (r: u32)
    ensures
        r == branch_target(pc, off),
{
    let t: i64 = pc as i64 + off as i64;
    if t < 0 {
        (t + 0x1_0000_0000) as u32
    } else if t >= 0x1_0000_0000 {
        (t - 0x1_0000_0000) as u32
    } else {
        t as u32
    }
}

/// `ishl`: the pattern shifted left by the low five bits of the count.
pub open spec fn spec_ishl(a: u32, count: u32) -> u32 {
    a << (count & 0x1f)
}

/// Shifts a 32-bit pattern left.
pub fn ishl(a: u32, count: u32) -> (r: u32)
    ensures
        r == spec_ishl(a, count),
{
    let s: u32 = count & 0x1f;
    proof {
        assert(count & 0x1f < 32) by (bit_vector);
    }
    a << s
}

/// `ishr`: the signed value shifted right by the low five bits of the
/// count, the sign kept.
pub open spec fn spec_ishr(a: u32, count: u32) -> u32 {
    bits32(((signed32(a as int) as i32) >> (count & 0x1f)) as int)
}

/// Shifts a signed 32-bit integer right, keeping its sign.
pub fn ishr(a: u32, count: u32) -> (r: u32)
    ensures
        r == spec_ishr(a, count),
{
    let s: u32 = count & 0x1f;
    proof {
        assert(count & 0x1f < 32) by (bit_vector);
    }
    let v: i32 = to_i32(a) >> s;
    pat32(v as i64)
}

/// `iushr`: the pattern shifted right by the low five bits of the
/// count, zeros coming in.
pub open spec fn spec_iushr(a: u32, count: u32) -> u32 {
    a >> (count & 0x1f)
}

/// Shifts a 32-bit pattern right, filling with zeros.
pub fn iushr(a: u32, count: u32) -> (r: u32)
    ensures
        r == spec_iushr(a, count),
{
    let s: u32 = count & 0x1f;
    proof {
        assert(count & 0x1f < 32) by (bit_vector);
    }
    a >> s
}

/// `lshl`: the pattern shifted left by the low six bits of the count.
pub open spec fn spec_lshl(a: u64, count: u32) -> u64 {
    a << ((count & 0x3f) as u64)
}

/// Shifts a 64-bit pattern left.
pub fn lshl(a: u64, count: u32) -> (r: u64)
    ensures
        r == spec_lshl(a, count),
{
    let s: u32 = count & 0x3f;
    proof {
        assert(count & 0x3f < 64) by (bit_vector);
    }
    a << (s as u64)
}

/// `lshr`: the signed value shifted right by the low six bits of the
/// count, the sign kept.
pub open spec fn spec_lshr(a: u64, count: u32) -> u64 {
    bits64(((signed64(a as int) as i64) >> ((count & 0x3f) as i64)) as int)
}

/// Shifts a signed 64-bit integer right, keeping its sign.
pub fn lshr(a: u64, count: u32) -> (r: u64)
    ensures
        r == spec_lshr(a, count),
{
    let s: u32 = count & 0x3f;
    proof {
        assert(count & 0x3f < 64) by (bit_vector);
    }
    let v: i64 = to_i64(a) >> (s as i64);
    pat64(v as i128)
}

/// `lushr`: the pattern shifted right by the low six bits of the count,
/// zeros coming in.
pub open spec fn spec_lushr(a: u64, count: u32) -> u64 {
    a >> ((count & 0x3f) as u64)
}

/// Shifts a 64-bit pattern right, filling with zeros.
pub fn lushr(a: u64, count: u32) -> (r: u64)
    ensures
        r == spec_lushr(a, count),
{
    let s: u32 = count & 0x3f;
    proof {
        assert(count & 0x3f < 64) by (bit_vector);
    }
    a >> (s as u64)
}

/// The low half of a cell.
pub open spec fn low32(v: u64) -> u32 {
    (v % 0x1_0000_0000) as u32
}

/// The low half of a cell.
pub fn low(v: u64) -> (r: u32)
    ensures
        r == low32(v),
{
    (v % 0x1_0000_0000) as u32
}

} // verus!
