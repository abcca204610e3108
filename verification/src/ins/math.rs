//! Arithmetic, bitwise and shift instructions, and `iinc`.

use vstd::prelude::*;
use crate::error::VmError;
use crate::frame::{FrameView, JStack, with_top};
use crate::ins::alu::{
    bits32, iadd, idiv, imul, ineg, irem, ishl, ishr, isub, iushr, ladd, ldiv, lmul, lneg, low,
    low32, lrem, lshl, lshr, lsub, lushr, pat32, spec_iadd, spec_idiv, spec_imul, spec_ineg,
    spec_irem, spec_ishl, spec_ishr, spec_isub, spec_iushr, spec_ladd, spec_ldiv, spec_lmul,
    spec_lneg, spec_lrem, spec_lshl, spec_lshr, spec_lsub, spec_lushr,
};
use crate::ins::decode::{Ins, InsView};
use crate::ins::float::{float_op, float_operands, float_result, is_float_op};
use crate::ins::value::{Pushed, replace_and_go, replace_at};
use crate::reader::{signed32, to_i32};

verus! {

/// Whether `op` takes two 32-bit integers and leaves one.
pub open spec fn is_int_binary(op: u8) -> bool {
    op == 0x60 || op == 0x64 || op == 0x68 || op == 0x6c || op == 0x70 || op == 0x78 || op == 0x7a
        || op == 0x7c || op == 0x7e || op == 0x80 || op == 0x82
}

/// Whether `op` takes two 64-bit integers and leaves one.
pub open spec fn is_long_binary(op: u8) -> bool {
    op == 0x61 || op == 0x65 || op == 0x69 || op == 0x6d || op == 0x71 || op == 0x7f || op == 0x81
        || op == 0x83
}

/// Whether `op` shifts a 64-bit integer by a 32-bit count.
pub open spec fn is_long_shift(op: u8) -> bool {
    op == 0x79 || op == 0x7b || op == 0x7d
}

/// What a binary instruction on 32-bit integers leaves for the operands
/// `a` and `b`, `b` being the one on top: the sum, the difference, the
/// product, the quotient or the remainder in two's complement; `a`
/// shifted by the low five bits of `b`; or the bitwise and, or,
/// exclusive or.
pub open spec fn spec_int_binary(op: u8, a: u32, b: u32) -> Result<u32, VmError> {
    if op == 0x60 {
        Ok(spec_iadd(a, b))
    } else if op == 0x64 {
        Ok(spec_isub(a, b))
    } else if op == 0x68 {
        Ok(spec_imul(a, b))
    } else if op == 0x6c {
        spec_idiv(a, b)
    } else if op == 0x70 {
        spec_irem(a, b)
    } else if op == 0x78 {
        Ok(spec_ishl(a, b))
    } else if op == 0x7a {
        Ok(spec_ishr(a, b))
    } else if op == 0x7c {
        Ok(spec_iushr(a, b))
    } else if op == 0x7e {
        Ok(a & b)
    } else if op == 0x80 {
        Ok(a | b)
    } else {
        Ok(a ^ b)
    }
}

/// Computes a binary instruction on 32-bit integers.
pub fn int_binary(op: u8, a: u32, b: u32) -> (r: Result<u32, VmError>)
    requires
        is_int_binary(op),
    ensures
        r == spec_int_binary(op, a, b),
{
    if op == 0x60 {
        Ok(iadd(a, b))
    } else if op == 0x64 {
        Ok(isub(a, b))
    } else if op == 0x68 {
        Ok(imul(a, b))
    } else if op == 0x6c {
        idiv(a, b)
    } else if op == 0x70 {
        irem(a, b)
    } else if op == 0x78 {
        Ok(ishl(a, b))
    } else if op == 0x7a {
        Ok(ishr(a, b))
    } else if op == 0x7c {
        Ok(iushr(a, b))
    } else if op == 0x7e {
        Ok(a & b)
    } else if op == 0x80 {
        Ok(a | b)
    } else {
        Ok(a ^ b)
    }
}

/// What a binary instruction on 64-bit integers leaves for the operands
/// `a` and `b`, `b` being the one on top.
pub open spec fn spec_long_binary(op: u8, a: u64, b: u64) -> Result<u64, VmError> {
    if op == 0x61 {
        Ok(spec_ladd(a, b))
    } else if op == 0x65 {
        Ok(spec_lsub(a, b))
    } else if op == 0x69 {
        Ok(spec_lmul(a, b))
    } else if op == 0x6d {
        spec_ldiv(a, b)
    } else if op == 0x71 {
        spec_lrem(a, b)
    } else if op == 0x7f {
        Ok(a & b)
    } else if op == 0x81 {
        Ok(a | b)
    } else {
        Ok(a ^ b)
    }
}

/// Computes a binary instruction on 64-bit integers.
pub fn long_binary(op: u8, a: u64, b: u64) -> (r: Result<u64, VmError>)
    requires
        is_long_binary(op),
    ensures
        r == spec_long_binary(op, a, b),
{
    if op == 0x61 {
        Ok(ladd(a, b))
    } else if op == 0x65 {
        Ok(lsub(a, b))
    } else if op == 0x69 {
        Ok(lmul(a, b))
    } else if op == 0x6d {
        ldiv(a, b)
    } else if op == 0x71 {
        lrem(a, b)
    } else if op == 0x7f {
        Ok(a & b)
    } else if op == 0x81 {
        Ok(a | b)
    } else {
        Ok(a ^ b)
    }
}

/// What a shift of a 64-bit integer leaves.
pub open spec fn spec_long_shift(op: u8, a: u64, count: u32) -> u64 {
    if op == 0x79 {
        spec_lshl(a, count)
    } else if op == 0x7b {
        spec_lshr(a, count)
    } else {
        spec_lushr(a, count)
    }
}

/// Computes a shift of a 64-bit integer.
pub fn long_shift(op: u8, a: u64, count: u32) -> (r: u64)
    requires
        is_long_shift(op),
    ensures
        r == spec_long_shift(op, a, count),
{
    if op == 0x79 {
        lshl(a, count)
    } else if op == 0x7b {
        lshr(a, count)
    } else {
        lushr(a, count)
    }
}

/// How many cells an integer instruction of this family takes off, and
/// what it pushes, on the frame `f`.
pub open spec fn math_result(op: u8, f: FrameView) -> Result<(int, Pushed), VmError> {
    if is_int_binary(op) {
        if f.depth < 2 {
            Err(VmError::OperandStack)
        } else {
            match spec_int_binary(op, low32(f.peek(2)), low32(f.peek(1))) {
                Ok(v) => Ok((2, Pushed { v: v as u64, wide: false })),
                Err(e) => Err(e),
            }
        }
    } else if is_long_binary(op) {
        if f.depth < 4 {
            Err(VmError::OperandStack)
        } else {
            match spec_long_binary(op, f.peek(4), f.peek(2)) {
                Ok(v) => Ok((4, Pushed { v, wide: true })),
                Err(e) => Err(e),
            }
        }
    } else if is_long_shift(op) {
        if f.depth < 3 {
            Err(VmError::OperandStack)
        } else {
            Ok((3, Pushed { v: spec_long_shift(op, f.peek(3), low32(f.peek(1))), wide: true }))
        }
    } else if op == 0x74 {
        if f.depth < 1 {
            Err(VmError::OperandStack)
        } else {
            Ok((1, Pushed { v: spec_ineg(low32(f.peek(1))) as u64, wide: false }))
        }
    } else if op == 0x75 {
        if f.depth < 2 {
            Err(VmError::OperandStack)
        } else {
            Ok((2, Pushed { v: spec_lneg(f.peek(2)), wide: true }))
        }
    } else if op == 0x76 {
        if f.depth < 1 {
            Err(VmError::OperandStack)
        } else {
            Ok((1, Pushed { v: (low32(f.peek(1)) ^ 0x8000_0000u32) as u64, wide: false }))
        }
    } else if op == 0x77 {
        if f.depth < 2 {
            Err(VmError::OperandStack)
        } else {
            Ok((2, Pushed { v: f.peek(2) ^ 0x8000_0000_0000_0000u64, wide: true }))
        }
    } else {
        Err(VmError::UnknownOpcode)
    }
}

/// What `iinc` makes of the frame `f`: the signed increment is added to
/// the 32-bit value of the local variable, in two's complement.
pub open spec fn iinc_effect(ins: InsView, f: FrameView) -> Result<FrameView, VmError> {
    if ins.a >= f.locals.len() {
        Err(VmError::LocalIndex)
    } else {
        Ok(
            f.set_local(
                ins.a as int,
                bits32(signed32(low32(f.locals[ins.a as int]) as int) + ins.b) as u64,
            ).at_pc(ins.next),
        )
    }
}

/// What an instruction of this family that the machine computes itself
/// makes of the frame `f`.
pub open spec fn math_effect(ins: InsView, f: FrameView) -> Result<FrameView, VmError> {
    if ins.op == 0x84 {
        iinc_effect(ins, f)
    } else {
        match math_result(ins.op, f) {
            Ok((n, p)) => replace_at(f, ins.next, n, p),
            Err(e) => Err(e),
        }
    }
}

/// Computes what an integer instruction of this family takes off and
/// pushes.
pub fn math_value(op: u8, st: &JStack) -> (r: Result<(usize, Pushed), VmError>)
    requires
        st.wf(),
        st@.len() > 0,
    ensures
        match math_result(op, st.top()) {
            Ok((n, p)) => r == Ok::<(usize, Pushed), VmError>((n as usize, p)) && 0 <= n <= 4,
            Err(e) => r == Err::<(usize, Pushed), VmError>(e),
        },
{
    let d: usize = st.depth();
    if op == 0x60 || op == 0x64 || op == 0x68 || op == 0x6c || op == 0x70 || op == 0x78 || op
        == 0x7a || op == 0x7c || op == 0x7e || op == 0x80 || op == 0x82 {
        if d < 2 {
            return Err(VmError::OperandStack);
        }
        match int_binary(op, low(st.peek(2)), low(st.peek(1))) {
            Ok(v) => Ok((2, Pushed { v: v as u64, wide: false })),
            Err(e) => Err(e),
        }
    } else if op == 0x61 || op == 0x65 || op == 0x69 || op == 0x6d || op == 0x71 || op == 0x7f || op
        == 0x81 || op == 0x83 {
        if d < 4 {
            return Err(VmError::OperandStack);
        }
        match long_binary(op, st.peek(4), st.peek(2)) {
            Ok(v) => Ok((4, Pushed { v, wide: true })),
            Err(e) => Err(e),
        }
    } else if op == 0x79 || op == 0x7b || op == 0x7d {
        if d < 3 {
            return Err(VmError::OperandStack);
        }
        Ok((3, Pushed { v: long_shift(op, st.peek(3), low(st.peek(1))), wide: true }))
    } else if op == 0x74 {
        if d < 1 {
            return Err(VmError::OperandStack);
        }
        Ok((1, Pushed { v: ineg(low(st.peek(1))) as u64, wide: false }))
    } else if op == 0x75 {
        if d < 2 {
            return Err(VmError::OperandStack);
        }
        Ok((2, Pushed { v: lneg(st.peek(2)), wide: true }))
    } else if op == 0x76 {
        if d < 1 {
            return Err(VmError::OperandStack);
        }
        Ok((1, Pushed { v: (low(st.peek(1)) ^ 0x8000_0000u32) as u64, wide: false }))
    } else if op == 0x77 {
        if d < 2 {
            return Err(VmError::OperandStack);
        }
        Ok((2, Pushed { v: st.peek(2) ^ 0x8000_0000_0000_0000u64, wide: true }))
    } else {
        Err(VmError::UnknownOpcode)
    }
}

/// Executes `iinc`.
pub fn iinc(ins: &Ins, st: &mut JStack) -> (r: Result<(), VmError>)
    requires
        old(st).wf(),
        old(st)@.len() > 0,
    ensures
        final(st).wf(),
        match iinc_effect(ins@, old(st).top()) {
            Ok(f) => r is Ok && final(st)@ == with_top(old(st)@, f),
            Err(e) => r == Err::<(), VmError>(e) && final(st)@ == old(st)@,
        },
{
    let i: usize = ins.a as usize;
    if i >= st.max_locals() {
        return Err(VmError::LocalIndex);
    }
    let v: i32 = to_i32(low(st.get_local(i)));
    let w: u32 = pat32(v as i64 + ins.b as i64);
    st.set_local(i, w as u64);
    st.set_next_pc(ins.next);
    proof {
        assert(st@ =~= with_top(old(st)@, iinc_effect(ins@, old(st).top()).unwrap()));
    }
    Ok(())
}

/// Executes an instruction of the arithmetic family on the current
/// frame. A floating-point instruction is computed by the host through
/// `fpu`; any other has the effect that `math_effect` gives.
pub fn math<F: Fn(u8, u64, u64) -> u64>(ins: &Ins, st: &mut JStack, fpu: &F) -> (r: Result<
    (),
    VmError,
>)
    requires
        old(st).wf(),
        old(st)@.len() > 0,
        forall|o: u8, x: u64, y: u64| fpu.requires((o, x, y)),
    ensures
        final(st).wf(),
        !is_float_op(ins.op) ==> match math_effect(ins@, old(st).top()) {
            Ok(f) => r is Ok && final(st)@ == with_top(old(st)@, f),
            Err(e) => r == Err::<(), VmError>(e) && final(st)@ == old(st)@,
        },
        is_float_op(ins.op) ==> match float_operands(ins.op, old(st).top()) {
            Ok((a, b)) => r is Ok && exists|x: u64|
                fpu.ensures((ins.op, a, b), x) && final(st)@ == with_top(
                    old(st)@,
                    #[trigger] float_result(ins@, old(st).top(), x),
                ),
            Err(e) => r == Err::<(), VmError>(e) && final(st)@ == old(st)@,
        },
{
    let op: u8 = ins.op;
    let k = crate::ins::float::float_kind(op);
    if k.0 != 0 {
        return float_op(ins, st, fpu);
    }
    if op == 0x84 {
        return iinc(ins, st);
    }
    match math_value(op, st) {
        Ok((n, p)) => replace_and_go(st, ins.next, n, p),
        Err(e) => Err(e),
    }
}

} // verus!
