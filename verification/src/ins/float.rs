//! The instructions that compute with floating-point numbers. The
//! machine keeps such numbers as bit patterns and leaves the computing
//! to a function of the host: it hands the opcode and the patterns of
//! the operands over and pushes the pattern that comes back.

use vstd::prelude::*;
use crate::error::VmError;
use crate::frame::{FrameView, JStack, with_top};
use crate::ins::alu::{low, low32};
use crate::ins::decode::{Ins, InsView};

verus! {

/// How many operands a floating-point instruction takes; 0 for any
/// other opcode.
pub open spec fn float_arity(op: u8) -> int {
    if op == 0x62 || op == 0x63 || op == 0x66 || op == 0x67 || op == 0x6a || op == 0x6b || op
        == 0x6e || op == 0x6f || op == 0x72 || op == 0x73 || (0x95 <= op <= 0x98) {
        2
    } else if op == 0x86 || op == 0x87 || (0x89 <= op <= 0x90 && op != 0x88) {
        1
    } else {
        0
    }
}

/// Whether the operands of a floating-point instruction are 64 bits
/// wide.
pub open spec fn float_in_wide(op: u8) -> bool {
    op == 0x63 || op == 0x67 || op == 0x6b || op == 0x6f || op == 0x73 || op == 0x97 || op == 0x98
        || op == 0x89 || op == 0x8a || op == 0x8e || op == 0x8f || op == 0x90
}

/// Whether the result of a floating-point instruction is 64 bits wide.
pub open spec fn float_out_wide(op: u8) -> bool {
    op == 0x63 || op == 0x67 || op == 0x6b || op == 0x6f || op == 0x73 || op == 0x87 || op == 0x8a
        || op == 0x8c || op == 0x8d || op == 0x8f
}

/// Whether the host computes the instruction.
pub open spec fn is_float_op(op: u8) -> bool {
    float_arity(op) != 0
}

/// Whether the host computes the instruction.
pub fn float_kind(op: u8) -> (r: (usize, bool, bool))
    ensures
        r.0 == float_arity(op),
        r.1 == float_in_wide(op),
        r.2 == float_out_wide(op),
{
    let arity: usize = if op == 0x62 || op == 0x63 || op == 0x66 || op == 0x67 || op == 0x6a || op
        == 0x6b || op == 0x6e || op == 0x6f || op == 0x72 || op == 0x73 || (0x95 <= op && op
        <= 0x98) {
        2
    } else if op == 0x86 || op == 0x87 || (0x89 <= op && op <= 0x90 && op != 0x88) {
        1
    } else {
        0
    };
    let in_wide: bool = op == 0x63 || op == 0x67 || op == 0x6b || op == 0x6f || op == 0x73 || op
        == 0x97 || op == 0x98 || op == 0x89 || op == 0x8a || op == 0x8e || op == 0x8f || op
        == 0x90;
    let out_wide: bool = op == 0x63 || op == 0x67 || op == 0x6b || op == 0x6f || op == 0x73 || op
        == 0x87 || op == 0x8a || op == 0x8c || op == 0x8d || op == 0x8f;
    (arity, in_wide, out_wide)
}

/// The cells that the operands of a floating-point instruction take.
pub open spec fn float_cells(op: u8) -> int {
    float_arity(op) * (if float_in_wide(op) {
        2int
    } else {
        1int
    })
}

/// The patterns that are handed to the host for the instruction `op` on
/// the frame `f`: the first operand and the second, which is 0 where
/// there is only one. It is an error where the operands are not on the
/// stack or the result would not fit on it.
pub open spec fn float_operands(op: u8, f: FrameView) -> Result<(u64, u64), VmError> {
    let total = float_cells(op);
    let out: int = if float_out_wide(op) {
        2
    } else {
        1
    };
    if !is_float_op(op) {
        Err(VmError::UnknownOpcode)
    } else if f.depth < total || f.depth - total + out > f.cells.len() {
        Err(VmError::OperandStack)
    } else if float_arity(op) == 1 {
        if float_in_wide(op) {
            Ok((f.peek(2), 0))
        } else {
            Ok((low32(f.peek(1)) as u64, 0))
        }
    } else {
        if float_in_wide(op) {
            Ok((f.peek(4), f.peek(2)))
        } else {
            Ok((low32(f.peek(2)) as u64, low32(f.peek(1)) as u64))
        }
    }
}

/// The frame after the host has answered `x`: the operands are gone and
/// the answer is pushed, its low half where the result is narrow.
pub open spec fn float_result(ins: InsView, f: FrameView, x: u64) -> FrameView {
    let g = f.at_pc(ins.next).drop(float_cells(ins.op) as nat);
    if float_out_wide(ins.op) {
        g.push2(x)
    } else {
        g.push1(low32(x) as u64)
    }
}

/// Finishes a floating-point instruction with the host's answer `x`.
pub fn float_finish(ins: &Ins, st: &mut JStack, x: u64)
    requires
        old(st).wf(),
        old(st)@.len() > 0,
        float_operands(ins.op, old(st).top()) is Ok,
    ensures
        final(st).wf(),
        final(st)@ == with_top(old(st)@, float_result(ins@, old(st).top(), x)),
{
    let k = float_kind(ins.op);
    let total: usize = k.0 * (if k.1 {
        2
    } else {
        1
    });
    st.set_next_pc(ins.next);
    st.drop(total);
    if k.2 {
        st.push_u64(x);
    } else {
        st.push_u32(low(x));
    }
    proof {
        assert(st@ =~= with_top(old(st)@, float_result(ins@, old(st).top(), x)));
    }
}

/// Reads the operands of a floating-point instruction off the current
/// frame without taking them.
pub fn float_args(op: u8, st: &JStack) -> (r: Result<(u64, u64), VmError>)
    requires
        st.wf(),
        st@.len() > 0,
    ensures
        r == float_operands(op, st.top()),
{
    let k = float_kind(op);
    if k.0 == 0 {
        return Err(VmError::UnknownOpcode);
    }
    let total: usize = k.0 * (if k.1 {
        2
    } else {
        1
    });
    let out: usize = if k.2 {
        2
    } else {
        1
    };
    let d: usize = st.depth();
    if d < total || st.room() + total < out {
        return Err(VmError::OperandStack);
    }
    if k.0 == 1 {
        if k.1 {
            Ok((st.peek(2), 0))
        } else {
            Ok((low(st.peek(1)) as u64, 0))
        }
    } else {
        if k.1 {
            Ok((st.peek(4), st.peek(2)))
        } else {
            Ok((low(st.peek(2)) as u64, low(st.peek(1)) as u64))
        }
    }
}

/// Executes a floating-point instruction: the host function `fpu` gets
/// the opcode and the operands and its answer is pushed. Whatever the
/// host answers, the frame afterwards is the one that `float_result`
/// gives for that answer.
pub fn float_op<F: Fn(u8, u64, u64) -> u64>(ins: &Ins, st: &mut JStack, fpu: &F) -> (r: Result<
    (),
    VmError,
>)
    requires
        old(st).wf(),
        old(st)@.len() > 0,
        forall|o: u8, x: u64, y: u64| fpu.requires((o, x, y)),
    ensures
        final(st).wf(),
        match float_operands(ins.op, old(st).top()) {
            Ok((a, b)) => r is Ok && exists|x: u64|
                fpu.ensures((ins.op, a, b), x) && final(st)@ == with_top(
                    old(st)@,
                    #[trigger] float_result(ins@, old(st).top(), x),
                ),
            Err(e) => r == Err::<(), VmError>(e) && final(st)@ == old(st)@,
        },
{
    let (a, b): (u64, u64) = match float_args(ins.op, st) {
        Ok(t) => t,
        Err(e) => {
            return Err(e);
        },
    };
    let x: u64 = fpu(ins.op, a, b);
    float_finish(ins, st, x);
    proof {
        assert(st@ == with_top(old(st)@, float_result(ins@, old(st).top(), x)));
    }
    Ok(())
}

} // verus!
