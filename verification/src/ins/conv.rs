//! Conversions between the numeric types.

use vstd::prelude::*;
use crate::error::VmError;
use crate::frame::{FrameView, JStack, with_top};
use crate::ins::alu::{
    i2b, i2c, i2l, i2s, l2i, low, low32, spec_i2b, spec_i2c, spec_i2l, spec_i2s, spec_l2i,
};
use crate::ins::decode::{Ins, InsView};
use crate::ins::float::{float_kind, float_op, float_operands, float_result, is_float_op};
use crate::ins::value::{Pushed, replace_and_go, replace_at};

verus! {

/// How many cells an integer conversion takes off, and what it pushes:
/// `i2l` extends the sign, `l2i` keeps the low half, `i2b` and `i2s`
/// keep the low bits and extend their sign, `i2c` keeps the low 16
/// bits.
pub open spec fn conv_result(op: u8, f: FrameView) -> Result<(int, Pushed), VmError> {
    if op == 0x85 || op == 0x91 || op == 0x92 || op == 0x93 {
        if f.depth < 1 {
            Err(VmError::OperandStack)
        } else {
            let a = low32(f.peek(1));
            Ok(
                (
                    1,
                    if op == 0x85 {
                        Pushed { v: spec_i2l(a), wide: true }
                    } else if op == 0x91 {
                        Pushed { v: spec_i2b(a) as u64, wide: false }
                    } else if op == 0x92 {
                        Pushed { v: spec_i2c(a) as u64, wide: false }
                    } else {
                        Pushed { v: spec_i2s(a) as u64, wide: false }
                    },
                ),
            )
        }
    } else if op == 0x88 {
        if f.depth < 2 {
            Err(VmError::OperandStack)
        } else {
            Ok((2, Pushed { v: spec_l2i(f.peek(2)) as u64, wide: false }))
        }
    } else {
        Err(VmError::UnknownOpcode)
    }
}

/// What a conversion that the machine computes itself makes of the
/// frame `f`.
pub open spec fn conv_effect(ins: InsView, f: FrameView) -> Result<FrameView, VmError> {
    match conv_result(ins.op, f) {
        Ok((n, p)) => replace_at(f, ins.next, n, p),
        Err(e) => Err(e),
    }
}

/// Computes what an integer conversion takes off and pushes.
pub fn conv_value(op: u8, st: &JStack) -> (r: Result<(usize, Pushed), VmError>)
    requires
        st.wf(),
        st@.len() > 0,
    ensures
        match conv_result(op, st.top()) {
            Ok((n, p)) => r == Ok::<(usize, Pushed), VmError>((n as usize, p)) && 0 <= n <= 2,
            Err(e) => r == Err::<(usize, Pushed), VmError>(e),
        },
{
    let d: usize = st.depth();
    if op == 0x85 || op == 0x91 || op == 0x92 || op == 0x93 {
        if d < 1 {
            return Err(VmError::OperandStack);
        }
        let a: u32 = low(st.peek(1));
        if op == 0x85 {
            Ok((1, Pushed { v: i2l(a), wide: true }))
        } else if op == 0x91 {
            Ok((1, Pushed { v: i2b(a) as u64, wide: false }))
        } else if op == 0x92 {
            Ok((1, Pushed { v: i2c(a) as u64, wide: false }))
        } else {
            Ok((1, Pushed { v: i2s(a) as u64, wide: false }))
        }
    } else if op == 0x88 {
        if d < 2 {
            return Err(VmError::OperandStack);
        }
        Ok((2, Pushed { v: l2i(st.peek(2)) as u64, wide: false }))
    } else {
        Err(VmError::UnknownOpcode)
    }
}

/// Executes a conversion on the current frame. One that involves a
/// floating-point number is computed by the host through `fpu`; any
/// other has the effect that `conv_effect` gives.
pub fn conv<F: Fn(u8, u64, u64) -> u64>(ins: &Ins, st: &mut JStack, fpu: &F) -> (r: Result<
    (),
    VmError,
>)
    requires
        old(st).wf(),
        old(st)@.len() > 0,
        forall|o: u8, x: u64, y: u64| fpu.requires((o, x, y)),
    ensures
        final(st).wf(),
        !is_float_op(ins.op) ==> match conv_effect(ins@, old(st).top()) {
            Ok(f) => r is Ok && final(st)@ == with_top(old(st)@, f),
            Err(e) => r == Err::<(), VmError>(e) && final(st)@ == old(st)@,
        },
        is_float_op(ins.op) ==> match float_operands(ins.op, old(st).top()) {
            Ok((a, b)) => r is Ok && exists|x: u64|
                fpu.ensures((ins.op, a, b), x) && final(st)@ == with_top(
                    old(st)@,
                    #[trigger] float_result(ins@, old(st).top(), x),
                ),
            Err(e) => r == Err::<(), VmError>(e) && final(st)@ == old(st)@,
        },
{
    let k = float_kind(ins.op);
    if k.0 != 0 {
        return float_op(ins, st, fpu);
    }
    match conv_value(ins.op, st) {
        Ok((n, p)) => replace_and_go(st, ins.next, n, p),
        Err(e) => Err(e),
    }
}

} // verus!
