//! Comparisons and conditional branches.

use vstd::prelude::*;
use crate::error::VmError;
use crate::frame::{FrameView, JStack, with_top};
use crate::ins::alu::{branch_target, lorder, low, low32, spec_order, target_of};
use crate::ins::decode::{Ins, InsView};
use crate::ins::float::{float_kind, float_op, float_operands, float_result, is_float_op};
use crate::ins::value::{Pushed, replace_and_go, replace_at};
use crate::reader::{signed32, signed64, to_i32};

verus! {

/// How many cells a conditional branch takes off; 0 for any other
/// opcode.
pub open spec fn branch_cells(op: u8) -> int {
    if (0x99 <= op <= 0x9e) || op == 0xc6 || op == 0xc7 {
        1
    } else if 0x9f <= op <= 0xa6 {
        2
    } else {
        0
    }
}

/// Whether a conditional branch is taken on the frame `f`. The branches
/// on one integer test it against zero, those on two integers test the
/// lower against the upper, both as signed values; the branches on
/// references test whole cells.
pub open spec fn branch_taken(op: u8, f: FrameView) -> bool {
    let x = signed32(low32(f.peek(1)) as int);
    let l = signed32(low32(f.peek(2)) as int);
    if op == 0x99 {
        x == 0
    } else if op == 0x9a {
        x != 0
    } else if op == 0x9b {
        x < 0
    } else if op == 0x9c {
        x >= 0
    } else if op == 0x9d {
        x > 0
    } else if op == 0x9e {
        x <= 0
    } else if op == 0x9f {
        l == x
    } else if op == 0xa0 {
        l != x
    } else if op == 0xa1 {
        l < x
    } else if op == 0xa2 {
        l >= x
    } else if op == 0xa3 {
        l > x
    } else if op == 0xa4 {
        l <= x
    } else if op == 0xa5 {
        f.peek(2) == f.peek(1)
    } else if op == 0xa6 {
        f.peek(2) != f.peek(1)
    } else if op == 0xc6 {
        f.peek(1) == 0
    } else {
        f.peek(1) != 0
    }
}

/// What an instruction of this family that the machine computes itself
/// makes of the frame `f`: the comparison of two 64-bit integers
/// leaves -1, 0 or 1; a conditional branch takes its operands off and
/// goes on at its target where it is taken, behind itself where not.
pub open spec fn compare_effect(ins: InsView, f: FrameView) -> Result<FrameView, VmError> {
    if ins.op == 0x94 {
        if f.depth < 4 {
            Err(VmError::OperandStack)
        } else {
            replace_at(
                f,
                ins.next,
                4,
                Pushed {
                    v: spec_order(signed64(f.peek(4) as int), signed64(f.peek(2) as int)) as u64,
                    wide: false,
                },
            )
        }
    } else if branch_cells(ins.op) == 0 {
        Err(VmError::UnknownOpcode)
    } else if f.depth < branch_cells(ins.op) {
        Err(VmError::OperandStack)
    } else {
        Ok(
            f.drop(branch_cells(ins.op) as nat).at_pc(
                if branch_taken(ins.op, f) {
                    branch_target(ins.pc, ins.b)
                } else {
                    ins.next
                },
            ),
        )
    }
}

/// Decides whether a conditional branch is taken.
pub fn taken(op: u8, st: &JStack) -> (r: bool)
    requires
        st.wf(),
        st@.len() > 0,
        branch_cells(op) != 0,
        st.top().depth >= branch_cells(op),
    ensures
        r == branch_taken(op, st.top()),
{
    let top: u64 = st.peek(1);
    let x: i32 = to_i32(low(top));
    if op == 0x99 {
        x == 0
    } else if op == 0x9a {
        x != 0
    } else if op == 0x9b {
        x < 0
    } else if op == 0x9c {
        x >= 0
    } else if op == 0x9d {
        x > 0
    } else if op == 0x9e {
        x <= 0
    } else if op == 0xc6 {
        top == 0
    } else if op == 0xc7 {
        top != 0
    } else {
        let below: u64 = st.peek(2);
        let l: i32 = to_i32(low(below));
        if op == 0x9f {
            l == x
        } else if op == 0xa0 {
            l != x
        } else if op == 0xa1 {
            l < x
        } else if op == 0xa2 {
            l >= x
        } else if op == 0xa3 {
            l > x
        } else if op == 0xa4 {
            l <= x
        } else if op == 0xa5 {
            below == top
        } else {
            below != top
        }
    }
}

/// Executes a comparison or a conditional branch on the current frame.
/// A comparison of floating-point numbers is computed by the host
/// through `fpu`; anything else has the effect that `compare_effect`
/// gives.
pub fn compare<F: Fn(u8, u64, u64) -> u64>(ins: &Ins, st: &mut JStack, fpu: &F) -> (r: Result<
    (),
    VmError,
>)
    requires
        old(st).wf(),
        old(st)@.len() > 0,
        forall|o: u8, x: u64, y: u64| fpu.requires((o, x, y)),
    ensures
        final(st).wf(),
        !is_float_op(ins.op) ==> match compare_effect(ins@, old(st).top()) {
            Ok(f) => r is Ok && final(st)@ == with_top(old(st)@, f),
            Err(e) => r == Err::<(), VmError>(e) && final(st)@ == old(st)@,
        },
        is_float_op(ins.op) ==> match float_operands(ins.op, old(st).top()) {
            Ok((a, b)) => r is Ok && exists|x: u64|
                fpu.ensures((ins.op, a, b), x) && final(st)@ == with_top(
                    old(st)@,
                    #[trigger] float_result(ins@, old(st).top(), x),
                ),
            Err(e) => r == Err::<(), VmError>(e) && final(st)@ == old(st)@,
        },
{
    let op: u8 = ins.op;
    let k = float_kind(op);
    if k.0 != 0 {
        return float_op(ins, st, fpu);
    }
    if op == 0x94 {
        if st.depth() < 4 {
            return Err(VmError::OperandStack);
        }
        let v: u32 = lorder(st.peek(4), st.peek(2));
        return replace_and_go(st, ins.next, 4, Pushed { v: v as u64, wide: false });
    }
    let n: usize = if (0x99 <= op && op <= 0x9e) || op == 0xc6 || op == 0xc7 {
        1
    } else if 0x9f <= op && op <= 0xa6 {
        2
    } else {
        0
    };
    if n == 0 {
        return Err(VmError::UnknownOpcode);
    }
    if st.depth() < n {
        return Err(VmError::OperandStack);
    }
    let go: bool = taken(op, st);
    st.drop(n);
    if go {
        st.set_next_pc(target_of(ins.pc, ins.b));
    } else {
        st.set_next_pc(ins.next);
    }
    proof {
        assert(st@ =~= with_top(old(st)@, compare_effect(ins@, old(st).top()).unwrap()));
    }
    Ok(())
}

} // verus!
