//! The instructions that give up, copy and reorder operand cells.

use vstd::prelude::*;
use crate::error::VmError;
use crate::frame::{FrameView, JStack, with_top};
use crate::ins::decode::{Ins, InsView};

verus! {

/// What an instruction of this family makes of the frame `f`: `pop` and
/// `pop2` give cells up; the others copy or exchange the topmost cells.
/// Each needs as many cells as it reads and room for those it adds.
pub open spec fn stack_effect(ins: InsView, f: FrameView) -> Result<FrameView, VmError> {
    let g = f.at_pc(ins.next);
    let op = ins.op;
    if op < 0x57 || op > 0x5f {
        Err(VmError::UnknownOpcode)
    } else {
        let need: int = if op == 0x57 || op == 0x59 {
            1
        } else if op == 0x58 || op == 0x5a || op == 0x5c || op == 0x5f {
            2
        } else if op == 0x5b || op == 0x5d {
            3
        } else {
            4
        };
        let more: int = if op == 0x59 || op == 0x5a || op == 0x5b {
            1
        } else if op == 0x5c || op == 0x5d || op == 0x5e {
            2
        } else {
            0
        };
        if f.depth < need || !f.room(more) {
            Err(VmError::OperandStack)
        } else if op == 0x57 {
            Ok(g.drop(1))
        } else if op == 0x58 {
            Ok(g.drop(2))
        } else if op == 0x59 {
            Ok(g.dup())
        } else if op == 0x5a {
            Ok(g.dup_x1())
        } else if op == 0x5b {
            Ok(g.dup_x2())
        } else if op == 0x5c {
            Ok(g.dup2())
        } else if op == 0x5d {
            Ok(g.dup2_x1())
        } else if op == 0x5e {
            Ok(g.dup2_x2())
        } else {
            Ok(g.swap())
        }
    }
}

/// Executes `pop`, `pop2`, `dup`, `dup_x1`, `dup_x2`, `dup2`, `dup2_x1`,
/// `dup2_x2` or `swap` on the current frame.
pub fn stack(ins: &Ins, st: &mut JStack) -> (r: Result<(), VmError>)
    requires
        old(st).wf(),
        old(st)@.len() > 0,
    ensures
        final(st).wf(),
        match stack_effect(ins@, old(st).top()) {
            Ok(f) => r is Ok && final(st)@ == with_top(old(st)@, f),
            Err(e) => r == Err::<(), VmError>(e) && final(st)@ == old(st)@,
        },
{
    let op: u8 = ins.op;
    if op < 0x57 || op > 0x5f {
        return Err(VmError::UnknownOpcode);
    }
    let need: usize = if op == 0x57 || op == 0x59 {
        1
    } else if op == 0x58 || op == 0x5a || op == 0x5c || op == 0x5f {
        2
    } else if op == 0x5b || op == 0x5d {
        3
    } else {
        4
    };
    let more: usize = if op == 0x59 || op == 0x5a || op == 0x5b {
        1
    } else if op == 0x5c || op == 0x5d || op == 0x5e {
        2
    } else {
        0
    };
    if st.depth() < need || st.room() < more {
        return Err(VmError::OperandStack);
    }
    st.set_next_pc(ins.next);
    if op == 0x57 {
        st.drop(1);
    } else if op == 0x58 {
        st.drop(2);
    } else if op == 0x59 {
        st.dup();
    } else if op == 0x5a {
        st.dup_x1();
    } else if op == 0x5b {
        st.dup_x2();
    } else if op == 0x5c {
        st.dup2();
    } else if op == 0x5d {
        st.dup2_x1();
    } else if op == 0x5e {
        st.dup2_x2();
    } else {
        st.swap();
    }
    proof {
        assert(st@ =~= with_top(old(st)@, stack_effect(ins@, old(st).top()).unwrap()));
    }
    Ok(())
}

} // verus!
