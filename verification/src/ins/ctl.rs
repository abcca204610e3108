//! Unconditional branches, switches and returns.

use vstd::prelude::*;
use crate::error::VmError;
use crate::frame::{FrameView, JFrame, JStack, with_top};
use crate::ins::alu::{branch_target, low, low32, target_of};
use crate::ins::decode::{Ins, InsView, sw_target};
use crate::ins::value::{Pushed, replace, replace_top};
use crate::reader::{signed32, to_i32};

verus! {

/// What `goto`, `tableswitch` or `lookupswitch` makes of the frame `f`:
/// `goto` goes on at its target; a switch takes an integer key off and
/// goes on at the target that its table gives for the key.
pub open spec fn jump_effect(ins: InsView, f: FrameView) -> Result<FrameView, VmError> {
    if ins.op == 0xa7 {
        Ok(f.at_pc(branch_target(ins.pc, ins.b)))
    } else if ins.op == 0xaa || ins.op == 0xab {
        if f.depth < 1 {
            Err(VmError::OperandStack)
        } else {
            Ok(
                f.drop(1).at_pc(
                    branch_target(
                        ins.pc,
                        sw_target(ins.sw, signed32(low32(f.peek(1)) as int) as i32),
                    ),
                ),
            )
        }
    } else {
        Err(VmError::UnknownOpcode)
    }
}

/// How many cells the value of a return instruction takes on the
/// operand stack.
pub open spec fn returned_cells(op: u8) -> int {
    if op == 0xac || op == 0xae || op == 0xb0 {
        1
    } else if op == 0xad || op == 0xaf {
        2
    } else {
        0
    }
}

/// The value that a return instruction hands to the caller: the low
/// half of the topmost cell for a narrow primitive, the topmost cell
/// for a reference, the cell of the topmost wide value for a wide
/// primitive.
pub open spec fn returned_value(op: u8, f: FrameView) -> Pushed {
    if op == 0xac || op == 0xae {
        Pushed { v: low32(f.peek(1)) as u64, wide: false }
    } else if op == 0xb0 {
        Pushed { v: f.peek(1), wide: false }
    } else {
        Pushed { v: f.peek(2), wide: true }
    }
}

/// What a return instruction makes of the frames `s`: the current frame
/// is left, and its value is pushed on the frame below. No value is
/// pushed by `return`, from a frame whose value nobody takes, or where
/// there is no frame below.
pub open spec fn return_effect(op: u8, s: Seq<FrameView>) -> Result<Seq<FrameView>, VmError> {
    let f = s.last();
    let rest = s.drop_last();
    if op < 0xac || op > 0xb1 {
        Err(VmError::UnknownOpcode)
    } else if f.depth < returned_cells(op) {
        Err(VmError::OperandStack)
    } else if op == 0xb1 || f.no_ret || rest.len() == 0 {
        Ok(rest)
    } else {
        match replace_top(rest.last(), 0, returned_value(op, f)) {
            Ok(g) => Ok(with_top(rest, g)),
            Err(e) => Err(e),
        }
    }
}

/// What an instruction of this family makes of the frames `s`.
pub open spec fn ctl_effect(ins: InsView, s: Seq<FrameView>) -> Result<Seq<FrameView>, VmError> {
    if 0xac <= ins.op <= 0xb1 {
        return_effect(ins.op, s)
    } else {
        match jump_effect(ins, s.last()) {
            Ok(f) => Ok(with_top(s, f)),
            Err(e) => Err(e),
        }
    }
}

/// Executes a return instruction.
pub fn do_return(op: u8, st: &mut JStack) -> (r: Result<(), VmError>)
    requires
        old(st).wf(),
        old(st)@.len() > 0,
    ensures
        final(st).wf(),
        match return_effect(op, old(st)@) {
            Ok(s) => r is Ok && final(st)@ == s,
            Err(e) => r == Err::<(), VmError>(e) && final(st)@ == old(st)@,
        },
{
    if op < 0xac || op > 0xb1 {
        return Err(VmError::UnknownOpcode);
    }
    let need: usize = if op == 0xac || op == 0xae || op == 0xb0 {
        1
    } else if op == 0xad || op == 0xaf {
        2
    } else {
        0
    };
    if st.depth() < need {
        return Err(VmError::OperandStack);
    }
    let f: JFrame = st.cur_frame();
    if op == 0xb1 || f.no_ret || st.size() < 2 {
        st.pop_frame();
        return Ok(());
    }
    let p: Pushed = if op == 0xac || op == 0xae {
        Pushed { v: low(st.peek(1)) as u64, wide: false }
    } else if op == 0xb0 {
        Pushed { v: st.peek(1), wide: false }
    } else {
        Pushed { v: st.peek(2), wide: true }
    };
    let caller: JFrame = st.prev_frame();
    proof {
        st.lemma_depth_bounded(st@.len() - 2);
        assert(st@.drop_last().last() == st@[st@.len() - 2]);
    }
    let out: usize = if p.wide {
        2
    } else {
        1
    };
    if caller.max_stack - caller.stack_size < out {
        return Err(VmError::OperandStack);
    }
    st.pop_frame();
    replace(st, 0, p)
}

/// Executes `goto`, a switch or a return.
pub fn ctl(ins: &Ins, st: &mut JStack) -> (r: Result<(), VmError>)
    requires
        old(st).wf(),
        old(st)@.len() > 0,
    ensures
        final(st).wf(),
        match ctl_effect(ins@, old(st)@) {
            Ok(s) => r is Ok && final(st)@ == s,
            Err(e) => r == Err::<(), VmError>(e) && final(st)@ == old(st)@,
        },
{
    let op: u8 = ins.op;
    if 0xac <= op && op <= 0xb1 {
        return do_return(op, st);
    }
    if op == 0xa7 {
        st.set_next_pc(target_of(ins.pc, ins.b));
        return Ok(());
    }
    if op == 0xaa || op == 0xab {
        if st.depth() < 1 {
            return Err(VmError::OperandStack);
        }
        let k: i32 = to_i32(low(st.peek(1)));
        let off: i32 = ins.sw.target(k);
        st.drop(1);
        st.set_next_pc(target_of(ins.pc, off));
        proof {
            assert(st@ =~= with_top(old(st)@, jump_effect(ins@, old(st).top()).unwrap()));
        }
        return Ok(());
    }
    Err(VmError::UnknownOpcode)
}

} // verus!
