//! What most instructions do to the operand stack: they take some cells
//! off and push one value.

use vstd::prelude::*;
use crate::error::VmError;
use crate::frame::{FrameView, JStack, with_top};

verus! {

/// A value to be pushed: the cell, and whether it takes two cells.
#[derive(Clone, Copy, PartialEq, Eq, Structural, Debug)]
pub struct Pushed {
    pub v: u64,
    pub wide: bool,
}

/// The frame `f` with `n` cells taken off and `p` pushed; an error where
/// there are not `n` cells or no room for the value.
pub open spec fn replace_top(f: FrameView, n: int, p: Pushed) -> Result<FrameView, VmError> {
    let out: int = if p.wide {
        2
    } else {
        1
    };
    if n < 0 || f.depth < n || f.depth - n + out > f.cells.len() {
        Err(VmError::OperandStack)
    } else if p.wide {
        Ok(f.drop(n as nat).push2(p.v))
    } else {
        Ok(f.drop(n as nat).push1(p.v))
    }
}

/// Takes `n` cells off the current frame and pushes `p`. On an error
/// the frame stays as it is.
pub fn replace(st: &mut JStack, n: usize, p: Pushed) -> (r: Result<(), VmError>)
    requires
        old(st).wf(),
        old(st)@.len() > 0,
    ensures
        final(st).wf(),
        match replace_top(old(st).top(), n as int, p) {
            Ok(f) => r is Ok && final(st)@ == with_top(old(st)@, f),
            Err(e) => r == Err::<(), VmError>(e) && final(st)@ == old(st)@,
        },
{
    let out: usize = if p.wide {
        2
    } else {
        1
    };
    let d: usize = st.depth();
    if d < n || st.room() + n < out {
        return Err(VmError::OperandStack);
    }
    st.drop(n);
    if p.wide {
        st.push_u64(p.v);
    } else {
        st.push_slot(p.v);
    }
    proof {
        assert(st@ =~= with_top(old(st)@, replace_top(old(st).top(), n as int, p).unwrap()));
    }
    Ok(())
}

/// `f` with its next instruction set to `pc` after `n` cells were taken
/// off and `p` pushed.
pub open spec fn replace_at(f: FrameView, pc: u32, n: int, p: Pushed) -> Result<
    FrameView,
    VmError,
> {
    match replace_top(f, n, p) {
        Ok(g) => Ok(g.at_pc(pc)),
        Err(e) => Err(e),
    }
}

/// Takes `n` cells off, pushes `p` and moves on to the instruction at
/// `pc`. On an error the frame stays as it is.
pub fn replace_and_go(st: &mut JStack, pc: u32, n: usize, p: Pushed) -> (r: Result<(), VmError>)
    requires
        old(st).wf(),
        old(st)@.len() > 0,
    ensures
        final(st).wf(),
        match replace_at(old(st).top(), pc, n as int, p) {
            Ok(f) => r is Ok && final(st)@ == with_top(old(st)@, f),
            Err(e) => r == Err::<(), VmError>(e) && final(st)@ == old(st)@,
        },
{
    match replace(st, n, p) {
        Ok(_) => {},
        Err(e) => {
            return Err(e);
        },
    }
    st.set_next_pc(pc);
    proof {
        assert(st@ =~= with_top(
            old(st)@,
            replace_at(old(st).top(), pc, n as int, p).unwrap(),
        ));
    }
    Ok(())
}

} // verus!
