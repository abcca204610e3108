//! Loads: from a local variable or from an array onto the operand
//! stack.

use vstd::prelude::*;
use crate::error::VmError;
use crate::frame::{FrameView, JStack, with_top};
use crate::heap::Heap;
use crate::ins::alu::{low, low32};
use crate::ins::decode::{Ins, InsView};
use crate::ins::value::{Pushed, replace_and_go, replace_at};

verus! {

/// How a value moves between a cell and the operand stack.
#[derive(Clone, Copy, PartialEq, Eq, Structural, Debug)]
pub enum Width {
    /// The low half of the cell, in one cell.
    Narrow,
    /// The whole cell, in two cells.
    Wide,
    /// The whole cell, in one cell.
    Cell,
}

/// The local variable that a load instruction reads and the way it
/// pushes it; `None` for any other opcode.
pub open spec fn loaded_local(ins: InsView) -> Option<(int, Width)> {
    let op = ins.op;
    if op == 0x15 || op == 0x17 {
        Some((ins.a as int, Width::Narrow))
    } else if op == 0x16 || op == 0x18 {
        Some((ins.a as int, Width::Wide))
    } else if op == 0x19 {
        Some((ins.a as int, Width::Cell))
    } else if 0x1a <= op <= 0x1d {
        Some((op - 0x1a, Width::Narrow))
    } else if 0x1e <= op <= 0x21 {
        Some((op - 0x1e, Width::Wide))
    } else if 0x22 <= op <= 0x25 {
        Some((op - 0x22, Width::Narrow))
    } else if 0x26 <= op <= 0x29 {
        Some((op - 0x26, Width::Wide))
    } else if 0x2a <= op <= 0x2d {
        Some((op - 0x2a, Width::Cell))
    } else {
        None
    }
}

/// The local variable that a load instruction reads and the way it
/// pushes it.
pub fn load_operand(ins: &Ins) -> (r: Option<(usize, Width)>)
    ensures
        match loaded_local(ins@) {
            Some((i, w)) => r == Some((i as usize, w)),
            None => r is None,
        },
{
    let op: u8 = ins.op;
    if op == 0x15 || op == 0x17 {
        Some((ins.a as usize, Width::Narrow))
    } else if op == 0x16 || op == 0x18 {
        Some((ins.a as usize, Width::Wide))
    } else if op == 0x19 {
        Some((ins.a as usize, Width::Cell))
    } else if 0x1a <= op && op <= 0x1d {
        Some(((op - 0x1a) as usize, Width::Narrow))
    } else if 0x1e <= op && op <= 0x21 {
        Some(((op - 0x1e) as usize, Width::Wide))
    } else if 0x22 <= op && op <= 0x25 {
        Some(((op - 0x22) as usize, Width::Narrow))
    } else if 0x26 <= op && op <= 0x29 {
        Some(((op - 0x26) as usize, Width::Wide))
    } else if 0x2a <= op && op <= 0x2d {
        Some(((op - 0x2a) as usize, Width::Cell))
    } else {
        None
    }
}

/// The cell `v` as it is pushed in the way `w`.
pub open spec fn pushed_as(v: u64, w: Width) -> Pushed {
    match w {
        Width::Narrow => Pushed { v: low32(v) as u64, wide: false },
        Width::Wide => Pushed { v, wide: true },
        Width::Cell => Pushed { v, wide: false },
    }
}

/// The cell `v` as it is pushed in the way `w`.
pub fn push_as(v: u64, w: Width) -> (r: Pushed)
    ensures
        r == pushed_as(v, w),
{
    match w {
        Width::Narrow => Pushed { v: low(v) as u64, wide: false },
        Width::Wide => Pushed { v, wide: true },
        Width::Cell => Pushed { v, wide: false },
    }
}

/// The element of an array as a load instruction pushes it: the low 32
/// bits for `iaload` and `faload`, the whole for `laload`, `daload` and
/// `aaload`, the low byte for `baload`, the low 16 bits for `caload`
/// and `saload`.
pub open spec fn pushed_element(op: u8, v: u64) -> Pushed {
    if op == 0x2e || op == 0x30 {
        Pushed { v: low32(v) as u64, wide: false }
    } else if op == 0x2f || op == 0x31 {
        Pushed { v, wide: true }
    } else if op == 0x32 {
        Pushed { v, wide: false }
    } else if op == 0x33 {
        Pushed { v: (v % 0x100) as u64, wide: false }
    } else {
        Pushed { v: (v % 0x1_0000) as u64, wide: false }
    }
}

/// What a load instruction makes of the frame `f` over the heap `heap`.
/// A load of a local variable pushes it; a load from an array takes
/// the index and the reference off and pushes the element.
pub open spec fn load_effect(ins: InsView, f: FrameView, heap: &Heap) -> Result<
    FrameView,
    VmError,
> {
    match loaded_local(ins) {
        Some((i, w)) => if i >= f.locals.len() {
            Err(VmError::LocalIndex)
        } else {
            replace_at(f, ins.next, 0, pushed_as(f.locals[i], w))
        },
        None => if 0x2e <= ins.op <= 0x35 {
            if f.depth < 2 {
                Err(VmError::OperandStack)
            } else {
                match heap.access(f.peek(2), low32(f.peek(1)) as int) {
                    Err(e) => Err(e),
                    Ok(_) => replace_at(
                        f,
                        ins.next,
                        2,
                        pushed_element(
                            ins.op,
                            heap.obj(f.peek(2)).data.cells()[low32(f.peek(1)) as int],
                        ),
                    ),
                }
            }
        } else {
            Err(VmError::UnknownOpcode)
        },
    }
}

/// Executes a load instruction on the current frame.
pub fn load(ins: &Ins, st: &mut JStack, heap: &Heap) -> (r: Result<(), VmError>)
    requires
        old(st).wf(),
        old(st)@.len() > 0,
    ensures
        final(st).wf(),
        match load_effect(ins@, old(st).top(), heap) {
            Ok(f) => r is Ok && final(st)@ == with_top(old(st)@, f),
            Err(e) => r == Err::<(), VmError>(e) && final(st)@ == old(st)@,
        },
{
    match load_operand(ins) {
        Some((i, w)) => {
            if i >= st.max_locals() {
                return Err(VmError::LocalIndex);
            }
            let v: u64 = st.get_local(i);
            replace_and_go(st, ins.next, 0, push_as(v, w))
        },
        None => {
            let op: u8 = ins.op;
            if op < 0x2e || op > 0x35 {
                return Err(VmError::UnknownOpcode);
            }
            if st.depth() < 2 {
                return Err(VmError::OperandStack);
            }
            let i: usize = low(st.peek(1)) as usize;
            let obj: u64 = st.peek(2);
            let v: u64 = match heap.load(obj, i) {
                Ok(v) => v,
                Err(e) => {
                    return Err(e);
                },
            };
            let p: Pushed = if op == 0x2e || op == 0x30 {
                Pushed { v: low(v) as u64, wide: false }
            } else if op == 0x2f || op == 0x31 {
                Pushed { v, wide: true }
            } else if op == 0x32 {
                Pushed { v, wide: false }
            } else if op == 0x33 {
                Pushed { v: v % 0x100, wide: false }
            } else {
                Pushed { v: v % 0x1_0000, wide: false }
            };
            replace_and_go(st, ins.next, 2, p)
        },
    }
}

} // verus!
