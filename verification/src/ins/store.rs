//! Stores: from the operand stack into a local variable or into an
//! array.

use vstd::prelude::*;
use crate::error::VmError;
use crate::frame::{FrameView, JStack, with_top};
use crate::heap::Heap;
use crate::ins::alu::{low, low32};
use crate::ins::decode::{Ins, InsView};
use crate::ins::load::Width;

verus! {

/// The local variable that a store instruction writes and the way it
/// takes the value off the stack; `None` for any other opcode.
pub open spec fn stored_local(ins: InsView) -> Option<(int, Width)> {
    let op = ins.op;
    if op == 0x36 || op == 0x38 {
        Some((ins.a as int, Width::Narrow))
    } else if op == 0x37 || op == 0x39 {
        Some((ins.a as int, Width::Wide))
    } else if op == 0x3a {
        Some((ins.a as int, Width::Cell))
    } else if 0x3b <= op <= 0x3e {
        Some((op - 0x3b, Width::Narrow))
    } else if 0x3f <= op <= 0x42 {
        Some((op - 0x3f, Width::Wide))
    } else if 0x43 <= op <= 0x46 {
        Some((op - 0x43, Width::Narrow))
    } else if 0x47 <= op <= 0x4a {
        Some((op - 0x47, Width::Wide))
    } else if 0x4b <= op <= 0x4e {
        Some((op - 0x4b, Width::Cell))
    } else {
        None
    }
}

/// The local variable that a store instruction writes and the way it
/// takes the value off the stack.
pub fn store_operand(ins: &Ins) -> (r: Option<(usize, Width)>)
    ensures
        match stored_local(ins@) {
            Some((i, w)) => r == Some((i as usize, w)),
            None => r is None,
        },
{
    let op: u8 = ins.op;
    if op == 0x36 || op == 0x38 {
        Some((ins.a as usize, Width::Narrow))
    } else if op == 0x37 || op == 0x39 {
        Some((ins.a as usize, Width::Wide))
    } else if op == 0x3a {
        Some((ins.a as usize, Width::Cell))
    } else if 0x3b <= op && op <= 0x3e {
        Some(((op - 0x3b) as usize, Width::Narrow))
    } else if 0x3f <= op && op <= 0x42 {
        Some(((op - 0x3f) as usize, Width::Wide))
    } else if 0x43 <= op && op <= 0x46 {
        Some(((op - 0x43) as usize, Width::Narrow))
    } else if 0x47 <= op && op <= 0x4a {
        Some(((op - 0x47) as usize, Width::Wide))
    } else if 0x4b <= op && op <= 0x4e {
        Some(((op - 0x4b) as usize, Width::Cell))
    } else {
        None
    }
}

/// How many cells a value takes that is taken off the stack in the way
/// `w`.
pub open spec fn cells_of(w: Width) -> int {
    if w == Width::Wide {
        2
    } else {
        1
    }
}

/// The value on top of the frame `f` as it is taken off in the way `w`.
pub open spec fn popped_as(f: FrameView, w: Width) -> u64 {
    match w {
        Width::Narrow => low32(f.peek(1)) as u64,
        Width::Wide => f.peek(2),
        Width::Cell => f.peek(1),
    }
}

/// The value on top of the current frame as it is taken off in the way
/// `w`; it stays on the stack.
pub fn top_as(st: &JStack, w: Width) -> (r: u64)
    requires
        st.wf(),
        st@.len() > 0,
        st.top().depth >= cells_of(w),
    ensures
        r == popped_as(st.top(), w),
{
    match w {
        Width::Narrow => low(st.peek(1)) as u64,
        Width::Wide => st.peek(2),
        Width::Cell => st.peek(1),
    }
}

/// What a store into a local variable makes of the frame `f`.
pub open spec fn store_local_effect(ins: InsView, f: FrameView) -> Result<FrameView, VmError> {
    match stored_local(ins) {
        Some((i, w)) => if f.depth < cells_of(w) {
            Err(VmError::OperandStack)
        } else if i >= f.locals.len() {
            Err(VmError::LocalIndex)
        } else {
            Ok(f.drop(cells_of(w) as nat).set_local(i, popped_as(f, w)).at_pc(ins.next))
        },
        None => Err(VmError::UnknownOpcode),
    }
}

/// The way in which an array store takes its value off the stack: 64
/// bits for `lastore` and `dastore`, a cell for `aastore`, the low
/// half of a cell for the others.
pub open spec fn element_width(op: u8) -> Width {
    if op == 0x50 || op == 0x52 {
        Width::Wide
    } else if op == 0x53 {
        Width::Cell
    } else {
        Width::Narrow
    }
}

/// The value that an array store hands to the heap: what it took off
/// the stack, cut to a byte for `bastore` and to 16 bits for `sastore`.
pub open spec fn stored_element(op: u8, f: FrameView) -> u64 {
    let v = popped_as(f, element_width(op));
    if op == 0x54 {
        (v % 0x100) as u64
    } else if op == 0x56 {
        (v % 0x1_0000) as u64
    } else {
        v
    }
}

/// The operands of an array store on the frame `f`: the reference, the
/// index and the value. The reference lies below the index and the
/// index below the value.
pub open spec fn array_store_operands(op: u8, f: FrameView) -> Result<(u64, int, u64), VmError> {
    let c = cells_of(element_width(op));
    if f.depth < c + 2 {
        Err(VmError::OperandStack)
    } else {
        Ok((f.peek(c + 2), low32(f.peek(c + 1)) as int, stored_element(op, f)))
    }
}

/// Executes a store into a local variable on the current frame.
pub fn store_local(ins: &Ins, st: &mut JStack) -> (r: Result<(), VmError>)
    requires
        old(st).wf(),
        old(st)@.len() > 0,
    ensures
        final(st).wf(),
        match store_local_effect(ins@, old(st).top()) {
            Ok(f) => r is Ok && final(st)@ == with_top(old(st)@, f),
            Err(e) => r == Err::<(), VmError>(e) && final(st)@ == old(st)@,
        },
{
    match store_operand(ins) {
        Some((i, w)) => {
            let c: usize = if w == Width::Wide {
                2
            } else {
                1
            };
            if st.depth() < c {
                return Err(VmError::OperandStack);
            }
            if i >= st.max_locals() {
                return Err(VmError::LocalIndex);
            }
            let v: u64 = top_as(st, w);
            st.drop(c);
            st.set_local(i, v);
            st.set_next_pc(ins.next);
            proof {
                assert(st@ =~= with_top(
                    old(st)@,
                    store_local_effect(ins@, old(st).top()).unwrap(),
                ));
            }
            Ok(())
        },
        None => Err(VmError::UnknownOpcode),
    }
}

/// Executes a store instruction. A store into a local variable changes
/// the current frame alone. A store into an array takes the value, the
/// index and the reference off the stack and stores the value in the
/// heap; where the heap refuses, nothing changes.
pub fn store(ins: &Ins, st: &mut JStack, heap: &mut Heap) -> (r: Result<(), VmError>)
    requires
        old(st).wf(),
        old(st)@.len() > 0,
        old(heap).wf(),
    ensures
        final(st).wf(),
        final(heap).wf(),
        !(0x4f <= ins.op <= 0x56) ==> *final(heap) == *old(heap) && match store_local_effect(
            ins@,
            old(st).top(),
        ) {
            Ok(f) => r is Ok && final(st)@ == with_top(old(st)@, f),
            Err(e) => r == Err::<(), VmError>(e) && final(st)@ == old(st)@,
        },
        0x4f <= ins.op <= 0x56 ==> match array_store_operands(ins.op, old(st).top()) {
            Err(e) => r == Err::<(), VmError>(e) && final(st)@ == old(st)@ && *final(heap) == *old(heap),
            Ok((obj, i, v)) => match old(heap).access(obj, i) {
                Err(e) => r == Err::<(), VmError>(e) && final(st)@ == old(st)@ && *final(heap)
                    == *old(heap),
                Ok(_) => r is Ok && Heap::stored(old(heap), final(heap), obj, i, v) && final(st)@
                    == with_top(
                    old(st)@,
                    old(st).top().drop((cells_of(element_width(ins.op)) + 2) as nat).at_pc(
                        ins.next,
                    ),
                ),
            },
        },
{
    let op: u8 = ins.op;
    if op < 0x4f || op > 0x56 {
        return store_local(ins, st);
    }
    let w: Width = if op == 0x50 || op == 0x52 {
        Width::Wide
    } else if op == 0x53 {
        Width::Cell
    } else {
        Width::Narrow
    };
    let c: usize = if op == 0x50 || op == 0x52 {
        2
    } else {
        1
    };
    if st.depth() < c + 2 {
        return Err(VmError::OperandStack);
    }
    let raw: u64 = top_as(st, w);
    let v: u64 = if op == 0x54 {
        raw % 0x100
    } else if op == 0x56 {
        raw % 0x1_0000
    } else {
        raw
    };
    let i: usize = low(st.peek(c + 1)) as usize;
    let obj: u64 = st.peek(c + 2);
    match heap.store(obj, i, v) {
        Ok(_) => {},
        Err(e) => {
            return Err(e);
        },
    }
    st.drop(c + 2);
    st.set_next_pc(ins.next);
    proof {
        assert(st@ =~= with_top(
            old(st)@,
            old(st).top().drop((cells_of(element_width(ins.op)) + 2) as nat).at_pc(ins.next),
        ));
    }
    Ok(())
}

} // verus!
