//! The instruction with which a native method calls its host function.

use vstd::prelude::*;
use crate::error::VmError;
use crate::frame::{JStack, MemberRef, with_top};
use crate::ins::decode::Ins;
use crate::link::OP_NATIVE;

verus! {

/// Executes an instruction of the reserved range. The one that stands
/// at the start of every native method lets the frame go on behind it
/// and answers the method whose host function is to be called with the
/// frame; any other is unknown.
pub fn other(ins: &Ins, st: &mut JStack) -> (r: Result<MemberRef, VmError>)
    requires
        old(st).wf(),
        old(st)@.len() > 0,
    ensures
        final(st).wf(),
        ins.op == OP_NATIVE ==> r == Ok::<MemberRef, VmError>(old(st).top().method) && final(st)@
            == with_top(old(st)@, old(st).top().at_pc(ins.next)),
        ins.op != OP_NATIVE ==> r == Err::<MemberRef, VmError>(VmError::UnknownOpcode) && final(st)@ == old(st)@,
{
    if ins.op != OP_NATIVE {
        return Err(VmError::UnknownOpcode);
    }
    let m: MemberRef = st.cur_frame().method;
    st.set_next_pc(ins.next);
    Ok(m)
}

} // verus!
