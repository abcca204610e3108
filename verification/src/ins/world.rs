//! What the instructions that use symbolic references share: the
//! resolution of a reference of the current class.

use vstd::prelude::*;
use vstd::string::*;
use vstd::utf8::encode_utf8;
use crate::class::ClassLoader;
use crate::cp::{RefKind, pool_member};
use crate::desc::{JTypeDescriptor, spec_slots};
use crate::error::VmError;
use crate::frame::JStack;
use crate::heap::Heap;
use crate::ins::load::Width;
use crate::loader::Entry;
use crate::resolve::{Resolved, filled, ref_loaded, ref_post, resolved_of};

verus! {

/// Whether `res` is what resolving slot `i` of class `cur` gave, as a
/// class reference where `k` is `None` and as a member reference of
/// kind `k` else, and `mid` and `mid_heap` what the resolution left of
/// `pre` and `pre_heap`. A member that was not kept before is the one
/// that a search of kind `k` finds.
pub open spec fn resolved(
    k: Option<RefKind>,
    pre: &ClassLoader,
    pre_heap: &Heap,
    cur: int,
    i: int,
    mid: &ClassLoader,
    mid_heap: &Heap,
    res: Resolved,
) -> bool {
    &&& ref_post(pre, pre_heap, cur, i, mid, mid_heap, Ok(res))
    &&& mid.wf()
    &&& mid_heap.wf()
    &&& mid_heap.extends(pre_heap)
    &&& mid.evolves_from(pre)
    &&& res.class < mid.classes@.len()
    &&& k is Some && pre.cached(cur, i) is None ==> res.member == mid.spec_lookup(
        k.unwrap(),
        res.class as int,
        mid.cached(cur, i).unwrap().name@,
        mid.cached(cur, i).unwrap().desc@,
    )
}

/// Whether slot `i` of class `cur` holds a reference that was resolved
/// before, to a class of the table.
pub open spec fn kept(loader: &ClassLoader, cur: int, i: int) -> bool {
    loader.cached(cur, i) is Some && loader.cached(cur, i).unwrap().class < loader.classes@.len()
}

/// What the reference that slot `i` of class `cur` holds was resolved
/// to.
pub open spec fn kept_ref(loader: &ClassLoader, cur: int, i: int) -> Resolved {
    resolved_of(loader.cached(cur, i).unwrap())
}

/// Whether `res` and `mid` are what the first resolution of slot `i` of
/// class `cur` in the table `pre` gave, with nothing to load: the
/// reference is resolved to `res` and kept in its slot, and the heap is
/// as it was.
pub open spec fn first(
    k: Option<RefKind>,
    pre: &ClassLoader,
    pre_heap: &Heap,
    cur: int,
    i: int,
    mid: &ClassLoader,
    res: Resolved,
) -> bool {
    resolved(k, pre, pre_heap, cur, i, mid, pre_heap, res) && filled(pre, mid, k, cur, i)
}

/// Resolves slot `i` of class `cur`, as a class reference where `k` is
/// `None` and as a member reference of kind `k` else. A reference that
/// was resolved before is answered from its slot, and nothing changes;
/// a reference to a class that is loaded is resolved without fail.
pub fn resolve<E: Entry>(
    k: Option<RefKind>,
    heap: &mut Heap,
    loader: &mut ClassLoader,
    entry: &E,
    cur: usize,
    i: usize,
) -> (r: Result<Resolved, VmError>)
    requires
        old(heap).wf(),
        old(loader).wf(),
    ensures
        final(heap).wf(),
        final(loader).wf(),
        final(heap).extends(old(heap)),
        final(loader).evolves_from(old(loader)),
        r is Ok ==> resolved(
            k,
            old(loader),
            old(heap),
            cur as int,
            i as int,
            final(loader),
            final(heap),
            r.unwrap(),
        ),
        kept(old(loader), cur as int, i as int) ==> r == Ok::<Resolved, VmError>(
            kept_ref(old(loader), cur as int, i as int),
        ) && *final(loader) == *old(loader) && *final(heap) == *old(heap),
        r is Ok && old(loader).cached(cur as int, i as int) is None ==> filled(
            old(loader),
            final(loader),
            k,
            cur as int,
            i as int,
        ),
        ref_loaded(old(loader), k, cur as int, i as int) ==> r is Ok && *final(heap) == *old(heap),
{
    let r = match k {
        None => heap.class_ref(loader, entry, cur, i),
        Some(kind) => heap.member_ref(loader, entry, kind, cur, i),
    };
    match r {
        Ok(res) => {
            proof {
                if old(loader).cached(cur as int, i as int) is None {
                    let sym = loader.cached(cur as int, i as int).unwrap();
                    match k {
                        None => {
                            loader.lemma_found_valid(sym.name@, 0);
                        },
                        Some(kind) => {
                            let m = pool_member(old(loader).classes@[cur as int].cp@, kind, i as int);
                            loader.lemma_found_valid(m.unwrap().0, 0);
                        },
                    }
                }
            }
            if res.class >= loader.classes.len() {
                return Err(VmError::InvalidReference);
            }
            Ok(res)
        },
        Err(e) => Err(e),
    }
}

/// The way in which a value of the field descriptor `desc` lies on the
/// operand stack: the low half of one cell for a narrow primitive, two
/// cells for a wide one, one cell for a reference.
pub open spec fn spec_width(desc: Seq<char>) -> Width {
    let s = spec_slots(encode_utf8(desc));
    if s == 1 {
        Width::Narrow
    } else if s == 2 {
        Width::Wide
    } else {
        Width::Cell
    }
}

/// The way in which a value of the field descriptor `desc` lies on the
/// operand stack.
pub fn width_of(desc: &str) -> (r: Width)
    ensures
        r == spec_width(desc@),
{
    let s: i32 = desc.slots();
    if s == 1 {
        Width::Narrow
    } else if s == 2 {
        Width::Wide
    } else {
        Width::Cell
    }
}

/// The class of the method that runs in the current frame.
pub fn current_class(st: &JStack) -> (r: usize)
    requires
        st@.len() > 0,
    ensures
        r == st.top().method.class,
{
    st.cur_frame().method.class
}

} // verus!
