//! Objects and arrays: creation, length, type tests and monitors.

use vstd::prelude::*;
use vstd::string::*;
use crate::arrays::{
    arrays_loaded, dims_loaded, inner_made, kind_of_name, lemma_arrays_loaded_kept,
    lemma_dims_loaded_kept, level_made,
};
use crate::cp::pool_class;
use crate::loader::same_shape;
use crate::class::ClassLoader;
use crate::error::VmError;
use crate::frame::{FrameView, JStack, with_top, zeros};
use crate::heap::{Heap, kind_width};
use crate::ins::alu::{low, low32};
use crate::ins::decode::{Ins, InsView};
use crate::ins::value::{Pushed, replace_and_go, replace_at};
use crate::ins::world::{current_class, first, kept, kept_ref, resolve, resolved};
use crate::loader::Entry;
use crate::reader::{signed32, to_i32};
use crate::resolve::{Resolved, class_loaded, ref_loaded};
use crate::thread::{JThread, fits_init, init_done, needs_init};

verus! {

/// What `new` does once its class reference is resolved to `res`, and
/// how it ends: with no room for the reference it fails and changes
/// nothing; a class that is not initialized is initialized and the
/// instruction is left to be executed once more, which fails only
/// where the frames of the initializers cannot be pushed; else an
/// object of the class is made, with one zero field for each instance
/// field, and the reference to it is pushed.
pub open spec fn new_acted(
    ins: InsView,
    res: Resolved,
    pre: Seq<FrameView>,
    mid: &ClassLoader,
    mid_heap: &Heap,
    post: Seq<FrameView>,
    post_loader: &ClassLoader,
    post_heap: &Heap,
    r: Result<(), VmError>,
) -> bool {
    let f = pre.last();
    let same = *post_heap == *mid_heap && *post_loader == *mid && post == pre;
    if !f.room(1) {
        r == Err::<(), VmError>(VmError::OperandStack) && same
    } else if needs_init(mid, res.class as int) {
        if fits_init(mid, pre, res.class as int) {
            r is Ok && *post_heap == *mid_heap && init_done(
                mid,
                pre,
                ins.pc,
                res.class as int,
                post_loader,
                post,
            )
        } else {
            r == Err::<(), VmError>(VmError::StackOverflow) && same
        }
    } else if res.class >= mid.classes@.len() {
        r == Err::<(), VmError>(VmError::InvalidReference) && same
    } else {
        let o = post_heap.objects@.len() as u64;
        &&& r is Ok
        &&& *post_loader == *mid
        &&& post_heap.extends(mid_heap)
        &&& post_heap.objects@.len() == mid_heap.objects@.len() + 1
        &&& post_heap.string_pool == mid_heap.string_pool
        &&& post_heap.obj(o).is_fresh(
            res.class,
            8,
            mid.classes@[res.class as int].ins_fields@.len() as usize,
        )
        &&& post == with_top(pre, f.push1(o).at_pc(ins.next))
    }
}

/// What a `new` that succeeded did.
pub open spec fn new_post(
    ins: InsView,
    pre: Seq<FrameView>,
    pre_loader: &ClassLoader,
    pre_heap: &Heap,
    post: Seq<FrameView>,
    post_loader: &ClassLoader,
    post_heap: &Heap,
) -> bool {
    exists|mid: ClassLoader, mid_heap: Heap, res: Resolved| #[trigger]
        resolved(
            None,
            pre_loader,
            pre_heap,
            pre.last().method.class as int,
            ins.a as int,
            &mid,
            &mid_heap,
            res,
        ) && new_acted(ins, res, pre, &mid, &mid_heap, post, post_loader, post_heap, Ok(()))
}

/// What a `new` that resolves its reference for the first time, with
/// nothing to load, leaves, and how it ends: the reference is resolved
/// and kept as `first` says, and the rest is what `new_acted` says for
/// the resolution.
pub open spec fn new_first(
    ins: InsView,
    pre: Seq<FrameView>,
    pre_loader: &ClassLoader,
    pre_heap: &Heap,
    post: Seq<FrameView>,
    post_loader: &ClassLoader,
    post_heap: &Heap,
    r: Result<(), VmError>,
) -> bool {
    exists|mid: ClassLoader, res: Resolved| #[trigger]
        first(
            None,
            pre_loader,
            pre_heap,
            pre.last().method.class as int,
            ins.a as int,
            &mid,
            res,
        ) && new_acted(ins, res, pre, &mid, pre_heap, post, post_loader, post_heap, r)
}

/// The outcome `mid`, `res` of a first resolution shows what
/// `new_first` says.
pub proof fn lemma_new_first(
    ins: InsView,
    pre: Seq<FrameView>,
    pre_loader: &ClassLoader,
    pre_heap: &Heap,
    mid: ClassLoader,
    res: Resolved,
    post: Seq<FrameView>,
    post_loader: &ClassLoader,
    post_heap: &Heap,
    r: Result<(), VmError>,
)
    requires
        first(
            None,
            pre_loader,
            pre_heap,
            pre.last().method.class as int,
            ins.a as int,
            &mid,
            res,
        ),
        new_acted(ins, res, pre, &mid, pre_heap, post, post_loader, post_heap, r),
    ensures
        new_first(ins, pre, pre_loader, pre_heap, post, post_loader, post_heap, r),
{
}

/// What a `new` leaves, and how it ends: after a success what
/// `new_post` says; and with a reference that was resolved before,
/// whatever the end, what `new_acted` says of it.
pub open spec fn new_done(
    ins: InsView,
    pre: Seq<FrameView>,
    pre_loader: &ClassLoader,
    pre_heap: &Heap,
    post: Seq<FrameView>,
    post_loader: &ClassLoader,
    post_heap: &Heap,
    r: Result<(), VmError>,
) -> bool {
    let cur = pre.last().method.class as int;
    let i = ins.a as int;
    &&& r is Ok ==> new_post(ins, pre, pre_loader, pre_heap, post, post_loader, post_heap)
    &&& kept(pre_loader, cur, i) ==> new_acted(
        ins,
        kept_ref(pre_loader, cur, i),
        pre,
        pre_loader,
        pre_heap,
        post,
        post_loader,
        post_heap,
        r,
    )
    &&& ref_loaded(pre_loader, None, cur, i) ==> new_first(
        ins,
        pre,
        pre_loader,
        pre_heap,
        post,
        post_loader,
        post_heap,
        r,
    )
    &&& r is Err ==> post == pre
}

/// The outcome `mid`, `mid_heap`, `res` of the resolution shows that a
/// `new` did what `new_post` says.
pub proof fn lemma_new_post(
    ins: InsView,
    pre: Seq<FrameView>,
    pre_loader: &ClassLoader,
    pre_heap: &Heap,
    mid: ClassLoader,
    mid_heap: Heap,
    res: Resolved,
    post: Seq<FrameView>,
    post_loader: &ClassLoader,
    post_heap: &Heap,
)
    requires
        resolved(
            None,
            pre_loader,
            pre_heap,
            pre.last().method.class as int,
            ins.a as int,
            &mid,
            &mid_heap,
            res,
        ),
        new_acted(ins, res, pre, &mid, &mid_heap, post, post_loader, post_heap, Ok(())),
    ensures
        new_post(ins, pre, pre_loader, pre_heap, post, post_loader, post_heap),
{
}

/// Executes a `new` whose class reference is resolved to `res`.
pub fn new_with(
    ins: &Ins,
    th: &mut JThread,
    heap: &mut Heap,
    loader: &mut ClassLoader,
    res: Resolved,
) -> (r: Result<(), VmError>)
    requires
        old(th).stack.wf(),
        old(th).stack@.len() > 0,
        old(th).pc == ins.pc,
        old(heap).wf(),
        old(loader).wf(),
    ensures
        final(th).stack.wf(),
        final(th).pc == old(th).pc,
        final(heap).wf(),
        final(loader).wf(),
        final(heap).evolves_from(old(heap)),
        final(loader).evolves_from(old(loader)),
        new_acted(
            ins@,
            res,
            old(th).stack@,
            old(loader),
            old(heap),
            final(th).stack@,
            final(loader),
            final(heap),
            r,
        ),
{
    proof {
        heap.lemma_extends_evolves(old(heap));
        loader.lemma_classes_evolve(old(loader));
    }
    if th.stack.room() < 1 {
        return Err(VmError::OperandStack);
    }
    match th.clinit(loader, res.class) {
        Ok(started) => {
            if started {
                proof {
                    loader.lemma_classes_evolve(old(loader));
                }
                return Ok(());
            }
        },
        Err(e) => {
            proof {
                loader.lemma_classes_evolve(old(loader));
            }
            return Err(e);
        },
    }
    let o: u64 = match heap.new_obj(loader, res.class) {
        Some(o) => o,
        None => {
            return Err(VmError::InvalidReference);
        },
    };
    th.stack.push_slot(o);
    th.stack.set_next_pc(ins.next);
    proof {
        heap.lemma_extends_evolves(old(heap));
        assert(th.stack@ =~= with_top(
            old(th).stack@,
            old(th).stack.top().push1(o).at_pc(ins.next),
        ));
    }
    Ok(())
}

/// Executes `new`: the class reference is resolved, and the rest is
/// done as `new_with` does it.
pub fn new_object<E: Entry>(
    ins: &Ins,
    th: &mut JThread,
    heap: &mut Heap,
    loader: &mut ClassLoader,
    entry: &E,
) -> (r: Result<(), VmError>)
    requires
        old(th).stack.wf(),
        old(th).stack@.len() > 0,
        old(th).pc == ins.pc,
        old(heap).wf(),
        old(loader).wf(),
    ensures
        final(th).stack.wf(),
        final(th).pc == old(th).pc,
        final(heap).wf(),
        final(loader).wf(),
        final(heap).evolves_from(old(heap)),
        final(loader).evolves_from(old(loader)),
        new_done(
            ins@,
            old(th).stack@,
            old(loader),
            old(heap),
            final(th).stack@,
            final(loader),
            final(heap),
            r,
        ),
{
    let cur: usize = current_class(&th.stack);
    let res: Resolved = match resolve(None, heap, loader, entry, cur, ins.a as usize) {
        Ok(r) => r,
        Err(e) => {
            proof {
                heap.lemma_extends_evolves(old(heap));
            }
            return Err(e);
        },
    };
    let ghost mid = *loader;
    let ghost mid_heap = *heap;
    let r = new_with(ins, th, heap, loader, res);
    proof {
        mid_heap.lemma_extends_evolves(old(heap));
        heap.lemma_evolves_trans(&mid_heap, old(heap));
        loader.lemma_evolves_trans(&mid, old(loader));
        if ref_loaded(old(loader), None, old(th).stack.top().method.class as int, ins.a as int) {
            lemma_new_first(
                ins@,
                old(th).stack@,
                old(loader),
                old(heap),
                mid,
                res,
                th.stack@,
                loader,
                heap,
                r,
            );
        }
        if r is Ok {
            lemma_new_post(
                ins@,
                old(th).stack@,
                old(loader),
                old(heap),
                mid,
                mid_heap,
                res,
                th.stack@,
                loader,
                heap,
            );
        }
    }
    r
}

/// The length that an array-creating instruction finds on top of the
/// frame `f`; an error where there is none or it is negative.
pub open spec fn array_count(f: FrameView) -> Result<int, VmError> {
    if f.depth < 1 {
        Err(VmError::OperandStack)
    } else if signed32(low32(f.peek(1)) as int) < 0 {
        Err(VmError::NegativeArraySize)
    } else {
        Ok(signed32(low32(f.peek(1)) as int))
    }
}

/// Reads the length for an array off the current frame without taking
/// it.
pub fn count_of(st: &JStack) -> (r: Result<usize, VmError>)
    requires
        st.wf(),
        st@.len() > 0,
    ensures
        match array_count(st.top()) {
            Ok(n) => r == Ok::<usize, VmError>(n as usize),
            Err(e) => r == Err::<usize, VmError>(e),
        },
{
    if st.depth() < 1 {
        return Err(VmError::OperandStack);
    }
    let n: i32 = to_i32(low(st.peek(1)));
    if n < 0 {
        return Err(VmError::NegativeArraySize);
    }
    Ok(n as usize)
}

/// What `newarray` leaves: the length is taken off, an array of that
/// many zero elements of the primitive kind `atype - 4` is made, and
/// the reference to it is pushed. An error changes nothing.
pub open spec fn newarray_post(
    ins: InsView,
    pre: Seq<FrameView>,
    pre_heap: &Heap,
    post: Seq<FrameView>,
    post_heap: &Heap,
    r: Result<(), VmError>,
) -> bool {
    let f = pre.last();
    let id = ins.a as int - 4;
    match array_count(f) {
        Err(e) => r == Err::<(), VmError>(e) && post == pre && *post_heap == *pre_heap,
        Ok(n) => if !(0 <= id < crate::heap::PRIMITIVE_N && id < pre_heap.primitive_array@.len()) {
            r == Err::<(), VmError>(VmError::ClassFormat) && post == pre && *post_heap
                == *pre_heap
        } else {
            let o = post_heap.objects@.len() as u64;
            &&& r is Ok
            &&& post_heap.extends(pre_heap)
            &&& post_heap.objects@.len() == pre_heap.objects@.len() + 1
            &&& post_heap.string_pool == pre_heap.string_pool
            &&& post_heap.obj(o).is_fresh(
                pre_heap.primitive_array@[id],
                kind_width(id),
                n as usize,
            )
            &&& post == with_top(pre, f.drop(1).push1(o).at_pc(ins.next))
        },
    }
}

/// Executes `newarray`.
pub fn newarray(ins: &Ins, st: &mut JStack, heap: &mut Heap) -> (r: Result<(), VmError>)
    requires
        old(st).wf(),
        old(st)@.len() > 0,
        old(heap).wf(),
    ensures
        final(st).wf(),
        final(heap).wf(),
        final(heap).extends(old(heap)),
        newarray_post(ins@, old(st)@, old(heap), final(st)@, final(heap), r),
{
    let n: usize = match count_of(st) {
        Ok(n) => n,
        Err(e) => {
            return Err(e);
        },
    };
    if ins.a < 4 || ins.a >= 12 {
        return Err(VmError::ClassFormat);
    }
    let id: i32 = (ins.a - 4) as i32;
    let o: u64 = match heap.new_primitive_array(id, n) {
        Ok(o) => o,
        Err(e) => {
            return Err(e);
        },
    };
    proof {
        st.lemma_depth_bounded(st@.len() - 1);
    }
    st.drop(1);
    st.push_slot(o);
    st.set_next_pc(ins.next);
    proof {
        assert(st@ =~= with_top(old(st)@, old(st).top().drop(1).push1(o).at_pc(ins.next)));
    }
    Ok(())
}

/// What `arraylength` makes of the frame `f`: the reference is taken
/// off and the length of the array behind it is pushed.
pub open spec fn arraylength_effect(ins: InsView, f: FrameView, heap: &Heap) -> Result<
    FrameView,
    VmError,
> {
    if f.depth < 1 {
        Err(VmError::OperandStack)
    } else if f.peek(1) == 0 {
        Err(VmError::NullPointer)
    } else if !heap.valid_ref(f.peek(1)) {
        Err(VmError::InvalidReference)
    } else {
        replace_at(
            f,
            ins.next,
            1,
            Pushed { v: ((heap.obj(f.peek(1)).size as int) % 0x1_0000_0000) as u64, wide: false },
        )
    }
}

/// Executes `arraylength`.
pub fn arraylength(ins: &Ins, st: &mut JStack, heap: &Heap) -> (r: Result<(), VmError>)
    requires
        old(st).wf(),
        old(st)@.len() > 0,
    ensures
        final(st).wf(),
        match arraylength_effect(ins@, old(st).top(), heap) {
            Ok(f) => r is Ok && final(st)@ == with_top(old(st)@, f),
            Err(e) => r == Err::<(), VmError>(e) && final(st)@ == old(st)@,
        },
{
    if st.depth() < 1 {
        return Err(VmError::OperandStack);
    }
    let n: usize = match heap.array_len(st.peek(1)) {
        Ok(n) => n,
        Err(e) => {
            return Err(e);
        },
    };
    let v: u64 = (n as u64) % 0x1_0000_0000;
    replace_and_go(st, ins.next, 1, Pushed { v, wide: false })
}

/// What `monitorenter` or `monitorexit` makes of the frame `f`: the
/// reference is taken off.
pub open spec fn monitor_effect(ins: InsView, f: FrameView) -> Result<FrameView, VmError> {
    if f.depth < 1 {
        Err(VmError::OperandStack)
    } else {
        Ok(f.drop(1).at_pc(ins.next))
    }
}

/// Executes `monitorenter` or `monitorexit`.
pub fn monitor(ins: &Ins, st: &mut JStack) -> (r: Result<(), VmError>)
    requires
        old(st).wf(),
        old(st)@.len() > 0,
    ensures
        final(st).wf(),
        match monitor_effect(ins@, old(st).top()) {
            Ok(f) => r is Ok && final(st)@ == with_top(old(st)@, f),
            Err(e) => r == Err::<(), VmError>(e) && final(st)@ == old(st)@,
        },
{
    if st.depth() < 1 {
        return Err(VmError::OperandStack);
    }
    st.drop(1);
    st.set_next_pc(ins.next);
    proof {
        assert(st@ =~= with_top(old(st)@, old(st).top().drop(1).at_pc(ins.next)));
    }
    Ok(())
}

/// Whether the object behind `o` can stand where class `class` is asked
/// for; a null reference can not.
pub open spec fn instance_of(loader: &ClassLoader, heap: &Heap, class: int, o: u64) -> bool {
    o != 0 && loader.spec_is_assignable(class, heap.obj(o).class as int)
}

/// What `instanceof` or `checkcast` of class `class` makes of the
/// frame `f`. `instanceof` takes the reference off and pushes 1 where
/// the object is an instance of the class, 0 where it is not or the
/// reference is null. `checkcast` leaves a null reference and an
/// instance of the class where they are; any other object is a
/// class-cast error. No operand, or a reference to nothing, is an
/// error too.
pub open spec fn type_effect(
    ins: InsView,
    class: int,
    f: FrameView,
    loader: &ClassLoader,
    heap: &Heap,
) -> Result<FrameView, VmError> {
    let o = f.peek(1);
    let inst = instance_of(loader, heap, class, o);
    if f.depth < 1 {
        Err(VmError::OperandStack)
    } else if o != 0 && !heap.valid_ref(o) {
        Err(VmError::InvalidReference)
    } else if ins.op == 0xc1 {
        Ok(
            f.drop(1).push1(
                if inst {
                    1
                } else {
                    0
                },
            ).at_pc(ins.next),
        )
    } else if o != 0 && !inst {
        Err(VmError::ClassCast)
    } else {
        Ok(f.at_pc(ins.next))
    }
}

/// What `instanceof` or `checkcast` does once its class reference is
/// resolved to `res`, and how it ends: see `type_effect`. Nothing but
/// the current frame changes.
pub open spec fn type_acted(
    ins: InsView,
    res: Resolved,
    pre: Seq<FrameView>,
    mid: &ClassLoader,
    mid_heap: &Heap,
    post: Seq<FrameView>,
    post_loader: &ClassLoader,
    post_heap: &Heap,
    r: Result<(), VmError>,
) -> bool {
    &&& *post_loader == *mid
    &&& *post_heap == *mid_heap
    &&& match type_effect(ins, res.class as int, pre.last(), mid, mid_heap) {
        Ok(g) => r is Ok && post == with_top(pre, g),
        Err(e) => r == Err::<(), VmError>(e) && post == pre,
    }
}

/// What an `instanceof` or `checkcast` that succeeded did.
pub open spec fn type_post(
    ins: InsView,
    pre: Seq<FrameView>,
    pre_loader: &ClassLoader,
    pre_heap: &Heap,
    post: Seq<FrameView>,
    post_loader: &ClassLoader,
    post_heap: &Heap,
) -> bool {
    exists|mid: ClassLoader, mid_heap: Heap, res: Resolved| #[trigger]
        resolved(
            None,
            pre_loader,
            pre_heap,
            pre.last().method.class as int,
            ins.a as int,
            &mid,
            &mid_heap,
            res,
        ) && type_acted(ins, res, pre, &mid, &mid_heap, post, post_loader, post_heap, Ok(()))
}

/// What an `instanceof` or a `checkcast` that resolves its reference for the first time, with
/// nothing to load, leaves, and how it ends: the reference is resolved
/// and kept as `first` says, and the rest is what `type_acted` says for
/// the resolution.
pub open spec fn type_first(
    ins: InsView,
    pre: Seq<FrameView>,
    pre_loader: &ClassLoader,
    pre_heap: &Heap,
    post: Seq<FrameView>,
    post_loader: &ClassLoader,
    post_heap: &Heap,
    r: Result<(), VmError>,
) -> bool {
    exists|mid: ClassLoader, res: Resolved| #[trigger]
        first(
            None,
            pre_loader,
            pre_heap,
            pre.last().method.class as int,
            ins.a as int,
            &mid,
            res,
        ) && type_acted(ins, res, pre, &mid, pre_heap, post, post_loader, post_heap, r)
}

/// The outcome `mid`, `res` of a first resolution shows what
/// `type_first` says.
pub proof fn lemma_type_first(
    ins: InsView,
    pre: Seq<FrameView>,
    pre_loader: &ClassLoader,
    pre_heap: &Heap,
    mid: ClassLoader,
    res: Resolved,
    post: Seq<FrameView>,
    post_loader: &ClassLoader,
    post_heap: &Heap,
    r: Result<(), VmError>,
)
    requires
        first(
            None,
            pre_loader,
            pre_heap,
            pre.last().method.class as int,
            ins.a as int,
            &mid,
            res,
        ),
        type_acted(ins, res, pre, &mid, pre_heap, post, post_loader, post_heap, r),
    ensures
        type_first(ins, pre, pre_loader, pre_heap, post, post_loader, post_heap, r),
{
}

/// What an `instanceof` or a `checkcast` leaves, and how it ends: after
/// a success what `type_post` says; and with a reference that was
/// resolved before, whatever the end, what `type_acted` says of it.
pub open spec fn type_done(
    ins: InsView,
    pre: Seq<FrameView>,
    pre_loader: &ClassLoader,
    pre_heap: &Heap,
    post: Seq<FrameView>,
    post_loader: &ClassLoader,
    post_heap: &Heap,
    r: Result<(), VmError>,
) -> bool {
    let cur = pre.last().method.class as int;
    let i = ins.a as int;
    &&& r is Ok ==> type_post(ins, pre, pre_loader, pre_heap, post, post_loader, post_heap)
    &&& kept(pre_loader, cur, i) ==> type_acted(
        ins,
        kept_ref(pre_loader, cur, i),
        pre,
        pre_loader,
        pre_heap,
        post,
        post_loader,
        post_heap,
        r,
    )
    &&& ref_loaded(pre_loader, None, cur, i) ==> type_first(
        ins,
        pre,
        pre_loader,
        pre_heap,
        post,
        post_loader,
        post_heap,
        r,
    )
    &&& r is Err ==> post == pre
}

/// The outcome `mid`, `mid_heap`, `res` of the resolution shows that a
/// type test did what `type_post` says.
pub proof fn lemma_type_post(
    ins: InsView,
    pre: Seq<FrameView>,
    pre_loader: &ClassLoader,
    pre_heap: &Heap,
    mid: ClassLoader,
    mid_heap: Heap,
    res: Resolved,
    post: Seq<FrameView>,
    post_loader: &ClassLoader,
    post_heap: &Heap,
)
    requires
        resolved(
            None,
            pre_loader,
            pre_heap,
            pre.last().method.class as int,
            ins.a as int,
            &mid,
            &mid_heap,
            res,
        ),
        type_acted(ins, res, pre, &mid, &mid_heap, post, post_loader, post_heap, Ok(())),
    ensures
        type_post(ins, pre, pre_loader, pre_heap, post, post_loader, post_heap),
{
}

/// Executes an `instanceof` or a `checkcast` of the class `class`.
pub fn type_with(ins: &Ins, st: &mut JStack, heap: &Heap, loader: &ClassLoader, class: usize) -> (r:
    Result<(), VmError>)
    requires
        old(st).wf(),
        old(st)@.len() > 0,
    ensures
        final(st).wf(),
        match type_effect(ins@, class as int, old(st).top(), loader, heap) {
            Ok(g) => r is Ok && final(st)@ == with_top(old(st)@, g),
            Err(e) => r == Err::<(), VmError>(e) && final(st)@ == old(st)@,
        },
{
    if st.depth() < 1 {
        return Err(VmError::OperandStack);
    }
    let o: u64 = st.peek(1);
    let inst: bool = if o == 0 {
        false
    } else {
        match heap.class_of(o) {
            Ok(c) => loader.is_assignable(class, c),
            Err(e) => {
                return Err(e);
            },
        }
    };
    if ins.op == 0xc1 {
        proof {
            st.lemma_depth_bounded(st@.len() - 1);
        }
        st.drop(1);
        st.push_slot(
            if inst {
                1
            } else {
                0
            },
        );
        st.set_next_pc(ins.next);
        proof {
            assert(st@ =~= with_top(
                old(st)@,
                old(st).top().drop(1).push1(
                    if inst {
                        1
                    } else {
                        0
                    },
                ).at_pc(ins.next),
            ));
        }
    } else {
        if o != 0 && !inst {
            return Err(VmError::ClassCast);
        }
        st.set_next_pc(ins.next);
    }
    Ok(())
}

/// Executes `instanceof` or `checkcast`: the class reference is
/// resolved, and the rest is done as `type_with` does it.
pub fn type_test<E: Entry>(
    ins: &Ins,
    st: &mut JStack,
    heap: &mut Heap,
    loader: &mut ClassLoader,
    entry: &E,
) -> (r: Result<(), VmError>)
    requires
        old(st).wf(),
        old(st)@.len() > 0,
        old(heap).wf(),
        old(loader).wf(),
    ensures
        final(st).wf(),
        final(heap).wf(),
        final(loader).wf(),
        final(heap).extends(old(heap)),
        final(loader).evolves_from(old(loader)),
        r is Err ==> final(st)@ == old(st)@,
        type_done(
            ins@,
            old(st)@,
            old(loader),
            old(heap),
            final(st)@,
            final(loader),
            final(heap),
            r,
        ),
{
    let cur: usize = current_class(st);
    let res: Resolved = match resolve(None, heap, loader, entry, cur, ins.a as usize) {
        Ok(r) => r,
        Err(e) => {
            return Err(e);
        },
    };
    let ghost mid = *loader;
    let ghost mid_heap = *heap;
    let r = type_with(ins, st, heap, loader, res.class);
    proof {
        if ref_loaded(old(loader), None, old(st).top().method.class as int, ins.a as int) {
            lemma_type_first(
                ins@,
                old(st)@,
                old(loader),
                old(heap),
                mid,
                res,
                st@,
                loader,
                heap,
                r,
            );
        }
        if r is Ok {
            lemma_type_post(
                ins@,
                old(st)@,
                old(loader),
                old(heap),
                mid,
                mid_heap,
                res,
                st@,
                loader,
                heap,
            );
        }
    }
    r
}

/// The class that is loaded under the name that the class reference in
/// slot `i` of the pool of class `cur` holds.
pub open spec fn named_class(loader: &ClassLoader, cur: int, i: int) -> int {
    loader.spec_find(pool_class(loader.classes@[cur].cp@, i).unwrap()).unwrap() as int
}

/// What `anewarray` does once its class reference is resolved to `res`:
/// the length is taken off, an array of that many zero cells is made,
/// and the reference to it is pushed. Where the resolved class bears
/// the name of a primitive kind the array is of that kind; else it is
/// an array of references, whose class is the one found under a
/// bracket and the descriptor of the resolved class.
pub open spec fn anewarray_acted(
    ins: InsView,
    res: Resolved,
    pre: Seq<FrameView>,
    mid: &ClassLoader,
    mid_heap: &Heap,
    post: Seq<FrameView>,
    post_loader: &ClassLoader,
    post_heap: &Heap,
) -> bool {
    let f = pre.last();
    let o = post_heap.objects@.len() as u64;
    &&& array_count(f) is Ok
    &&& post_loader.grows_from(mid)
    &&& post_heap.extends(mid_heap)
    &&& post_heap.valid_ref(o)
    &&& !mid_heap.valid_ref(o)
    &&& post_heap.obj(o).size == array_count(f).unwrap()
    &&& post_heap.obj(o).data.cells() == zeros(array_count(f).unwrap() as nat)
    &&& res.class < mid.classes@.len()
    &&& match kind_of_name(mid.classes@[res.class as int].name@) {
        Some(k) => post_heap.obj(o).data.width() == kind_width(k) && post_heap.obj(o).class
            == mid_heap.primitive_array@[k],
        None => {
            let element = post_loader.spec_find(mid.classes@[res.class as int].name@);
            &&& post_heap.obj(o).data.width() == 8
            &&& element is Some
            &&& Some(post_heap.obj(o).class) == post_loader.spec_find(
                "["@ + post_loader.classes@[element.unwrap() as int].desc@,
            )
        },
    }
    &&& post == with_top(pre, f.drop(1).push1(o).at_pc(ins.next))
}

/// What an `anewarray` that succeeded did.
pub open spec fn anewarray_post(
    ins: InsView,
    pre: Seq<FrameView>,
    pre_loader: &ClassLoader,
    pre_heap: &Heap,
    post: Seq<FrameView>,
    post_loader: &ClassLoader,
    post_heap: &Heap,
) -> bool {
    exists|mid: ClassLoader, mid_heap: Heap, res: Resolved| #[trigger]
        resolved(
            None,
            pre_loader,
            pre_heap,
            pre.last().method.class as int,
            ins.a as int,
            &mid,
            &mid_heap,
            res,
        ) && anewarray_acted(ins, res, pre, &mid, &mid_heap, post, post_loader, post_heap)
}

/// What an `anewarray` leaves, and how it ends: a length that is
/// missing or negative is an error and nothing changes; after a success
/// `anewarray_post` holds; and with the class reference resolved before
/// and the class of the array loaded the instruction succeeds, and
/// loads nothing.
pub open spec fn anewarray_done(
    ins: InsView,
    pre: Seq<FrameView>,
    pre_loader: &ClassLoader,
    pre_heap: &Heap,
    post: Seq<FrameView>,
    post_loader: &ClassLoader,
    post_heap: &Heap,
    r: Result<(), VmError>,
) -> bool {
    let cur = pre.last().method.class as int;
    let i = ins.a as int;
    &&& match array_count(pre.last()) {
        Err(e) => r == Err::<(), VmError>(e) && *post_heap == *pre_heap && *post_loader
            == *pre_loader,
        Ok(_) => {
            &&& kept(pre_loader, cur, i) && arrays_loaded(
                pre_heap,
                pre_loader,
                pre_loader.classes@[kept_ref(pre_loader, cur, i).class as int].name@,
            ) ==> r is Ok && *post_loader == *pre_loader
            &&& class_loaded(pre_loader, cur, i) && arrays_loaded(
                pre_heap,
                pre_loader,
                pre_loader.classes@[named_class(pre_loader, cur, i)].name@,
            ) ==> r is Ok
        },
    }
    &&& r is Err ==> post == pre
    &&& r is Ok ==> anewarray_post(ins, pre, pre_loader, pre_heap, post, post_loader, post_heap)
}

/// The outcome `mid`, `mid_heap`, `res` of the resolution shows that an
/// `anewarray` did what `anewarray_post` says.
pub proof fn lemma_anewarray_post(
    ins: InsView,
    pre: Seq<FrameView>,
    pre_loader: &ClassLoader,
    pre_heap: &Heap,
    mid: ClassLoader,
    mid_heap: Heap,
    res: Resolved,
    post: Seq<FrameView>,
    post_loader: &ClassLoader,
    post_heap: &Heap,
)
    requires
        resolved(
            None,
            pre_loader,
            pre_heap,
            pre.last().method.class as int,
            ins.a as int,
            &mid,
            &mid_heap,
            res,
        ),
        anewarray_acted(ins, res, pre, &mid, &mid_heap, post, post_loader, post_heap),
    ensures
        anewarray_post(ins, pre, pre_loader, pre_heap, post, post_loader, post_heap),
{
}

/// Executes `anewarray`. A length that is missing or negative is an
/// error and nothing changes. With the class reference resolved before
/// and the class of the array loaded the instruction succeeds, and
/// loads nothing.
pub fn anewarray<E: Entry>(
    ins: &Ins,
    st: &mut JStack,
    heap: &mut Heap,
    loader: &mut ClassLoader,
    entry: &E,
) -> (r: Result<(), VmError>)
    requires
        old(st).wf(),
        old(st)@.len() > 0,
        old(heap).wf(),
        old(loader).wf(),
    ensures
        final(st).wf(),
        final(heap).wf(),
        final(loader).wf(),
        final(heap).extends(old(heap)),
        final(loader).evolves_from(old(loader)),
        anewarray_done(
            ins@,
            old(st)@,
            old(loader),
            old(heap),
            final(st)@,
            final(loader),
            final(heap),
            r,
        ),
{
    let n: usize = match count_of(st) {
        Ok(n) => n,
        Err(e) => {
            proof {
                loader.lemma_classes_evolve(old(loader));
            }
            return Err(e);
        },
    };
    let cur: usize = current_class(st);
    let res: Resolved = match resolve(None, heap, loader, entry, cur, ins.a as usize) {
        Ok(r) => r,
        Err(e) => {
            return Err(e);
        },
    };
    let ghost mid = *loader;
    let ghost mid_heap = *heap;
    proof {
        let cur = old(st).top().method.class as int;
        let i = ins.a as int;
        if class_loaded(old(loader), cur, i) {
            let c = named_class(old(loader), cur, i);
            let sym = loader.cached(cur, i).unwrap();
            loader.lemma_find_stable(old(loader), sym.name@, 0);
            old(loader).lemma_found_valid(sym.name@, 0);
            assert(res.class == c);
            assert(same_shape(loader.classes@[c], old(loader).classes@[c]));
            if arrays_loaded(old(heap), old(loader), old(loader).classes@[c].name@) {
                lemma_arrays_loaded_kept(heap, loader, old(loader), old(loader).classes@[c].name@);
            }
        }
    }
    let name: String = loader.classes[res.class].name.clone();
    let o: u64 = match heap.new_array(loader, entry, name.as_str(), n) {
        Ok(o) => o,
        Err(e) => {
            proof {
                loader.lemma_grows_evolves(&mid);
                loader.lemma_evolves_trans(&mid, old(loader));
            }
            return Err(e);
        },
    };
    proof {
        st.lemma_depth_bounded(st@.len() - 1);
    }
    st.drop(1);
    st.push_slot(o);
    st.set_next_pc(ins.next);
    proof {
        loader.lemma_grows_evolves(&mid);
        loader.lemma_evolves_trans(&mid, old(loader));
        assert(st@ =~= with_top(old(st)@, old(st).top().drop(1).push1(o).at_pc(ins.next)));
        lemma_anewarray_post(
            ins@,
            old(st)@,
            old(loader),
            old(heap),
            mid,
            mid_heap,
            res,
            st@,
            loader,
            heap,
        );
    }
    Ok(())
}

/// The lengths that `multianewarray` finds in the `n` topmost cells of
/// the frame `f`, the outermost lowest; an error where there are not
/// `n` cells or one of the lengths is negative.
pub open spec fn multi_counts(f: FrameView, n: int) -> Result<Seq<int>, VmError> {
    if n < 0 || f.depth < n {
        Err(VmError::OperandStack)
    } else if exists|k: int| 0 <= k < n && signed32(low32(#[trigger] f.cells[f.depth - n + k]) as int) < 0 {
        Err(VmError::NegativeArraySize)
    } else {
        Ok(Seq::new(n as nat, |k: int| signed32(low32(f.cells[f.depth - n + k]) as int)))
    }
}

/// Reads the lengths for an array of `n` dimensions off the current
/// frame without taking them.
pub fn counts_of(st: &JStack, n: usize) -> (r: Result<Vec<usize>, VmError>)
    requires
        st.wf(),
        st@.len() > 0,
    ensures
        match multi_counts(st.top(), n as int) {
            Ok(s) => r is Ok && r.unwrap()@.len() == n && forall|k: int|
                0 <= k < n ==> r.unwrap()@[k] == s[k],
            Err(e) => r == Err::<Vec<usize>, VmError>(e),
        },
{
    let d: usize = st.depth();
    if d < n {
        return Err(VmError::OperandStack);
    }
    let mut v: Vec<usize> = Vec::with_capacity(n);
    let mut k: usize = 0;
    let ghost f = st.top();
    while k < n
        invariant
            k <= n <= d,
            st.wf(),
            st@.len() > 0,
            f == st.top(),
            d == f.depth,
            d <= f.cells.len(),
            v@.len() == k,
            forall|j: int|
                0 <= j < k ==> signed32(low32(#[trigger] f.cells[d - n + j]) as int) >= 0 && v@[j]
                    == signed32(low32(f.cells[d - n + j]) as int),
        decreases n - k,
    {
        let c: i32 = to_i32(low(st.peek(n - k)));
        if c < 0 {
            proof {
                assert(signed32(low32(f.cells[d - n + k]) as int) < 0);
            }
            return Err(VmError::NegativeArraySize);
        }
        v.push(c as usize);
        k += 1;
    }
    Ok(v)
}

/// Whether `o` is the array that a `multianewarray` with its class
/// reference resolved to `res` made and pushed: a new array of the
/// first length, what `level_made` says for the resolved class, and,
/// where a second length is given, with elements that are what
/// `inner_made` says.
pub open spec fn multi_result(
    ins: InsView,
    res: Resolved,
    pre: Seq<FrameView>,
    mid: &ClassLoader,
    mid_heap: &Heap,
    post: Seq<FrameView>,
    post_loader: &ClassLoader,
    post_heap: &Heap,
    o: u64,
) -> bool {
    let f = pre.last();
    let counts = multi_counts(f, ins.b as int).unwrap();
    &&& post_heap.valid_ref(o)
    &&& !mid_heap.valid_ref(o)
    &&& level_made(
        post_heap.obj(o),
        post_heap,
        post_loader,
        res.class as int,
        counts[0],
        counts.len() < 2,
    )
    &&& mid.classes@[res.class as int].dim != 1 && counts.len() >= 2 ==> inner_made(
        post_heap,
        mid_heap,
        post_loader,
        o,
        res.class as int,
        counts[0],
        counts[1],
        counts.len() < 3,
    )
    &&& post == with_top(pre, f.drop(ins.b as nat).push1(o).at_pc(ins.next))
}

/// What `multianewarray` does once its class reference is resolved to
/// `res`: the lengths are taken off, the arrays are made as
/// `new_multi_dim` makes them, and the reference to the outermost is
/// pushed.
pub open spec fn multi_acted(
    ins: InsView,
    res: Resolved,
    pre: Seq<FrameView>,
    mid: &ClassLoader,
    mid_heap: &Heap,
    post: Seq<FrameView>,
    post_loader: &ClassLoader,
    post_heap: &Heap,
) -> bool {
    let f = pre.last();
    let counts = multi_counts(f, ins.b as int);
    &&& counts is Ok
    &&& counts.unwrap().len() > 0
    &&& post_loader.grows_from(mid)
    &&& post_heap.extends(mid_heap)
    &&& exists|o: u64| #[trigger]
        multi_result(ins, res, pre, mid, mid_heap, post, post_loader, post_heap, o)
}

/// What a `multianewarray` that succeeded did.
pub open spec fn multi_post(
    ins: InsView,
    pre: Seq<FrameView>,
    pre_loader: &ClassLoader,
    pre_heap: &Heap,
    post: Seq<FrameView>,
    post_loader: &ClassLoader,
    post_heap: &Heap,
) -> bool {
    exists|mid: ClassLoader, mid_heap: Heap, res: Resolved| #[trigger]
        resolved(
            None,
            pre_loader,
            pre_heap,
            pre.last().method.class as int,
            ins.a as int,
            &mid,
            &mid_heap,
            res,
        ) && multi_acted(ins, res, pre, &mid, &mid_heap, post, post_loader, post_heap)
}

/// What a `multianewarray` leaves, and how it ends: lengths that are
/// missing or negative, and no dimension at all, are errors, and
/// nothing changes; after a success `multi_post` holds; and with the
/// class reference resolved before and the classes of all the arrays
/// loaded the instruction succeeds, and loads nothing.
pub open spec fn multi_done(
    ins: InsView,
    pre: Seq<FrameView>,
    pre_loader: &ClassLoader,
    pre_heap: &Heap,
    post: Seq<FrameView>,
    post_loader: &ClassLoader,
    post_heap: &Heap,
    r: Result<(), VmError>,
) -> bool {
    let cur = pre.last().method.class as int;
    let i = ins.a as int;
    &&& match multi_counts(pre.last(), ins.b as int) {
        Err(e) => r == Err::<(), VmError>(e) && *post_heap == *pre_heap && *post_loader
            == *pre_loader,
        Ok(_) => if ins.b == 0 {
            r == Err::<(), VmError>(VmError::ClassFormat) && *post_heap == *pre_heap
                && *post_loader == *pre_loader
        } else {
            &&& kept(pre_loader, cur, i) && dims_loaded(
                pre_heap,
                pre_loader,
                kept_ref(pre_loader, cur, i).class as int,
                ins.b as nat,
            ) ==> r is Ok && *post_loader == *pre_loader
            &&& class_loaded(pre_loader, cur, i) && dims_loaded(
                pre_heap,
                pre_loader,
                named_class(pre_loader, cur, i),
                ins.b as nat,
            ) ==> r is Ok
        },
    }
    &&& r is Err ==> post == pre
    &&& r is Ok ==> multi_post(ins, pre, pre_loader, pre_heap, post, post_loader, post_heap)
}

/// The outcome `mid`, `mid_heap`, `res` of the resolution shows that a
/// `multianewarray` did what `multi_post` says.
pub proof fn lemma_multi_post(
    ins: InsView,
    pre: Seq<FrameView>,
    pre_loader: &ClassLoader,
    pre_heap: &Heap,
    mid: ClassLoader,
    mid_heap: Heap,
    res: Resolved,
    post: Seq<FrameView>,
    post_loader: &ClassLoader,
    post_heap: &Heap,
    o: u64,
)
    requires
        resolved(
            None,
            pre_loader,
            pre_heap,
            pre.last().method.class as int,
            ins.a as int,
            &mid,
            &mid_heap,
            res,
        ),
        multi_counts(pre.last(), ins.b as int) is Ok,
        multi_counts(pre.last(), ins.b as int).unwrap().len() > 0,
        post_loader.grows_from(&mid),
        post_heap.extends(&mid_heap),
        multi_result(ins, res, pre, &mid, &mid_heap, post, post_loader, post_heap, o),
    ensures
        multi_post(ins, pre, pre_loader, pre_heap, post, post_loader, post_heap),
{
    assert(multi_acted(ins, res, pre, &mid, &mid_heap, post, post_loader, post_heap));
}

/// Executes `multianewarray`. Lengths that are missing or negative, and
/// no dimension at all, are errors, and nothing changes. With the class
/// reference resolved before and the classes of all the arrays loaded
/// the instruction succeeds, and loads nothing.
pub fn multianewarray<E: Entry>(
    ins: &Ins,
    st: &mut JStack,
    heap: &mut Heap,
    loader: &mut ClassLoader,
    entry: &E,
) -> (r: Result<(), VmError>)
    requires
        old(st).wf(),
        old(st)@.len() > 0,
        old(heap).wf(),
        old(loader).wf(),
        ins.b >= 0,
    ensures
        final(st).wf(),
        final(heap).wf(),
        final(loader).wf(),
        final(heap).extends(old(heap)),
        final(loader).evolves_from(old(loader)),
        multi_done(
            ins@,
            old(st)@,
            old(loader),
            old(heap),
            final(st)@,
            final(loader),
            final(heap),
            r,
        ),
{
    let dims: usize = ins.b as usize;
    let sizes: Vec<usize> = match counts_of(st, dims) {
        Ok(v) => v,
        Err(e) => {
            proof {
                loader.lemma_classes_evolve(old(loader));
            }
            return Err(e);
        },
    };
    if dims == 0 {
        proof {
            loader.lemma_classes_evolve(old(loader));
        }
        return Err(VmError::ClassFormat);
    }
    let cur: usize = current_class(st);
    let res: Resolved = match resolve(None, heap, loader, entry, cur, ins.a as usize) {
        Ok(r) => r,
        Err(e) => {
            return Err(e);
        },
    };
    let ghost mid = *loader;
    let ghost mid_heap = *heap;
    proof {
        let cur = old(st).top().method.class as int;
        let i = ins.a as int;
        if class_loaded(old(loader), cur, i) {
            let c = named_class(old(loader), cur, i);
            let sym = loader.cached(cur, i).unwrap();
            loader.lemma_find_stable(old(loader), sym.name@, 0);
            assert(res.class == c);
            if dims_loaded(old(heap), old(loader), c, ins.b as nat) {
                lemma_dims_loaded_kept(heap, loader, old(loader), c, ins.b as nat);
            }
        }
    }
    let o: u64 = match heap.new_multi_dim(loader, entry, res.class, &sizes, 0) {
        Ok(o) => o,
        Err(e) => {
            proof {
                loader.lemma_grows_evolves(&mid);
                loader.lemma_evolves_trans(&mid, old(loader));
            }
            return Err(e);
        },
    };
    proof {
        st.lemma_depth_bounded(st@.len() - 1);
    }
    st.drop(dims);
    st.push_slot(o);
    st.set_next_pc(ins.next);
    proof {
        loader.lemma_grows_evolves(&mid);
        loader.lemma_evolves_trans(&mid, old(loader));
        assert(st@ =~= with_top(
            old(st)@,
            old(st).top().drop(dims as nat).push1(o).at_pc(ins.next),
        ));
        lemma_multi_post(
            ins@,
            old(st)@,
            old(loader),
            old(heap),
            mid,
            mid_heap,
            res,
            st@,
            loader,
            heap,
            o,
        );
    }
    Ok(())
}

} // verus!
