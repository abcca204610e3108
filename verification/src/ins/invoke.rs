//! Method invocation.

use vstd::prelude::*;
use vstd::string::*;
use crate::class::ClassLoader;
use crate::cp::RefKind;
use crate::error::VmError;
use crate::frame::{FrameView, MemberRef, no_room, with_top};
use crate::heap::Heap;
use crate::ins::decode::{Ins, InsView};
use crate::ins::world::{current_class, first, kept, kept_ref, resolve, resolved};
use crate::loader::Entry;
use crate::resolve::{Resolved, ref_loaded};
use crate::thread::{JThread, fits_init, frame_for, init_done, needs_init};

verus! {

/// The kind of reference that an invoke instruction resolves.
pub open spec fn invoke_kind(op: u8) -> RefKind {
    if op == 0xb9 {
        RefKind::IFaceMethod
    } else {
        RefKind::Method
    }
}

/// How many cells the arguments of an invocation take on the operand
/// stack: the argument slots of the method, and one more for the
/// receiver unless the invocation is static.
pub open spec fn invoke_cells(op: u8, mid: &ClassLoader, m: MemberRef) -> int {
    mid.spec_method(m).unwrap().m_desc.arg_slots + (if op == 0xb8 {
        0int
    } else {
        1int
    })
}

/// The method that an invocation runs: the resolved method for
/// `invokestatic` and `invokespecial`; for `invokevirtual` and
/// `invokeinterface` the method of the resolved name and descriptor
/// that is found from the class of the receiver up its superclasses.
pub open spec fn invoke_target(
    ins: InsView,
    res: Resolved,
    f: FrameView,
    mid: &ClassLoader,
    mid_heap: &Heap,
) -> Option<MemberRef> {
    let m = res.member.unwrap();
    if ins.op == 0xb6 || ins.op == 0xb9 {
        match mid.cached(f.method.class as int, ins.a as int) {
            Some(sym) => mid.spec_lookup_method_in_class(
                mid_heap.obj(f.peek(invoke_cells(ins.op, mid, m))).class as int,
                sym.name@,
                sym.desc@,
            ),
            None => None,
        }
    } else {
        Some(m)
    }
}

/// The frame in which the method `target` starts with the `n` topmost
/// cells of the frame `f` as its first locals.
pub open spec fn callee_frame(mid: &ClassLoader, target: MemberRef, f: FrameView, n: int)
    -> FrameView {
    let g = frame_for(mid, target);
    FrameView {
        locals: f.cells.subrange(f.depth - n, f.depth as int) + g.locals.subrange(
            n,
            g.locals.len() as int,
        ),
        ..g
    }
}

/// What an invoke instruction does once its reference is resolved to
/// `res`, and how it ends.
///
/// - A reference that names no method is an error.
/// - `invokestatic` of a method of a class that is not initialized
///   initializes the class and leaves the instruction to be executed
///   once more; it fails only where the frames of the initializers
///   cannot be pushed.
/// - Otherwise the arguments, with the receiver below them unless the
///   invocation is static, are taken off the current frame, which goes
///   on behind the instruction, and a frame for the target method is
///   pushed with the arguments as its first locals.
///
/// Too few operands, a null receiver, a receiver that is no object, no
/// method of that name in the class of the receiver, a target with
/// fewer locals than arguments and no room for the new frame are
/// errors, and leave everything as it was.
pub open spec fn invoke_acted(
    ins: InsView,
    res: Resolved,
    pre: Seq<FrameView>,
    mid: &ClassLoader,
    mid_heap: &Heap,
    post: Seq<FrameView>,
    post_loader: &ClassLoader,
    post_heap: &Heap,
    r: Result<(), VmError>,
) -> bool {
    let f = pre.last();
    let m = res.member.unwrap();
    let n = invoke_cells(ins.op, mid, m);
    let target = invoke_target(ins, res, f, mid, mid_heap);
    let same = *post_heap == *mid_heap && *post_loader == *mid && post == pre;
    if res.member is None {
        r == Err::<(), VmError>(VmError::NoSuchMember) && same
    } else if ins.op == 0xb8 && needs_init(mid, res.class as int) {
        if fits_init(mid, pre, res.class as int) {
            r is Ok && *post_heap == *mid_heap && init_done(
                mid,
                pre,
                ins.pc,
                res.class as int,
                post_loader,
                post,
            )
        } else {
            r == Err::<(), VmError>(VmError::StackOverflow) && same
        }
    } else if mid.spec_method(m) is None {
        r == Err::<(), VmError>(VmError::InvalidReference) && same
    } else if mid.spec_method(m).unwrap().m_desc.arg_slots == usize::MAX {
        r == Err::<(), VmError>(VmError::ClassFormat) && same
    } else if f.depth < n {
        r == Err::<(), VmError>(VmError::OperandStack) && same
    } else if ins.op != 0xb8 && f.peek(n) == 0 {
        r == Err::<(), VmError>(VmError::NullPointer) && same
    } else if (ins.op == 0xb6 || ins.op == 0xb9) && !mid_heap.valid_ref(f.peek(n)) {
        r == Err::<(), VmError>(VmError::InvalidReference) && same
    } else {
        match target {
            None => r == Err::<(), VmError>(VmError::NoSuchMember) && same,
            Some(t) => match mid.spec_method(t) {
                None => r == Err::<(), VmError>(VmError::InvalidReference) && same,
                Some(callee) => if callee.max_locals < n {
                    r == Err::<(), VmError>(VmError::LocalIndex) && same
                } else if no_room(pre, callee.max_locals as int, callee.max_stack as int) {
                    r == Err::<(), VmError>(VmError::StackOverflow) && same
                } else {
                    &&& r is Ok
                    &&& *post_heap == *mid_heap
                    &&& *post_loader == *mid
                    &&& post == with_top(pre, f.drop(n as nat).at_pc(ins.next)).push(
                        callee_frame(mid, t, f, n),
                    )
                },
            },
        }
    }
}

/// What an invoke instruction that succeeded did: it resolved its
/// method reference and then acted as `invoke_acted` says.
pub open spec fn invoke_post(
    ins: InsView,
    pre: Seq<FrameView>,
    pre_loader: &ClassLoader,
    pre_heap: &Heap,
    post: Seq<FrameView>,
    post_loader: &ClassLoader,
    post_heap: &Heap,
) -> bool {
    exists|mid: ClassLoader, mid_heap: Heap, res: Resolved| #[trigger]
        resolved(
            Some(invoke_kind(ins.op)),
            pre_loader,
            pre_heap,
            pre.last().method.class as int,
            ins.a as int,
            &mid,
            &mid_heap,
            res,
        ) && invoke_acted(ins, res, pre, &mid, &mid_heap, post, post_loader, post_heap, Ok(()))
}

/// What an invoke instruction that resolves its reference for the first time, with
/// nothing to load, leaves, and how it ends: the reference is resolved
/// and kept as `first` says, and the rest is what `invoke_acted` says for
/// the resolution.
pub open spec fn invoke_first(
    ins: InsView,
    pre: Seq<FrameView>,
    pre_loader: &ClassLoader,
    pre_heap: &Heap,
    post: Seq<FrameView>,
    post_loader: &ClassLoader,
    post_heap: &Heap,
    r: Result<(), VmError>,
) -> bool {
    exists|mid: ClassLoader, res: Resolved| #[trigger]
        first(
            Some(invoke_kind(ins.op)),
            pre_loader,
            pre_heap,
            pre.last().method.class as int,
            ins.a as int,
            &mid,
            res,
        ) && invoke_acted(ins, res, pre, &mid, pre_heap, post, post_loader, post_heap, r)
}

/// The outcome `mid`, `res` of a first resolution shows what
/// `invoke_first` says.
pub proof fn lemma_invoke_first(
    ins: InsView,
    pre: Seq<FrameView>,
    pre_loader: &ClassLoader,
    pre_heap: &Heap,
    mid: ClassLoader,
    res: Resolved,
    post: Seq<FrameView>,
    post_loader: &ClassLoader,
    post_heap: &Heap,
    r: Result<(), VmError>,
)
    requires
        first(
            Some(invoke_kind(ins.op)),
            pre_loader,
            pre_heap,
            pre.last().method.class as int,
            ins.a as int,
            &mid,
            res,
        ),
        invoke_acted(ins, res, pre, &mid, pre_heap, post, post_loader, post_heap, r),
    ensures
        invoke_first(ins, pre, pre_loader, pre_heap, post, post_loader, post_heap, r),
{
}

/// What an invoke instruction leaves, and how it ends: after a success
/// what `invoke_post` says; and with a reference that was resolved
/// before, whatever the end, what `invoke_acted` says of it.
pub open spec fn invoke_done(
    ins: InsView,
    pre: Seq<FrameView>,
    pre_loader: &ClassLoader,
    pre_heap: &Heap,
    post: Seq<FrameView>,
    post_loader: &ClassLoader,
    post_heap: &Heap,
    r: Result<(), VmError>,
) -> bool {
    let cur = pre.last().method.class as int;
    let i = ins.a as int;
    &&& r is Ok ==> invoke_post(ins, pre, pre_loader, pre_heap, post, post_loader, post_heap)
    &&& kept(pre_loader, cur, i) ==> invoke_acted(
        ins,
        kept_ref(pre_loader, cur, i),
        pre,
        pre_loader,
        pre_heap,
        post,
        post_loader,
        post_heap,
        r,
    )
    &&& ref_loaded(pre_loader, Some(invoke_kind(ins.op)), cur, i) ==> invoke_first(
        ins,
        pre,
        pre_loader,
        pre_heap,
        post,
        post_loader,
        post_heap,
        r,
    )
    &&& r is Err ==> post == pre
}

/// A resolution and what was done behind it make up what the
/// instruction did.
pub proof fn lemma_invoke_post(
    ins: InsView,
    pre: Seq<FrameView>,
    pre_loader: &ClassLoader,
    pre_heap: &Heap,
    mid: ClassLoader,
    mid_heap: Heap,
    res: Resolved,
    post: Seq<FrameView>,
    post_loader: &ClassLoader,
    post_heap: &Heap,
)
    requires
        resolved(
            Some(invoke_kind(ins.op)),
            pre_loader,
            pre_heap,
            pre.last().method.class as int,
            ins.a as int,
            &mid,
            &mid_heap,
            res,
        ),
        invoke_acted(ins, res, pre, &mid, &mid_heap, post, post_loader, post_heap, Ok(())),
    ensures
        invoke_post(ins, pre, pre_loader, pre_heap, post, post_loader, post_heap),
{
}

/// Pushes a frame for `target` above the current frame and hands it the
/// `n` topmost cells of the current frame, which goes on at `next`.
/// Where there is no room for the frame nothing changes.
pub fn call(th: &mut JThread, loader: &ClassLoader, target: MemberRef, n: usize, next: u32) -> (r:
    Result<(), VmError>)
    requires
        old(th).stack.wf(),
        old(th).stack@.len() > 0,
        n <= old(th).stack.top().depth,
        loader.spec_method(target) is Some,
        n <= loader.spec_method(target).unwrap().max_locals,
    ensures
        final(th).stack.wf(),
        final(th).pc == old(th).pc,
        r is Ok ==> final(th).stack@ == with_top(
            old(th).stack@,
            old(th).stack.top().drop(n as nat).at_pc(next),
        ).push(callee_frame(loader, target, old(th).stack.top(), n as int)),
        r is Err ==> r == Err::<(), VmError>(VmError::StackOverflow) && final(th).stack@ == old(th).stack@,
        r is Err <==> no_room(
            old(th).stack@,
            loader.spec_method(target).unwrap().max_locals as int,
            loader.spec_method(target).unwrap().max_stack as int,
        ),
{
    proof {
        th.stack.lemma_used();
    }
    let back: u32 = th.stack.cur_frame().next_pc;
    th.stack.set_next_pc(next);
    match th.push_frame(loader, target) {
        Ok(_) => {},
        Err(e) => {
            th.stack.set_next_pc(back);
            proof {
                assert(th.stack@ =~= old(th).stack@);
            }
            return Err(VmError::StackOverflow);
        },
    }
    proof {
        let s = th.stack@;
        assert(s[s.len() - 2] == old(th).stack.top().at_pc(next));
        assert(s.last() == frame_for(loader, target));
    }
    th.stack.pass_args(n);
    proof {
        let f = old(th).stack.top();
        let g = frame_for(loader, target);
        assert(th.stack@ =~= with_top(old(th).stack@, f.drop(n as nat).at_pc(next)).push(
            callee_frame(loader, target, f, n as int),
        ));
    }
    Ok(())
}

/// Executes an invoke instruction whose reference is resolved to `res`.
pub fn invoke_with(
    ins: &Ins,
    th: &mut JThread,
    heap: &Heap,
    loader: &mut ClassLoader,
    res: Resolved,
) -> (r: Result<(), VmError>)
    requires
        old(th).stack.wf(),
        old(th).stack@.len() > 0,
        old(th).pc == ins.pc,
        heap.wf(),
        old(loader).wf(),
        0xb6 <= ins.op <= 0xb9,
    ensures
        final(th).stack.wf(),
        final(th).pc == old(th).pc,
        final(loader).wf(),
        final(loader).evolves_from(old(loader)),
        invoke_acted(
            ins@,
            res,
            old(th).stack@,
            old(loader),
            heap,
            final(th).stack@,
            final(loader),
            heap,
            r,
        ),
{
    let op: u8 = ins.op;
    let cur: usize = current_class(&th.stack);
    proof {
        loader.lemma_classes_evolve(old(loader));
    }
    let m: MemberRef = match res.member {
        Some(m) => m,
        None => {
            return Err(VmError::NoSuchMember);
        },
    };
    if op == 0xb8 {
        match th.clinit(loader, res.class) {
            Ok(started) => {
                if started {
                    proof {
                        loader.lemma_classes_evolve(old(loader));
                    }
                    return Ok(());
                }
            },
            Err(e) => {
                proof {
                    loader.lemma_classes_evolve(old(loader));
                }
                return Err(e);
            },
        }
    }
    let slots: usize = match loader.method(m) {
        Some(method) => method.m_desc.arg_slots,
        None => {
            return Err(VmError::InvalidReference);
        },
    };
    if slots == usize::MAX {
        return Err(VmError::ClassFormat);
    }
    let n: usize = if op == 0xb8 {
        slots
    } else {
        slots + 1
    };
    if th.stack.depth() < n {
        return Err(VmError::OperandStack);
    }
    let mut target: MemberRef = m;
    if op != 0xb8 {
        let receiver: u64 = th.stack.peek(n);
        if receiver == 0 {
            return Err(VmError::NullPointer);
        }
        if op == 0xb6 || op == 0xb9 {
            let class: usize = match heap.class_of(receiver) {
                Ok(c) => c,
                Err(e) => {
                    return Err(e);
                },
            };
            let found: Option<MemberRef> = match loader.sym_ref(cur, ins.a as usize) {
                Some(sym) => loader.lookup_method_in_class(
                    class,
                    sym.name.as_str(),
                    sym.desc.as_str(),
                ),
                None => None,
            };
            target = match found {
                Some(t) => t,
                None => {
                    return Err(VmError::NoSuchMember);
                },
            };
        }
    }
    match loader.method(target) {
        Some(callee) => {
            if callee.max_locals < n {
                return Err(VmError::LocalIndex);
            }
        },
        None => {
            return Err(VmError::InvalidReference);
        },
    }
    call(th, loader, target, n, ins.next)
}

/// Executes `invokevirtual`, `invokespecial`, `invokestatic` or
/// `invokeinterface`: the method reference is resolved, and the rest is
/// done as `invoke_with` does it.
pub fn invoke<E: Entry>(
    ins: &Ins,
    th: &mut JThread,
    heap: &mut Heap,
    loader: &mut ClassLoader,
    entry: &E,
) -> (r: Result<(), VmError>)
    requires
        old(th).stack.wf(),
        old(th).stack@.len() > 0,
        old(th).pc == ins.pc,
        old(heap).wf(),
        old(loader).wf(),
        0xb6 <= ins.op <= 0xb9,
    ensures
        final(th).stack.wf(),
        final(th).pc == old(th).pc,
        final(heap).wf(),
        final(loader).wf(),
        final(heap).evolves_from(old(heap)),
        final(loader).evolves_from(old(loader)),
        invoke_done(
            ins@,
            old(th).stack@,
            old(loader),
            old(heap),
            final(th).stack@,
            final(loader),
            final(heap),
            r,
        ),
{
    let op: u8 = ins.op;
    let cur: usize = current_class(&th.stack);
    let kind: RefKind = if op == 0xb9 {
        RefKind::IFaceMethod
    } else {
        RefKind::Method
    };
    let res: Resolved = match resolve(Some(kind), heap, loader, entry, cur, ins.a as usize) {
        Ok(r) => r,
        Err(e) => {
            proof {
                heap.lemma_extends_evolves(old(heap));
            }
            return Err(e);
        },
    };
    let ghost mid = *loader;
    let ghost mid_heap = *heap;
    let r = invoke_with(ins, th, heap, loader, res);
    proof {
        heap.lemma_extends_evolves(old(heap));
        loader.lemma_evolves_trans(&mid, old(loader));
        if ref_loaded(old(loader), Some(invoke_kind(ins.op)), old(th).stack.top().method.class as int, ins.a as int) {
            lemma_invoke_first(
                ins@,
                old(th).stack@,
                old(loader),
                old(heap),
                mid,
                res,
                th.stack@,
                loader,
                heap,
                r,
            );
        }
        if r is Ok {
            lemma_invoke_post(
                ins@,
                old(th).stack@,
                old(loader),
                old(heap),
                mid,
                mid_heap,
                res,
                th.stack@,
                loader,
                heap,
            );
        }
    }
    r
}

} // verus!
