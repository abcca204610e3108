//! Access to static and instance fields.

use vstd::prelude::*;
use vstd::string::*;
use crate::class::ClassLoader;
use crate::cp::RefKind;
use crate::error::VmError;
use crate::frame::{FrameView, MemberRef, with_top};
use crate::heap::Heap;
use crate::ins::decode::{Ins, InsView};
use crate::ins::load::{Width, push_as, pushed_as};
use crate::ins::store::{cells_of, popped_as, top_as};
use crate::ins::value::{replace_and_go, replace_at};
use crate::ins::world::{
    current_class, first, kept, kept_ref, resolve, resolved, spec_width, width_of,
};
use crate::loader::Entry;
use crate::resolve::{Resolved, ref_loaded};
use crate::thread::{JThread, fits_init, init_done, needs_init};

verus! {

/// Whether `post` is `pre` with `v` as the static value `id` of class
/// `c` and nothing else changed.
pub open spec fn static_set(pre: &ClassLoader, post: &ClassLoader, c: int, id: int, v: u64) -> bool {
    &&& post.same_classes(pre)
    &&& post.classes@[c].static_vars@ == pre.classes@[c].static_vars@.update(id, v)
    &&& post.classes@[c].sym_refs == pre.classes@[c].sym_refs
    &&& post.classes@[c].initialized == pre.classes@[c].initialized
    &&& post.classes@[c].j_class == pre.classes@[c].j_class
    &&& forall|k: int|
        0 <= k < pre.classes@.len() && k != c ==> post.classes@[k] == pre.classes@[k]
}

/// What a field instruction does once its reference is resolved to
/// `res`, `mid` and `mid_heap` being the class table and the heap
/// behind the resolution, and how it ends.
///
/// - A reference that names no field is an error.
/// - A static access to a class that is not initialized initializes it
///   and leaves the instruction to be executed once more; it fails only
///   where the frames of the initializers cannot be pushed.
/// - `getstatic` pushes the static value of the field in its declaring
///   class; `putstatic` takes a value off and stores it there.
/// - `getfield` takes a reference off and pushes the object's field;
///   `putfield` takes a value and a reference off and stores the value
///   in the object's field.
///
/// The field's descriptor says how the value lies on the stack, and the
/// field's id where it lies in the static values or in the object. An
/// instruction that finds too few operands, no room for its result, no
/// such static value or no such field of the object fails, and then
/// changes nothing.
pub open spec fn field_acted(
    ins: InsView,
    res: Resolved,
    pre: Seq<FrameView>,
    mid: &ClassLoader,
    mid_heap: &Heap,
    post: Seq<FrameView>,
    post_loader: &ClassLoader,
    post_heap: &Heap,
    r: Result<(), VmError>,
) -> bool {
    let f = pre.last();
    let m = res.member.unwrap();
    let fld = mid.spec_field(m).unwrap();
    let w = spec_width(fld.desc@);
    let id = fld.id as int;
    let of_class = ins.op == 0xb2 || ins.op == 0xb3;
    let same = *post_heap == *mid_heap && *post_loader == *mid && post == pre;
    if res.member is None {
        r == Err::<(), VmError>(VmError::NoSuchMember) && same
    } else if of_class && needs_init(mid, res.class as int) {
        if fits_init(mid, pre, res.class as int) {
            r is Ok && *post_heap == *mid_heap && init_done(
                mid,
                pre,
                ins.pc,
                res.class as int,
                post_loader,
                post,
            )
        } else {
            r == Err::<(), VmError>(VmError::StackOverflow) && same
        }
    } else if mid.spec_field(m) is None {
        r == Err::<(), VmError>(VmError::InvalidReference) && same
    } else if ins.op == 0xb2 {
        if id >= mid.classes@[m.class as int].static_vars@.len() {
            r == Err::<(), VmError>(VmError::InvalidReference) && same
        } else {
            match replace_at(
                f,
                ins.next,
                0,
                pushed_as(mid.classes@[m.class as int].static_vars@[id], w),
            ) {
                Ok(g) => r is Ok && *post_heap == *mid_heap && *post_loader == *mid && post
                    == with_top(pre, g),
                Err(e) => r == Err::<(), VmError>(e) && same,
            }
        }
    } else if ins.op == 0xb3 {
        if f.depth < cells_of(w) {
            r == Err::<(), VmError>(VmError::OperandStack) && same
        } else if id >= mid.classes@[m.class as int].static_vars@.len() {
            r == Err::<(), VmError>(VmError::InvalidReference) && same
        } else {
            &&& r is Ok
            &&& *post_heap == *mid_heap
            &&& static_set(mid, post_loader, m.class as int, id, popped_as(f, w))
            &&& post == with_top(pre, f.drop(cells_of(w) as nat).at_pc(ins.next))
        }
    } else if ins.op == 0xb4 {
        if f.depth < 1 {
            r == Err::<(), VmError>(VmError::OperandStack) && same
        } else {
            match mid_heap.access(f.peek(1), id) {
                Err(e) => r == Err::<(), VmError>(e) && same,
                Ok(_) => match replace_at(
                    f,
                    ins.next,
                    1,
                    pushed_as(mid_heap.obj(f.peek(1)).data.cells()[id], w),
                ) {
                    Ok(g) => r is Ok && *post_heap == *mid_heap && *post_loader == *mid && post
                        == with_top(pre, g),
                    Err(e) => r == Err::<(), VmError>(e) && same,
                },
            }
        }
    } else {
        if f.depth < cells_of(w) + 1 {
            r == Err::<(), VmError>(VmError::OperandStack) && same
        } else {
            match mid_heap.access(f.peek(cells_of(w) + 1), id) {
                Err(e) => r == Err::<(), VmError>(e) && same,
                Ok(_) => {
                    &&& r is Ok
                    &&& *post_loader == *mid
                    &&& Heap::stored(
                        mid_heap,
                        post_heap,
                        f.peek(cells_of(w) + 1),
                        id,
                        popped_as(f, w),
                    )
                    &&& post == with_top(pre, f.drop((cells_of(w) + 1) as nat).at_pc(ins.next))
                },
            }
        }
    }
}

/// What a field instruction that succeeded did: it resolved its field
/// reference and then acted as `field_acted` says.
pub open spec fn field_post(
    ins: InsView,
    pre: Seq<FrameView>,
    pre_loader: &ClassLoader,
    pre_heap: &Heap,
    post: Seq<FrameView>,
    post_loader: &ClassLoader,
    post_heap: &Heap,
) -> bool {
    exists|mid: ClassLoader, mid_heap: Heap, res: Resolved| #[trigger]
        resolved(
            Some(RefKind::Field),
            pre_loader,
            pre_heap,
            pre.last().method.class as int,
            ins.a as int,
            &mid,
            &mid_heap,
            res,
        ) && field_acted(ins, res, pre, &mid, &mid_heap, post, post_loader, post_heap, Ok(()))
}

/// What a field instruction that resolves its reference for the first time, with
/// nothing to load, leaves, and how it ends: the reference is resolved
/// and kept as `first` says, and the rest is what `field_acted` says for
/// the resolution.
pub open spec fn field_first(
    ins: InsView,
    pre: Seq<FrameView>,
    pre_loader: &ClassLoader,
    pre_heap: &Heap,
    post: Seq<FrameView>,
    post_loader: &ClassLoader,
    post_heap: &Heap,
    r: Result<(), VmError>,
) -> bool {
    exists|mid: ClassLoader, res: Resolved| #[trigger]
        first(
            Some(RefKind::Field),
            pre_loader,
            pre_heap,
            pre.last().method.class as int,
            ins.a as int,
            &mid,
            res,
        ) && field_acted(ins, res, pre, &mid, pre_heap, post, post_loader, post_heap, r)
}

/// The outcome `mid`, `res` of a first resolution shows what
/// `field_first` says.
pub proof fn lemma_field_first(
    ins: InsView,
    pre: Seq<FrameView>,
    pre_loader: &ClassLoader,
    pre_heap: &Heap,
    mid: ClassLoader,
    res: Resolved,
    post: Seq<FrameView>,
    post_loader: &ClassLoader,
    post_heap: &Heap,
    r: Result<(), VmError>,
)
    requires
        first(
            Some(RefKind::Field),
            pre_loader,
            pre_heap,
            pre.last().method.class as int,
            ins.a as int,
            &mid,
            res,
        ),
        field_acted(ins, res, pre, &mid, pre_heap, post, post_loader, post_heap, r),
    ensures
        field_first(ins, pre, pre_loader, pre_heap, post, post_loader, post_heap, r),
{
}

/// What a field instruction leaves, and how it ends: after a success
/// what `field_post` says; and with a reference that was resolved
/// before, whatever the end, what `field_acted` says of it.
pub open spec fn field_done(
    ins: InsView,
    pre: Seq<FrameView>,
    pre_loader: &ClassLoader,
    pre_heap: &Heap,
    post: Seq<FrameView>,
    post_loader: &ClassLoader,
    post_heap: &Heap,
    r: Result<(), VmError>,
) -> bool {
    let cur = pre.last().method.class as int;
    let i = ins.a as int;
    &&& r is Ok ==> field_post(ins, pre, pre_loader, pre_heap, post, post_loader, post_heap)
    &&& kept(pre_loader, cur, i) ==> field_acted(
        ins,
        kept_ref(pre_loader, cur, i),
        pre,
        pre_loader,
        pre_heap,
        post,
        post_loader,
        post_heap,
        r,
    )
    &&& ref_loaded(pre_loader, Some(RefKind::Field), cur, i) ==> field_first(
        ins,
        pre,
        pre_loader,
        pre_heap,
        post,
        post_loader,
        post_heap,
        r,
    )
    &&& r is Err ==> post == pre
}

/// A resolution and what was done behind it make up what the
/// instruction did.
pub proof fn lemma_field_post(
    ins: InsView,
    pre: Seq<FrameView>,
    pre_loader: &ClassLoader,
    pre_heap: &Heap,
    mid: ClassLoader,
    mid_heap: Heap,
    res: Resolved,
    post: Seq<FrameView>,
    post_loader: &ClassLoader,
    post_heap: &Heap,
)
    requires
        resolved(
            Some(RefKind::Field),
            pre_loader,
            pre_heap,
            pre.last().method.class as int,
            ins.a as int,
            &mid,
            &mid_heap,
            res,
        ),
        field_acted(ins, res, pre, &mid, &mid_heap, post, post_loader, post_heap, Ok(())),
    ensures
        field_post(ins, pre, pre_loader, pre_heap, post, post_loader, post_heap),
{
}

/// Executes a field instruction whose reference is resolved to `res`.
pub fn field_with(
    ins: &Ins,
    th: &mut JThread,
    heap: &mut Heap,
    loader: &mut ClassLoader,
    res: Resolved,
) -> (r: Result<(), VmError>)
    requires
        old(th).stack.wf(),
        old(th).stack@.len() > 0,
        old(th).pc == ins.pc,
        old(heap).wf(),
        old(loader).wf(),
        0xb2 <= ins.op <= 0xb5,
    ensures
        final(th).stack.wf(),
        final(th).pc == old(th).pc,
        final(heap).wf(),
        final(loader).wf(),
        final(heap).evolves_from(old(heap)),
        final(loader).evolves_from(old(loader)),
        field_acted(
            ins@,
            res,
            old(th).stack@,
            old(loader),
            old(heap),
            final(th).stack@,
            final(loader),
            final(heap),
            r,
        ),
{
    let op: u8 = ins.op;
    proof {
        heap.lemma_extends_evolves(old(heap));
        loader.lemma_classes_evolve(old(loader));
    }
    let m: MemberRef = match res.member {
        Some(m) => m,
        None => {
            return Err(VmError::NoSuchMember);
        },
    };
    if op == 0xb2 || op == 0xb3 {
        match th.clinit(loader, res.class) {
            Ok(started) => {
                if started {
                    proof {
                        loader.lemma_classes_evolve(old(loader));
                    }
                    return Ok(());
                }
            },
            Err(e) => {
                proof {
                    loader.lemma_classes_evolve(old(loader));
                }
                return Err(e);
            },
        }
    }
    let (id, w): (usize, Width) = match loader.field(m) {
        Some(f) => (f.id, width_of(f.desc.as_str())),
        None => {
            return Err(VmError::InvalidReference);
        },
    };
    let c: usize = if w == Width::Wide {
        2
    } else {
        1
    };
    if op == 0xb2 {
        if id >= loader.classes[m.class].static_vars.len() {
            return Err(VmError::InvalidReference);
        }
        let v: u64 = loader.get_static(m.class, id);
        replace_and_go(&mut th.stack, ins.next, 0, push_as(v, w))
    } else if op == 0xb3 {
        if th.stack.depth() < c {
            return Err(VmError::OperandStack);
        }
        if id >= loader.classes[m.class].static_vars.len() {
            return Err(VmError::InvalidReference);
        }
        let v: u64 = top_as(&th.stack, w);
        loader.set_static(m.class, id, v);
        th.stack.drop(c);
        th.stack.set_next_pc(ins.next);
        proof {
            loader.lemma_classes_evolve(old(loader));
            assert(th.stack@ =~= with_top(
                old(th).stack@,
                old(th).stack.top().drop(c as nat).at_pc(ins.next),
            ));
        }
        Ok(())
    } else if op == 0xb4 {
        if th.stack.depth() < 1 {
            return Err(VmError::OperandStack);
        }
        let obj: u64 = th.stack.peek(1);
        let v: u64 = match heap.load(obj, id) {
            Ok(v) => v,
            Err(e) => {
                return Err(e);
            },
        };
        replace_and_go(&mut th.stack, ins.next, 1, push_as(v, w))
    } else {
        if th.stack.depth() < c + 1 {
            return Err(VmError::OperandStack);
        }
        let v: u64 = top_as(&th.stack, w);
        let obj: u64 = th.stack.peek(c + 1);
        match heap.store(obj, id, v) {
            Ok(_) => {},
            Err(e) => {
                return Err(e);
            },
        }
        th.stack.drop(c + 1);
        th.stack.set_next_pc(ins.next);
        proof {
            heap.lemma_stored_evolves(old(heap), obj, id as int, v);
            assert(th.stack@ =~= with_top(
                old(th).stack@,
                old(th).stack.top().drop((c + 1) as nat).at_pc(ins.next),
            ));
        }
        Ok(())
    }
}

/// Executes `getstatic`, `putstatic`, `getfield` or `putfield`: the
/// field reference is resolved, and the rest is done as `field_with`
/// does it.
pub fn field<E: Entry>(
    ins: &Ins,
    th: &mut JThread,
    heap: &mut Heap,
    loader: &mut ClassLoader,
    entry: &E,
) -> (r: Result<(), VmError>)
    requires
        old(th).stack.wf(),
        old(th).stack@.len() > 0,
        old(th).pc == ins.pc,
        old(heap).wf(),
        old(loader).wf(),
        0xb2 <= ins.op <= 0xb5,
    ensures
        final(th).stack.wf(),
        final(th).pc == old(th).pc,
        final(heap).wf(),
        final(loader).wf(),
        final(heap).evolves_from(old(heap)),
        final(loader).evolves_from(old(loader)),
        field_done(
            ins@,
            old(th).stack@,
            old(loader),
            old(heap),
            final(th).stack@,
            final(loader),
            final(heap),
            r,
        ),
{
    let cur: usize = current_class(&th.stack);
    let res: Resolved = match resolve(Some(RefKind::Field), heap, loader, entry, cur, ins.a as usize) {
        Ok(r) => r,
        Err(e) => {
            proof {
                heap.lemma_extends_evolves(old(heap));
            }
            return Err(e);
        },
    };
    let ghost mid = *loader;
    let ghost mid_heap = *heap;
    let r = field_with(ins, th, heap, loader, res);
    proof {
        mid_heap.lemma_extends_evolves(old(heap));
        heap.lemma_evolves_trans(&mid_heap, old(heap));
        loader.lemma_evolves_trans(&mid, old(loader));
        if ref_loaded(old(loader), Some(RefKind::Field), old(th).stack.top().method.class as int, ins.a as int) {
            lemma_field_first(
                ins@,
                old(th).stack@,
                old(loader),
                old(heap),
                mid,
                res,
                th.stack@,
                loader,
                heap,
                r,
            );
        }
        if r is Ok {
            lemma_field_post(
                ins@,
                old(th).stack@,
                old(loader),
                old(heap),
                mid,
                mid_heap,
                res,
                th.stack@,
                loader,
                heap,
            );
        }
    }
    r
}

} // verus!
