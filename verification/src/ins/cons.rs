//! Constants: the instructions that push a value that stands in the
//! code or in the constant pool.

use vstd::prelude::*;
use vstd::string::*;
use crate::class::ClassLoader;
use crate::cp::{Constant, ConstantView, pool_constant, pool_utf8};
use crate::error::VmError;
use crate::frame::{FrameView, JStack, with_top};
use crate::heap::Heap;
use crate::ins::alu::{bits32, low, low32, pat32};
use crate::ins::decode::{Ins, InsView};
use crate::ins::value::{Pushed, replace_and_go, replace_at};
use crate::loader::Entry;
use crate::thread::{JThread, fits_init, init_done, needs_init};

verus! {

/// The value that an instruction pushes which carries its constant in
/// itself: null, an integer from -1 to 5, a long 0 or 1, the bit
/// patterns of the floating-point numbers 0, 1 and 2, or the signed
/// byte or 16-bit value behind the opcode. `None` for any other
/// opcode.
pub open spec fn cons_value(ins: InsView) -> Option<Pushed> {
    let op = ins.op;
    if op == 0x01 {
        Some(Pushed { v: 0, wide: false })
    } else if op == 0x02 {
        Some(Pushed { v: 0xffff_ffff, wide: false })
    } else if 0x03 <= op <= 0x08 {
        Some(Pushed { v: (op - 0x03) as u64, wide: false })
    } else if op == 0x09 || op == 0x0a {
        Some(Pushed { v: (op - 0x09) as u64, wide: true })
    } else if op == 0x0b {
        Some(Pushed { v: 0, wide: false })
    } else if op == 0x0c {
        Some(Pushed { v: 0x3f80_0000, wide: false })
    } else if op == 0x0d {
        Some(Pushed { v: 0x4000_0000, wide: false })
    } else if op == 0x0e {
        Some(Pushed { v: 0, wide: true })
    } else if op == 0x0f {
        Some(Pushed { v: 0x3ff0_0000_0000_0000, wide: true })
    } else if op == 0x10 || op == 0x11 {
        Some(Pushed { v: bits32(ins.b as int) as u64, wide: false })
    } else {
        None
    }
}

/// What such an instruction, or `nop`, makes of the frame `f`.
pub open spec fn cons_effect(ins: InsView, f: FrameView) -> Result<FrameView, VmError> {
    if ins.op == 0x00 {
        Ok(f.at_pc(ins.next))
    } else {
        match cons_value(ins) {
            Some(p) => replace_at(f, ins.next, 0, p),
            None => Err(VmError::UnknownOpcode),
        }
    }
}

/// Executes `nop` or an instruction that carries its constant in
/// itself.
pub fn cons_simple(ins: &Ins, st: &mut JStack) -> (r: Result<(), VmError>)
    requires
        old(st).wf(),
        old(st)@.len() > 0,
    ensures
        final(st).wf(),
        match cons_effect(ins@, old(st).top()) {
            Ok(f) => r is Ok && final(st)@ == with_top(old(st)@, f),
            Err(e) => r == Err::<(), VmError>(e) && final(st)@ == old(st)@,
        },
{
    let op: u8 = ins.op;
    if op == 0x00 {
        st.set_next_pc(ins.next);
        return Ok(());
    }
    let p: Pushed = if op == 0x01 {
        Pushed { v: 0, wide: false }
    } else if op == 0x02 {
        Pushed { v: 0xffff_ffff, wide: false }
    } else if 0x03 <= op && op <= 0x08 {
        Pushed { v: (op - 0x03) as u64, wide: false }
    } else if op == 0x09 || op == 0x0a {
        Pushed { v: (op - 0x09) as u64, wide: true }
    } else if op == 0x0b {
        Pushed { v: 0, wide: false }
    } else if op == 0x0c {
        Pushed { v: 0x3f80_0000, wide: false }
    } else if op == 0x0d {
        Pushed { v: 0x4000_0000, wide: false }
    } else if op == 0x0e {
        Pushed { v: 0, wide: true }
    } else if op == 0x0f {
        Pushed { v: 0x3ff0_0000_0000_0000, wide: true }
    } else if op == 0x10 || op == 0x11 {
        Pushed { v: pat32(ins.b as i64) as u64, wide: false }
    } else {
        return Err(VmError::UnknownOpcode);
    };
    replace_and_go(st, ins.next, 0, p)
}

/// The pool of the class that the method of the frame `f` belongs to;
/// the empty pool where there is no such class.
pub open spec fn pool_of(loader: &ClassLoader, f: FrameView) -> Seq<crate::cp::ConstantInfoView> {
    if f.method.class < loader.classes@.len() {
        loader.classes@[f.method.class as int].cp@
    } else {
        Seq::empty()
    }
}

/// The constant that an `ldc` instruction names.
pub open spec fn ldc_constant(ins: InsView, f: FrameView, loader: &ClassLoader) -> Option<
    ConstantView,
> {
    pool_constant(pool_of(loader, f), ins.a as int)
}

/// The name of the class that an `ldc` of a class names.
pub open spec fn ldc_class_name(ins: InsView, f: FrameView, loader: &ClassLoader) -> Option<
    Seq<char>,
> {
    match ldc_constant(ins, f, loader) {
        Some(ConstantView::ClassRef(i)) => pool_utf8(pool_of(loader, f), i as int),
        _ => None,
    }
}

/// What an `ldc` of the string `s` leaves: the string is interned as
/// `new_jstr` interns it, and the reference to it is pushed.
pub open spec fn ldc_string_post(
    ins: InsView,
    s: Seq<char>,
    pre: Seq<FrameView>,
    pre_heap: &Heap,
    loader: &ClassLoader,
    post: Seq<FrameView>,
    post_heap: &Heap,
    r: Result<(), VmError>,
) -> bool {
    let f = pre.last();
    if !f.room(1) {
        r == Err::<(), VmError>(VmError::OperandStack) && *post_heap == *pre_heap
    } else {
        exists|o: Result<u64, VmError>| #[trigger]
            Heap::jstr_post(pre_heap, loader, s, post_heap, o) && match o {
                Ok(x) => r is Ok && post == with_top(pre, f.push1(x).at_pc(ins.next)),
                Err(e) => r == Err::<(), VmError>(e),
            }
    }
}

/// What an `ldc` of the number `v`, of 64 bits where `w` holds, leaves.
pub open spec fn ldc_number_post(
    ins: InsView,
    v: u64,
    w: bool,
    pre: Seq<FrameView>,
    post: Seq<FrameView>,
    r: Result<(), VmError>,
) -> bool {
    if w != (ins.op == 0x14) {
        r == Err::<(), VmError>(VmError::ClassFormat)
    } else {
        match replace_at(
            pre.last(),
            ins.next,
            0,
            Pushed {
                v: if w {
                    v
                } else {
                    low32(v) as u64
                },
                wide: w,
            },
        ) {
            Ok(g) => r is Ok && post == with_top(pre, g),
            Err(e) => r == Err::<(), VmError>(e),
        }
    }
}

/// What an `ldc` of the class `name` does once the class is loaded,
/// `mid` being the class table then, and how it ends: a class that is
/// not initialized is initialized and the instruction is left to be
/// executed once more, which fails only where the frames of the
/// initializers cannot be pushed; else the mirror of the class is
/// pushed.
pub open spec fn ldc_class_acted(
    ins: InsView,
    name: Seq<char>,
    pre: Seq<FrameView>,
    mid: &ClassLoader,
    post: Seq<FrameView>,
    post_loader: &ClassLoader,
    r: Result<(), VmError>,
) -> bool {
    let c = mid.spec_find(name);
    &&& c is Some
    &&& if needs_init(mid, c.unwrap() as int) {
        if fits_init(mid, pre, c.unwrap() as int) {
            r is Ok && init_done(mid, pre, ins.pc, c.unwrap() as int, post_loader, post)
        } else {
            r == Err::<(), VmError>(VmError::StackOverflow) && *post_loader == *mid && post == pre
        }
    } else {
        r is Ok && *post_loader == *mid && post == with_top(
            pre,
            pre.last().push1(mid.classes@[c.unwrap() as int].j_class).at_pc(ins.next),
        )
    }
}

/// What an `ldc` of the class `name` leaves after a success: the class
/// is loaded, with what was loaded before kept as it was, and then
/// initialized or its mirror pushed.
pub open spec fn ldc_class_post(
    ins: InsView,
    name: Seq<char>,
    pre: Seq<FrameView>,
    pre_loader: &ClassLoader,
    post: Seq<FrameView>,
    post_loader: &ClassLoader,
) -> bool {
    exists|mid: ClassLoader|
        mid.grows_from(pre_loader) && #[trigger] ldc_class_acted(
            ins,
            name,
            pre,
            &mid,
            post,
            post_loader,
            Ok(()),
        )
}

/// The table `mid` shows that an `ldc` of a class did what
/// `ldc_class_post` says.
pub proof fn lemma_ldc_class_post(
    ins: InsView,
    name: Seq<char>,
    pre: Seq<FrameView>,
    pre_loader: &ClassLoader,
    mid: ClassLoader,
    post: Seq<FrameView>,
    post_loader: &ClassLoader,
)
    requires
        mid.grows_from(pre_loader),
        ldc_class_acted(ins, name, pre, &mid, post, post_loader, Ok(())),
    ensures
        ldc_class_post(ins, name, pre, pre_loader, post, post_loader),
{
}

/// What `ldc`, `ldc_w` or `ldc2_w` makes of the current frame, of the
/// heap and of the class table.
///
/// - A number is pushed as it stands in the pool: by `ldc` and `ldc_w`
///   one of 32 bits, by `ldc2_w` one of 64 bits; a number of the other
///   width is a class-format error.
/// - A string is interned and the reference to it is pushed.
/// - A class is loaded; where it is not initialized yet it is
///   initialized and the instruction is left to be executed once more,
///   else its mirror is pushed. For a class that is loaded already
///   `ldc_class_acted` says how the instruction ends.
///
/// An error leaves the frames as they were.
pub open spec fn ldc_post(
    ins: InsView,
    pre: Seq<FrameView>,
    pre_heap: &Heap,
    pre_loader: &ClassLoader,
    post: Seq<FrameView>,
    post_heap: &Heap,
    post_loader: &ClassLoader,
    r: Result<(), VmError>,
) -> bool {
    let f = pre.last();
    &&& r is Err ==> post == pre
    &&& match ldc_constant(ins, f, pre_loader) {
        None => r == Err::<(), VmError>(VmError::ClassFormat) && *post_heap == *pre_heap
            && *post_loader == *pre_loader,
        Some(ConstantView::Primitive(v, w)) => *post_heap == *pre_heap && *post_loader
            == *pre_loader && ldc_number_post(ins, v, w, pre, post, r),
        Some(ConstantView::String(s)) => *post_loader == *pre_loader && ldc_string_post(
            ins,
            s,
            pre,
            pre_heap,
            pre_loader,
            post,
            post_heap,
            r,
        ),
        Some(ConstantView::ClassRef(i)) => match ldc_class_name(ins, f, pre_loader) {
            None => r == Err::<(), VmError>(VmError::ClassFormat) && *post_heap == *pre_heap
                && *post_loader == *pre_loader && post == pre,
            Some(name) => if !f.room(1) {
                r == Err::<(), VmError>(VmError::OperandStack) && *post_heap == *pre_heap
                    && *post_loader == *pre_loader && post == pre
            } else {
                &&& r is Ok ==> ldc_class_post(ins, name, pre, pre_loader, post, post_loader)
                &&& pre_loader.spec_find(name) is Some ==> *post_heap == *pre_heap
                    && ldc_class_acted(ins, name, pre, pre_loader, post, post_loader, r)
            },
        },
    }
}

/// Executes `ldc`, `ldc_w` or `ldc2_w`.
pub fn ldc<E: Entry>(
    ins: &Ins,
    th: &mut JThread,
    heap: &mut Heap,
    loader: &mut ClassLoader,
    entry: &E,
) -> (r: Result<(), VmError>)
    requires
        old(th).stack.wf(),
        old(th).stack@.len() > 0,
        old(th).pc == ins.pc,
        old(heap).wf(),
        old(loader).wf(),
    ensures
        final(th).stack.wf(),
        final(th).pc == old(th).pc,
        final(heap).wf(),
        final(loader).wf(),
        final(heap).extends(old(heap)),
        final(loader).evolves_from(old(loader)),
        ldc_post(ins@, old(th).stack@, old(heap), old(loader), final(th).stack@, final(heap), final(loader), r),
{
    let class: usize = th.stack.cur_frame().method.class;
    if class >= loader.classes.len() {
        return Err(VmError::ClassFormat);
    }
    let i: usize = ins.a as usize;
    let wide_op: bool = ins.op == 0x14;
    // What is read from the pool is copied out, so that the class table
    // is free to change below.
    let mut number: Option<(u64, bool)> = None;
    let mut text: Option<String> = None;
    let mut class_name: Option<String> = None;
    let mut is_class: bool = false;
    let ghost k = ldc_constant(ins@, old(th).stack.top(), old(loader));
    proof {
        assert(class == old(th).stack.top().method.class);
        assert(pool_of(old(loader), old(th).stack.top()) == loader.classes@[class as int].cp@);
    }
    match loader.classes[class].cp.constant(i) {
        None => {
            return Err(VmError::ClassFormat);
        },
        Some(Constant::Primitive(v, w)) => {
            number = Some((v, w));
        },
        Some(Constant::String(s)) => {
            proof {
                assert(k == Some(ConstantView::String(s@)));
            }
            text = Some(s.to_owned());
        },
        Some(Constant::ClassRef(n)) => {
            is_class = true;
            match loader.classes[class].cp.utf8(n as usize) {
                Some(s) => {
                    class_name = Some(s.to_owned());
                },
                None => {},
            }
        },
    }
    proof {
        assert(text is Some ==> k == Some(ConstantView::String(text.unwrap()@)));
        assert(number is Some ==> k == Some(
            ConstantView::Primitive(number.unwrap().0, number.unwrap().1),
        ));
        assert(number is None && text is None ==> k is Some && k.unwrap() is ClassRef);
        assert(number is None && text is None ==> match class_name {
            Some(n) => ldc_class_name(ins@, old(th).stack.top(), old(loader)) == Some(n@),
            None => ldc_class_name(ins@, old(th).stack.top(), old(loader)) is None,
        });
    }
    match number {
        Some((v, w)) => {
            if w != wide_op {
                return Err(VmError::ClassFormat);
            }
            let p = Pushed {
                v: if w {
                    v
                } else {
                    low(v) as u64
                },
                wide: w,
            };
            return replace_and_go(&mut th.stack, ins.next, 0, p);
        },
        None => {},
    }
    match text {
        Some(s) => {
            if th.stack.room() < 1 {
                return Err(VmError::OperandStack);
            }
            let o: u64 = match heap.new_jstr(loader, s.as_str()) {
                Ok(o) => o,
                Err(e) => {
                    proof {
                        assert(Heap::jstr_post(old(heap), old(loader), s@, heap, Err(e)));
                        assert(ldc_string_post(
                            ins@,
                            s@,
                            old(th).stack@,
                            old(heap),
                            old(loader),
                            th.stack@,
                            heap,
                            Err(e),
                        ));
                    }
                    return Err(e);
                },
            };
            th.stack.push_slot(o);
            th.stack.set_next_pc(ins.next);
            proof {
                assert(th.stack@ =~= with_top(old(th).stack@, old(th).stack.top().push1(o).at_pc(ins.next)));
                assert(Heap::jstr_post(old(heap), old(loader), s@, heap, Ok(o)));
                assert(ldc_string_post(
                    ins@,
                    s@,
                    old(th).stack@,
                    old(heap),
                    old(loader),
                    th.stack@,
                    heap,
                    Ok(()),
                ));
            }
            return Ok(());
        },
        None => {},
    }
    match class_name {
        Some(n) => {
            if th.stack.room() < 1 {
                return Err(VmError::OperandStack);
            }
            let c: usize = match loader.load(heap, entry, n.as_str()) {
                Ok(c) => c,
                Err(e) => {
                    return Err(e);
                },
            };
            let ghost mid = *loader;
            proof {
                loader.lemma_grows_evolves(old(loader));
            }
            match th.clinit(loader, c) {
                Ok(started) => {
                    if started {
                        proof {
                            loader.lemma_classes_evolve(&mid);
                            loader.lemma_evolves_trans(&mid, old(loader));
                            lemma_ldc_class_post(
                                ins@,
                                n@,
                                old(th).stack@,
                                old(loader),
                                mid,
                                th.stack@,
                                loader,
                            );
                        }
                        return Ok(());
                    }
                },
                Err(e) => {
                    proof {
                        loader.lemma_classes_evolve(&mid);
                        loader.lemma_evolves_trans(&mid, old(loader));
                    }
                    return Err(e);
                },
            }
            let mirror: u64 = loader.classes[c].j_class;
            th.stack.push_slot(mirror);
            th.stack.set_next_pc(ins.next);
            proof {
                assert(th.stack@ =~= with_top(
                    old(th).stack@,
                    old(th).stack.top().push1(mirror).at_pc(ins.next),
                ));
                lemma_ldc_class_post(
                    ins@,
                    n@,
                    old(th).stack@,
                    old(loader),
                    mid,
                    th.stack@,
                    loader,
                );
            }
            Ok(())
        },
        None => Err(VmError::ClassFormat),
    }
}

/// Executes an instruction of the family of constants.
pub fn con<E: Entry>(
    ins: &Ins,
    th: &mut JThread,
    heap: &mut Heap,
    loader: &mut ClassLoader,
    entry: &E,
) -> (r: Result<(), VmError>)
    requires
        old(th).stack.wf(),
        old(th).stack@.len() > 0,
        old(th).pc == ins.pc,
        old(heap).wf(),
        old(loader).wf(),
    ensures
        final(th).stack.wf(),
        final(th).pc == old(th).pc,
        final(heap).wf(),
        final(loader).wf(),
        final(heap).extends(old(heap)),
        final(loader).evolves_from(old(loader)),
        0x12 <= ins.op <= 0x14 ==> ldc_post(
            ins@,
            old(th).stack@,
            old(heap),
            old(loader),
            final(th).stack@,
            final(heap),
            final(loader),
            r,
        ),
        !(0x12 <= ins.op <= 0x14) ==> *final(heap) == *old(heap) && *final(loader) == *old(loader)
            && match cons_effect(ins@, old(th).stack.top()) {
            Ok(f) => r is Ok && final(th).stack@ == with_top(old(th).stack@, f),
            Err(e) => r == Err::<(), VmError>(e) && final(th).stack@ == old(th).stack@,
        },
{
    if 0x12 <= ins.op && ins.op <= 0x14 {
        ldc(ins, th, heap, loader, entry)
    } else {
        cons_simple(ins, &mut th.stack)
    }
}

} // verus!
