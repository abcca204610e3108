//! The instructions on references: fields, invocations, objects,
//! arrays, type tests and monitors.

use vstd::prelude::*;
use crate::class::ClassLoader;
use crate::error::VmError;
use crate::frame::{FrameView, with_top};
use crate::heap::Heap;
use crate::ins::decode::{Ins, InsView};
use crate::ins::field::{field, field_done};
use crate::ins::invoke::{invoke, invoke_done};
use crate::ins::object::{
    anewarray, anewarray_done, arraylength, arraylength_effect, monitor, monitor_effect,
    multi_done, multianewarray, new_done, new_object, newarray, newarray_post, type_done,
    type_test,
};
use crate::loader::Entry;
use crate::thread::JThread;

verus! {

/// What an instruction of this family leaves, and how it ends, by
/// opcode:
///
/// - `getstatic`, `putstatic`, `getfield`, `putfield`: see `field_done`;
/// - the four invoke instructions: see `invoke_done`;
/// - `new`: see `new_done`; `newarray`: see `newarray_post`;
///   `anewarray`: see `anewarray_done`; `multianewarray`: see
///   `multi_done`;
/// - `arraylength`: see `arraylength_effect`; `monitorenter` and
///   `monitorexit`: see `monitor_effect`;
/// - `checkcast` and `instanceof`: see `type_done`;
/// - any other opcode is unknown.
pub open spec fn refs_post(
    ins: InsView,
    pre: Seq<FrameView>,
    pre_loader: &ClassLoader,
    pre_heap: &Heap,
    post: Seq<FrameView>,
    post_loader: &ClassLoader,
    post_heap: &Heap,
    r: Result<(), VmError>,
) -> bool {
    let op = ins.op;
    if 0xb2 <= op <= 0xb5 {
        field_done(ins, pre, pre_loader, pre_heap, post, post_loader, post_heap, r)
    } else if 0xb6 <= op <= 0xb9 {
        invoke_done(ins, pre, pre_loader, pre_heap, post, post_loader, post_heap, r)
    } else if op == 0xbb {
        new_done(ins, pre, pre_loader, pre_heap, post, post_loader, post_heap, r)
    } else if op == 0xbc {
        *post_loader == *pre_loader && newarray_post(ins, pre, pre_heap, post, post_heap, r)
    } else if op == 0xbd {
        anewarray_done(ins, pre, pre_loader, pre_heap, post, post_loader, post_heap, r)
    } else if op == 0xbe {
        *post_loader == *pre_loader && *post_heap == *pre_heap && match arraylength_effect(
            ins,
            pre.last(),
            pre_heap,
        ) {
            Ok(f) => r is Ok && post == with_top(pre, f),
            Err(e) => r == Err::<(), VmError>(e) && post == pre,
        }
    } else if op == 0xc0 || op == 0xc1 {
        type_done(ins, pre, pre_loader, pre_heap, post, post_loader, post_heap, r)
    } else if op == 0xc2 || op == 0xc3 {
        *post_loader == *pre_loader && *post_heap == *pre_heap && match monitor_effect(
            ins,
            pre.last(),
        ) {
            Ok(f) => r is Ok && post == with_top(pre, f),
            Err(e) => r == Err::<(), VmError>(e) && post == pre,
        }
    } else if op == 0xc5 {
        multi_done(ins, pre, pre_loader, pre_heap, post, post_loader, post_heap, r)
    } else {
        r == Err::<(), VmError>(VmError::UnknownOpcode) && post == pre && *post_loader
            == *pre_loader && *post_heap == *pre_heap
    }
}

/// Executes an instruction of the family of references.
pub fn refs<E: Entry>(
    ins: &Ins,
    th: &mut JThread,
    heap: &mut Heap,
    loader: &mut ClassLoader,
    entry: &E,
) -> (r: Result<(), VmError>)
    requires
        old(th).stack.wf(),
        old(th).stack@.len() > 0,
        old(th).pc == ins.pc,
        old(heap).wf(),
        old(loader).wf(),
    ensures
        final(th).stack.wf(),
        final(th).pc == old(th).pc,
        final(heap).wf(),
        final(loader).wf(),
        final(heap).evolves_from(old(heap)),
        final(loader).evolves_from(old(loader)),
        refs_post(
            ins@,
            old(th).stack@,
            old(loader),
            old(heap),
            final(th).stack@,
            final(loader),
            final(heap),
            r,
        ),
{
    let op: u8 = ins.op;
    if 0xb2 <= op && op <= 0xb5 {
        field(ins, th, heap, loader, entry)
    } else if 0xb6 <= op && op <= 0xb9 {
        invoke(ins, th, heap, loader, entry)
    } else if op == 0xbb {
        new_object(ins, th, heap, loader, entry)
    } else if op == 0xbc {
        let r = newarray(ins, &mut th.stack, heap);
        proof {
            heap.lemma_extends_evolves(old(heap));
            loader.lemma_classes_evolve(old(loader));
        }
        r
    } else if op == 0xbd {
        let r = anewarray(ins, &mut th.stack, heap, loader, entry);
        proof {
            heap.lemma_extends_evolves(old(heap));
        }
        r
    } else if op == 0xbe {
        proof {
            heap.lemma_extends_evolves(old(heap));
            loader.lemma_classes_evolve(old(loader));
        }
        arraylength(ins, &mut th.stack, heap)
    } else if op == 0xc0 || op == 0xc1 {
        let r = type_test(ins, &mut th.stack, heap, loader, entry);
        proof {
            heap.lemma_extends_evolves(old(heap));
        }
        r
    } else if op == 0xc2 || op == 0xc3 {
        proof {
            heap.lemma_extends_evolves(old(heap));
            loader.lemma_classes_evolve(old(loader));
        }
        monitor(ins, &mut th.stack)
    } else if op == 0xc5 {
        if ins.b < 0 {
            proof {
                heap.lemma_extends_evolves(old(heap));
                loader.lemma_classes_evolve(old(loader));
            }
            return Err(VmError::OperandStack);
        }
        let r = multianewarray(ins, &mut th.stack, heap, loader, entry);
        proof {
            heap.lemma_extends_evolves(old(heap));
        }
        r
    } else {
        proof {
            heap.lemma_extends_evolves(old(heap));
            loader.lemma_classes_evolve(old(loader));
        }
        Err(VmError::UnknownOpcode)
    }
}

} // verus!
