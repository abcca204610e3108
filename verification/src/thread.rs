//! The thread of execution: the frames and the offset of the
//! instruction that is being executed; and the initialization of
//! classes, which runs their initializers as frames of this thread.

use vstd::prelude::*;
use crate::class::{ClassLoader, find_member};
use crate::error::VmError;
use crate::frame::{
    FrameView, JStack, MemberRef, MAX_CELLS, MAX_JSTACK_SIZE, cells_sum, with_top, zeros,
};
use crate::ins::alu::{branch_target, target_of};
use crate::loader::same_shape;

verus! {

/// The one thread of the machine.
pub struct JThread {
    /// The offset of the instruction that is being executed.
    pub pc: u32,
    pub stack: JStack,
}

/// The frame with which an activation of the method `m` starts: its next
/// instruction the first, its locals and its operand cells zero.
pub open spec fn frame_for(loader: &ClassLoader, m: MemberRef) -> FrameView {
    let method = loader.spec_method(m).unwrap();
    FrameView {
        method: m,
        next_pc: 0,
        no_ret: false,
        locals: zeros(method.max_locals as nat),
        cells: zeros(method.max_stack as nat),
        depth: 0,
    }
}

/// Whether class `c` is loaded and not initialized.
pub open spec fn needs_init(loader: &ClassLoader, c: int) -> bool {
    0 <= c < loader.classes@.len() && !loader.classes@[c].initialized
}

/// The initializer of class `c`.
pub open spec fn clinit_of(loader: &ClassLoader, c: int) -> Option<MemberRef> {
    match find_member(loader.classes@[c].methods@, "<clinit>"@, "()V"@, 0) {
        Some(k) => Some(MemberRef { class: c as usize, index: k as usize }),
        None => None,
    }
}

/// The classes that an initialization of class `c` initializes, in the
/// order in which it marks them: `c` and then its superclasses, up to
/// the first that is initialized already.
pub open spec fn init_chain(loader: &ClassLoader, c: int) -> Seq<int>
    decreases c,
{
    if !needs_init(loader, c) {
        Seq::empty()
    } else {
        seq![c] + (match loader.classes@[c].super_class {
            Some(s) => if s < c {
                init_chain(loader, s as int)
            } else {
                Seq::empty()
            },
            None => Seq::empty(),
        })
    }
}

/// The frames that an initialization of the classes `chain` pushes: one
/// for each class that has an initializer, in the order of the chain,
/// so that the initializer of a superclass comes to lie above that of
/// its subclass and runs before it.
pub open spec fn init_frames(loader: &ClassLoader, chain: Seq<int>) -> Seq<FrameView>
    decreases chain.len(),
{
    if chain.len() == 0 {
        Seq::empty()
    } else {
        (match clinit_of(loader, chain[0]) {
            Some(m) => seq![frame_for(loader, m)],
            None => Seq::empty(),
        }) + init_frames(loader, chain.drop_first())
    }
}

/// Frames take no negative number of cells.
pub proof fn lemma_cells_nonneg(fs: Seq<FrameView>)
    ensures
        cells_sum(fs) >= 0,
    decreases fs.len(),
{
    if fs.len() > 0 {
        lemma_cells_nonneg(fs.drop_first());
    }
}

/// The cells of one frame, if any, and of the frames behind it.
pub proof fn lemma_cells_sum(head: Seq<FrameView>, rest: Seq<FrameView>)
    requires
        head.len() <= 1,
    ensures
        cells_sum(head + rest) == cells_sum(head) + cells_sum(rest),
        head.len() == 1 ==> cells_sum(head) == head[0].locals.len() + head[0].cells.len(),
        head.len() == 0 ==> cells_sum(head) == 0,
{
    if head.len() == 1 {
        assert((head + rest).drop_first() =~= rest);
        assert(head.drop_first() =~= Seq::<FrameView>::empty());
        assert(cells_sum(head.drop_first()) == 0);
        assert((head + rest)[0] == head[0]);
    } else {
        assert(head + rest =~= rest);
    }
}

/// Whether `post` and `post_stack` are what an initialization of class
/// `c` that had something to do leaves of `pre` and `pre_stack`, `pc`
/// being the offset of the instruction that is being executed:
///
/// - the current frame, where there is one, executes its instruction
///   once more;
/// - above it lies one frame for each initializer of the chain;
/// - the classes of the chain are marked as initialized, and nothing
///   else changed in the table.
pub open spec fn init_done(
    pre: &ClassLoader,
    pre_stack: Seq<FrameView>,
    pc: u32,
    c: int,
    post: &ClassLoader,
    post_stack: Seq<FrameView>,
) -> bool {
    let chain = init_chain(pre, c);
    let base = if pre_stack.len() == 0 {
        pre_stack
    } else {
        with_top(pre_stack, pre_stack.last().at_pc(pc))
    };
    &&& post_stack == base + init_frames(pre, chain)
    &&& post.same_classes(pre)
    &&& forall|k: int|
        0 <= k < pre.classes@.len() ==> (#[trigger] post.classes@[k]).initialized == (
        pre.classes@[k].initialized || chain.contains(k)) && post.classes@[k].static_vars
            == pre.classes@[k].static_vars && post.classes@[k].sym_refs == pre.classes@[k].sym_refs
            && post.classes@[k].j_class == pre.classes@[k].j_class
}

/// Whether the frames `stack` leave room for the frames that an
/// initialization of class `c` pushes: the frame table has room for
/// them, and with them the frames own no more than `MAX_CELLS` cells.
pub open spec fn fits_init(loader: &ClassLoader, stack: Seq<FrameView>, c: int) -> bool {
    let fs = init_frames(loader, init_chain(loader, c));
    stack.len() + fs.len() <= MAX_JSTACK_SIZE && cells_sum(stack) + cells_sum(fs) <= MAX_CELLS
}

/// What every initialization of class `c` keeps to: a class that is
/// initialized, or is not there, is left alone and the answer is
/// `false`; and after a success the class is initialized.
pub open spec fn init_post(
    pre: &ClassLoader,
    pre_stack: Seq<FrameView>,
    c: int,
    post: &ClassLoader,
    post_stack: Seq<FrameView>,
    r: Result<bool, VmError>,
) -> bool {
    &&& !needs_init(pre, c) ==> r == Ok::<bool, VmError>(false) && *post == *pre && post_stack
        == pre_stack
    &&& needs_init(pre, c) && r is Ok ==> r == Ok::<bool, VmError>(true) && !needs_init(post, c)
        && post.classes@.len() == pre.classes@.len()
}

/// Initialization happens once: after one initialization of a class has
/// succeeded, the next one answers `false` and schedules nothing.
pub proof fn lemma_init_once(
    l0: ClassLoader,
    s0: Seq<FrameView>,
    l1: ClassLoader,
    s1: Seq<FrameView>,
    l2: ClassLoader,
    s2: Seq<FrameView>,
    c: int,
    r1: Result<bool, VmError>,
    r2: Result<bool, VmError>,
)
    requires
        init_post(&l0, s0, c, &l1, s1, r1),
        init_post(&l1, s1, c, &l2, s2, r2),
        r1 is Ok,
    ensures
        r2 == Ok::<bool, VmError>(false),
        l2 == l1,
        s2 == s1,
{
}

impl ClassLoader {
    /// Marks class `c` as initialized.
    pub fn mark_initialized(&mut self, c: usize)
        requires
            old(self).wf(),
            c < old(self).classes@.len(),
        ensures
            final(self).wf(),
            final(self).same_classes(old(self)),
            final(self).classes@[c as int].initialized,
            final(self).classes@[c as int].static_vars == old(self).classes@[c as int].static_vars,
            final(self).classes@[c as int].sym_refs == old(self).classes@[c as int].sym_refs,
            final(self).classes@[c as int].j_class == old(self).classes@[c as int].j_class,
            forall|k: int|
                0 <= k < old(self).classes@.len() && k != c ==> final(self).classes@[k] == old(self).classes@[k],
    {
        self.classes[c].initialized = true;
        proof {
            assert(same_shape(self.classes@[c as int], old(self).classes@[c as int]));
            self.lemma_same_classes_wf(old(self));
        }
    }
}

impl JThread {
    /// A thread with no frame.
    pub fn new() -> (r: JThread)
        ensures
            r.stack.wf(),
            r.stack@.len() == 0,
            r.pc == 0,
    {
        JThread { pc: 0, stack: JStack::new() }
    }

    /// Lets the current frame go on at the offset `off` from the
    /// instruction that is being executed.
    pub fn branch(&mut self, off: i32)
        requires
            old(self).stack.wf(),
            old(self).stack@.len() > 0,
        ensures
            final(self).stack.wf(),
            final(self).pc == old(self).pc,
            final(self).stack@ == with_top(
                old(self).stack@,
                old(self).stack.top().at_pc(branch_target(old(self).pc, off)),
            ),
    {
        let t: u32 = target_of(self.pc, off);
        self.stack.set_next_pc(t);
    }

    /// Lets the current frame execute the instruction that is being
    /// executed once more.
    pub fn revert_pc(&mut self)
        requires
            old(self).stack.wf(),
            old(self).stack@.len() > 0,
        ensures
            final(self).stack.wf(),
            final(self).pc == old(self).pc,
            final(self).stack@ == with_top(
                old(self).stack@,
                old(self).stack.top().at_pc(old(self).pc),
            ),
            final(self).stack.used() == old(self).stack.used(),
            final(self).stack.frames@.len() == old(self).stack.frames@.len(),
    {
        let pc: u32 = self.pc;
        self.stack.set_next_pc(pc);
    }

    /// Pushes a frame for an activation of the method `m`. It fails where
    /// `m` links to no method or the frame cannot be pushed; the frames
    /// then stay as they are.
    pub fn push_frame(&mut self, loader: &ClassLoader, m: MemberRef) -> (r: Result<(), VmError>)
        requires
            old(self).stack.wf(),
        ensures
            final(self).stack.wf(),
            final(self).pc == old(self).pc,
            loader.spec_method(m) is None ==> r == Err::<(), VmError>(VmError::InvalidReference)
                && final(self).stack@ == old(self).stack@,
            loader.spec_method(m) is Some && old(self).stack.push_fails(
                loader.spec_method(m).unwrap().max_locals,
                loader.spec_method(m).unwrap().max_stack,
            ) ==> r == Err::<(), VmError>(VmError::StackOverflow) && final(self).stack@ == old(self).stack@,
            loader.spec_method(m) is Some && !old(self).stack.push_fails(
                loader.spec_method(m).unwrap().max_locals,
                loader.spec_method(m).unwrap().max_stack,
            ) ==> r is Ok && final(self).stack@ == old(self).stack@.push(frame_for(loader, m)),
            r is Ok ==> final(self).stack.used() == old(self).stack.used() + cells_sum(
                seq![frame_for(loader, m)],
            ) && final(self).stack.frames@.len() == old(self).stack.frames@.len() + 1,
    {
        proof {
            let one = seq![frame_for(loader, m)];
            assert(one.drop_first() =~= Seq::<FrameView>::empty());
            assert(cells_sum(one.drop_first()) == 0);
        }
        match loader.method(m) {
            Some(method) => self.stack.push_frame(m, method.max_locals, method.max_stack),
            None => Err(VmError::InvalidReference),
        }
    }

    /// Whether the frames leave room for the frames that an
    /// initialization of class `c` pushes.
    pub fn init_fits(&self, loader: &ClassLoader, c: usize) -> (r: bool)
        requires
            self.stack.wf(),
            loader.wf(),
            needs_init(loader, c as int),
        ensures
            r == fits_init(loader, self.stack@, c as int),
    {
        let mut count: usize = self.stack.size();
        let mut cells: usize = self.stack.cells_used();
        let mut cur: usize = c;
        let ghost base_len = self.stack@.len() as int;
        let ghost base_cells = cells_sum(self.stack@);
        loop
            invariant
                self.stack.wf(),
                loader.wf(),
                cur <= c,
                needs_init(loader, cur as int),
                count <= MAX_JSTACK_SIZE,
                cells <= MAX_CELLS,
                base_len == self.stack@.len(),
                base_cells == cells_sum(self.stack@),
                fits_init(loader, self.stack@, c as int) == (count + init_frames(
                    loader,
                    init_chain(loader, cur as int),
                ).len() <= MAX_JSTACK_SIZE && cells + cells_sum(
                    init_frames(loader, init_chain(loader, cur as int)),
                ) <= MAX_CELLS),
            decreases cur,
        {
            let ghost rest = init_chain(loader, cur as int);
            let ghost tail = match loader.classes@[cur as int].super_class {
                Some(s) => if s < cur {
                    init_chain(loader, s as int)
                } else {
                    Seq::<int>::empty()
                },
                None => Seq::<int>::empty(),
            };
            let ghost head = match clinit_of(loader, cur as int) {
                Some(m) => seq![frame_for(loader, m)],
                None => Seq::<FrameView>::empty(),
            };
            proof {
                assert(rest == seq![cur as int] + tail);
                assert(rest[0] == cur);
                assert(rest.drop_first() =~= tail);
                assert(init_frames(loader, rest) == head + init_frames(loader, tail));
                lemma_cells_sum(head, init_frames(loader, tail));
                lemma_cells_nonneg(init_frames(loader, tail));
            }
            match loader.clinit_method(cur) {
                Some(m) => {
                    proof {
                        crate::class::lemma_find_member_bound(
                            loader.classes@[cur as int].methods@,
                            "<clinit>"@,
                            "()V"@,
                            0,
                        );
                        assert(head[0] == frame_for(loader, m));
                    }
                    match loader.method(m) {
                        Some(method) => {
                            if count >= MAX_JSTACK_SIZE || method.max_locals > MAX_CELLS - cells
                                || method.max_stack > MAX_CELLS - cells - method.max_locals {
                                return false;
                            }
                            count += 1;
                            cells += method.max_locals + method.max_stack;
                        },
                        None => {},
                    }
                },
                None => {},
            }
            match loader.classes[cur].super_class {
                Some(s) => {
                    if s < cur && !loader.classes[s].initialized {
                        cur = s;
                    } else {
                        proof {
                            assert(tail =~= Seq::<int>::empty());
                            assert(init_frames(loader, tail) =~= Seq::<FrameView>::empty());
                        }
                        return true;
                    }
                },
                None => {
                    proof {
                        assert(init_frames(loader, tail) =~= Seq::<FrameView>::empty());
                    }
                    return true;
                },
            }
        }
    }

    /// Initializes class `c` where it is not initialized: the current
    /// frame is set to execute its instruction once more; the class and
    /// its superclasses, up to the first that is initialized already,
    /// are marked as initialized; and a frame is pushed for every
    /// initializer among them. The answer says whether anything was
    /// done. Where there is no room for these frames nothing is done,
    /// and the answer is a stack overflow.
    pub fn clinit(&mut self, loader: &mut ClassLoader, c: usize) -> (r: Result<bool, VmError>)
        requires
            old(self).stack.wf(),
            old(loader).wf(),
        ensures
            final(self).stack.wf(),
            final(loader).wf(),
            final(loader).same_classes(old(loader)),
            final(self).pc == old(self).pc,
            init_post(
                old(loader),
                old(self).stack@,
                c as int,
                final(loader),
                final(self).stack@,
                r,
            ),
            r is Err ==> r == Err::<bool, VmError>(VmError::StackOverflow) && *final(loader) == *old(loader) && final(self).stack@ == old(self).stack@,
            needs_init(old(loader), c as int) ==> (r is Ok <==> fits_init(
                old(loader),
                old(self).stack@,
                c as int,
            )),
            r == Ok::<bool, VmError>(true) ==> init_done(
                old(loader),
                old(self).stack@,
                old(self).pc,
                c as int,
                final(loader),
                final(self).stack@,
            ),
    {
        if c >= loader.classes.len() || loader.classes[c].initialized {
            return Ok(false);
        }
        if !self.init_fits(loader, c) {
            return Err(VmError::StackOverflow);
        }
        proof {
            self.stack.lemma_used();
        }
        if !self.stack.is_empty() {
            self.revert_pc();
        }
        let ghost base = self.stack@;
        let ghost chain = init_chain(old(loader), c as int);
        let mut cur: usize = c;
        proof {
            assert(base + init_frames(old(loader), chain) =~= self.stack@ + init_frames(
                old(loader),
                init_chain(old(loader), cur as int),
            ));
            assert(chain[0] == c);
            lemma_chain_below(old(loader), c as int);
        }
        loop
            invariant
                self.stack.wf(),
                loader.wf(),
                loader.same_classes(old(loader)),
                self.pc == old(self).pc,
                cur <= c,
                c < old(loader).classes@.len(),
                needs_init(old(loader), cur as int),
                needs_init(old(loader), c as int),
                fits_init(old(loader), old(self).stack@, c as int),
                fits_init(old(loader), old(self).stack@, c as int) ==> self.stack.fits(
                    init_frames(old(loader), init_chain(old(loader), cur as int)),
                ),
                chain == init_chain(old(loader), c as int),
                chain.contains(cur as int),
                base == (if old(self).stack@.len() == 0 {
                    old(self).stack@
                } else {
                    with_top(old(self).stack@, old(self).stack.top().at_pc(old(self).pc))
                }),
                base + init_frames(old(loader), chain) == self.stack@ + init_frames(
                    old(loader),
                    init_chain(old(loader), cur as int),
                ),
                forall|k: int|
                    0 <= k < old(loader).classes@.len() ==> (
                    #[trigger] loader.classes@[k]).static_vars == old(loader).classes@[k].static_vars
                        && loader.classes@[k].sym_refs == old(loader).classes@[k].sym_refs
                        && loader.classes@[k].j_class == old(loader).classes@[k].j_class
                        && loader.classes@[k].initialized == (old(loader).classes@[k].initialized
                        || (chain.contains(k) && k > cur)),
            decreases cur,
        {
            let ghost before_loader = *loader;
            let ghost before_stack = self.stack@;
            let ghost rest = init_chain(old(loader), cur as int);
            let ghost tail = match old(loader).classes@[cur as int].super_class {
                Some(s) => if s < cur {
                    init_chain(old(loader), s as int)
                } else {
                    Seq::<int>::empty()
                },
                None => Seq::<int>::empty(),
            };
            let ghost head = match clinit_of(old(loader), cur as int) {
                Some(m) => seq![frame_for(old(loader), m)],
                None => Seq::<FrameView>::empty(),
            };
            loader.mark_initialized(cur);
            let init: Option<MemberRef> = loader.clinit_method(cur);
            proof {
                assert(same_shape(loader.classes@[cur as int], old(loader).classes@[cur as int]));
                assert(init == clinit_of(old(loader), cur as int));
                assert(rest == seq![cur as int] + tail);
                assert(rest[0] == cur);
                assert(rest.drop_first() =~= tail);
                assert(init_frames(old(loader), rest) == head + init_frames(old(loader), tail));
                lemma_cells_sum(head, init_frames(old(loader), tail));
                if init is Some {
                    crate::class::lemma_find_member_bound(
                        loader.classes@[cur as int].methods@,
                        "<clinit>"@,
                        "()V"@,
                        0,
                    );
                }
            }
            match init {
                Some(m) => {
                    proof {
                        assert(loader.spec_method(m) == old(loader).spec_method(m));
                        assert(loader.spec_method(m) is Some);
                        lemma_cells_nonneg(init_frames(old(loader), tail));
                        assert(head[0] == frame_for(old(loader), m));
                        assert(head[0].locals.len() == loader.spec_method(m).unwrap().max_locals);
                        assert(head[0].cells.len() == loader.spec_method(m).unwrap().max_stack);
                    }
                    match self.push_frame(loader, m) {
                        Ok(_) => {
                            proof {
                                assert(frame_for(loader, m) == frame_for(old(loader), m));
                            }
                        },
                        Err(e) => {
                            return Err(VmError::StackOverflow);
                        },
                    }
                },
                None => {},
            }
            let next: Option<usize> = match loader.classes[cur].super_class {
                Some(s) => if s < cur && !loader.classes[s].initialized {
                    Some(s)
                } else {
                    None
                },
                None => None,
            };
            proof {
                assert(self.stack@ =~= before_stack + head);
                assert(before_stack + (head + init_frames(old(loader), tail)) =~= (before_stack
                    + head) + init_frames(old(loader), tail));
                lemma_chain_below(old(loader), cur as int);
                lemma_chain_below(old(loader), c as int);
                // No class of the chain lies strictly between the next
                // class and this one.
                assert forall|k: int| chain.contains(k) && k < cur implies tail.contains(k) by {
                    lemma_chain_down(old(loader), c as int, cur as int, k);
                    let j = choose|j: int| 0 <= j < rest.len() && rest[j] == k;
                    assert(j > 0);
                    assert(tail[j - 1] == k);
                }
            }
            match next {
                Some(s) => {
                    proof {
                        assert(loader.classes@[s as int].initialized == old(loader).classes@[s as int].initialized) by {
                            assert(before_loader.classes@[s as int].initialized == (old(loader).classes@[s as int].initialized || (chain.contains(s as int) && s
                                > cur)));
                        }
                        assert(tail == init_chain(old(loader), s as int));
                        assert(tail[0] == s);
                        assert(rest[1] == s);
                        assert(rest.contains(s as int));
                        lemma_chain_sub(old(loader), c as int, cur as int, s as int);
                        lemma_chain_below(old(loader), s as int);
                        assert forall|k: int|
                            0 <= k < old(loader).classes@.len() implies (
                        #[trigger] loader.classes@[k]).initialized == (old(loader).classes@[k].initialized || (chain.contains(k) && k > s)) by {
                            assert(before_loader.classes@[k].initialized == (old(loader).classes@[k].initialized || (chain.contains(k) && k > cur)));
                            if k == cur {
                            } else {
                                assert(loader.classes@[k] == before_loader.classes@[k]);
                                if chain.contains(k) && k < cur {
                                    assert(tail.contains(k));
                                }
                            }
                        }
                    }
                    cur = s;
                },
                None => {
                    proof {
                        assert(tail =~= Seq::<int>::empty()) by {
                            match old(loader).classes@[cur as int].super_class {
                                Some(s) => {
                                    if s < cur {
                                        assert(before_loader.classes@[s as int].initialized == (
                                        old(loader).classes@[s as int].initialized || (
                                        chain.contains(s as int) && s > cur)));
                                        assert(loader.classes@[s as int]
                                            == before_loader.classes@[s as int]);
                                    }
                                },
                                None => {},
                            }
                        }
                        assert(init_frames(old(loader), tail) =~= Seq::<FrameView>::empty());
                        assert(self.stack@ + Seq::<FrameView>::empty() =~= self.stack@);
                        assert forall|k: int|
                            0 <= k < old(loader).classes@.len() implies (
                        #[trigger] loader.classes@[k]).initialized == (old(loader).classes@[k].initialized || chain.contains(k)) by {
                            assert(before_loader.classes@[k].initialized == (old(loader).classes@[k].initialized || (chain.contains(k) && k > cur)));
                            if k == cur {
                            } else {
                                assert(loader.classes@[k] == before_loader.classes@[k]);
                                if chain.contains(k) && k < cur {
                                    assert(tail.contains(k));
                                }
                            }
                        }
                    }
                    return Ok(true);
                },
            }
        }
    }
}

/// A class of the chain from a class of the chain from `c` belongs to
/// the chain from `c`.
pub proof fn lemma_chain_sub(loader: &ClassLoader, c: int, m: int, k: int)
    requires
        init_chain(loader, c).contains(m),
        init_chain(loader, m).contains(k),
    ensures
        init_chain(loader, c).contains(k),
    decreases c,
{
    if needs_init(loader, c) {
        let ch = init_chain(loader, c);
        if m == c {
        } else {
            let jm = choose|j: int| 0 <= j < ch.len() && ch[j] == m;
            match loader.classes@[c].super_class {
                Some(s) => {
                    if s < c {
                        let tail = init_chain(loader, s as int);
                        assert(jm > 0);
                        assert(tail[jm - 1] == m);
                        assert(tail.contains(m));
                        lemma_chain_sub(loader, s as int, m, k);
                        let jk = choose|j: int| 0 <= j < tail.len() && tail[j] == k;
                        assert(ch[jk + 1] == k);
                    }
                },
                None => {},
            }
        }
    }
}

/// Every class of an initialization chain lies at or below the class it
/// starts from.
pub proof fn lemma_chain_below(loader: &ClassLoader, c: int)
    ensures
        forall|k: int| #[trigger] init_chain(loader, c).contains(k) ==> k <= c,
    decreases c,
{
    if needs_init(loader, c) {
        let tail = match loader.classes@[c].super_class {
            Some(s) => if s < c {
                init_chain(loader, s as int)
            } else {
                Seq::<int>::empty()
            },
            None => Seq::<int>::empty(),
        };
        match loader.classes@[c].super_class {
            Some(s) => {
                if s < c {
                    lemma_chain_below(loader, s as int);
                }
            },
            None => {},
        }
        assert forall|k: int| #[trigger] init_chain(loader, c).contains(k) implies k <= c by {
            let ch = init_chain(loader, c);
            let j = choose|j: int| 0 <= j < ch.len() && ch[j] == k;
            if j > 0 {
                assert(tail[j - 1] == k);
                assert(tail.contains(k));
            }
        }
    }
}

/// A class of the chain from `c` that lies below a class `m` of that
/// chain belongs to the chain from `m`.
pub proof fn lemma_chain_down(loader: &ClassLoader, c: int, m: int, k: int)
    requires
        init_chain(loader, c).contains(k),
        init_chain(loader, c).contains(m),
        k < m,
    ensures
        init_chain(loader, m).contains(k),
    decreases c,
{
    if needs_init(loader, c) {
        let ch = init_chain(loader, c);
        lemma_chain_below(loader, c);
        if m == c {
        } else {
            let jm = choose|j: int| 0 <= j < ch.len() && ch[j] == m;
            let jk = choose|j: int| 0 <= j < ch.len() && ch[j] == k;
            match loader.classes@[c].super_class {
                Some(s) => {
                    if s < c {
                        let tail = init_chain(loader, s as int);
                        assert(jm > 0);
                        assert(tail[jm - 1] == m);
                        assert(tail.contains(m));
                        assert(jk > 0);
                        assert(tail[jk - 1] == k);
                        assert(tail.contains(k));
                        lemma_chain_down(loader, s as int, m, k);
                    }
                },
                None => {},
            }
        }
    }
}

} // verus!
