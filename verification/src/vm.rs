//! The machine: heap, class table and thread together, and the loop
//! that fetches, decodes and executes instructions.

use vstd::prelude::*;
use vstd::string::*;
use crate::boot::{boot, primitives_ready};
use crate::load::read_as;
use crate::class::ClassLoader;
use crate::error::VmError;
use crate::frame::{FrameView, JFrame, MemberRef, with_top};
use crate::heap::Heap;
use crate::ins::compare::{compare, compare_effect};
use crate::ins::cons::{con, cons_effect, ldc_post};
use crate::ins::conv::{conv, conv_effect};
use crate::ins::ctl::{ctl, ctl_effect};
use crate::ins::decode::{Ins, InsView, decode, spec_decode};
use crate::ins::float::{float_operands, float_result, is_float_op};
use crate::ins::load::{load, load_effect};
use crate::ins::math::{math, math_effect};
use crate::ins::other::other;
use crate::ins::refs::{refs, refs_post};
use crate::ins::stack::{stack, stack_effect};
use crate::ins::store::{array_store_operands, cells_of, element_width, store, store_local_effect};
use crate::link::OP_NATIVE;
use crate::loader::Entry;
use crate::reader::BytesReader;
use crate::thread::{JThread, frame_for, init_done, init_post};

verus! {

/// How a step of the machine ended.
#[derive(Clone, Copy, PartialEq, Eq, Structural, Debug)]
pub enum Step {
    /// An instruction was executed.
    Continue,
    /// No frame is left.
    Done,
    /// The host function of this native method is to be called with the
    /// current frame.
    Native(MemberRef),
}

/// The families of instructions.
#[derive(Clone, Copy, PartialEq, Eq, Structural, Debug)]
pub enum Family {
    Cons,
    Load,
    Store,
    Stack,
    Math,
    Conv,
    Compare,
    Ctl,
    Refs,
    Other,
    Unknown,
}

/// The family of the opcode `op`.
pub open spec fn spec_family(op: u8) -> Family {
    if op <= 0x14 {
        Family::Cons
    } else if op <= 0x35 {
        Family::Load
    } else if op <= 0x56 {
        Family::Store
    } else if op <= 0x5f {
        Family::Stack
    } else if op <= 0x84 {
        Family::Math
    } else if op <= 0x93 {
        Family::Conv
    } else if op <= 0xa6 || op == 0xc6 || op == 0xc7 {
        Family::Compare
    } else if op <= 0xb1 {
        Family::Ctl
    } else if op <= 0xc3 || op == 0xc5 {
        Family::Refs
    } else if op >= 0xca {
        Family::Other
    } else {
        Family::Unknown
    }
}

/// The family of the opcode `op`.
pub fn family(op: u8) -> (r: Family)
    ensures
        r == spec_family(op),
{
    if op <= 0x14 {
        Family::Cons
    } else if op <= 0x35 {
        Family::Load
    } else if op <= 0x56 {
        Family::Store
    } else if op <= 0x5f {
        Family::Stack
    } else if op <= 0x84 {
        Family::Math
    } else if op <= 0x93 {
        Family::Conv
    } else if op <= 0xa6 || op == 0xc6 || op == 0xc7 {
        Family::Compare
    } else if op <= 0xb1 {
        Family::Ctl
    } else if op <= 0xc3 || op == 0xc5 {
        Family::Refs
    } else if op >= 0xca {
        Family::Other
    } else {
        Family::Unknown
    }
}

/// How an instruction ended, without what a step adds to it.
pub open spec fn as_unit(r: Result<Step, VmError>) -> Result<(), VmError> {
    match r {
        Ok(_) => Ok(()),
        Err(e) => Err(e),
    }
}

/// The machine.
pub struct Jvm {
    pub heap: Heap,
    pub loader: ClassLoader,
    pub thread: JThread,
}

impl Jvm {
    /// Heap, class table and frames are sound.
    pub open spec fn wf(&self) -> bool {
        self.heap.wf() && self.loader.wf() && self.thread.stack.wf()
    }

    /// The frames.
    pub open spec fn frames(&self) -> Seq<FrameView> {
        self.thread.stack@
    }

    /// The instruction that the current frame executes next.
    pub open spec fn fetched(&self) -> Result<InsView, VmError> {
        let f = self.frames().last();
        match self.loader.spec_method(f.method) {
            None => Err(VmError::InvalidReference),
            Some(m) => spec_decode(m.code@, f.next_pc as int),
        }
    }

    /// A machine that is ready to load and run classes from `entry`:
    /// with no frame, the classes of strings and of mirrors loaded, and
    /// the primitive classes and their array classes in place.
    pub fn new<E: Entry>(entry: &E) -> (r: Result<Jvm, VmError>)
        ensures
            r is Ok ==> {
                let jvm = r.unwrap();
                &&& jvm.wf()
                &&& jvm.frames().len() == 0
                &&& jvm.loader.jclass == jvm.loader.spec_find("java/lang/Class"@)
                &&& jvm.loader.jstring == jvm.loader.spec_find("java/lang/String"@)
                &&& primitives_ready(&jvm.heap, &jvm.loader)
                &&& jvm.loader.mirrors_fit()
                &&& jvm.loader.all_mirrored()
                &&& read_as(
                    entry,
                    "java/lang/String"@,
                    jvm.loader.classes@[jvm.loader.jstring.unwrap() as int],
                )
                &&& read_as(
                    entry,
                    "java/lang/Class"@,
                    jvm.loader.classes@[jvm.loader.jclass.unwrap() as int],
                )
            },
    {
        match boot(entry) {
            Ok((heap, loader)) => Ok(Jvm { heap, loader, thread: JThread::new() }),
            Err(e) => Err(e),
        }
    }

    /// Fetches and decodes the instruction that the current frame
    /// executes next.
    pub fn fetch(&self) -> (r: Result<Ins, VmError>)
        requires
            self.wf(),
            self.frames().len() > 0,
        ensures
            match self.fetched() {
                Ok(v) => r is Ok && r.unwrap()@ == v,
                Err(e) => r == Err::<Ins, VmError>(e),
            },
    {
        let f: JFrame = self.thread.stack.cur_frame();
        let m = match self.loader.method(f.method) {
            Some(m) => m,
            None => {
                return Err(VmError::InvalidReference);
            },
        };
        let mut rd = BytesReader { bytes: m.code.as_slice(), pc: f.next_pc };
        decode(&mut rd)
    }

    /// Loads the class `name` and initializes it where it is not
    /// initialized: the frames of its initializers are pushed, to be run
    /// by `run`. The answer says whether there was anything to do. For
    /// a class that is loaded already this is the initialization of
    /// that class and nothing else.
    pub fn init_class<E: Entry>(&mut self, entry: &E, name: &str) -> (r: Result<bool, VmError>)
        requires
            old(self).wf(),
        ensures
            final(self).wf(),
            final(self).heap.extends(&old(self).heap),
            final(self).loader.evolves_from(&old(self).loader),
            r is Ok ==> final(self).loader.spec_find(name@) is Some && !crate::thread::needs_init(
                &final(self).loader,
                final(self).loader.spec_find(name@).unwrap() as int,
            ),
            old(self).loader.spec_find(name@) is Some ==> {
                let c = old(self).loader.spec_find(name@).unwrap() as int;
                &&& final(self).heap == old(self).heap
                &&& init_post(
                    &old(self).loader,
                    old(self).frames(),
                    c,
                    &final(self).loader,
                    final(self).frames(),
                    r,
                )
                &&& r == Ok::<bool, VmError>(true) ==> init_done(
                    &old(self).loader,
                    old(self).frames(),
                    old(self).thread.pc,
                    c,
                    &final(self).loader,
                    final(self).frames(),
                )
            },
    {
        let c: usize = match self.loader.load(&mut self.heap, entry, name) {
            Ok(c) => c,
            Err(e) => {
                proof {
                    self.loader.lemma_grows_evolves(&old(self).loader);
                }
                return Err(e);
            },
        };
        let ghost mid = self.loader;
        let r = self.thread.clinit(&mut self.loader, c);
        proof {
            mid.lemma_grows_evolves(&old(self).loader);
            self.loader.lemma_classes_evolve(&mid);
            self.loader.lemma_evolves_trans(&mid, &old(self).loader);
            self.loader.lemma_find_same(&mid, name@, 0);
        }
        r
    }

    /// The method with which a run of class `c` starts, or the error
    /// that starting it ends with: no `main` method, or no room for its
    /// frame.
    pub open spec fn start_target(&self, c: int) -> Result<MemberRef, VmError> {
        match self.loader.spec_main_method(c, 0) {
            None => Err(VmError::NoSuchMember),
            Some(m) => match self.loader.spec_method(m) {
                None => Err(VmError::InvalidReference),
                Some(method) => if self.thread.stack.push_fails(
                    method.max_locals,
                    method.max_stack,
                ) {
                    Err(VmError::StackOverflow)
                } else {
                    Ok(m)
                },
            },
        }
    }

    /// Pushes a frame for the `main` method of the loaded class `c`. An
    /// error leaves the machine as it is.
    pub fn start(&mut self, c: usize) -> (r: Result<(), VmError>)
        requires
            old(self).wf(),
        ensures
            final(self).wf(),
            final(self).heap == old(self).heap,
            final(self).loader == old(self).loader,
            final(self).thread.pc == old(self).thread.pc,
            match old(self).start_target(c as int) {
                Ok(m) => r is Ok && final(self).frames() == old(self).frames().push(
                    frame_for(&old(self).loader, m),
                ),
                Err(e) => r == Err::<(), VmError>(e) && final(self).frames() == old(self).frames(),
            },
    {
        let m: MemberRef = match self.loader.main_method(c) {
            Some(m) => m,
            None => {
                return Err(VmError::NoSuchMember);
            },
        };
        self.thread.push_frame(&self.loader, m)
    }

    /// What starting the class `name` makes of the machine `pre_m`: the
    /// class is loaded, with what was there before kept, and on a
    /// success the frame of its `main` method lies on top; an error
    /// leaves the frames as they were. For a class that is loaded
    /// already nothing else changes, and the start succeeds just where
    /// `start_target` names a method.
    pub open spec fn started(
        pre_m: &Jvm,
        post_m: &Jvm,
        name: Seq<char>,
        r: Result<(), VmError>,
    ) -> bool {
        &&& post_m.heap.extends(&pre_m.heap)
        &&& post_m.loader.grows_from(&pre_m.loader)
        &&& post_m.thread.pc == pre_m.thread.pc
        &&& r is Ok ==> {
            let c = post_m.loader.spec_find(name);
            let m = post_m.loader.spec_main_method(c.unwrap() as int, 0);
            &&& c is Some
            &&& m is Some
            &&& post_m.frames() == pre_m.frames().push(frame_for(&post_m.loader, m.unwrap()))
        }
        &&& r is Err ==> post_m.frames() == pre_m.frames()
        &&& pre_m.loader.spec_find(name) is Some ==> post_m.heap == pre_m.heap && post_m.loader
            == pre_m.loader && r is Ok == pre_m.start_target(
            pre_m.loader.spec_find(name).unwrap() as int,
        ) is Ok
    }

    /// Loads the class `name` and pushes a frame for its `main` method.
    /// It fails with `NoSuchMember` where the class has no such method.
    /// For a class that is loaded already the outcome is that of
    /// `start`.
    pub fn start_class<E: Entry>(&mut self, entry: &E, name: &str) -> (r: Result<(), VmError>)
        requires
            old(self).wf(),
        ensures
            final(self).wf(),
            Jvm::started(old(self), final(self), name@, r),
    {
        let c: usize = match self.loader.load(&mut self.heap, entry, name) {
            Ok(c) => c,
            Err(e) => {
                return Err(e);
            },
        };
        self.start(c)
    }

    /// In a sound machine no operand stack is deeper than its frame's
    /// `max_stack`, and every frame has its `max_locals` local
    /// variables: an instruction that would leave these bounds fails
    /// instead, with `OperandStack` or `LocalIndex`.
    pub proof fn lemma_frames_bounded(&self, i: int)
        requires
            self.wf(),
            0 <= i < self.frames().len(),
        ensures
            self.frames()[i].depth <= self.thread.stack.frames@[i].max_stack,
            self.frames()[i].cells.len() == self.thread.stack.frames@[i].max_stack,
            self.frames()[i].locals.len() == self.thread.stack.frames@[i].max_locals,
    {
        self.thread.stack.lemma_depth_bounded(i);
    }

    /// What starting the class `name` and running it for at most `fuel`
    /// steps makes of the machine: the start gives a machine, and where
    /// it succeeds the run goes on from there.
    pub open spec fn run_class_post<F: Fn(u8, u64, u64) -> u64>(
        pre_m: &Jvm,
        post_m: &Jvm,
        name: Seq<char>,
        r: Result<Step, VmError>,
        fpu: &F,
        fuel: int,
    ) -> bool {
        exists|mid: Jvm, r0: Result<(), VmError>| #[trigger]
            Jvm::started(pre_m, &mid, name, r0) && match r0 {
                Err(e) => r == Err::<Step, VmError>(e) && *post_m == mid,
                Ok(_) => Jvm::run_post(&mid, post_m, r, fpu, fuel),
            }
    }

    /// The machine `mid` that the start gave, with its answer `r0`, shows
    /// that a run of a class did what `run_class_post` says.
    pub proof fn lemma_run_class_post<F: Fn(u8, u64, u64) -> u64>(
        pre_m: &Jvm,
        mid: Jvm,
        r0: Result<(), VmError>,
        post_m: &Jvm,
        name: Seq<char>,
        r: Result<Step, VmError>,
        fpu: &F,
        fuel: int,
    )
        requires
            Jvm::started(pre_m, &mid, name, r0),
            match r0 {
                Err(e) => r == Err::<Step, VmError>(e) && *post_m == mid,
                Ok(_) => Jvm::run_post(&mid, post_m, r, fpu, fuel),
            },
        ensures
            Jvm::run_class_post(pre_m, post_m, name, r, fpu, fuel),
    {
    }

    /// Loads the class `name`, pushes a frame for its `main` method and
    /// runs the machine for at most `fuel` steps.
    pub fn run_class<E: Entry, F: Fn(u8, u64, u64) -> u64>(
        &mut self,
        entry: &E,
        fpu: &F,
        name: &str,
        fuel: u64,
    ) -> (r: Result<Step, VmError>)
        requires
            old(self).wf(),
            forall|o: u8, x: u64, y: u64| fpu.requires((o, x, y)),
        ensures
            final(self).wf(),
            final(self).heap.evolves_from(&old(self).heap),
            final(self).loader.evolves_from(&old(self).loader),
            Jvm::run_class_post(old(self), final(self), name@, r, fpu, fuel as int),
            r == Ok::<Step, VmError>(Step::Done) ==> final(self).frames().len() == 0,
    {
        match self.start_class(entry, name) {
            Ok(_) => {},
            Err(e) => {
                proof {
                    self.heap.lemma_extends_evolves(&old(self).heap);
                    self.loader.lemma_grows_evolves(&old(self).loader);
                    Jvm::lemma_run_class_post(
                        old(self),
                        *self,
                        Err(e),
                        self,
                        name@,
                        Err(e),
                        fpu,
                        fuel as int,
                    );
                }
                return Err(e);
            },
        }
        let ghost mid = *self;
        let r = self.run(entry, fpu, fuel);
        proof {
            mid.heap.lemma_extends_evolves(&old(self).heap);
            mid.loader.lemma_grows_evolves(&old(self).loader);
            self.heap.lemma_evolves_trans(&mid.heap, &old(self).heap);
            self.loader.lemma_evolves_trans(&mid.loader, &old(self).loader);
            Jvm::lemma_run_class_post(old(self), mid, Ok(()), self, name@, r, fpu, fuel as int);
        }
        r
    }

    /// What one step makes of the machine `pre_m`: the machine `post_m`
    /// and the answer `r`.
    ///
    /// With no frame left the answer is `Done` and nothing changes. An
    /// instruction that cannot be fetched is an error and nothing
    /// changes. Else the instruction does what its family says; the
    /// result of an instruction on floating-point numbers is one that
    /// the host function `fpu` gives for its operands.
    pub open spec fn stepped<F: Fn(u8, u64, u64) -> u64>(
        pre_m: &Jvm,
        post_m: &Jvm,
        r: Result<Step, VmError>,
        fpu: &F,
    ) -> bool {
        &&& pre_m.frames().len() == 0 ==> r == Ok::<Step, VmError>(Step::Done) && *post_m
                == *pre_m
        &&& pre_m.frames().len() > 0 && pre_m.fetched() is Err ==> r == Err::<
                Step,
                VmError,
            >(pre_m.fetched()->Err_0) && *post_m == *pre_m
        &&& pre_m.frames().len() > 0 && pre_m.fetched() is Ok ==> {
                let ins = pre_m.fetched().unwrap();
                let pre = pre_m.frames();
                let post = post_m.frames();
                let f = pre.last();
                let same = post_m.heap == pre_m.heap && post_m.loader == pre_m.loader;
                let u = as_unit(r);
                &&& post_m.thread.pc == ins.pc
                &&& r != Ok::<Step, VmError>(Step::Done)
                &&& r is Ok && spec_family(ins.op) != Family::Other ==> r == Ok::<Step, VmError>(
                    Step::Continue,
                )
                &&& is_float_op(ins.op) ==> same && match float_operands(ins.op, f) {
                    Ok((a, b)) => r is Ok && exists|x: u64|
                        fpu.ensures((ins.op, a, b), x) && post == with_top(
                            pre,
                            #[trigger] float_result(ins, f, x),
                        ),
                    Err(e) => u == Err::<(), VmError>(e) && post == pre,
                }
                &&& !is_float_op(ins.op) ==> match spec_family(ins.op) {
                    Family::Cons => if 0x12 <= ins.op <= 0x14 {
                        ldc_post(
                            ins,
                            pre,
                            &pre_m.heap,
                            &pre_m.loader,
                            post,
                            &post_m.heap,
                            &post_m.loader,
                            u,
                        )
                    } else {
                        same && match cons_effect(ins, f) {
                            Ok(g) => r is Ok && post == with_top(pre, g),
                            Err(e) => u == Err::<(), VmError>(e) && post == pre,
                        }
                    },
                    Family::Load => same && match load_effect(ins, f, &pre_m.heap) {
                        Ok(g) => r is Ok && post == with_top(pre, g),
                        Err(e) => u == Err::<(), VmError>(e) && post == pre,
                    },
                    Family::Store => post_m.loader == pre_m.loader && if 0x4f <= ins.op
                        <= 0x56 {
                        match array_store_operands(ins.op, f) {
                            Err(e) => u == Err::<(), VmError>(e) && post == pre && post_m.heap == pre_m.heap,
                            Ok((obj, i, v)) => match pre_m.heap.access(obj, i) {
                                Err(e) => u == Err::<(), VmError>(e) && post == pre && post_m.heap == pre_m.heap,
                                Ok(_) => r is Ok && Heap::stored(
                                    &pre_m.heap,
                                    &post_m.heap,
                                    obj,
                                    i,
                                    v,
                                ) && post == with_top(
                                    pre,
                                    f.drop((cells_of(element_width(ins.op)) + 2) as nat).at_pc(
                                        ins.next,
                                    ),
                                ),
                            },
                        }
                    } else {
                        post_m.heap == pre_m.heap && match store_local_effect(ins, f) {
                            Ok(g) => r is Ok && post == with_top(pre, g),
                            Err(e) => u == Err::<(), VmError>(e) && post == pre,
                        }
                    },
                    Family::Stack => same && match stack_effect(ins, f) {
                        Ok(g) => r is Ok && post == with_top(pre, g),
                        Err(e) => u == Err::<(), VmError>(e) && post == pre,
                    },
                    Family::Math => same && match math_effect(ins, f) {
                        Ok(g) => r is Ok && post == with_top(pre, g),
                        Err(e) => u == Err::<(), VmError>(e) && post == pre,
                    },
                    Family::Conv => same && match conv_effect(ins, f) {
                        Ok(g) => r is Ok && post == with_top(pre, g),
                        Err(e) => u == Err::<(), VmError>(e) && post == pre,
                    },
                    Family::Compare => same && match compare_effect(ins, f) {
                        Ok(g) => r is Ok && post == with_top(pre, g),
                        Err(e) => u == Err::<(), VmError>(e) && post == pre,
                    },
                    Family::Ctl => same && match ctl_effect(ins, pre) {
                        Ok(s) => r is Ok && post == s,
                        Err(e) => u == Err::<(), VmError>(e) && post == pre,
                    },
                    Family::Refs => refs_post(
                        ins,
                        pre,
                        &pre_m.loader,
                        &pre_m.heap,
                        post,
                        &post_m.loader,
                        &post_m.heap,
                        u,
                    ),
                    Family::Other => same && if ins.op == OP_NATIVE {
                        r == Ok::<Step, VmError>(Step::Native(f.method)) && post == with_top(
                            pre,
                            f.at_pc(ins.next),
                        )
                    } else {
                        r == Err::<Step, VmError>(VmError::UnknownOpcode) && post == pre
                    },
                    Family::Unknown => same && r == Err::<Step, VmError>(VmError::UnknownOpcode)
                        && post == pre,
                }
            }
    }

    /// Executes one instruction of the current frame.
    ///
    /// With no frame left the answer is `Done`. Else the instruction at
    /// the current frame's next offset is fetched and executed as its
    /// family says; an instruction on floating-point numbers is
    /// computed by the host function `fpu`. The frames stay sound: no
    /// operand stack grows beyond its `max_stack`.
    #[verifier::rlimit(60)]
    pub fn step<E: Entry, F: Fn(u8, u64, u64) -> u64>(&mut self, entry: &E, fpu: &F) -> (r: Result<
        Step,
        VmError,
    >)
        requires
            old(self).wf(),
            forall|o: u8, x: u64, y: u64| fpu.requires((o, x, y)),
        ensures
            final(self).wf(),
            final(self).heap.evolves_from(&old(self).heap),
            final(self).loader.evolves_from(&old(self).loader),
            Jvm::stepped(old(self), final(self), r, fpu),
    {
        proof {
            self.heap.lemma_extends_evolves(&old(self).heap);
            self.loader.lemma_classes_evolve(&old(self).loader);
        }
        if self.thread.stack.is_empty() {
            return Ok(Step::Done);
        }
        let ins: Ins = match self.fetch() {
            Ok(i) => i,
            Err(e) => {
                return Err(e);
            },
        };
        self.thread.pc = ins.pc;
        let fam: Family = family(ins.op);
        let done: Result<(), VmError> = match fam {
            Family::Cons => {
                let r = con(&ins, &mut self.thread, &mut self.heap, &mut self.loader, entry);
                proof {
                    self.heap.lemma_extends_evolves(&old(self).heap);
                }
                r
            },
            Family::Load => load(&ins, &mut self.thread.stack, &self.heap),
            Family::Store => {
                let r = store(&ins, &mut self.thread.stack, &mut self.heap);
                proof {
                    if r is Ok && 0x4f <= ins.op <= 0x56 {
                        let t = array_store_operands(ins.op, old(self).frames().last()).unwrap();
                        self.heap.lemma_stored_evolves(&old(self).heap, t.0, t.1, t.2);
                    }
                }
                r
            },
            Family::Stack => stack(&ins, &mut self.thread.stack),
            Family::Math => math(&ins, &mut self.thread.stack, fpu),
            Family::Conv => conv(&ins, &mut self.thread.stack, fpu),
            Family::Compare => compare(&ins, &mut self.thread.stack, fpu),
            Family::Ctl => ctl(&ins, &mut self.thread.stack),
            Family::Refs => refs(&ins, &mut self.thread, &mut self.heap, &mut self.loader, entry),
            Family::Other => {
                return match other(&ins, &mut self.thread.stack) {
                    Ok(m) => Ok(Step::Native(m)),
                    Err(e) => Err(e),
                };
            },
            Family::Unknown => Err(VmError::UnknownOpcode),
        };
        match done {
            Ok(_) => Ok(Step::Continue),
            Err(e) => Err(e),
        }
    }

    /// Whether machine number `i` of `trace` made a step that ended with
    /// `Continue` and gave the next machine of `trace`.
    pub open spec fn step_at<F: Fn(u8, u64, u64) -> u64>(trace: Seq<Jvm>, i: int, fpu: &F) -> bool {
        Jvm::stepped(&trace[i], &trace[i + 1], Ok(Step::Continue), fpu)
    }

    /// Whether `trace` is a run of at most `fuel` steps from the machine
    /// `pre_m` that ended with the machine `post_m` and the answer `r`:
    /// it starts with `pre_m`, every machine of it is sound, and every
    /// machine of it but the last made a step that ended with
    /// `Continue` and gave the next. Where the
    /// answer is `Continue` the fuel is used up and `post_m` is the last
    /// machine; else the last machine made one more step, which gave
    /// `post_m` and the answer.
    pub open spec fn ran<F: Fn(u8, u64, u64) -> u64>(
        trace: Seq<Jvm>,
        pre_m: &Jvm,
        post_m: &Jvm,
        r: Result<Step, VmError>,
        fpu: &F,
        fuel: int,
    ) -> bool {
        &&& trace.len() >= 1
        &&& trace[0] == *pre_m
        &&& forall|i: int| 0 <= i < trace.len() ==> (#[trigger] trace[i]).wf()
        &&& post_m.wf()
        &&& forall|i: int| 0 <= i < trace.len() - 1 ==> #[trigger] Jvm::step_at(trace, i, fpu)
        &&& if r == Ok::<Step, VmError>(Step::Continue) {
            trace.len() == fuel + 1 && trace.last() == *post_m
        } else {
            trace.len() <= fuel && Jvm::stepped(&trace.last(), post_m, r, fpu)
        }
    }

    /// What a run of at most `fuel` steps makes of the machine.
    pub open spec fn run_post<F: Fn(u8, u64, u64) -> u64>(
        pre_m: &Jvm,
        post_m: &Jvm,
        r: Result<Step, VmError>,
        fpu: &F,
        fuel: int,
    ) -> bool {
        exists|trace: Seq<Jvm>| #[trigger] Jvm::ran(trace, pre_m, post_m, r, fpu, fuel)
    }

    /// In every state of a run no operand stack is deeper than its
    /// frame's `max_stack`, and every frame has its `max_locals` local
    /// variables.
    pub proof fn lemma_run_bounded<F: Fn(u8, u64, u64) -> u64>(
        trace: Seq<Jvm>,
        pre_m: &Jvm,
        post_m: &Jvm,
        r: Result<Step, VmError>,
        fpu: &F,
        fuel: int,
        i: int,
        k: int,
    )
        requires
            Jvm::ran(trace, pre_m, post_m, r, fpu, fuel),
            0 <= i < trace.len(),
            0 <= k < trace[i].frames().len(),
        ensures
            trace[i].frames()[k].depth <= trace[i].thread.stack.frames@[k].max_stack,
            trace[i].frames()[k].cells.len() == trace[i].thread.stack.frames@[k].max_stack,
            trace[i].frames()[k].locals.len() == trace[i].thread.stack.frames@[k].max_locals,
    {
        assert(trace[i].wf());
        trace[i].lemma_frames_bounded(k);
    }

    /// The machines `trace` show that a run did what `run_post` says.
    pub proof fn lemma_run_post<F: Fn(u8, u64, u64) -> u64>(
        trace: Seq<Jvm>,
        pre_m: &Jvm,
        post_m: &Jvm,
        r: Result<Step, VmError>,
        fpu: &F,
        fuel: int,
    )
        requires
            Jvm::ran(trace, pre_m, post_m, r, fpu, fuel),
        ensures
            Jvm::run_post(pre_m, post_m, r, fpu, fuel),
    {
    }

    /// Executes instructions until no frame is left, a native method is
    /// to be called, an instruction fails, or `fuel` steps are made: the
    /// steps are those of `step`, one after the other, and the answer is
    /// that of the last one, or `Continue` where the fuel is used up.
    pub fn run<E: Entry, F: Fn(u8, u64, u64) -> u64>(&mut self, entry: &E, fpu: &F, fuel: u64) -> (r:
        Result<Step, VmError>)
        requires
            old(self).wf(),
            forall|o: u8, x: u64, y: u64| fpu.requires((o, x, y)),
        ensures
            final(self).wf(),
            final(self).heap.evolves_from(&old(self).heap),
            final(self).loader.evolves_from(&old(self).loader),
            Jvm::run_post(old(self), final(self), r, fpu, fuel as int),
            r == Ok::<Step, VmError>(Step::Done) ==> final(self).frames().len() == 0,
            old(self).frames().len() == 0 && fuel > 0 ==> r == Ok::<Step, VmError>(Step::Done)
                && *final(self) == *old(self),
            fuel == 0 ==> r == Ok::<Step, VmError>(Step::Continue) && *final(self) == *old(self),
    {
        let mut left: u64 = fuel;
        let ghost mut trace: Seq<Jvm> = seq![*self];
        proof {
            self.heap.lemma_extends_evolves(&old(self).heap);
            self.loader.lemma_classes_evolve(&old(self).loader);
        }
        while left > 0
            invariant
                self.wf(),
                self.heap.evolves_from(&old(self).heap),
                self.loader.evolves_from(&old(self).loader),
                forall|o: u8, x: u64, y: u64| fpu.requires((o, x, y)),
                left <= fuel,
                left == fuel ==> *self == *old(self),
                left < fuel ==> old(self).frames().len() > 0,
                trace.len() == fuel - left + 1,
                trace[0] == *old(self),
                trace.last() == *self,
                forall|i: int| 0 <= i < trace.len() ==> (#[trigger] trace[i]).wf(),
                forall|i: int| 0 <= i < trace.len() - 1 ==> #[trigger] Jvm::step_at(trace, i, fpu),
            decreases left,
        {
            let ghost before = *self;
            let s = self.step(entry, fpu);
            proof {
                self.heap.lemma_evolves_trans(&before.heap, &old(self).heap);
                self.loader.lemma_evolves_trans(&before.loader, &old(self).loader);
            }
            match s {
                Ok(Step::Continue) => {
                    left -= 1;
                    proof {
                        let longer = trace.push(*self);
                        assert forall|i: int| 0 <= i < longer.len() implies (
                        #[trigger] longer[i]).wf() by {
                            if i < trace.len() {
                                assert(longer[i] == trace[i]);
                            }
                        }
                        assert forall|i: int| 0 <= i < longer.len() - 1 implies #[trigger] Jvm::step_at(
                            longer,
                            i,
                            fpu,
                        ) by {
                            if i < trace.len() - 1 {
                                assert(Jvm::step_at(trace, i, fpu));
                                assert(longer[i] == trace[i]);
                                assert(longer[i + 1] == trace[i + 1]);
                            } else {
                                assert(longer[i] == before);
                                assert(longer[i + 1] == *self);
                            }
                        }
                        trace = longer;
                    }
                },
                Ok(Step::Done) => {
                    proof {
                        Jvm::lemma_run_post(trace, old(self), self, s, fpu, fuel as int);
                    }
                    return Ok(Step::Done);
                },
                Ok(Step::Native(m)) => {
                    proof {
                        Jvm::lemma_run_post(trace, old(self), self, s, fpu, fuel as int);
                    }
                    return Ok(Step::Native(m));
                },
                Err(e) => {
                    proof {
                        Jvm::lemma_run_post(trace, old(self), self, s, fpu, fuel as int);
                    }
                    return Err(e);
                },
            }
        }
        proof {
            Jvm::lemma_run_post(trace, old(self), self, Ok(Step::Continue), fpu, fuel as int);
        }
        Ok(Step::Continue)
    }
}

} // verus!
