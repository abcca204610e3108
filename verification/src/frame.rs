//! The execution stack: a table of frame records over one shared arena of
//! 64-bit cells. Each frame owns a window of the arena that holds first
//! its local variables and then its operand stack.

use vstd::prelude::*;
use crate::error::VmError;

verus! {

/// How many frames the frame table holds.
pub const MAX_JSTACK_SIZE: usize = 1024;

/// How many cells a new arena has.
pub const INITIAL_CELLS: usize = 8192;

/// The most cells that all frames together may own.
pub const MAX_CELLS: usize = 0xffff_ffff;

/// A link to a member of a loaded class: the class by its id, the member
/// by its index among the class's fields or methods.
#[derive(Clone, Copy, PartialEq, Eq, Structural, Debug)]
pub struct MemberRef {
    pub class: usize,
    pub index: usize,
}

/// The record of one method activation.
#[derive(Clone, Copy, Debug)]
pub struct JFrame {
    /// The method that runs in the frame.
    pub method: MemberRef,
    /// The offset of the next instruction.
    pub next_pc: u32,
    /// Set where the caller takes no return value.
    pub no_ret: bool,
    /// The frame's position in the frame table.
    pub id: u16,
    /// Where the frame's window starts in the arena.
    pub local_base: usize,
    pub max_locals: usize,
    pub max_stack: usize,
    /// The current depth of the operand stack.
    pub stack_size: usize,
}

impl JFrame {
    /// Where the operand stack starts in the arena.
    pub open spec fn stack_base(&self) -> int {
        self.local_base + self.max_locals
    }

    /// Where the frame's window ends in the arena.
    pub open spec fn end(&self) -> int {
        self.local_base + self.max_locals + self.max_stack
    }
}

/// What a frame holds, apart from where it lies in the arena.
pub ghost struct FrameView {
    pub method: MemberRef,
    pub next_pc: u32,
    pub no_ret: bool,
    /// The local variables, `max_locals` of them.
    pub locals: Seq<u64>,
    /// The cells of the operand stack, `max_stack` of them; those below
    /// `depth` are in use.
    pub cells: Seq<u64>,
    pub depth: nat,
}

impl FrameView {
    /// One value pushed: it fills the next free cell.
    pub open spec fn push1(self, v: u64) -> FrameView {
        FrameView { cells: self.cells.update(self.depth as int, v), depth: self.depth + 1, ..self }
    }

    /// A wide value pushed: it fills the next free cell, and the cell above
    /// it is taken too.
    pub open spec fn push2(self, v: u64) -> FrameView {
        FrameView { cells: self.cells.update(self.depth as int, v), depth: self.depth + 2, ..self }
    }

    /// The `n` topmost cells given up.
    pub open spec fn drop(self, n: nat) -> FrameView {
        FrameView { depth: (self.depth - n) as nat, ..self }
    }

    /// The cell `i` places below the top, `peek(1)` being the topmost.
    pub open spec fn peek(self, i: int) -> u64 {
        self.cells[self.depth - i]
    }

    /// Local variable `i` set to `v`.
    pub open spec fn set_local(self, i: int, v: u64) -> FrameView {
        FrameView { locals: self.locals.update(i, v), ..self }
    }

    /// Cell `i` of the operand stack set to `v`, the depth kept.
    pub open spec fn set_cell(self, i: int, v: u64) -> FrameView {
        FrameView { cells: self.cells.update(i, v), ..self }
    }

    /// The next instruction set to `pc`.
    pub open spec fn at_pc(self, pc: u32) -> FrameView {
        FrameView { next_pc: pc, ..self }
    }

    /// Room for `n` more cells.
    pub open spec fn room(self, n: int) -> bool {
        self.depth + n <= self.cells.len()
    }
}

/// The frame table and the arena.
pub struct JStack {
    pub frames: Vec<JFrame>,
    pub stack_data: Vec<u64>,
}

/// `s` with its last element replaced.
pub open spec fn with_top(s: Seq<FrameView>, f: FrameView) -> Seq<FrameView> {
    s.update(s.len() - 1, f)
}

/// The cells that the windows of the frames `fs` take together.
pub open spec fn cells_sum(fs: Seq<FrameView>) -> int
    decreases fs.len(),
{
    if fs.len() == 0 {
        0
    } else {
        fs[0].locals.len() + fs[0].cells.len() + cells_sum(fs.drop_first())
    }
}

/// Whether the frames `stack` leave no room for one more frame with
/// such a window: the frame table is full, or the frames would own more
/// than `MAX_CELLS` cells.
pub open spec fn no_room(stack: Seq<FrameView>, max_locals: int, max_stack: int) -> bool {
    stack.len() >= MAX_JSTACK_SIZE || cells_sum(stack) + max_locals + max_stack > MAX_CELLS
}

/// `n` zeros.
pub open spec fn zeros(n: nat) -> Seq<u64> {
    Seq::new(n, |i: int| 0u64)
}

impl View for JStack {
    type V = Seq<FrameView>;

    open spec fn view(&self) -> Seq<FrameView> {
        Seq::new(self.frames@.len(), |i: int| self.frame_view(i))
    }
}

impl JStack {
    /// What frame `i` holds.
    pub open spec fn frame_view(&self, i: int) -> FrameView {
        let f = self.frames@[i];
        FrameView {
            method: f.method,
            next_pc: f.next_pc,
            no_ret: f.no_ret,
            locals: self.stack_data@.subrange(f.local_base as int, f.stack_base()),
            cells: self.stack_data@.subrange(f.stack_base(), f.end()),
            depth: f.stack_size as nat,
        }
    }

    /// Frame `i` starts where its predecessor ends, lies inside the arena,
    /// and its operand stack is no deeper than `max_stack`.
    pub open spec fn frame_ok(&self, i: int) -> bool {
        let f = self.frames@[i];
        &&& f.id == i
        &&& f.stack_size <= f.max_stack
        &&& f.local_base == (if i == 0 {
            0
        } else {
            self.frames@[i - 1].end()
        })
        &&& f.end() <= self.stack_data@.len()
        &&& f.end() <= MAX_CELLS
    }

    /// The stack is well formed: every frame is.
    pub open spec fn wf(&self) -> bool {
        &&& self.frames@.len() <= MAX_JSTACK_SIZE
        &&& forall|i: int| 0 <= i < self.frames@.len() ==> self.frame_ok(i)
    }

    /// The cells that the frames own together.
    pub open spec fn used(&self) -> int {
        if self.frames@.len() == 0 {
            0
        } else {
            self.frames@.last().end()
        }
    }

    /// The frame on top.
    pub open spec fn top(&self) -> FrameView {
        self@.last()
    }

    /// The frames from number `k` on take the cells from the start of
    /// frame `k` to the end of the last frame.
    pub proof fn lemma_cells_from(&self, k: int)
        requires
            self.wf(),
            0 <= k < self.frames@.len(),
        ensures
            cells_sum(self@.subrange(k, self@.len() as int)) == self.frames@.last().end()
                - self.frames@[k].local_base,
        decreases self.frames@.len() - k,
    {
        let n = self@.len() as int;
        let t = self@.subrange(k, n);
        assert(self.frame_ok(k));
        assert(t[0] == self@[k]);
        if k + 1 < n {
            self.lemma_cells_from(k + 1);
            assert(self.frame_ok(k + 1));
            assert(t.drop_first() =~= self@.subrange(k + 1, n));
        } else {
            assert(t.drop_first() =~= Seq::<FrameView>::empty());
            assert(cells_sum(t.drop_first()) == 0);
        }
    }

    /// The cells that the frames own are those of their windows.
    pub proof fn lemma_used(&self)
        requires
            self.wf(),
        ensures
            self.used() == cells_sum(self@),
            self.frames@.len() == self@.len(),
    {
        if self.frames@.len() > 0 {
            self.lemma_cells_from(0);
            assert(self.frame_ok(0));
            assert(self@.subrange(0, self@.len() as int) =~= self@);
        }
    }

    /// A frame lower in the table ends before a higher one starts.
    pub proof fn lemma_regions(&self, i: int, j: int)
        requires
            self.wf(),
            0 <= i < j < self.frames@.len(),
        ensures
            self.frames@[i].end() <= self.frames@[j].local_base,
        decreases j - i,
    {
        assert(self.frame_ok(j));
        if i + 1 < j {
            self.lemma_regions(i, j - 1);
            assert(self.frame_ok(j - 1));
        }
    }

    /// In a well-formed stack every operand stack is within `max_stack`
    /// and every frame has exactly `max_locals` locals.
    pub proof fn lemma_depth_bounded(&self, i: int)
        requires
            self.wf(),
            0 <= i < self.frames@.len(),
        ensures
            self@[i].depth <= self.frames@[i].max_stack,
            self@[i].depth <= self@[i].cells.len(),
            self@[i].cells.len() == self.frames@[i].max_stack,
            self@[i].locals.len() == self.frames@[i].max_locals,
    {
        assert(self.frame_ok(i));
    }

    /// An empty stack over a fresh arena: no frame, and `INITIAL_CELLS`
    /// cells, all zero.
    pub fn new() -> (r: JStack)
        ensures
            r.wf(),
            r@.len() == 0,
            r.frames@.len() == 0,
            r.stack_data@ == zeros(INITIAL_CELLS as nat),
    {
        let r = JStack { frames: Vec::new(), stack_data: vec![0u64; INITIAL_CELLS] };
        proof {
            assert(r.stack_data@ =~= zeros(INITIAL_CELLS as nat));
        }
        r
    }

    /// The cells that the frames own together.
    pub fn cells_used(&self) -> (r: usize)
        requires
            self.wf(),
        ensures
            r == self.used(),
            r == cells_sum(self@),
            r <= MAX_CELLS,
    {
        proof {
            self.lemma_used();
        }
        let n: usize = self.frames.len();
        if n == 0 {
            0
        } else {
            proof {
                assert(self.frame_ok(n - 1));
            }
            let f: JFrame = self.frames[n - 1];
            f.local_base + f.max_locals + f.max_stack
        }
    }

    /// Whether no frame is left.
    pub fn is_empty(&self) -> (r: bool)
        ensures
            r == (self@.len() == 0),
    {
        self.frames.len() == 0
    }

    /// The number of frames.
    pub fn size(&self) -> (r: usize)
        ensures
            r == self@.len(),
    {
        self.frames.len()
    }

    /// The record of the frame on top.
    pub fn cur_frame(&self) -> (r: JFrame)
        requires
            self@.len() > 0,
        ensures
            r == self.frames@.last(),
    {
        self.frames[self.frames.len() - 1]
    }

    /// The record of the frame below the top.
    pub fn prev_frame(&self) -> (r: JFrame)
        requires
            self@.len() > 1,
        ensures
            r == self.frames@[self.frames@.len() - 2],
    {
        self.frames[self.frames.len() - 2]
    }

    /// The record of the frame `i` places below the end of the table,
    /// `back_frame(1)` being the top.
    pub fn back_frame(&self, i: usize) -> (r: JFrame)
        requires
            1 <= i <= self@.len(),
        ensures
            r == self.frames@[self.frames@.len() - i],
    {
        self.frames[self.frames.len() - i]
    }

    /// Writes cell `k` of the top frame's operand stack.
    pub(crate) fn write_cell(&mut self, k: usize, v: u64)
        requires
            old(self).wf(),
            old(self)@.len() > 0,
            k < old(self).frames@.last().max_stack,
        ensures
            final(self).wf(),
            final(self).frames == old(self).frames,
            final(self).stack_data@.len() == old(self).stack_data@.len(),
            final(self)@ == with_top(old(self)@, old(self).top().set_cell(k as int, v)),
    {
        let t: usize = self.frames.len() - 1;
        let f: JFrame = self.frames[t];
        proof {
            assert(self.frame_ok(t as int));
        }
        let idx: usize = f.local_base + f.max_locals + k;
        self.stack_data[idx] = v;
        proof {
            assert forall|i: int| 0 <= i < self.frames@.len() implies self.frame_ok(i) by {
                assert(old(self).frame_ok(i));
            }
            assert forall|i: int| 0 <= i < t implies self.frame_view(i) == old(self).frame_view(
                i,
            ) by {
                old(self).lemma_regions(i, t as int);
                assert(old(self).frame_ok(i));
                let g = self.frames@[i];
                assert(self.stack_data@.subrange(g.local_base as int, g.stack_base())
                    =~= old(self).stack_data@.subrange(g.local_base as int, g.stack_base()));
                assert(self.stack_data@.subrange(g.stack_base(), g.end()) =~= old(self).stack_data@.subrange(g.stack_base(), g.end()));
            }
            assert(self.stack_data@.subrange(f.local_base as int, f.stack_base()) =~= old(self).stack_data@.subrange(f.local_base as int, f.stack_base()));
            assert(self.stack_data@.subrange(f.stack_base(), f.end()) =~= old(self).stack_data@.subrange(f.stack_base(), f.end()).update(k as int, v));
            assert(self@ =~= with_top(old(self)@, old(self).top().set_cell(k as int, v)));
        }
    }

    /// Sets the depth of the top frame's operand stack.
    pub(crate) fn set_depth(&mut self, n: usize)
        requires
            old(self).wf(),
            old(self)@.len() > 0,
            n <= old(self).frames@.last().max_stack,
        ensures
            final(self).wf(),
            final(self).stack_data == old(self).stack_data,
            final(self).frames@.len() == old(self).frames@.len(),
            final(self).frames@.last().max_stack == old(self).frames@.last().max_stack,
            final(self).frames@.last().max_locals == old(self).frames@.last().max_locals,
            final(self)@ == with_top(old(self)@, FrameView { depth: n as nat, ..old(self).top() }),
    {
        let t: usize = self.frames.len() - 1;
        self.frames[t].stack_size = n;
        proof {
            assert forall|i: int| 0 <= i < self.frames@.len() implies self.frame_ok(i) by {
                assert(old(self).frame_ok(i));
                if i > 0 {
                    assert(old(self).frame_ok(i - 1));
                }
            }
            assert(self@ =~= with_top(
                old(self)@,
                FrameView { depth: n as nat, ..old(self).top() },
            ));
        }
    }

    /// Sets local variable `i` of the top frame.
    pub fn set_local(&mut self, i: usize, v: u64)
        requires
            old(self).wf(),
            old(self)@.len() > 0,
            i < old(self).top().locals.len(),
        ensures
            final(self).wf(),
            final(self)@ == with_top(old(self)@, old(self).top().set_local(i as int, v)),
    {
        let t: usize = self.frames.len() - 1;
        let f: JFrame = self.frames[t];
        proof {
            assert(self.frame_ok(t as int));
        }
        let idx: usize = f.local_base + i;
        self.stack_data[idx] = v;
        proof {
            assert forall|k: int| 0 <= k < self.frames@.len() implies self.frame_ok(k) by {
                assert(old(self).frame_ok(k));
            }
            assert forall|k: int| 0 <= k < t implies self.frame_view(k) == old(self).frame_view(
                k,
            ) by {
                old(self).lemma_regions(k, t as int);
                assert(old(self).frame_ok(k));
                let g = self.frames@[k];
                assert(self.stack_data@.subrange(g.local_base as int, g.stack_base())
                    =~= old(self).stack_data@.subrange(g.local_base as int, g.stack_base()));
                assert(self.stack_data@.subrange(g.stack_base(), g.end()) =~= old(self).stack_data@.subrange(g.stack_base(), g.end()));
            }
            assert(self.stack_data@.subrange(f.local_base as int, f.stack_base()) =~= old(self).stack_data@.subrange(f.local_base as int, f.stack_base()).update(i as int, v));
            assert(self.stack_data@.subrange(f.stack_base(), f.end()) =~= old(self).stack_data@.subrange(f.stack_base(), f.end()));
            assert(self@ =~= with_top(old(self)@, old(self).top().set_local(i as int, v)));
        }
    }

    /// Local variable `i` of the top frame.
    pub fn get_local(&self, i: usize) -> (r: u64)
        requires
            self.wf(),
            self@.len() > 0,
            i < self.top().locals.len(),
        ensures
            r == self.top().locals[i as int],
    {
        let t: usize = self.frames.len() - 1;
        let f: JFrame = self.frames[t];
        proof {
            assert(self.frame_ok(t as int));
        }
        self.stack_data[f.local_base + i]
    }

    /// The cell `i` places below the top of the top frame's operand stack,
    /// `peek(1)` being the topmost.
    pub fn peek(&self, i: usize) -> (r: u64)
        requires
            self.wf(),
            self@.len() > 0,
            1 <= i <= self.top().depth,
        ensures
            r == self.top().peek(i as int),
    {
        let t: usize = self.frames.len() - 1;
        let f: JFrame = self.frames[t];
        proof {
            assert(self.frame_ok(t as int));
        }
        self.stack_data[f.local_base + f.max_locals + (f.stack_size - i)]
    }

    /// The depth of the top frame's operand stack.
    pub fn depth(&self) -> (r: usize)
        requires
            self.wf(),
            self@.len() > 0,
        ensures
            r == self.top().depth,
            r <= self.top().cells.len(),
            r == self.frames@.last().stack_size,
            self.top().cells.len() == self.frames@.last().max_stack,
            self.top().locals.len() == self.frames@.last().max_locals,
    {
        proof {
            assert(self.frame_ok(self.frames@.len() - 1));
        }
        self.frames[self.frames.len() - 1].stack_size
    }

    /// How many more cells the top frame's operand stack can take.
    pub fn room(&self) -> (r: usize)
        requires
            self.wf(),
            self@.len() > 0,
        ensures
            r == self.top().cells.len() - self.top().depth,
    {
        proof {
            assert(self.frame_ok(self.frames@.len() - 1));
        }
        let f: JFrame = self.frames[self.frames.len() - 1];
        f.max_stack - f.stack_size
    }

    /// How many local variables the top frame has.
    pub fn max_locals(&self) -> (r: usize)
        requires
            self.wf(),
            self@.len() > 0,
        ensures
            r == self.top().locals.len(),
    {
        proof {
            assert(self.frame_ok(self.frames@.len() - 1));
        }
        self.frames[self.frames.len() - 1].max_locals
    }

    /// Sets the offset of the top frame's next instruction.
    pub fn set_next_pc(&mut self, pc: u32)
        requires
            old(self).wf(),
            old(self)@.len() > 0,
        ensures
            final(self).wf(),
            final(self)@ == with_top(old(self)@, old(self).top().at_pc(pc)),
            final(self).used() == old(self).used(),
            final(self).frames@.len() == old(self).frames@.len(),
    {
        let t: usize = self.frames.len() - 1;
        self.frames[t].next_pc = pc;
        proof {
            assert forall|i: int| 0 <= i < self.frames@.len() implies self.frame_ok(i) by {
                assert(old(self).frame_ok(i));
                if i > 0 {
                    assert(old(self).frame_ok(i - 1));
                }
            }
            assert(self@ =~= with_top(old(self)@, old(self).top().at_pc(pc)));
        }
    }

    /// Marks the top frame as one whose return value nobody takes.
    pub fn set_no_ret(&mut self, drop: bool)
        requires
            old(self).wf(),
            old(self)@.len() > 0,
        ensures
            final(self).wf(),
            final(self)@ == with_top(old(self)@, FrameView { no_ret: drop, ..old(self).top() }),
    {
        let t: usize = self.frames.len() - 1;
        self.frames[t].no_ret = drop;
        proof {
            assert forall|i: int| 0 <= i < self.frames@.len() implies self.frame_ok(i) by {
                assert(old(self).frame_ok(i));
                if i > 0 {
                    assert(old(self).frame_ok(i - 1));
                }
            }
            assert(self@ =~= with_top(
                old(self)@,
                FrameView { no_ret: drop, ..old(self).top() },
            ));
        }
    }

    /// Pushes one cell on the top frame's operand stack.
    pub fn push_slot(&mut self, v: u64)
        requires
            old(self).wf(),
            old(self)@.len() > 0,
            old(self).top().room(1),
        ensures
            final(self).wf(),
            final(self)@ == with_top(old(self)@, old(self).top().push1(v)),
    {
        let d: usize = self.depth();
        self.write_cell(d, v);
        self.set_depth(d + 1);
        proof {
            assert(self@ =~= with_top(old(self)@, old(self).top().push1(v)));
        }
    }

    /// Pushes a zero reference.
    pub fn push_null(&mut self)
        requires
            old(self).wf(),
            old(self)@.len() > 0,
            old(self).top().room(1),
        ensures
            final(self).wf(),
            final(self)@ == with_top(old(self)@, old(self).top().push1(0)),
    {
        self.push_slot(0)
    }

    /// Pushes a 32-bit value, which fills one cell.
    pub fn push_u32(&mut self, v: u32)
        requires
            old(self).wf(),
            old(self)@.len() > 0,
            old(self).top().room(1),
        ensures
            final(self).wf(),
            final(self)@ == with_top(old(self)@, old(self).top().push1(v as u64)),
    {
        self.push_slot(v as u64)
    }

    /// Pushes a 64-bit value: it is stored in one cell and takes two.
    pub fn push_u64(&mut self, v: u64)
        requires
            old(self).wf(),
            old(self)@.len() > 0,
            old(self).top().room(2),
        ensures
            final(self).wf(),
            final(self)@ == with_top(old(self)@, old(self).top().push2(v)),
    {
        let d: usize = self.depth();
        self.write_cell(d, v);
        self.set_depth(d + 2);
        proof {
            assert(self@ =~= with_top(old(self)@, old(self).top().push2(v)));
        }
    }

    /// Gives up the `n` topmost cells of the top frame's operand stack.
    pub fn drop(&mut self, n: usize)
        requires
            old(self).wf(),
            old(self)@.len() > 0,
            n <= old(self).top().depth,
        ensures
            final(self).wf(),
            final(self)@ == with_top(old(self)@, old(self).top().drop(n as nat)),
    {
        let d: usize = self.depth();
        self.set_depth(d - n);
    }

    /// Pops one cell.
    pub fn pop_slot(&mut self) -> (r: u64)
        requires
            old(self).wf(),
            old(self)@.len() > 0,
            old(self).top().depth >= 1,
        ensures
            final(self).wf(),
            r == old(self).top().peek(1),
            final(self)@ == with_top(old(self)@, old(self).top().drop(1)),
    {
        let r: u64 = self.peek(1);
        self.drop(1);
        r
    }

    /// Pops a 32-bit value: the low half of the topmost cell.
    pub fn pop_u32(&mut self) -> (r: u32)
        requires
            old(self).wf(),
            old(self)@.len() > 0,
            old(self).top().depth >= 1,
        ensures
            final(self).wf(),
            r == old(self).top().peek(1) % 0x1_0000_0000,
            final(self)@ == with_top(old(self)@, old(self).top().drop(1)),
    {
        let r: u64 = self.pop_slot();
        (r % 0x1_0000_0000) as u32
    }

    /// Pops a 64-bit value: it is read from the lower of the two cells it
    /// took.
    pub fn pop_u64(&mut self) -> (r: u64)
        requires
            old(self).wf(),
            old(self)@.len() > 0,
            old(self).top().depth >= 2,
        ensures
            final(self).wf(),
            r == old(self).top().peek(2),
            final(self)@ == with_top(old(self)@, old(self).top().drop(2)),
    {
        let r: u64 = self.peek(2);
        self.drop(2);
        r
    }

    /// Pops the `n` topmost cells and returns them, the lowest first.
    pub fn pop_slots(&mut self, n: usize) -> (r: Vec<u64>)
        requires
            old(self).wf(),
            old(self)@.len() > 0,
            n <= old(self).top().depth,
        ensures
            final(self).wf(),
            r@ == old(self).top().cells.subrange(
                old(self).top().depth - n,
                old(self).top().depth as int,
            ),
            final(self)@ == with_top(old(self)@, old(self).top().drop(n as nat)),
    {
        let mut r: Vec<u64> = Vec::with_capacity(n);
        let d: usize = self.depth();
        let mut i: usize = 0;
        while i < n
            invariant
                i <= n <= d,
                d <= self.top().cells.len(),
                self.wf(),
                self@.len() > 0,
                d == self.top().depth,
                *self == *old(self),
                r@ == self.top().cells.subrange(d - n, d - n + i),
            decreases n - i,
        {
            let v: u64 = self.peek(n - i);
            r.push(v);
            i += 1;
            proof {
                assert(r@ =~= self.top().cells.subrange(d - n, d - n + i));
            }
        }
        self.drop(n);
        r
    }

    /// Leaves the top frame: the frame below becomes the current one.
    pub fn pop_frame(&mut self)
        requires
            old(self).wf(),
            old(self)@.len() > 0,
        ensures
            final(self).wf(),
            final(self)@ == old(self)@.drop_last(),
    {
        self.frames.pop();
        proof {
            assert forall|i: int| 0 <= i < self.frames@.len() implies self.frame_ok(i) by {
                assert(old(self).frame_ok(i));
            }
            assert(self@ =~= old(self)@.drop_last());
        }
    }

    /// Whether the frames `fs` can all be pushed: the frame table has
    /// room for them, and with them the frames own no more than
    /// `MAX_CELLS`.
    pub open spec fn fits(&self, fs: Seq<FrameView>) -> bool {
        self.frames@.len() + fs.len() <= MAX_JSTACK_SIZE && self.used() + cells_sum(fs)
            <= MAX_CELLS
    }

    /// Whether a frame with such a window can not be pushed: the frame
    /// table is full, or the frames would own more than `MAX_CELLS`.
    pub open spec fn push_fails(&self, max_locals: usize, max_stack: usize) -> bool {
        self.frames@.len() >= MAX_JSTACK_SIZE || self.used() + max_locals + max_stack > MAX_CELLS
    }

    /// Makes the arena at least `needed` cells long by doubling it; what
    /// the frames hold stays.
    fn check_realloc(&mut self, needed: usize)
        requires
            old(self).wf(),
            needed <= MAX_CELLS,
        ensures
            final(self).wf(),
            final(self).frames == old(self).frames,
            final(self)@ == old(self)@,
            final(self).stack_data@.len() >= needed,
            final(self).stack_data@.len() >= old(self).stack_data@.len(),
            final(self).stack_data@.subrange(0, old(self).stack_data@.len() as int) == old(self).stack_data@,
    {
        if needed <= self.stack_data.len() {
            return ;
        }
        let mut n: u64 = self.stack_data.len() as u64;
        if n == 0 {
            n = 1;
        }
        while n < needed as u64
            invariant
                1 <= n <= 2 * MAX_CELLS,
                needed <= MAX_CELLS,
            decreases 2 * MAX_CELLS - n,
        {
            n = n * 2;
        }
        let target: usize = if n <= usize::MAX as u64 {
            n as usize
        } else {
            needed
        };
        while self.stack_data.len() < target
            invariant
                self.frames == old(self).frames,
                self.stack_data@.len() >= old(self).stack_data@.len(),
                self.stack_data@.subrange(0, old(self).stack_data@.len() as int) == old(self).stack_data@,
                self.stack_data@.len() <= target || target <= old(self).stack_data@.len(),
            decreases target - self.stack_data@.len(),
        {
            self.stack_data.push(0);
            proof {
                assert(self.stack_data@.subrange(0, old(self).stack_data@.len() as int) =~= old(self).stack_data@);
            }
        }
        proof {
            assert forall|i: int| 0 <= i < self.frames@.len() implies self.frame_ok(i)
                && self.frame_view(i) == old(self).frame_view(i) by {
                assert(old(self).frame_ok(i));
                let g = self.frames@[i];
                assert(self.stack_data@.subrange(g.local_base as int, g.stack_base())
                    =~= old(self).stack_data@.subrange(g.local_base as int, g.stack_base()));
                assert(self.stack_data@.subrange(g.stack_base(), g.end()) =~= old(self).stack_data@.subrange(g.stack_base(), g.end()));
            }
            assert(self@ =~= old(self)@);
        }
    }

    /// Pushes a frame for `method` with `max_locals` locals and room for
    /// `max_stack` operand cells, all zero, above the current frame. Where
    /// the frame cannot be pushed the stack stays as it is.
    pub fn push_frame(&mut self, method: MemberRef, max_locals: usize, max_stack: usize) -> (r:
        Result<(), VmError>)
        requires
            old(self).wf(),
        ensures
            final(self).wf(),
            old(self).push_fails(max_locals, max_stack) ==> r == Err::<(), VmError>(
                VmError::StackOverflow,
            ) && final(self)@ == old(self)@,
            !old(self).push_fails(max_locals, max_stack) ==> r is Ok && final(self)@ == old(self)@.push(
                FrameView {
                    method,
                    next_pc: 0,
                    no_ret: false,
                    locals: zeros(max_locals as nat),
                    cells: zeros(max_stack as nat),
                    depth: 0,
                },
            ),
            r is Ok ==> final(self).used() == old(self).used() + max_locals + max_stack
                && final(self).frames@.len() == old(self).frames@.len() + 1,
    {
        let count: usize = self.frames.len();
        let base: usize = if count == 0 {
            0
        } else {
            let f: JFrame = self.frames[count - 1];
            proof {
                assert(self.frame_ok(count - 1));
            }
            f.local_base + f.max_locals + f.max_stack
        };
        if count >= MAX_JSTACK_SIZE || max_locals > MAX_CELLS || max_stack > MAX_CELLS - max_locals
            || base > MAX_CELLS - max_locals - max_stack {
            return Err(VmError::StackOverflow);
        }
        let end: usize = base + max_locals + max_stack;
        self.check_realloc(end);
        proof {
            assert(base <= old(self).stack_data@.len());
            assert(self.stack_data@.subrange(0, base as int) =~= self.stack_data@.subrange(
                0,
                old(self).stack_data@.len() as int,
            ).subrange(0, base as int));
        }
        let mut i: usize = base;
        while i < end
            invariant
                base <= i <= end <= self.stack_data@.len(),
                self.frames == old(self).frames,
                self.stack_data@.subrange(0, base as int) == old(self).stack_data@.subrange(
                    0,
                    base as int,
                ),
                forall|k: int| base <= k < i ==> self.stack_data@[k] == 0,
            decreases end - i,
        {
            self.stack_data[i] = 0;
            i += 1;
            proof {
                assert(self.stack_data@.subrange(0, base as int) =~= old(self).stack_data@.subrange(0, base as int));
            }
        }
        let ghost mid = *self;
        self.frames.push(
            JFrame {
                method,
                next_pc: 0,
                no_ret: false,
                id: count as u16,
                local_base: base,
                max_locals,
                max_stack,
                stack_size: 0,
            },
        );
        proof {
            assert forall|k: int| 0 <= k < count implies self.frame_ok(k) && self.frame_view(k)
                == old(self).frame_view(k) by {
                assert(old(self).frame_ok(k));
                if k < count - 1 {
                    old(self).lemma_regions(k, count - 1);
                }
                assert(old(self).frame_ok(count - 1));
                let g = self.frames@[k];
                assert(g.end() <= base);
                assert(self.stack_data@.subrange(g.local_base as int, g.stack_base())
                    =~= self.stack_data@.subrange(0, base as int).subrange(
                    g.local_base as int,
                    g.stack_base(),
                ));
                assert(old(self).stack_data@.subrange(g.local_base as int, g.stack_base())
                    =~= old(self).stack_data@.subrange(0, base as int).subrange(
                    g.local_base as int,
                    g.stack_base(),
                ));
                assert(self.stack_data@.subrange(g.stack_base(), g.end())
                    =~= self.stack_data@.subrange(0, base as int).subrange(
                    g.stack_base(),
                    g.end(),
                ));
                assert(old(self).stack_data@.subrange(g.stack_base(), g.end()) =~= old(self).stack_data@.subrange(0, base as int).subrange(g.stack_base(), g.end()));
            }
            assert(self.frame_ok(count as int));
            let nf = self.frames@[count as int];
            assert(self.stack_data@.subrange(nf.local_base as int, nf.stack_base()) =~= zeros(
                max_locals as nat,
            ));
            assert(self.stack_data@.subrange(nf.stack_base(), nf.end()) =~= zeros(
                max_stack as nat,
            ));
            assert(self@ =~= old(self)@.push(
                FrameView {
                    method,
                    next_pc: 0,
                    no_ret: false,
                    locals: zeros(max_locals as nat),
                    cells: zeros(max_stack as nat),
                    depth: 0,
                },
            ));
        }
        Ok(())
    }

    /// Hands the `n` topmost operand cells of the frame below the top to
    /// the top frame as its first `n` locals, and takes them off the
    /// lower frame's operand stack.
    pub fn pass_args(&mut self, n: usize)
        requires
            old(self).wf(),
            old(self)@.len() >= 2,
            n <= old(self)@[old(self)@.len() - 2].depth,
            n <= old(self).top().locals.len(),
        ensures
            final(self).wf(),
            final(self)@ == old(self)@.update(
                old(self)@.len() - 2,
                old(self)@[old(self)@.len() - 2].drop(n as nat),
            ).update(
                old(self)@.len() - 1,
                FrameView {
                    locals: old(self)@[old(self)@.len() - 2].cells.subrange(
                        old(self)@[old(self)@.len() - 2].depth - n,
                        old(self)@[old(self)@.len() - 2].depth as int,
                    ) + old(self).top().locals.subrange(
                        n as int,
                        old(self).top().locals.len() as int,
                    ),
                    ..old(self).top()
                },
            ),
    {
        let t: usize = self.frames.len() - 1;
        let callee: JFrame = self.frames[t];
        let caller: JFrame = self.frames[t - 1];
        proof {
            assert(self.frame_ok(t as int));
            assert(self.frame_ok(t - 1));
        }
        proof {
            self.lemma_depth_bounded(t as int);
            self.lemma_depth_bounded(t - 1);
        }
        let src: usize = caller.local_base + caller.max_locals + (caller.stack_size - n);
        let dst: usize = callee.local_base;
        let mut i: usize = 0;
        while i < n
            invariant
                i <= n,
                self.frames == old(self).frames,
                self.stack_data@.len() == old(self).stack_data@.len(),
                src + n <= dst,
                dst + n <= self.stack_data@.len(),
                dst + n <= MAX_CELLS,
                forall|k: int|
                    0 <= k < self.stack_data@.len() && !(dst <= k < dst + i)
                        ==> self.stack_data@[k] == old(self).stack_data@[k],
                forall|k: int|
                    dst <= k < dst + i ==> #[trigger] self.stack_data@[k] == old(self).stack_data@[k - dst + src],
            decreases n - i,
        {
            let v: u64 = self.stack_data[src + i];
            self.stack_data[dst + i] = v;
            i += 1;
        }
        self.frames[t - 1].stack_size = caller.stack_size - n;
        proof {
            assert forall|k: int| 0 <= k < self.frames@.len() implies self.frame_ok(k) by {
                assert(old(self).frame_ok(k));
                if k > 0 {
                    assert(old(self).frame_ok(k - 1));
                }
            }
            assert forall|k: int| 0 <= k < t - 1 implies self.frame_view(k) == old(self).frame_view(k) by {
                old(self).lemma_regions(k, t as int);
                assert(old(self).frame_ok(k));
                let g = self.frames@[k];
                assert(self.stack_data@.subrange(g.local_base as int, g.stack_base())
                    =~= old(self).stack_data@.subrange(g.local_base as int, g.stack_base()));
                assert(self.stack_data@.subrange(g.stack_base(), g.end()) =~= old(self).stack_data@.subrange(g.stack_base(), g.end()));
            }
            let cv = old(self)@[t - 1];
            let tv = old(self).top();
            let g = old(self).frames@[t - 1];
            assert(self.stack_data@.subrange(g.local_base as int, g.stack_base()) =~= old(self).stack_data@.subrange(g.local_base as int, g.stack_base()));
            assert(self.stack_data@.subrange(g.stack_base(), g.end()) =~= old(self).stack_data@.subrange(g.stack_base(), g.end()));
            assert(self.frame_view(t - 1) == cv.drop(n as nat));
            assert(self.stack_data@.subrange(callee.local_base as int, callee.stack_base())
                =~= cv.cells.subrange(cv.depth - n, cv.depth as int) + tv.locals.subrange(
                n as int,
                tv.locals.len() as int,
            ));
            assert(self.stack_data@.subrange(callee.stack_base(), callee.end()) =~= old(self).stack_data@.subrange(callee.stack_base(), callee.end()));
            assert(self@ =~= old(self)@.update(t - 1, cv.drop(n as nat)).update(
                t as int,
                FrameView {
                    locals: cv.cells.subrange(cv.depth - n, cv.depth as int) + tv.locals.subrange(
                        n as int,
                        tv.locals.len() as int,
                    ),
                    ..tv
                },
            ));
        }
    }
}

} // verus!
