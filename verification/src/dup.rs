//! The instructions that copy and reorder the topmost operand cells.
//!
//! In the pictures the top of the stack is on the right: `..yx` has `x`
//! on top and `y` below it.

use vstd::prelude::*;
use crate::frame::{FrameView, JStack, with_top};

verus! {

impl FrameView {
    /// `..x` becomes `..xx`.
    pub open spec fn dup(self) -> FrameView {
        self.push1(self.peek(1))
    }

    /// `..yx` becomes `..xyx`.
    pub open spec fn dup_x1(self) -> FrameView {
        let d = self.depth as int;
        let x = self.peek(1);
        let y = self.peek(2);
        FrameView {
            cells: self.cells.update(d - 2, x).update(d - 1, y).update(d, x),
            depth: self.depth + 1,
            ..self
        }
    }

    /// `..zyx` becomes `..xzyx`.
    pub open spec fn dup_x2(self) -> FrameView {
        let d = self.depth as int;
        let x = self.peek(1);
        let y = self.peek(2);
        let z = self.peek(3);
        FrameView {
            cells: self.cells.update(d - 3, x).update(d - 2, z).update(d - 1, y).update(d, x),
            depth: self.depth + 1,
            ..self
        }
    }

    /// `..yx` becomes `..yxyx`.
    pub open spec fn dup2(self) -> FrameView {
        let d = self.depth as int;
        let x = self.peek(1);
        let y = self.peek(2);
        FrameView { cells: self.cells.update(d, y).update(d + 1, x), depth: self.depth + 2, ..self }
    }

    /// `..zyx` becomes `..yxzyx`.
    pub open spec fn dup2_x1(self) -> FrameView {
        let d = self.depth as int;
        let x = self.peek(1);
        let y = self.peek(2);
        let z = self.peek(3);
        FrameView {
            cells: self.cells.update(d - 3, y).update(d - 2, x).update(d - 1, z).update(
                d,
                y,
            ).update(d + 1, x),
            depth: self.depth + 2,
            ..self
        }
    }

    /// `..wzyx` becomes `..yxwzyx`.
    pub open spec fn dup2_x2(self) -> FrameView {
        let d = self.depth as int;
        let x = self.peek(1);
        let y = self.peek(2);
        let z = self.peek(3);
        let w = self.peek(4);
        FrameView {
            cells: self.cells.update(d - 4, y).update(d - 3, x).update(d - 2, w).update(
                d - 1,
                z,
            ).update(d, y).update(d + 1, x),
            depth: self.depth + 2,
            ..self
        }
    }

    /// `..yx` becomes `..xy`.
    pub open spec fn swap(self) -> FrameView {
        let d = self.depth as int;
        let x = self.peek(1);
        let y = self.peek(2);
        FrameView { cells: self.cells.update(d - 2, x).update(d - 1, y), ..self }
    }
}

impl JStack {
    /// Rewrites the operand cells of the top frame from `first` on with
    /// `vals` and sets the depth to `first + vals.len()`.
    fn rewrite(&mut self, first: usize, vals: &Vec<u64>)
        requires
            old(self).wf(),
            old(self)@.len() > 0,
            first + vals@.len() <= old(self).top().cells.len(),
        ensures
            final(self).wf(),
            final(self)@.len() == old(self)@.len(),
            final(self)@ == with_top(
                old(self)@,
                FrameView {
                    cells: Seq::new(
                        old(self).top().cells.len(),
                        |i: int|
                            if first <= i < first + vals@.len() {
                                vals@[i - first]
                            } else {
                                old(self).top().cells[i]
                            },
                    ),
                    depth: (first + vals@.len()) as nat,
                    ..old(self).top()
                },
            ),
    {
        let ghost s0 = self@;
        let ghost t0 = self.top();
        let _ = self.depth();
        proof {
            assert(Seq::new(
                t0.cells.len(),
                |k: int|
                    if first <= k < first + 0 {
                        vals@[k - first]
                    } else {
                        t0.cells[k]
                    },
            ) =~= t0.cells);
            assert(self@ =~= with_top(
                s0,
                FrameView {
                    cells: Seq::new(
                        t0.cells.len(),
                        |k: int|
                            if first <= k < first + 0 {
                                vals@[k - first]
                            } else {
                                t0.cells[k]
                            },
                    ),
                    ..t0
                },
            ));
        }
        let mut i: usize = 0;
        while i < vals.len()
            invariant
                i <= vals@.len(),
                self.wf(),
                self@.len() == s0.len(),
                s0.len() > 0,
                t0 == s0.last(),
                first + vals@.len() <= t0.cells.len(),
                t0.cells.len() == self.frames@.last().max_stack,
                self@ == with_top(
                    s0,
                    FrameView {
                        cells: Seq::new(
                            t0.cells.len(),
                            |k: int|
                                if first <= k < first + i {
                                    vals@[k - first]
                                } else {
                                    t0.cells[k]
                                },
                        ),
                        ..t0
                    },
                ),
            decreases vals@.len() - i,
        {
            let ghost before = self.top();
            self.write_cell(first + i, vals[i]);
            i += 1;
            proof {
                assert(before.set_cell(first + i - 1, vals@[i - 1]).cells =~= Seq::new(
                    t0.cells.len(),
                    |k: int|
                        if first <= k < first + i {
                            vals@[k - first]
                        } else {
                            t0.cells[k]
                        },
                ));
                assert(self@ =~= with_top(
                    s0,
                    FrameView {
                        cells: Seq::new(
                            t0.cells.len(),
                            |k: int|
                                if first <= k < first + i {
                                    vals@[k - first]
                                } else {
                                    t0.cells[k]
                                },
                        ),
                        ..t0
                    },
                ));
            }
        }
        self.set_depth(first + vals.len());
        proof {
            assert(self@ =~= with_top(
                s0,
                FrameView {
                    cells: Seq::new(
                        t0.cells.len(),
                        |k: int|
                            if first <= k < first + vals@.len() {
                                vals@[k - first]
                            } else {
                                t0.cells[k]
                            },
                    ),
                    depth: (first + vals@.len()) as nat,
                    ..t0
                },
            ));
        }
    }

    /// `dup`: copies the topmost cell.
    pub fn dup(&mut self)
        requires
            old(self).wf(),
            old(self)@.len() > 0,
            old(self).top().depth >= 1,
            old(self).top().room(1),
        ensures
            final(self).wf(),
            final(self)@ == with_top(old(self)@, old(self).top().dup()),
    {
        let x: u64 = self.peek(1);
        self.push_slot(x);
    }

    /// `dup_x1`: copies the topmost cell below the second.
    pub fn dup_x1(&mut self)
        requires
            old(self).wf(),
            old(self)@.len() > 0,
            old(self).top().depth >= 2,
            old(self).top().room(1),
        ensures
            final(self).wf(),
            final(self)@ == with_top(old(self)@, old(self).top().dup_x1()),
    {
        let d: usize = self.depth();
        let x: u64 = self.peek(1);
        let y: u64 = self.peek(2);
        let vals: Vec<u64> = vec![x, y, x];
        self.rewrite(d - 2, &vals);
        proof {
            let t = old(self).top();
            assert(self.top().cells =~= t.dup_x1().cells);
            assert(self@ =~= with_top(old(self)@, t.dup_x1()));
        }
    }

    /// `dup_x2`: copies the topmost cell below the third.
    pub fn dup_x2(&mut self)
        requires
            old(self).wf(),
            old(self)@.len() > 0,
            old(self).top().depth >= 3,
            old(self).top().room(1),
        ensures
            final(self).wf(),
            final(self)@ == with_top(old(self)@, old(self).top().dup_x2()),
    {
        let d: usize = self.depth();
        let x: u64 = self.peek(1);
        let y: u64 = self.peek(2);
        let z: u64 = self.peek(3);
        let vals: Vec<u64> = vec![x, z, y, x];
        self.rewrite(d - 3, &vals);
        proof {
            let t = old(self).top();
            assert(self.top().cells =~= t.dup_x2().cells);
            assert(self@ =~= with_top(old(self)@, t.dup_x2()));
        }
    }

    /// `dup2`: copies the two topmost cells.
    pub fn dup2(&mut self)
        requires
            old(self).wf(),
            old(self)@.len() > 0,
            old(self).top().depth >= 2,
            old(self).top().room(2),
        ensures
            final(self).wf(),
            final(self)@ == with_top(old(self)@, old(self).top().dup2()),
    {
        let d: usize = self.depth();
        let x: u64 = self.peek(1);
        let y: u64 = self.peek(2);
        let vals: Vec<u64> = vec![y, x];
        self.rewrite(d, &vals);
        proof {
            let t = old(self).top();
            assert(self.top().cells =~= t.dup2().cells);
            assert(self@ =~= with_top(old(self)@, t.dup2()));
        }
    }

    /// `dup2_x1`: copies the two topmost cells below the third.
    pub fn dup2_x1(&mut self)
        requires
            old(self).wf(),
            old(self)@.len() > 0,
            old(self).top().depth >= 3,
            old(self).top().room(2),
        ensures
            final(self).wf(),
            final(self)@ == with_top(old(self)@, old(self).top().dup2_x1()),
    {
        let d: usize = self.depth();
        let x: u64 = self.peek(1);
        let y: u64 = self.peek(2);
        let z: u64 = self.peek(3);
        let vals: Vec<u64> = vec![y, x, z, y, x];
        self.rewrite(d - 3, &vals);
        proof {
            let t = old(self).top();
            assert(self.top().cells =~= t.dup2_x1().cells);
            assert(self@ =~= with_top(old(self)@, t.dup2_x1()));
        }
    }

    /// `dup2_x2`: copies the two topmost cells below the fourth.
    pub fn dup2_x2(&mut self)
        requires
            old(self).wf(),
            old(self)@.len() > 0,
            old(self).top().depth >= 4,
            old(self).top().room(2),
        ensures
            final(self).wf(),
            final(self)@ == with_top(old(self)@, old(self).top().dup2_x2()),
    {
        let d: usize = self.depth();
        let x: u64 = self.peek(1);
        let y: u64 = self.peek(2);
        let z: u64 = self.peek(3);
        let w: u64 = self.peek(4);
        let vals: Vec<u64> = vec![y, x, w, z, y, x];
        self.rewrite(d - 4, &vals);
        proof {
            let t = old(self).top();
            assert(self.top().cells =~= t.dup2_x2().cells);
            assert(self@ =~= with_top(old(self)@, t.dup2_x2()));
        }
    }

    /// `swap`: exchanges the two topmost cells.
    pub fn swap(&mut self)
        requires
            old(self).wf(),
            old(self)@.len() > 0,
            old(self).top().depth >= 2,
        ensures
            final(self).wf(),
            final(self)@ == with_top(old(self)@, old(self).top().swap()),
    {
        let d: usize = self.depth();
        let x: u64 = self.peek(1);
        let y: u64 = self.peek(2);
        let vals: Vec<u64> = vec![x, y];
        self.rewrite(d - 2, &vals);
        proof {
            let t = old(self).top();
            assert(self.top().cells =~= t.swap().cells);
            assert(self@ =~= with_top(old(self)@, t.swap()));
        }
    }
}

} // verus!
