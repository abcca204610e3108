//! Tests of soundness at run time, for callers that cannot show it
//! otherwise.

use vstd::prelude::*;
use crate::class::{Class, ClassLoader};
use crate::cp::{ConstantInfo, ConstantPool, is_wide_entry, wide_rule};
use crate::frame::{JFrame, JStack, MAX_CELLS, MAX_JSTACK_SIZE};
use crate::heap::Heap;
use crate::loader::class_ok;
use crate::vm::Jvm;

verus! {

impl JStack {
    /// Tests whether the stack is well formed.
    pub fn is_sound(&self) -> (r: bool)
        ensures
            r == self.wf(),
    {
        if self.frames.len() > MAX_JSTACK_SIZE {
            return false;
        }
        let mut i: usize = 0;
        let mut base: usize = 0;
        while i < self.frames.len()
            invariant
                i <= self.frames@.len(),
                self.frames@.len() <= MAX_JSTACK_SIZE,
                forall|k: int| 0 <= k < i ==> self.frame_ok(k),
                base == (if i == 0 {
                    0
                } else {
                    self.frames@[i - 1].end()
                }),
                base <= MAX_CELLS,
            decreases self.frames@.len() - i,
        {
            let f: JFrame = self.frames[i];
            if f.id as usize != i || f.stack_size > f.max_stack || f.local_base != base
                || f.max_locals > MAX_CELLS - base || f.max_stack > MAX_CELLS - base
                - f.max_locals || base + f.max_locals + f.max_stack > self.stack_data.len() {
                proof {
                    assert(!self.frame_ok(i as int));
                }
                return false;
            }
            base = base + f.max_locals + f.max_stack;
            i += 1;
        }
        true
    }
}

impl Heap {
    /// Tests whether the heap is well formed.
    pub fn is_sound(&self) -> (r: bool)
        ensures
            r == self.wf(),
    {
        let mut i: usize = 0;
        while i < self.objects.len()
            invariant
                i <= self.objects@.len(),
                forall|k: int| 0 <= k < i ==> (#[trigger] self.objects@[k]).wf(),
            decreases self.objects@.len() - i,
        {
            if self.objects[i].size != self.objects[i].data.len() {
                proof {
                    assert(!self.objects@[i as int].wf());
                }
                return false;
            }
            i += 1;
        }
        true
    }
}

impl ConstantPool {
    /// Tests whether a blank slot lies behind every 64-bit entry.
    pub fn keeps_wide_rule(&self) -> (r: bool)
        ensures
            r == wide_rule(self@),
    {
        let mut i: usize = 0;
        while i < self.infos.len()
            invariant
                i <= self.infos@.len(),
                forall|k: int|
                    0 <= k < i && k + 1 < self@.len() && is_wide_entry(#[trigger] self@[k])
                        ==> self@[k + 1] is Blank,
            decreases self.infos@.len() - i,
        {
            let wide: bool = match &self.infos[i] {
                ConstantInfo::Long(_) => true,
                ConstantInfo::Double(_) => true,
                _ => false,
            };
            if wide && i + 1 < self.infos.len() {
                let blank: bool = match &self.infos[i + 1] {
                    ConstantInfo::Blank => true,
                    _ => false,
                };
                if !blank {
                    proof {
                        assert(is_wide_entry(self@[i as int]));
                        assert(!(self@[i + 1] is Blank));
                    }
                    return false;
                }
            }
            i += 1;
        }
        true
    }
}

impl ClassLoader {
    /// Tests whether class `i` of the table is sound.
    pub fn class_is_sound(&self, i: usize) -> (r: bool)
        requires
            i < self.classes@.len(),
        ensures
            r == class_ok(self.classes@, i as int),
    {
        let c: &Class = &self.classes[i];
        if c.id != i || c.static_vars.len() != c.static_fields.len() || c.sym_refs.len()
            != c.cp.len() {
            return false;
        }
        match c.element_class {
            Some(e) => {
                if e >= i {
                    return false;
                }
            },
            None => {},
        }
        if !c.cp.keeps_wide_rule() {
            return false;
        }
        let mut k: usize = 0;
        while k < c.interfaces.len()
            invariant
                i < self.classes@.len(),
                *c == self.classes@[i as int],
                k <= c.interfaces@.len(),
                forall|j: int| 0 <= j < k ==> (#[trigger] c.interfaces@[j]) < i,
            decreases c.interfaces@.len() - k,
        {
            if c.interfaces[k] >= i {
                proof {
                    let x = c.interfaces@[k as int];
                }
                return false;
            }
            k += 1;
        }
        let mut base: usize = 0;
        match c.super_class {
            Some(s) => {
                if s >= i {
                    return false;
                }
                let sup: &Class = &self.classes[s];
                base = sup.ins_fields.len();
                if base > c.ins_fields.len() {
                    return false;
                }
                let mut k: usize = 0;
                while k < base
                    invariant
                        i < self.classes@.len(),
                        *c == self.classes@[i as int],
                        c.super_class == Some(s),
                        s < i,
                        *sup == self.classes@[s as int],
                        k <= base,
                        base == sup.ins_fields@.len(),
                        base <= c.ins_fields@.len(),
                        forall|j: int|
                            0 <= j < k ==> (#[trigger] c.ins_fields@[j]) == sup.ins_fields@[j],
                    decreases base - k,
                {
                    if c.ins_fields[k].class != sup.ins_fields[k].class || c.ins_fields[k].index
                        != sup.ins_fields[k].index {
                        proof {
                            assert(c.ins_fields@[k as int] != sup.ins_fields@[k as int]);
                        }
                        return false;
                    }
                    k += 1;
                }
            },
            None => {},
        }
        let mut k: usize = base;
        while k < c.ins_fields.len()
            invariant
                i < self.classes@.len(),
                *c == self.classes@[i as int],
                base == (match c.super_class {
                    Some(s) => self.classes@[s as int].ins_fields@.len(),
                    None => 0,
                }),
                base <= k <= c.ins_fields@.len(),
                forall|j: int|
                    base <= j < k ==> (#[trigger] c.ins_fields@[j]).class == i
                        && c.ins_fields@[j].index < c.fields@.len()
                        && c.fields@[c.ins_fields@[j].index as int].id == j,
            decreases c.ins_fields@.len() - k,
        {
            let m = c.ins_fields[k];
            if m.class != i || m.index >= c.fields.len() || c.fields[m.index].id != k {
                proof {
                    let x = c.ins_fields@[k as int];
                }
                return false;
            }
            k += 1;
        }
        let mut k: usize = 0;
        while k < c.static_fields.len()
            invariant
                i < self.classes@.len(),
                *c == self.classes@[i as int],
                k <= c.static_fields@.len(),
                forall|j: int|
                    0 <= j < k ==> (#[trigger] c.static_fields@[j]) < c.fields@.len()
                        && c.fields@[c.static_fields@[j] as int].id == j,
            decreases c.static_fields@.len() - k,
        {
            let f: usize = c.static_fields[k];
            if f >= c.fields.len() || c.fields[f].id != k {
                proof {
                    let x = c.static_fields@[k as int];
                }
                return false;
            }
            k += 1;
        }
        let mut k: usize = 0;
        while k < c.fields.len()
            invariant
                i < self.classes@.len(),
                *c == self.classes@[i as int],
                k <= c.fields@.len(),
                forall|j: int| 0 <= j < k ==> (#[trigger] c.fields@[j]).class == i,
            decreases c.fields@.len() - k,
        {
            if c.fields[k].class != i {
                proof {
                    let x = c.fields@[k as int];
                }
                return false;
            }
            k += 1;
        }
        let mut k: usize = 0;
        while k < c.methods.len()
            invariant
                i < self.classes@.len(),
                *c == self.classes@[i as int],
                k <= c.methods@.len(),
                forall|j: int| 0 <= j < k ==> (#[trigger] c.methods@[j]).class == i,
            decreases c.methods@.len() - k,
        {
            if c.methods[k].class != i {
                proof {
                    let x = c.methods@[k as int];
                }
                return false;
            }
            k += 1;
        }
        true
    }

    /// Tests whether the table is sound.
    pub fn is_sound(&self) -> (r: bool)
        ensures
            r == self.wf(),
    {
        match self.jclass {
            Some(j) => {
                if j >= self.classes.len() {
                    return false;
                }
            },
            None => {},
        }
        match self.jstring {
            Some(j) => {
                if j >= self.classes.len() {
                    return false;
                }
            },
            None => {},
        }
        let mut k: usize = 0;
        while k < self.loaded.len()
            invariant
                k <= self.loaded@.len(),
                forall|j: int| 0 <= j < k ==> (#[trigger] self.loaded@[j]).1 < self.classes@.len(),
            decreases self.loaded@.len() - k,
        {
            if self.loaded[k].1 >= self.classes.len() {
                proof {
                    let x = self.loaded@[k as int];
                }
                return false;
            }
            k += 1;
        }
        let mut i: usize = 0;
        while i < self.classes.len()
            invariant
                i <= self.classes@.len(),
                forall|j: int| 0 <= j < i ==> class_ok(self.classes@, j),
            decreases self.classes@.len() - i,
        {
            if !self.class_is_sound(i) {
                return false;
            }
            i += 1;
        }
        true
    }
}

impl Jvm {
    /// Tests whether heap, class table and frames are sound.
    pub fn is_sound(&self) -> (r: bool)
        ensures
            r == self.wf(),
    {
        self.heap.is_sound() && self.loader.is_sound() && self.thread.stack.is_sound()
    }
}

} // verus!
