//! Typed access to a vector of 64-bit slots, and a bounded operand stack
//! over such a vector.

use vstd::prelude::*;
use crate::reader::{signed32, signed64, to_i32, to_i64, from_i32, from_i64};

verus! {

/// Slots seen as 32-bit values, 64-bit values or raw cells.
pub trait Slots {
    /// The slots as a sequence.
    spec fn slots(&self) -> Seq<u64>;

    /// Stores a 32-bit value, zero-extended.
    fn set_u32(&mut self, i: usize, v: u32)
        requires
            i < old(self).slots().len(),
        ensures
            final(self).slots() == old(self).slots().update(i as int, v as u64),
    ;

    /// The low half of slot `i`.
    fn get_u32(&self, i: usize) -> (r: u32)
        requires
            i < self.slots().len(),
        ensures
            r == self.slots()[i as int] % 0x1_0000_0000,
    ;

    /// Stores the 32-bit pattern of a signed value, zero-extended.
    fn set_i32(&mut self, i: usize, v: i32)
        requires
            i < old(self).slots().len(),
        ensures
            final(self).slots().len() == old(self).slots().len(),
            forall|k: int|
                0 <= k < old(self).slots().len() && k != i ==> final(self).slots()[k] == old(self).slots()[k],
            final(self).slots()[i as int] < 0x1_0000_0000,
            signed32(final(self).slots()[i as int] as int) == v,
    ;

    /// The low half of slot `i`, read as a signed value.
    fn get_i32(&self, i: usize) -> (r: i32)
        requires
            i < self.slots().len(),
        ensures
            r == signed32((self.slots()[i as int] % 0x1_0000_0000) as int),
    ;

    /// Stores a 64-bit value in slot `i`.
    fn set_u64(&mut self, i: usize, v: u64)
        requires
            i < old(self).slots().len(),
        ensures
            final(self).slots() == old(self).slots().update(i as int, v),
    ;

    /// Slot `i` as a 64-bit value.
    fn get_u64(&self, i: usize) -> (r: u64)
        requires
            i < self.slots().len(),
        ensures
            r == self.slots()[i as int],
    ;

    /// Slot `i`, read as a signed value.
    fn get_i64(&self, i: usize) -> (r: i64)
        requires
            i < self.slots().len(),
        ensures
            r == signed64(self.slots()[i as int] as int),
    ;

    /// Slot `i` as it is.
    fn get_cell(&self, i: usize) -> (r: u64)
        requires
            i < self.slots().len(),
        ensures
            r == self.slots()[i as int],
    ;

    /// Stores `v` in slot `i` as it is.
    fn set_cell(&mut self, i: usize, v: u64)
        requires
            i < old(self).slots().len(),
        ensures
            final(self).slots() == old(self).slots().update(i as int, v),
    ;
}

impl Slots for Vec<u64> {
    open spec fn slots(&self) -> Seq<u64> {
        self@
    }

    fn set_u32(&mut self, i: usize, v: u32) {
        self[i] = v as u64;
    }

    fn get_u32(&self, i: usize) -> (r: u32) {
        (self[i] % 0x1_0000_0000) as u32
    }

    fn set_i32(&mut self, i: usize, v: i32) {
        self[i] = from_i32(v) as u64;
    }

    fn get_i32(&self, i: usize) -> (r: i32) {
        to_i32((self[i] % 0x1_0000_0000) as u32)
    }

    fn set_u64(&mut self, i: usize, v: u64) {
        self[i] = v;
    }

    fn get_u64(&self, i: usize) -> (r: u64) {
        self[i]
    }

    fn get_i64(&self, i: usize) -> (r: i64) {
        to_i64(self[i])
    }

    fn get_cell(&self, i: usize) -> (r: u64) {
        self[i]
    }

    fn set_cell(&mut self, i: usize, v: u64) {
        self[i] = v;
    }
}

/// An operand stack over its own slots. A 32-bit value or a cell takes
/// one slot; a 64-bit value is stored in one slot and takes two.
#[derive(Debug)]
pub struct OpStack {
    pub slots: Vec<u64>,
    /// How many slots are taken.
    pub size: usize,
}

impl OpStack {
    /// A stack with room for `max_stack` slots, all zero, none taken.
    pub fn new(max_stack: usize) -> (r: OpStack)
        ensures
            r.size == 0,
            r.slots@.len() == max_stack,
            forall|i: int| 0 <= i < max_stack ==> r.slots@[i] == 0,
    {
        OpStack { slots: vec![0u64; max_stack], size: 0 }
    }

    /// Room for `n` more slots.
    pub open spec fn room(&self, n: int) -> bool {
        self.size + n <= self.slots@.len()
    }

    /// Pushes a 32-bit value.
    pub fn push_u32(&mut self, v: u32)
        requires
            old(self).room(1),
        ensures
            final(self).slots@ == old(self).slots@.update(old(self).size as int, v as u64),
            final(self).size == old(self).size + 1,
    {
        let n: usize = self.slots.len();
        self.slots.set_u32(self.size, v);
        self.size += 1;
    }

    /// Pushes a signed 32-bit value as its bit pattern.
    pub fn push_i32(&mut self, v: i32)
        requires
            old(self).room(1),
        ensures
            final(self).slots@ == old(self).slots@.update(
                old(self).size as int,
                final(self).slots@[old(self).size as int],
            ),
            final(self).slots@[old(self).size as int] < 0x1_0000_0000,
            signed32(final(self).slots@[old(self).size as int] as int) == v,
            final(self).size == old(self).size + 1,
    {
        self.push_u32(from_i32(v));
    }

    /// Pushes a 64-bit value.
    pub fn push_u64(&mut self, v: u64)
        requires
            old(self).room(2),
        ensures
            final(self).slots@ == old(self).slots@.update(old(self).size as int, v),
            final(self).size == old(self).size + 2,
    {
        let n: usize = self.slots.len();
        self.slots.set_u64(self.size, v);
        self.size += 2;
    }

    /// Pushes a signed 64-bit value as its bit pattern.
    pub fn push_i64(&mut self, v: i64)
        requires
            old(self).room(2),
        ensures
            final(self).slots@ == old(self).slots@.update(
                old(self).size as int,
                final(self).slots@[old(self).size as int],
            ),
            signed64(final(self).slots@[old(self).size as int] as int) == v,
            final(self).size == old(self).size + 2,
    {
        self.push_u64(from_i64(v))
    }

    /// Takes the topmost slot as a 32-bit value.
    pub fn pop_u32(&mut self) -> (r: u32)
        requires
            1 <= old(self).size <= old(self).slots@.len(),
        ensures
            r == old(self).slots@[old(self).size - 1] % 0x1_0000_0000,
            final(self).slots == old(self).slots,
            final(self).size == old(self).size - 1,
    {
        let r: u32 = self.slots.get_u32(self.size - 1);
        self.size -= 1;
        r
    }

    /// Takes the topmost slot as a signed 32-bit value.
    pub fn pop_i32(&mut self) -> (r: i32)
        requires
            1 <= old(self).size <= old(self).slots@.len(),
        ensures
            r == signed32((old(self).slots@[old(self).size - 1] % 0x1_0000_0000) as int),
            final(self).slots == old(self).slots,
            final(self).size == old(self).size - 1,
    {
        to_i32(self.pop_u32())
    }

    /// Takes the topmost slot as a 64-bit value.
    pub fn pop_u64(&mut self) -> (r: u64)
        requires
            2 <= old(self).size <= old(self).slots@.len(),
        ensures
            r == old(self).slots@[old(self).size - 2],
            final(self).slots == old(self).slots,
            final(self).size == old(self).size - 2,
    {
        let r: u64 = self.slots.get_u64(self.size - 2);
        self.size -= 2;
        r
    }

    /// Takes the topmost slot as a signed 64-bit value.
    pub fn pop_i64(&mut self) -> (r: i64)
        requires
            2 <= old(self).size <= old(self).slots@.len(),
        ensures
            r == signed64(old(self).slots@[old(self).size - 2] as int),
            final(self).slots == old(self).slots,
            final(self).size == old(self).size - 2,
    {
        to_i64(self.pop_u64())
    }

    /// Pushes the null reference.
    pub fn push_nil(&mut self)
        requires
            old(self).room(1),
        ensures
            final(self).slots@ == old(self).slots@.update(old(self).size as int, 0),
            final(self).size == old(self).size + 1,
    {
        self.push_cell(0)
    }

    /// Pushes a reference-sized value.
    pub fn push_cell(&mut self, v: u64)
        requires
            old(self).room(1),
        ensures
            final(self).slots@ == old(self).slots@.update(old(self).size as int, v),
            final(self).size == old(self).size + 1,
    {
        let n: usize = self.slots.len();
        self.slots.set_cell(self.size, v);
        self.size += 1;
    }

    /// Takes the topmost slot as a reference-sized value.
    pub fn pop_cell(&mut self) -> (r: u64)
        requires
            1 <= old(self).size <= old(self).slots@.len(),
        ensures
            r == old(self).slots@[old(self).size - 1],
            final(self).slots == old(self).slots,
            final(self).size == old(self).size - 1,
    {
        let r: u64 = self.slots.get_cell(self.size - 1);
        self.size -= 1;
        r
    }
}

} // verus!
