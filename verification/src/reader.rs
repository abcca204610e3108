//! Big-endian readers over byte strings: one over a method's bytecode, one
//! over the bytes of a class file.

use vstd::prelude::*;

verus! {

/// The unsigned 16-bit value stored big-endian at `s[i..i + 2]`.
pub open spec fn be_u16(s: Seq<u8>, i: int) -> int {
    s[i] as int * 0x100 + s[i + 1] as int
}

/// The unsigned 32-bit value stored big-endian at `s[i..i + 4]`.
pub open spec fn be_u32(s: Seq<u8>, i: int) -> int {
    be_u16(s, i) * 0x1_0000 + be_u16(s, i + 2)
}

/// The unsigned 64-bit value stored big-endian at `s[i..i + 8]`.
pub open spec fn be_u64(s: Seq<u8>, i: int) -> int {
    be_u32(s, i) * 0x1_0000_0000 + be_u32(s, i + 4)
}

/// The two's-complement reading of a 16-bit pattern.
pub open spec fn signed16(v: int) -> int {
    if v >= 0x8000 {
        v - 0x1_0000
    } else {
        v
    }
}

/// The two's-complement reading of a 32-bit pattern.
pub open spec fn signed32(v: int) -> int {
    if v >= 0x8000_0000 {
        v - 0x1_0000_0000
    } else {
        v
    }
}

/// The two's-complement reading of a 64-bit pattern.
pub open spec fn signed64(v: int) -> int {
    if v >= 0x8000_0000_0000_0000 {
        v - 0x1_0000_0000_0000_0000
    } else {
        v
    }
}

/// The two's-complement reading of an 8-bit pattern.
pub open spec fn signed8(v: int) -> int {
    if v >= 0x80 {
        v - 0x100
    } else {
        v
    }
}

/// The signed 32-bit value stored big-endian at `s[i..i + 4]`.
pub open spec fn be_i32(s: Seq<u8>, i: int) -> int {
    signed32(be_u32(s, i))
}

/// The smallest multiple of four that is not below `pc`.
pub open spec fn align4(pc: int) -> int {
    if pc % 4 == 0 {
        pc
    } else {
        pc + 4 - pc % 4
    }
}

/// Reinterprets a 16-bit pattern as a signed value.
pub fn to_i16(v: u16) -> (r: i16)
    ensures
        r as int == signed16(v as int),
{
    if v >= 0x8000 {
        let w: i32 = v as i32 - 0x1_0000;
        w as i16
    } else {
        v as i16
    }
}

/// Reinterprets a 32-bit pattern as a signed value.
pub fn to_i32(v: u32) -> (r: i32)
    ensures
        r as int == signed32(v as int),
{
    if v >= 0x8000_0000 {
        let w: i64 = v as i64 - 0x1_0000_0000;
        w as i32
    } else {
        v as i32
    }
}

/// Reinterprets a 64-bit pattern as a signed value.
pub fn to_i64(v: u64) -> (r: i64)
    ensures
        r as int == signed64(v as int),
{
    if v >= 0x8000_0000_0000_0000 {
        let w: i128 = v as i128 - 0x1_0000_0000_0000_0000;
        w as i64
    } else {
        v as i64
    }
}

/// Reinterprets an 8-bit pattern as a signed value.
pub fn to_i8(v: u8) -> (r: i8)
    ensures
        r as int == signed8(v as int),
{
    if v >= 0x80 {
        let w: i16 = v as i16 - 0x100;
        w as i8
    } else {
        v as i8
    }
}

/// The 32-bit pattern of a signed value.
pub fn from_i32(v: i32) -> (r: u32)
    ensures
        signed32(r as int) == v as int,
{
    if v < 0 {
        let w: i64 = v as i64 + 0x1_0000_0000;
        w as u32
    } else {
        v as u32
    }
}

/// The 64-bit pattern of a signed value.
pub fn from_i64(v: i64) -> (r: u64)
    ensures
        signed64(r as int) == v as int,
{
    if v < 0 {
        let w: i128 = v as i128 + 0x1_0000_0000_0000_0000;
        w as u64
    } else {
        v as u64
    }
}

/// A cursor over the bytecode of one method.
pub struct BytesReader<'a> {
    pub bytes: &'a [u8],
    pub pc: u32,
}

impl<'a> BytesReader<'a> {
    /// Whether `n` more bytes can be read without leaving the code or the
    /// range of the program counter.
    pub open spec fn can_read(&self, n: int) -> bool {
        self.pc + n <= self.bytes@.len() && self.pc + n <= u32::MAX
    }

    /// Tests whether `n` more bytes can be read.
    pub fn has(&self, n: u32) -> (r: bool)
        ensures
            r == self.can_read(n as int),
    {
        let end: u64 = self.pc as u64 + n as u64;
        end <= self.bytes.len() as u64 && end <= u32::MAX as u64
    }

    /// Reads one byte and advances past it.
    pub fn u8(&mut self) -> (r: u8)
        requires
            old(self).can_read(1),
        ensures
            r == old(self).bytes@[old(self).pc as int],
            final(self).pc == old(self).pc + 1,
            final(self).bytes == old(self).bytes,
    {
        let u: u8 = self.bytes[self.pc as usize];
        self.pc += 1;
        u
    }

    /// Reads a big-endian unsigned 16-bit value and advances past it.
    pub fn u16(&mut self) -> (r: u16)
        requires
            old(self).can_read(2),
        ensures
            r as int == be_u16(old(self).bytes@, old(self).pc as int),
            final(self).pc == old(self).pc + 2,
            final(self).bytes == old(self).bytes,
    {
        let p: usize = self.pc as usize;
        let hi: u16 = self.bytes[p] as u16;
        let lo: u16 = self.bytes[p + 1] as u16;
        self.pc += 2;
        hi * 0x100 + lo
    }

    /// Reads a big-endian unsigned 32-bit value and advances past it.
    pub fn u32(&mut self) -> (r: u32)
        requires
            old(self).can_read(4),
        ensures
            r as int == be_u32(old(self).bytes@, old(self).pc as int),
            final(self).pc == old(self).pc + 4,
            final(self).bytes == old(self).bytes,
    {
        let hi: u32 = self.u16() as u32;
        let lo: u32 = self.u16() as u32;
        hi * 0x1_0000 + lo
    }

    /// Reads a big-endian signed 16-bit value and advances past it.
    pub fn i16(&mut self) -> (r: i16)
        requires
            old(self).can_read(2),
        ensures
            r as int == signed16(be_u16(old(self).bytes@, old(self).pc as int)),
            final(self).pc == old(self).pc + 2,
            final(self).bytes == old(self).bytes,
    {
        to_i16(self.u16())
    }

    /// Reads a big-endian signed 32-bit value and advances past it.
    pub fn i32(&mut self) -> (r: i32)
        requires
            old(self).can_read(4),
        ensures
            r as int == be_i32(old(self).bytes@, old(self).pc as int),
            final(self).pc == old(self).pc + 4,
            final(self).bytes == old(self).bytes,
    {
        to_i32(self.u32())
    }

    /// Moves the cursor forward to the next multiple of four; a cursor
    /// already on one stays.
    pub fn skip_padding(&mut self)
        requires
            old(self).pc <= u32::MAX - 3,
        ensures
            final(self).pc as int == align4(old(self).pc as int),
            final(self).pc % 4 == 0,
            old(self).pc <= final(self).pc < old(self).pc + 4,
            final(self).bytes == old(self).bytes,
    {
        loop
            invariant
                old(self).pc <= self.pc,
                self.pc <= u32::MAX - 3,
                align4(self.pc as int) == align4(old(self).pc as int),
                self.bytes == old(self).bytes,
            ensures
                self.pc % 4 == 0,
            decreases align4(self.pc as int) - self.pc,
        {
            if self.pc % 4 != 0 {
                self.pc += 1;
            } else {
                break;
            }
        }
    }

    /// Reads `n` big-endian signed 32-bit values and advances past them.
    pub fn read_i32s(&mut self, n: usize) -> (r: Vec<i32>)
        requires
            old(self).can_read(4 * n),
        ensures
            r@.len() == n,
            forall|k: int| 0 <= k < n ==> r@[k] as int == be_i32(old(self).bytes@, old(self).pc + 4 * k),
            final(self).pc == old(self).pc + 4 * n,
            final(self).bytes == old(self).bytes,
    {
        let mut r: Vec<i32> = Vec::with_capacity(n);
        let mut i: usize = 0;
        while i < n
            invariant
                i <= n,
                old(self).can_read(4 * n),
                self.bytes == old(self).bytes,
                self.pc == old(self).pc + 4 * i,
                r@.len() == i,
                forall|k: int| 0 <= k < i ==> r@[k] as int == be_i32(old(self).bytes@, old(self).pc + 4 * k),
            decreases n - i,
        {
            let v: i32 = self.i32();
            r.push(v);
            i += 1;
        }
        r
    }
}

/// A cursor over the bytes of a class file.
pub struct ClassFileParser {
    pub bin: Vec<u8>,
    pub off: usize,
}

impl ClassFileParser {
    /// Whether `n` more bytes lie before the end of the file.
    pub open spec fn can_read(&self, n: int) -> bool {
        self.off + n <= self.bin@.len()
    }

    /// A cursor at the start of `bin`.
    pub fn new(bin: Vec<u8>) -> (c: ClassFileParser)
        ensures
            c.bin == bin,
            c.off == 0,
    {
        ClassFileParser { bin, off: 0 }
    }

    /// Tests whether `n` more bytes lie before the end of the file.
    pub fn has(&self, n: usize) -> (r: bool)
        requires
            self.off <= self.bin@.len(),
        ensures
            r == self.can_read(n as int),
    {
        n <= self.bin.len() - self.off
    }

    /// Reads one byte and advances past it.
    pub fn u8(&mut self) -> (r: u8)
        requires
            old(self).can_read(1),
        ensures
            r == old(self).bin@[old(self).off as int],
            final(self).off == old(self).off + 1,
            final(self).bin == old(self).bin,
    {
        let n: usize = self.bin.len();
        let r: u8 = self.bin[self.off];
        self.off += 1;
        r
    }

    /// Reads a big-endian unsigned 16-bit value and advances past it.
    pub fn u16(&mut self) -> (r: u16)
        requires
            old(self).can_read(2),
        ensures
            r as int == be_u16(old(self).bin@, old(self).off as int),
            final(self).off == old(self).off + 2,
            final(self).bin == old(self).bin,
    {
        let n: usize = self.bin.len();
        let hi: u16 = self.bin[self.off] as u16;
        let lo: u16 = self.bin[self.off + 1] as u16;
        self.off += 2;
        hi * 0x100 + lo
    }

    /// Reads a big-endian unsigned 32-bit value and advances past it.
    pub fn u32(&mut self) -> (r: u32)
        requires
            old(self).can_read(4),
        ensures
            r as int == be_u32(old(self).bin@, old(self).off as int),
            final(self).off == old(self).off + 4,
            final(self).bin == old(self).bin,
    {
        let hi: u32 = self.u16() as u32;
        let lo: u32 = self.u16() as u32;
        hi * 0x1_0000 + lo
    }

    /// Reads a big-endian unsigned 64-bit value and advances past it.
    pub fn u64(&mut self) -> (r: u64)
        requires
            old(self).can_read(8),
        ensures
            r as int == be_u64(old(self).bin@, old(self).off as int),
            final(self).off == old(self).off + 8,
            final(self).bin == old(self).bin,
    {
        let hi: u64 = self.u32() as u64;
        let lo: u64 = self.u32() as u64;
        hi * 0x1_0000_0000 + lo
    }

    /// Copies the next `len` bytes out and advances past them.
    pub fn bytes(&mut self, len: usize) -> (r: Vec<u8>)
        requires
            old(self).can_read(len as int),
        ensures
            r@ == old(self).bin@.subrange(old(self).off as int, old(self).off + len),
            final(self).off == old(self).off + len,
            final(self).bin == old(self).bin,
    {
        let mut r: Vec<u8> = Vec::with_capacity(len);
        let n: usize = self.bin.len();
        let start: usize = self.off;
        let mut i: usize = 0;
        while i < len
            invariant
                i <= len,
                start + len <= self.bin@.len(),
                self.bin@.len() == n,
                self.bin == old(self).bin,
                self.off == start,
                start == old(self).off,
                r@ == self.bin@.subrange(start as int, start + i),
            decreases len - i,
        {
            r.push(self.bin[start + i]);
            i += 1;
            assert(r@ =~= self.bin@.subrange(start as int, start + i));
        }
        self.off = start + len;
        r
    }
}

} // verus!
