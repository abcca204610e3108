//! Decoding: an opcode, the `wide` prefix before it, and the operands
//! that follow it in the code.

use vstd::prelude::*;
use crate::error::VmError;
use crate::reader::{BytesReader, align4, be_i32, be_u16, signed16, signed8, to_i8};

verus! {

/// The prefix that widens the operands of the instruction behind it.
pub const OP_WIDE: u8 = 0xc4;

/// The operands of a `tableswitch`.
#[derive(Debug)]
pub struct TableSwitch {
    pub default_off: i32,
    pub low: i32,
    pub high: i32,
    /// One jump offset for each key from `low` to `high`.
    pub jumps: Vec<i32>,
}

/// The operands of a `lookupswitch`.
#[derive(Debug)]
pub struct LookupSwitch {
    pub default_off: i32,
    /// The number of pairs.
    pub n: i32,
    /// The pairs, each a key and then its jump offset.
    pub match_offs: Vec<i32>,
}

/// What follows an opcode.
#[derive(Clone, Copy, PartialEq, Eq, Structural, Debug)]
pub enum Format {
    /// Nothing.
    Plain,
    /// The index of a local variable: one byte, or two behind `wide`.
    Local,
    /// A signed byte.
    Byte,
    /// A signed 16-bit value.
    Short,
    /// An unsigned byte.
    Index8,
    /// An unsigned 16-bit value.
    Index16,
    /// The index of a local variable and a signed increment, a byte
    /// each, or 16 bits each behind `wide`.
    Increment,
    /// A 16-bit index and two more bytes, which do not count.
    Interface,
    /// A 16-bit index and an unsigned byte.
    Multi,
    /// Padding to a multiple of four, then default, low, high and the
    /// jump offsets.
    Table,
    /// Padding to a multiple of four, then default, the number of pairs
    /// and the pairs.
    Lookup,
}

/// The format of the operands of opcode `op`.
pub open spec fn spec_format(op: u8) -> Format {
    if (0x15 <= op <= 0x19) || (0x36 <= op <= 0x3a) {
        Format::Local
    } else if op == 0x10 {
        Format::Byte
    } else if op == 0x11 || (0x99 <= op <= 0xa7) || op == 0xc6 || op == 0xc7 {
        Format::Short
    } else if op == 0x12 || op == 0xbc {
        Format::Index8
    } else if op == 0x13 || op == 0x14 || (0xb2 <= op <= 0xb8) || op == 0xbb || op == 0xbd || op
        == 0xc0 || op == 0xc1 {
        Format::Index16
    } else if op == 0x84 {
        Format::Increment
    } else if op == 0xb9 {
        Format::Interface
    } else if op == 0xc5 {
        Format::Multi
    } else if op == 0xaa {
        Format::Table
    } else if op == 0xab {
        Format::Lookup
    } else {
        Format::Plain
    }
}

/// The format of the operands of opcode `op`.
pub fn format(op: u8) -> (r: Format)
    ensures
        r == spec_format(op),
{
    if (0x15 <= op && op <= 0x19) || (0x36 <= op && op <= 0x3a) {
        Format::Local
    } else if op == 0x10 {
        Format::Byte
    } else if op == 0x11 || (0x99 <= op && op <= 0xa7) || op == 0xc6 || op == 0xc7 {
        Format::Short
    } else if op == 0x12 || op == 0xbc {
        Format::Index8
    } else if op == 0x13 || op == 0x14 || (0xb2 <= op && op <= 0xb8) || op == 0xbb || op == 0xbd
        || op == 0xc0 || op == 0xc1 {
        Format::Index16
    } else if op == 0x84 {
        Format::Increment
    } else if op == 0xb9 {
        Format::Interface
    } else if op == 0xc5 {
        Format::Multi
    } else if op == 0xaa {
        Format::Table
    } else if op == 0xab {
        Format::Lookup
    } else {
        Format::Plain
    }
}

/// The table of a switch instruction; none for any other instruction.
#[derive(Debug)]
pub enum Switch {
    Absent,
    Table(TableSwitch),
    Lookup(LookupSwitch),
}

/// The mathematical value of a [`Switch`].
pub ghost enum SwitchView {
    Absent,
    Table { default_off: i32, low: i32, high: i32, jumps: Seq<i32> },
    Lookup { default_off: i32, n: i32, pairs: Seq<i32> },
}

impl View for Switch {
    type V = SwitchView;

    open spec fn view(&self) -> SwitchView {
        match self {
            Switch::Absent => SwitchView::Absent,
            Switch::Table(t) => SwitchView::Table {
                default_off: t.default_off,
                low: t.low,
                high: t.high,
                jumps: t.jumps@,
            },
            Switch::Lookup(t) => SwitchView::Lookup {
                default_off: t.default_off,
                n: t.n,
                pairs: t.match_offs@,
            },
        }
    }
}

/// A decoded instruction.
#[derive(Debug)]
pub struct Ins {
    pub op: u8,
    /// Whether the `wide` prefix stood before the opcode.
    pub wide: bool,
    /// The unsigned operand: an index.
    pub a: u32,
    /// The signed operand: an immediate value, an increment, a branch
    /// offset or a number of dimensions.
    pub b: i32,
    /// The table of a switch.
    pub sw: Switch,
    /// The offset of the instruction.
    pub pc: u32,
    /// The offset behind the instruction.
    pub next: u32,
}

/// The mathematical value of an [`Ins`].
pub ghost struct InsView {
    pub op: u8,
    pub wide: bool,
    pub a: u32,
    pub b: i32,
    pub sw: SwitchView,
    pub pc: u32,
    pub next: u32,
}

impl View for Ins {
    type V = InsView;

    open spec fn view(&self) -> InsView {
        InsView {
            op: self.op,
            wide: self.wide,
            a: self.a,
            b: self.b,
            sw: self.sw@,
            pc: self.pc,
            next: self.next,
        }
    }
}

/// Whether `n` bytes can be read at `at`: they lie in the code, and the
/// offset behind them is one a program counter can hold.
pub open spec fn readable(code: Seq<u8>, at: int, n: int) -> bool {
    0 <= at && at + n <= code.len() && at + n <= u32::MAX
}

/// `n` signed 32-bit values from `at` on.
pub open spec fn i32s_at(code: Seq<u8>, at: int, n: int) -> Seq<i32> {
    Seq::new(n as nat, |k: int| be_i32(code, at + 4 * k) as i32)
}

/// The two operands and the offset behind them for an opcode whose
/// operands, in the format `f`, start at `p`. A switch is not read
/// here.
pub open spec fn spec_simple(code: Seq<u8>, p: int, f: Format, wide: bool) -> Result<
    (u32, i32, int),
    VmError,
> {
    let n: int = match f {
        Format::Plain => 0,
        Format::Local => if wide {
            2
        } else {
            1
        },
        Format::Byte => 1,
        Format::Short => 2,
        Format::Index8 => 1,
        Format::Index16 => 2,
        Format::Increment => if wide {
            4
        } else {
            2
        },
        Format::Interface => 4,
        Format::Multi => 3,
        _ => 0,
    };
    if !readable(code, p, n) {
        Err(VmError::CodeRange)
    } else {
        Ok(
            match f {
                Format::Local => if wide {
                    (be_u16(code, p) as u32, 0i32, p + n)
                } else {
                    (code[p] as u32, 0i32, p + n)
                },
                Format::Byte => (0u32, signed8(code[p] as int) as i32, p + n),
                Format::Short => (0u32, signed16(be_u16(code, p)) as i32, p + n),
                Format::Index8 => (code[p] as u32, 0i32, p + n),
                Format::Index16 => (be_u16(code, p) as u32, 0i32, p + n),
                Format::Increment => if wide {
                    (be_u16(code, p) as u32, signed16(be_u16(code, p + 2)) as i32, p + n)
                } else {
                    (code[p] as u32, signed8(code[p + 1] as int) as i32, p + n)
                },
                Format::Interface => (be_u16(code, p) as u32, 0i32, p + n),
                Format::Multi => (be_u16(code, p) as u32, code[p + 2] as i32, p + n),
                _ => (0u32, 0i32, p + n),
            },
        )
    }
}

/// The table of a `tableswitch` whose operands start at `p`, and the
/// offset behind it: behind the padding stand default, low and high,
/// then one offset for each key from low to high.
pub open spec fn spec_table(code: Seq<u8>, p: int) -> Result<(SwitchView, int), VmError> {
    let q = align4(p);
    if !readable(code, q, 12) {
        Err(VmError::CodeRange)
    } else {
        let n = be_i32(code, q + 8) - be_i32(code, q + 4) + 1;
        if n <= 0 {
            Err(VmError::ClassFormat)
        } else if !readable(code, q + 12, 4 * n) {
            Err(VmError::CodeRange)
        } else {
            Ok(
                (
                    SwitchView::Table {
                        default_off: be_i32(code, q) as i32,
                        low: be_i32(code, q + 4) as i32,
                        high: be_i32(code, q + 8) as i32,
                        jumps: i32s_at(code, q + 12, n),
                    },
                    q + 12 + 4 * n,
                ),
            )
        }
    }
}

/// The table of a `lookupswitch` whose operands start at `p`, and the
/// offset behind it: behind the padding stand default and the number
/// of pairs, then the pairs.
pub open spec fn spec_lookup(code: Seq<u8>, p: int) -> Result<(SwitchView, int), VmError> {
    let q = align4(p);
    if !readable(code, q, 8) {
        Err(VmError::CodeRange)
    } else {
        let n = be_i32(code, q + 4);
        if n < 0 {
            Err(VmError::ClassFormat)
        } else if !readable(code, q + 8, 8 * n) {
            Err(VmError::CodeRange)
        } else {
            Ok(
                (
                    SwitchView::Lookup {
                        default_off: be_i32(code, q) as i32,
                        n: n as i32,
                        pairs: i32s_at(code, q + 8, 2 * n),
                    },
                    q + 8 + 8 * n,
                ),
            )
        }
    }
}

/// The instruction whose opcode stands at `at`, `pc` being where the
/// instruction starts and `wide` whether the prefix stood before it.
pub open spec fn spec_operands(code: Seq<u8>, pc: int, at: int, wide: bool) -> Result<
    InsView,
    VmError,
> {
    if !readable(code, at, 1) {
        Err(VmError::CodeRange)
    } else {
        let op = code[at];
        let f = spec_format(op);
        if f == Format::Table {
            match spec_table(code, at + 1) {
                Ok((sw, next)) => Ok(
                    InsView { op, wide, a: 0, b: 0, sw, pc: pc as u32, next: next as u32 },
                ),
                Err(e) => Err(e),
            }
        } else if f == Format::Lookup {
            match spec_lookup(code, at + 1) {
                Ok((sw, next)) => Ok(
                    InsView { op, wide, a: 0, b: 0, sw, pc: pc as u32, next: next as u32 },
                ),
                Err(e) => Err(e),
            }
        } else {
            match spec_simple(code, at + 1, f, wide) {
                Ok((a, b, next)) => Ok(
                    InsView {
                        op,
                        wide,
                        a,
                        b,
                        sw: SwitchView::Absent,
                        pc: pc as u32,
                        next: next as u32,
                    },
                ),
                Err(e) => Err(e),
            }
        }
    }
}

/// The instruction at `pc`: a `wide` prefix, where there is one, and
/// then the instruction behind it.
pub open spec fn spec_decode(code: Seq<u8>, pc: int) -> Result<InsView, VmError> {
    if !readable(code, pc, 1) {
        Err(VmError::CodeRange)
    } else if code[pc] == OP_WIDE {
        spec_operands(code, pc, pc + 1, true)
    } else {
        spec_operands(code, pc, pc, false)
    }
}

impl TableSwitch {
    /// Reads the operands of a `tableswitch` from behind its opcode.
    pub fn read_from(rd: &mut BytesReader) -> (r: Result<TableSwitch, VmError>)
        ensures
            final(rd).bytes == old(rd).bytes,
            match spec_table(old(rd).bytes@, old(rd).pc as int) {
                Ok((t, next)) => r is Ok && Switch::Table(r.unwrap())@ == t && final(rd).pc
                    == next,
                Err(e) => r == Err::<TableSwitch, VmError>(e),
            },
    {
        if rd.pc > u32::MAX - 3 {
            return Err(VmError::CodeRange);
        }
        rd.skip_padding();
        if !rd.has(12) {
            return Err(VmError::CodeRange);
        }
        let default_off: i32 = rd.i32();
        let low: i32 = rd.i32();
        let high: i32 = rd.i32();
        let c: i64 = high as i64 - low as i64 + 1;
        if c <= 0 {
            return Err(VmError::ClassFormat);
        }
        if c > 0x3fff_ffff || !rd.has((4 * c) as u32) {
            return Err(VmError::CodeRange);
        }
        let ghost q = align4(old(rd).pc as int);
        let jumps: Vec<i32> = rd.read_i32s(c as usize);
        proof {
            assert(jumps@ =~= i32s_at(old(rd).bytes@, q + 12, c as int));
        }
        Ok(TableSwitch { default_off, low, high, jumps })
    }

    /// The jump offset for the key `k`: the offset listed for it where
    /// it lies from `low` to `high`, the default for any other.
    pub open spec fn spec_target(&self, k: i32) -> i32 {
        if self.low <= k <= self.high && k - self.low < self.jumps@.len() {
            self.jumps@[k - self.low]
        } else {
            self.default_off
        }
    }

    /// The jump offset for the key `k`.
    pub fn target(&self, k: i32) -> (r: i32)
        ensures
            r == self.spec_target(k),
    {
        if k >= self.low && k <= self.high {
            let i: i64 = k as i64 - self.low as i64;
            let iu: usize = i as usize;
            if iu < self.jumps.len() {
                return self.jumps[iu];
            }
        }
        self.default_off
    }
}

/// The jump offset that the first pair with the key `k` gives, looking
/// from pair `from` on; the default where there is none.
pub open spec fn lookup_from(pairs: Seq<i32>, default_off: i32, k: i32, from: int) -> i32
    decreases pairs.len() - 2 * from,
{
    if from < 0 || 2 * from + 1 >= pairs.len() {
        default_off
    } else if pairs[2 * from] == k {
        pairs[2 * from + 1]
    } else {
        lookup_from(pairs, default_off, k, from + 1)
    }
}

impl LookupSwitch {
    /// Reads the operands of a `lookupswitch` from behind its opcode.
    pub fn read_from(rd: &mut BytesReader) -> (r: Result<LookupSwitch, VmError>)
        ensures
            final(rd).bytes == old(rd).bytes,
            match spec_lookup(old(rd).bytes@, old(rd).pc as int) {
                Ok((t, next)) => r is Ok && Switch::Lookup(r.unwrap())@ == t && final(rd).pc
                    == next,
                Err(e) => r == Err::<LookupSwitch, VmError>(e),
            },
    {
        if rd.pc > u32::MAX - 3 {
            return Err(VmError::CodeRange);
        }
        rd.skip_padding();
        if !rd.has(8) {
            return Err(VmError::CodeRange);
        }
        let default_off: i32 = rd.i32();
        let n: i32 = rd.i32();
        if n < 0 {
            return Err(VmError::ClassFormat);
        }
        if n > 0x1fff_ffff || !rd.has((n as u32) * 8) {
            return Err(VmError::CodeRange);
        }
        let ghost q = align4(old(rd).pc as int);
        let match_offs: Vec<i32> = rd.read_i32s((2 * n) as usize);
        proof {
            assert(match_offs@ =~= i32s_at(old(rd).bytes@, q + 8, 2 * n));
        }
        Ok(LookupSwitch { default_off, n, match_offs })
    }

    /// The jump offset for the key `k`: that of the first pair with this
    /// key, the default where no pair has it.
    pub open spec fn spec_target(&self, k: i32) -> i32 {
        lookup_from(self.match_offs@, self.default_off, k, 0)
    }

    /// The jump offset for the key `k`.
    pub fn target(&self, k: i32) -> (r: i32)
        ensures
            r == self.spec_target(k),
    {
        let mut i: usize = 0;
        while i < self.match_offs.len() / 2
            invariant
                self.spec_target(k) == lookup_from(
                    self.match_offs@,
                    self.default_off,
                    k,
                    i as int,
                ),
            decreases self.match_offs@.len() - 2 * i,
        {
            if self.match_offs[2 * i] == k {
                return self.match_offs[2 * i + 1];
            }
            i += 1;
        }
        self.default_off
    }
}

/// The jump offset that a switch gives for the key `k`: for a table the
/// offset listed for the key where it lies from low to high, for pairs
/// the offset of the first pair with the key, and the default else.
pub open spec fn sw_target(sw: SwitchView, k: i32) -> i32 {
    match sw {
        SwitchView::Table { default_off, low, high, jumps } => if low <= k <= high && k - low
            < jumps.len() {
            jumps[k - low]
        } else {
            default_off
        },
        SwitchView::Lookup { default_off, n, pairs } => lookup_from(pairs, default_off, k, 0),
        SwitchView::Absent => 0,
    }
}

impl Switch {
    /// The jump offset for the key `k`.
    pub fn target(&self, k: i32) -> (r: i32)
        ensures
            r == sw_target(self@, k),
    {
        match self {
            Switch::Table(t) => t.target(k),
            Switch::Lookup(t) => t.target(k),
            Switch::Absent => 0,
        }
    }
}

/// Reads the operands of an opcode of format `f`, which is no switch.
pub fn simple_operands(rd: &mut BytesReader, f: Format, wide: bool) -> (r: Result<
    (u32, i32),
    VmError,
>)
    requires
        f != Format::Table,
        f != Format::Lookup,
    ensures
        final(rd).bytes == old(rd).bytes,
        match spec_simple(old(rd).bytes@, old(rd).pc as int, f, wide) {
            Ok((a, b, next)) => r == Ok::<(u32, i32), VmError>((a, b)) && final(rd).pc == next,
            Err(e) => r == Err::<(u32, i32), VmError>(e),
        },
{
    let mut a: u32 = 0;
    let mut b: i32 = 0;
    match f {
        Format::Local => {
            if wide {
                if !rd.has(2) {
                    return Err(VmError::CodeRange);
                }
                a = rd.u16() as u32;
            } else {
                if !rd.has(1) {
                    return Err(VmError::CodeRange);
                }
                a = rd.u8() as u32;
            }
        },
        Format::Byte => {
            if !rd.has(1) {
                return Err(VmError::CodeRange);
            }
            b = to_i8(rd.u8()) as i32;
        },
        Format::Short => {
            if !rd.has(2) {
                return Err(VmError::CodeRange);
            }
            b = rd.i16() as i32;
        },
        Format::Index8 => {
            if !rd.has(1) {
                return Err(VmError::CodeRange);
            }
            a = rd.u8() as u32;
        },
        Format::Index16 => {
            if !rd.has(2) {
                return Err(VmError::CodeRange);
            }
            a = rd.u16() as u32;
        },
        Format::Increment => {
            if wide {
                if !rd.has(4) {
                    return Err(VmError::CodeRange);
                }
                a = rd.u16() as u32;
                b = rd.i16() as i32;
            } else {
                if !rd.has(2) {
                    return Err(VmError::CodeRange);
                }
                a = rd.u8() as u32;
                b = to_i8(rd.u8()) as i32;
            }
        },
        Format::Interface => {
            if !rd.has(4) {
                return Err(VmError::CodeRange);
            }
            a = rd.u16() as u32;
            let _ = rd.u16();
        },
        Format::Multi => {
            if !rd.has(3) {
                return Err(VmError::CodeRange);
            }
            a = rd.u16() as u32;
            b = rd.u8() as i32;
        },
        _ => {
            if !rd.has(0) {
                return Err(VmError::CodeRange);
            }
        },
    }
    Ok((a, b))
}

/// Decodes the instruction at the reader's position and leaves the
/// reader behind it.
pub fn decode(rd: &mut BytesReader) -> (r: Result<Ins, VmError>)
    ensures
        final(rd).bytes == old(rd).bytes,
        match spec_decode(old(rd).bytes@, old(rd).pc as int) {
            Ok(v) => r is Ok && r.unwrap()@ == v && final(rd).pc == v.next,
            Err(e) => r == Err::<Ins, VmError>(e),
        },
{
    let pc: u32 = rd.pc;
    if !rd.has(1) {
        return Err(VmError::CodeRange);
    }
    let first: u8 = rd.u8();
    let mut wide: bool = false;
    let mut op: u8 = first;
    if first == OP_WIDE {
        if !rd.has(1) {
            return Err(VmError::CodeRange);
        }
        op = rd.u8();
        wide = true;
    }
    let f: Format = format(op);
    match f {
        Format::Table => {
            match TableSwitch::read_from(rd) {
                Ok(t) => Ok(Ins { op, wide, a: 0, b: 0, sw: Switch::Table(t), pc, next: rd.pc }),
                Err(e) => Err(e),
            }
        },
        Format::Lookup => {
            match LookupSwitch::read_from(rd) {
                Ok(t) => Ok(Ins { op, wide, a: 0, b: 0, sw: Switch::Lookup(t), pc, next: rd.pc }),
                Err(e) => Err(e),
            }
        },
        _ => {
            match simple_operands(rd, f, wide) {
                Ok((a, b)) => Ok(Ins { op, wide, a, b, sw: Switch::Absent, pc, next: rd.pc }),
                Err(e) => Err(e),
            }
        },
    }
}

} // verus!
