//! The decoder of the class-file format: magic, version, constant pool,
//! access flags, class indices, interfaces, fields, methods, attributes.

use vstd::prelude::*;
use vstd::string::*;
use vstd::utf8::{valid_utf8, decode_utf8};
use crate::attr::{
    AttrInfo,
    AttrInfoView,
    Code,
    Exception,
    LineNumber,
    LocalVariable,
    attr_views,
    lemma_code_attr_view,
    spec_attr,
    spec_attr_list,
    spec_attrs,
    spec_code,
    spec_exception_names,
    spec_exceptions,
    spec_line_numbers,
    spec_local_var,
    spec_local_vars,
    spec_u16s,
};
use crate::cp::{
    ConstantInfo, ConstantInfoView, ConstantPool, is_wide_entry, pool_class, pool_utf8, wide_rule,
};
use crate::error::VmError;
use crate::reader::{ClassFileParser, be_u16, be_u32, be_u64};
use crate::text::str_eq;

verus! {

/// The magic number that opens every class file.
pub const MAGIC: u32 = 0xCAFEBABE;

/// What decoding modified UTF-8 makes of `bytes`: the bytes of the text
/// in standard form, or nothing where the input breaks off inside a
/// character.
pub uninterp spec fn mutf8_decoded(bytes: Seq<u8>) -> Option<Seq<u8>>;

/// Decodes modified UTF-8.
///
/// Wraps `mutf8::mutf8_to_utf8`, a function of its input alone: an `Ok`
/// holds the decoded bytes, an `Err` means the input ended too early.
#[verifier::external_body]
pub(crate) fn mutf8_to_utf8(bytes: &[u8]) -> (r: Option<Vec<u8>>)
    ensures
        r is Some == mutf8_decoded(bytes@) is Some,
        r is Some ==> r.unwrap()@ == mutf8_decoded(bytes@).unwrap(),
{
    match mutf8::mutf8_to_utf8(bytes) {
        Ok(c) => Some(c.into_owned()),
        Err(_) => None,
    }
}

/// Turns bytes into a string.
///
/// Wraps `String::from_utf8`: it succeeds exactly on well-formed UTF-8,
/// and the string then holds the characters that the bytes encode.
#[verifier::external_body]
pub(crate) fn string_from_utf8(v: Vec<u8>) -> (r: Option<String>)
    ensures
        r is Some == valid_utf8(v@),
        r is Some ==> r.unwrap()@ == decode_utf8(v@),
{
    String::from_utf8(v).ok()
}

/// The pool entry that a decoded text makes: a UTF-8 entry where the
/// decoding succeeded and gave well-formed UTF-8.
pub open spec fn spec_utf8_entry(decoded: Option<Seq<u8>>) -> Option<ConstantInfoView> {
    match decoded {
        Some(u) => if valid_utf8(u) {
            Some(ConstantInfoView::Utf8(decode_utf8(u)))
        } else {
            None
        },
        None => None,
    }
}

/// Makes a UTF-8 pool entry of the outcome of decoding its bytes.
pub fn utf8_entry(decoded: Option<Vec<u8>>) -> (r: Result<ConstantInfo, VmError>)
    ensures
        match spec_utf8_entry(
            match decoded {
                Some(v) => Some(v@),
                None => None,
            },
        ) {
            None => r == Err::<ConstantInfo, VmError>(VmError::ClassFormat),
            Some(c) => r is Ok && r.unwrap()@ == c,
        },
{
    match decoded {
        None => Err(VmError::ClassFormat),
        Some(v) => match string_from_utf8(v) {
            Some(s) => Ok(ConstantInfo::Utf8(s)),
            None => Err(VmError::ClassFormat),
        },
    }
}

/// The pool entry that starts at `off` with its tag byte, and the offset
/// behind it.
pub open spec fn spec_constant(s: Seq<u8>, off: int) -> Option<(ConstantInfoView, int)> {
    if off < 0 || off + 1 > s.len() {
        None
    } else {
        let tag = s[off];
        let a = off + 1;
        if tag == 3 {
            if a + 4 > s.len() {
                None
            } else {
                Some((ConstantInfoView::Integer(be_u32(s, a) as u32), a + 4))
            }
        } else if tag == 4 {
            if a + 4 > s.len() {
                None
            } else {
                Some((ConstantInfoView::Float(be_u32(s, a) as u32), a + 4))
            }
        } else if tag == 5 {
            if a + 8 > s.len() {
                None
            } else {
                Some((ConstantInfoView::Long(be_u64(s, a) as u64), a + 8))
            }
        } else if tag == 6 {
            if a + 8 > s.len() {
                None
            } else {
                Some((ConstantInfoView::Double(be_u64(s, a) as u64), a + 8))
            }
        } else if tag == 1 {
            if a + 2 > s.len() || a + 2 + be_u16(s, a) > s.len() {
                None
            } else {
                let end = a + 2 + be_u16(s, a);
                match spec_utf8_entry(mutf8_decoded(s.subrange(a + 2, end))) {
                    None => None,
                    Some(c) => Some((c, end)),
                }
            }
        } else if tag == 8 {
            if a + 2 > s.len() {
                None
            } else {
                Some((ConstantInfoView::String { utf8_i: be_u16(s, a) as u16 }, a + 2))
            }
        } else if tag == 7 {
            if a + 2 > s.len() {
                None
            } else {
                Some((ConstantInfoView::Class { name_i: be_u16(s, a) as u16 }, a + 2))
            }
        } else if tag == 16 {
            if a + 2 > s.len() {
                None
            } else {
                Some((ConstantInfoView::MethodType { desc_i: be_u16(s, a) as u16 }, a + 2))
            }
        } else if tag == 15 {
            if a + 3 > s.len() {
                None
            } else {
                Some(
                    (
                        ConstantInfoView::MethodHandle {
                            ref_kind: s[a],
                            ref_i: be_u16(s, a + 1) as u16,
                        },
                        a + 3,
                    ),
                )
            }
        } else if tag == 12 || tag == 9 || tag == 10 || tag == 11 || tag == 18 {
            if a + 4 > s.len() {
                None
            } else {
                let x = be_u16(s, a) as u16;
                let y = be_u16(s, a + 2) as u16;
                Some(
                    (
                        if tag == 12 {
                            ConstantInfoView::NameAndType { name_i: x, desc_i: y }
                        } else if tag == 9 {
                            ConstantInfoView::FieldRef { class_i: x, name_type_i: y }
                        } else if tag == 10 {
                            ConstantInfoView::MethodRef { class_i: x, name_type_i: y }
                        } else if tag == 11 {
                            ConstantInfoView::IFaceMethodRef { class_i: x, name_type_i: y }
                        } else {
                            ConstantInfoView::InvokeDynamic { boot_i: x, name_type_i: y }
                        },
                        a + 4,
                    ),
                )
            }
        } else {
            None
        }
    }
}

/// The pool slots from index `i` up to `n`, read from `off` on. An entry
/// of 64 bits fills slot `i` and leaves slot `i + 1` blank.
pub open spec fn spec_pool_from(s: Seq<u8>, off: int, i: nat, n: nat) -> Option<
    (Seq<ConstantInfoView>, int),
>
    decreases n - i,
{
    if i >= n {
        Some((Seq::empty(), off))
    } else {
        match spec_constant(s, off) {
            None => None,
            Some((c, e)) => {
                let two = is_wide_entry(c) && i + 1 < n;
                match spec_pool_from(
                    s,
                    e,
                    if two {
                        i + 2
                    } else {
                        i + 1
                    },
                    n,
                ) {
                    None => None,
                    Some((rest, end)) => Some(
                        (
                            (if two {
                                seq![c, ConstantInfoView::Blank]
                            } else {
                                seq![c]
                            }) + rest,
                            end,
                        ),
                    ),
                }
            },
        }
    }
}

/// The pool that starts at `off` with its 16-bit slot count `n`: slot 0
/// blank, then the slots 1 to `n - 1`.
pub open spec fn spec_pool(s: Seq<u8>, off: int) -> Option<(Seq<ConstantInfoView>, int)> {
    if off < 0 || off + 2 > s.len() {
        None
    } else {
        let n = be_u16(s, off) as nat;
        if n == 0 {
            Some((Seq::empty(), off + 2))
        } else {
            match spec_pool_from(s, off + 2, 1, n) {
                None => None,
                Some((rest, end)) => Some((seq![ConstantInfoView::Blank] + rest, end)),
            }
        }
    }
}

/// The slots that `spec_pool_from` yields number `n - i`, and behind
/// every 64-bit entry among them that is not the last lies a blank one.
pub proof fn lemma_pool_from(s: Seq<u8>, off: int, i: nat, n: nat)
    requires
        i <= n,
        spec_pool_from(s, off, i, n) is Some,
    ensures
        spec_pool_from(s, off, i, n).unwrap().0.len() == n - i,
        wide_rule(spec_pool_from(s, off, i, n).unwrap().0),
    decreases n - i,
{
    if i < n {
        let (c, e) = spec_constant(s, off).unwrap();
        let two = is_wide_entry(c) && i + 1 < n;
        let j: nat = if two {
            i + 2
        } else {
            i + 1
        };
        lemma_pool_from(s, e, j, n);
        let rest = spec_pool_from(s, e, j, n).unwrap().0;
        let head = if two {
            seq![c, ConstantInfoView::Blank]
        } else {
            seq![c]
        };
        let all = head + rest;
        assert(all == spec_pool_from(s, off, i, n).unwrap().0);
        assert forall|k: int| 0 <= k && k + 1 < all.len() && is_wide_entry(
            #[trigger] all[k],
        ) implies all[k + 1] is Blank by {
            if k < head.len() {
                if two {
                    if k == 0 {
                        assert(all[1] == head[1]);
                    }
                } else {
                    assert(all[0] == c);
                }
            } else {
                assert(all[k] == rest[k - head.len()]);
                assert(all[k + 1] == rest[k + 1 - head.len()]);
            }
        }
    }
}

impl ConstantInfo {
    /// Reads one pool entry: its tag byte and what the tag asks for.
    pub fn read_from(p: &mut ClassFileParser) -> (r: Result<ConstantInfo, VmError>)
        requires
            old(p).off <= old(p).bin@.len(),
        ensures
            final(p).bin == old(p).bin,
            final(p).off <= final(p).bin@.len(),
            match spec_constant(old(p).bin@, old(p).off as int) {
                None => r == Err::<ConstantInfo, VmError>(VmError::ClassFormat),
                Some((c, e)) => r is Ok && r.unwrap()@ == c && final(p).off == e,
            },
    {
        if !p.has(1) {
            return Err(VmError::ClassFormat);
        }
        let tag: u8 = p.u8();
        if tag == 3 || tag == 4 {
            if !p.has(4) {
                return Err(VmError::ClassFormat);
            }
            let v: u32 = p.u32();
            if tag == 3 {
                Ok(ConstantInfo::Integer(v))
            } else {
                Ok(ConstantInfo::Float(v))
            }
        } else if tag == 5 || tag == 6 {
            if !p.has(8) {
                return Err(VmError::ClassFormat);
            }
            let v: u64 = p.u64();
            if tag == 5 {
                Ok(ConstantInfo::Long(v))
            } else {
                Ok(ConstantInfo::Double(v))
            }
        } else if tag == 1 {
            if !p.has(2) {
                return Err(VmError::ClassFormat);
            }
            let str_len: usize = p.u16() as usize;
            if !p.has(str_len) {
                return Err(VmError::ClassFormat);
            }
            let bytes: Vec<u8> = p.bytes(str_len);
            utf8_entry(mutf8_to_utf8(bytes.as_slice()))
        } else if tag == 8 || tag == 7 || tag == 16 {
            if !p.has(2) {
                return Err(VmError::ClassFormat);
            }
            let x: u16 = p.u16();
            if tag == 8 {
                Ok(ConstantInfo::String { utf8_i: x })
            } else if tag == 7 {
                Ok(ConstantInfo::Class { name_i: x })
            } else {
                Ok(ConstantInfo::MethodType { desc_i: x })
            }
        } else if tag == 15 {
            if !p.has(3) {
                return Err(VmError::ClassFormat);
            }
            let k: u8 = p.u8();
            let x: u16 = p.u16();
            Ok(ConstantInfo::MethodHandle { ref_kind: k, ref_i: x })
        } else if tag == 12 || tag == 9 || tag == 10 || tag == 11 || tag == 18 {
            if !p.has(4) {
                return Err(VmError::ClassFormat);
            }
            let x: u16 = p.u16();
            let y: u16 = p.u16();
            if tag == 12 {
                Ok(ConstantInfo::NameAndType { name_i: x, desc_i: y })
            } else if tag == 9 {
                Ok(ConstantInfo::FieldRef { class_i: x, name_type_i: y })
            } else if tag == 10 {
                Ok(ConstantInfo::MethodRef { class_i: x, name_type_i: y })
            } else if tag == 11 {
                Ok(ConstantInfo::IFaceMethodRef { class_i: x, name_type_i: y })
            } else {
                Ok(ConstantInfo::InvokeDynamic { boot_i: x, name_type_i: y })
            }
        } else {
            Err(VmError::ClassFormat)
        }
    }
}

impl ConstantPool {
    /// Reads a pool: its slot count, then its entries. In the pool read,
    /// a blank slot lies behind every 64-bit entry.
    pub fn read_from(p: &mut ClassFileParser) -> (r: Result<ConstantPool, VmError>)
        requires
            old(p).off <= old(p).bin@.len(),
        ensures
            final(p).bin == old(p).bin,
            final(p).off <= final(p).bin@.len(),
            match spec_pool(old(p).bin@, old(p).off as int) {
                None => r == Err::<ConstantPool, VmError>(VmError::ClassFormat),
                Some((c, e)) => r is Ok && r.unwrap()@ == c && final(p).off == e,
            },
            r is Ok ==> wide_rule(r.unwrap()@),
            r is Ok ==> r.unwrap()@.len() == be_u16(old(p).bin@, old(p).off as int),
    {
        if !p.has(2) {
            return Err(VmError::ClassFormat);
        }
        let ghost s = p.bin@;
        let ghost off0 = p.off as int;
        let n: usize = p.u16() as usize;
        let mut infos: Vec<ConstantInfo> = Vec::with_capacity(n);
        if n == 0 {
            let r = ConstantPool { infos };
            proof {
                assert(r@ =~= Seq::<ConstantInfoView>::empty());
            }
            return Ok(r);
        }
        infos.push(ConstantInfo::Blank);
        let mut i: usize = 1;
        let ghost start = p.off as int;
        proof {
            let pv = Seq::new(infos@.len(), |k: int| infos@[k]@);
            assert(pv =~= seq![ConstantInfoView::Blank]);
        }
        while i < n
            invariant
                1 <= i <= n,
                n == be_u16(s, off0),
                off0 + 2 <= s.len(),
                p.bin@ == s,
                p.bin == old(p).bin,
                off0 == old(p).off,
                p.off <= s.len(),
                infos@.len() == i,
                infos@[0]@ is Blank,
                spec_pool_from(s, off0 + 2, 1, n as nat) == (match spec_pool_from(
                    s,
                    p.off as int,
                    i as nat,
                    n as nat,
                ) {
                    None => None::<(Seq<ConstantInfoView>, int)>,
                    Some((rest, end)) => Some(
                        (Seq::new(infos@.len(), |k: int| infos@[k]@).subrange(1, i as int) + rest, end),
                    ),
                }),
            decreases n - i,
        {
            let ghost cur = p.off as int;
            let ghost pv = Seq::new(infos@.len(), |k: int| infos@[k]@);
            let info = match ConstantInfo::read_from(p) {
                Ok(c) => c,
                Err(e) => {
                    return Err(VmError::ClassFormat);
                },
            };
            let wide: bool = match &info {
                ConstantInfo::Long(_) => true,
                ConstantInfo::Double(_) => true,
                _ => false,
            };
            let ghost c = info@;
            infos.push(info);
            let two: bool = wide && i + 1 < n;
            if two {
                infos.push(ConstantInfo::Blank);
                i += 2;
            } else {
                i += 1;
            }
            proof {
                let pv2 = Seq::new(infos@.len(), |k: int| infos@[k]@);
                let head = if two {
                    seq![c, ConstantInfoView::Blank]
                } else {
                    seq![c]
                };
                assert(pv2.subrange(1, i as int) =~= pv.subrange(1, pv.len() as int) + head);
                match spec_pool_from(s, p.off as int, i as nat, n as nat) {
                    None => {},
                    Some((rest, end)) => {
                        assert(pv.subrange(1, pv.len() as int) + (head + rest) =~= pv2.subrange(
                            1,
                            i as int,
                        ) + rest);
                    },
                }
            }
        }
        let r = ConstantPool { infos };
        proof {
            let pv = Seq::new(infos@.len(), |k: int| infos@[k]@);
            assert(spec_pool_from(s, p.off as int, n as nat, n as nat) == Some(
                (Seq::<ConstantInfoView>::empty(), p.off as int),
            ));
            assert(pv.subrange(1, n as int) + Seq::<ConstantInfoView>::empty() =~= pv.subrange(
                1,
                n as int,
            ));
            assert(seq![ConstantInfoView::Blank] + pv.subrange(1, n as int) =~= pv);
            assert(r@ =~= pv);
            lemma_pool_from(s, off0 + 2, 1, n as nat);
            let rest = spec_pool_from(s, off0 + 2, 1, n as nat).unwrap().0;
            assert forall|k: int| 0 <= k && k + 1 < r@.len() && is_wide_entry(
                #[trigger] r@[k],
            ) implies r@[k + 1] is Blank by {
                if k >= 1 {
                    assert(r@[k] == rest[k - 1]);
                    assert(r@[k + 1] == rest[k]);
                }
            }
        }
        Ok(r)
    }
}

/// Reads a list of 16-bit values behind its count.
pub fn read_u16s(p: &mut ClassFileParser) -> (r: Result<Vec<u16>, VmError>)
    requires
        old(p).off <= old(p).bin@.len(),
    ensures
        final(p).bin == old(p).bin,
        final(p).off <= final(p).bin@.len(),
        match spec_u16s(old(p).bin@, old(p).off as int) {
            None => r == Err::<Vec<u16>, VmError>(VmError::ClassFormat),
            Some((v, e)) => r is Ok && r.unwrap()@ == v && final(p).off == e,
        },
{
    if !p.has(2) {
        return Err(VmError::ClassFormat);
    }
    let ghost s = p.bin@;
    let ghost off = p.off as int;
    let n: usize = p.u16() as usize;
    if n > (p.bin.len() - p.off) / 2 {
        return Err(VmError::ClassFormat);
    }
    let mut v: Vec<u16> = Vec::with_capacity(n);
    let mut i: usize = 0;
    while i < n
        invariant
            i <= n,
            p.bin@ == s,
            p.bin == old(p).bin,
            off + 2 + 2 * n <= s.len(),
            p.off == off + 2 + 2 * i,
            v@.len() == i,
            forall|k: int| 0 <= k < i ==> v@[k] == be_u16(s, off + 2 + 2 * k) as u16,
        decreases n - i,
    {
        let x: u16 = p.u16();
        v.push(x);
        i += 1;
    }
    proof {
        assert(v@ =~= spec_u16s(s, off).unwrap().0);
    }
    Ok(v)
}

impl LineNumber {
    /// Reads one row.
    pub fn read_from(p: &mut ClassFileParser) -> (r: LineNumber)
        requires
            old(p).can_read(4),
        ensures
            final(p).bin == old(p).bin,
            final(p).off == old(p).off + 4,
            r == (LineNumber {
                start_pc: be_u16(old(p).bin@, old(p).off as int) as u16,
                line_number: be_u16(old(p).bin@, old(p).off + 2) as u16,
            }),
    {
        let start_pc: u16 = p.u16();
        let line_number: u16 = p.u16();
        LineNumber { start_pc, line_number }
    }

    /// Reads a table behind its count.
    pub fn read_vec_from(p: &mut ClassFileParser) -> (r: Result<Vec<LineNumber>, VmError>)
        requires
            old(p).off <= old(p).bin@.len(),
        ensures
            final(p).bin == old(p).bin,
            final(p).off <= final(p).bin@.len(),
            match spec_line_numbers(old(p).bin@, old(p).off as int) {
                None => r == Err::<Vec<LineNumber>, VmError>(VmError::ClassFormat),
                Some((v, e)) => r is Ok && r.unwrap()@ == v && final(p).off == e,
            },
    {
        if !p.has(2) {
            return Err(VmError::ClassFormat);
        }
        let ghost s = p.bin@;
        let ghost off = p.off as int;
        let n: usize = p.u16() as usize;
        if n > (p.bin.len() - p.off) / 4 {
            return Err(VmError::ClassFormat);
        }
        let mut v: Vec<LineNumber> = Vec::with_capacity(n);
        let mut i: usize = 0;
        while i < n
            invariant
                i <= n,
                p.bin@ == s,
                p.bin == old(p).bin,
                off + 2 + 4 * n <= s.len(),
                p.off == off + 2 + 4 * i,
                v@.len() == i,
                forall|k: int|
                    0 <= k < i ==> v@[k] == (LineNumber {
                        start_pc: be_u16(s, off + 2 + 4 * k) as u16,
                        line_number: be_u16(s, off + 4 + 4 * k) as u16,
                    }),
            decreases n - i,
        {
            let x: LineNumber = LineNumber::read_from(p);
            v.push(x);
            i += 1;
        }
        proof {
            assert(v@ =~= spec_line_numbers(s, off).unwrap().0);
        }
        Ok(v)
    }
}

impl Exception {
    /// Reads one row.
    pub fn read_from(p: &mut ClassFileParser) -> (r: Exception)
        requires
            old(p).can_read(8),
        ensures
            final(p).bin == old(p).bin,
            final(p).off == old(p).off + 8,
            r == (Exception {
                start_pc: be_u16(old(p).bin@, old(p).off as int) as u16,
                end_pc: be_u16(old(p).bin@, old(p).off + 2) as u16,
                handler_pc: be_u16(old(p).bin@, old(p).off + 4) as u16,
                catch_type: be_u16(old(p).bin@, old(p).off + 6) as u16,
            }),
    {
        let start_pc: u16 = p.u16();
        let end_pc: u16 = p.u16();
        let handler_pc: u16 = p.u16();
        let catch_type: u16 = p.u16();
        Exception { start_pc, end_pc, handler_pc, catch_type }
    }

    /// Reads a table behind its count.
    pub fn read_vec_from(p: &mut ClassFileParser) -> (r: Result<Vec<Exception>, VmError>)
        requires
            old(p).off <= old(p).bin@.len(),
        ensures
            final(p).bin == old(p).bin,
            final(p).off <= final(p).bin@.len(),
            match spec_exceptions(old(p).bin@, old(p).off as int) {
                None => r == Err::<Vec<Exception>, VmError>(VmError::ClassFormat),
                Some((v, e)) => r is Ok && r.unwrap()@ == v && final(p).off == e,
            },
    {
        if !p.has(2) {
            return Err(VmError::ClassFormat);
        }
        let ghost s = p.bin@;
        let ghost off = p.off as int;
        let n: usize = p.u16() as usize;
        if n > (p.bin.len() - p.off) / 8 {
            return Err(VmError::ClassFormat);
        }
        let mut v: Vec<Exception> = Vec::with_capacity(n);
        let mut i: usize = 0;
        while i < n
            invariant
                i <= n,
                p.bin@ == s,
                p.bin == old(p).bin,
                off + 2 + 8 * n <= s.len(),
                p.off == off + 2 + 8 * i,
                v@.len() == i,
                forall|k: int|
                    0 <= k < i ==> v@[k] == (Exception {
                        start_pc: be_u16(s, off + 2 + 8 * k) as u16,
                        end_pc: be_u16(s, off + 4 + 8 * k) as u16,
                        handler_pc: be_u16(s, off + 6 + 8 * k) as u16,
                        catch_type: be_u16(s, off + 8 + 8 * k) as u16,
                    }),
            decreases n - i,
        {
            let x: Exception = Exception::read_from(p);
            v.push(x);
            i += 1;
        }
        proof {
            assert(v@ =~= spec_exceptions(s, off).unwrap().0);
        }
        Ok(v)
    }
}

impl LocalVariable {
    /// Reads one row and resolves its name and descriptor in the pool.
    pub fn read_from(p: &mut ClassFileParser, cp: &ConstantPool) -> (r: Result<
        LocalVariable,
        VmError,
    >)
        requires
            old(p).can_read(10),
        ensures
            final(p).bin == old(p).bin,
            final(p).off == old(p).off + 10,
            match spec_local_var(old(p).bin@, old(p).off as int, cp@) {
                None => r == Err::<LocalVariable, VmError>(VmError::ClassFormat),
                Some(v) => r is Ok && r.unwrap()@ == v,
            },
    {
        let start_pc: u16 = p.u16();
        let length: u16 = p.u16();
        let name_i: u16 = p.u16();
        let desc_i: u16 = p.u16();
        let index: u16 = p.u16();
        let name: String = match cp.utf8(name_i as usize) {
            Some(n) => n.to_owned(),
            None => {
                return Err(VmError::ClassFormat);
            },
        };
        let desc: String = match cp.utf8(desc_i as usize) {
            Some(d) => d.to_owned(),
            None => {
                return Err(VmError::ClassFormat);
            },
        };
        Ok(LocalVariable { start_pc, length, name_i, desc_i, index, name, desc })
    }

    /// Reads a table behind its count.
    pub fn read_vec_from(p: &mut ClassFileParser, cp: &ConstantPool) -> (r: Result<
        Vec<LocalVariable>,
        VmError,
    >)
        requires
            old(p).off <= old(p).bin@.len(),
        ensures
            final(p).bin == old(p).bin,
            final(p).off <= final(p).bin@.len(),
            match spec_local_vars(old(p).bin@, old(p).off as int, cp@) {
                None => r == Err::<Vec<LocalVariable>, VmError>(VmError::ClassFormat),
                Some((v, e)) => r is Ok && Seq::new(
                    r.unwrap()@.len(),
                    |k: int| r.unwrap()@[k]@,
                ) == v && final(p).off == e,
            },
    {
        if !p.has(2) {
            return Err(VmError::ClassFormat);
        }
        let ghost s = p.bin@;
        let ghost off = p.off as int;
        let n: usize = p.u16() as usize;
        if n > (p.bin.len() - p.off) / 10 {
            return Err(VmError::ClassFormat);
        }
        let mut v: Vec<LocalVariable> = Vec::with_capacity(n);
        let mut i: usize = 0;
        while i < n
            invariant
                i <= n,
                n == be_u16(s, off),
                p.bin@ == s,
                p.bin == old(p).bin,
                off == old(p).off,
                0 <= off,
                off + 2 + 10 * n <= s.len(),
                p.off == off + 2 + 10 * i,
                v@.len() == i,
                forall|k: int|
                    0 <= k < i ==> (#[trigger] spec_local_var(s, off + 2 + 10 * k, cp@)) is Some
                        && v@[k]@ == spec_local_var(s, off + 2 + 10 * k, cp@).unwrap(),
            decreases n - i,
        {
            match LocalVariable::read_from(p, cp) {
                Ok(x) => {
                    v.push(x);
                },
                Err(e) => {
                    proof {
                        assert(spec_local_var(s, off + 2 + 10 * i, cp@) is None);
                    }
                    return Err(VmError::ClassFormat);
                },
            }
            i += 1;
        }
        proof {
            assert(Seq::new(v@.len(), |k: int| v@[k]@) =~= spec_local_vars(s, off, cp@).unwrap().0);
        }
        Ok(v)
    }
}

/// Reads the class names of an `Exceptions` attribute.
fn read_exception_names(p: &mut ClassFileParser, cp: &ConstantPool) -> (r: Result<
    Vec<String>,
    VmError,
>)
    requires
        old(p).off <= old(p).bin@.len(),
    ensures
        final(p).bin == old(p).bin,
        final(p).off <= final(p).bin@.len(),
        match spec_exception_names(old(p).bin@, old(p).off as int, cp@) {
            None => r == Err::<Vec<String>, VmError>(VmError::ClassFormat),
            Some((v, e)) => r is Ok && Seq::new(r.unwrap()@.len(), |k: int| r.unwrap()@[k]@) == v
                && final(p).off == e,
        },
{
    let idx: Vec<u16> = match read_u16s(p) {
        Ok(v) => v,
        Err(e) => {
            return Err(VmError::ClassFormat);
        },
    };
    let mut v: Vec<String> = Vec::with_capacity(idx.len());
    let mut i: usize = 0;
    while i < idx.len()
        invariant
            i <= idx@.len(),
            v@.len() == i,
            p.bin == old(p).bin,
            p.off <= p.bin@.len(),
            spec_u16s(old(p).bin@, old(p).off as int) == Some((idx@, p.off as int)),
            forall|k: int|
                0 <= k < i ==> (#[trigger] pool_class(cp@, idx@[k] as int)) is Some && v@[k]@
                    == pool_class(cp@, idx@[k] as int).unwrap(),
        decreases idx@.len() - i,
    {
        match cp.class(idx[i] as usize) {
            Some(n) => {
                v.push(n.to_owned());
            },
            None => {
                proof {
                    assert(pool_class(cp@, idx@[i as int] as int) is None);
                }
                return Err(VmError::ClassFormat);
            },
        }
        i += 1;
    }
    proof {
        assert(Seq::new(v@.len(), |k: int| v@[k]@) =~= spec_exception_names(
            old(p).bin@,
            old(p).off as int,
            cp@,
        ).unwrap().0);
    }
    Ok(v)
}

impl AttrInfo {
    /// Reads one attribute.
    pub fn read_from(p: &mut ClassFileParser, cp: &ConstantPool) -> (r: Result<AttrInfo, VmError>)
        requires
            old(p).off <= old(p).bin@.len(),
        ensures
            final(p).bin == old(p).bin,
            final(p).off <= final(p).bin@.len(),
            match spec_attr(old(p).bin@, old(p).off as int, cp@) {
                None => r == Err::<AttrInfo, VmError>(VmError::ClassFormat),
                Some((v, e)) => r is Ok && r.unwrap()@ == v && final(p).off == e,
            },
        decreases old(p).bin@.len() - old(p).off, 0nat, 0nat,
    {
        if !p.has(6) {
            return Err(VmError::ClassFormat);
        }
        let name_i: usize = p.u16() as usize;
        let attr_len: usize = p.u32() as usize;
        let name: &str = match cp.utf8(name_i) {
            Some(n) => n,
            None => {
                return Err(VmError::ClassFormat);
            },
        };
        if str_eq(name, "Deprecated") {
            Ok(AttrInfo::Deprecated)
        } else if str_eq(name, "Synthetic") {
            Ok(AttrInfo::Synthetic)
        } else if str_eq(name, "SourceFile") {
            if !p.has(2) {
                return Err(VmError::ClassFormat);
            }
            let i: u16 = p.u16();
            match cp.utf8(i as usize) {
                Some(t) => Ok(AttrInfo::SourceFile(t.to_owned())),
                None => Err(VmError::ClassFormat),
            }
        } else if str_eq(name, "ConstantValue") {
            if !p.has(2) {
                return Err(VmError::ClassFormat);
            }
            let i: u16 = p.u16();
            Ok(AttrInfo::ConstantValue(i))
        } else if str_eq(name, "Code") {
            match Code::read_from(p, cp) {
                Ok(c) => {
                    proof {
                        lemma_code_attr_view(c);
                    }
                    Ok(AttrInfo::Code(c))
                },
                Err(e) => Err(VmError::ClassFormat),
            }
        } else if str_eq(name, "LineNumberTable") {
            match LineNumber::read_vec_from(p) {
                Ok(t) => Ok(AttrInfo::LineNumberTable(t)),
                Err(e) => Err(VmError::ClassFormat),
            }
        } else if str_eq(name, "LocalVariableTable") {
            match LocalVariable::read_vec_from(p, cp) {
                Ok(t) => Ok(AttrInfo::LocalVariableTable(t)),
                Err(e) => Err(VmError::ClassFormat),
            }
        } else if str_eq(name, "Exceptions") {
            match read_exception_names(p, cp) {
                Ok(t) => Ok(AttrInfo::Exceptions(t)),
                Err(e) => Err(VmError::ClassFormat),
            }
        } else {
            if !p.has(attr_len) {
                return Err(VmError::ClassFormat);
            }
            let info: Vec<u8> = p.bytes(attr_len);
            Ok(AttrInfo::Unparsed { name: name.to_owned(), len: attr_len, info })
        }
    }

    /// Reads `n` attributes one behind the other.
    pub fn read_n_from(p: &mut ClassFileParser, cp: &ConstantPool, n: usize) -> (r: Result<
        Vec<AttrInfo>,
        VmError,
    >)
        requires
            old(p).off <= old(p).bin@.len(),
        ensures
            final(p).bin == old(p).bin,
            final(p).off <= final(p).bin@.len(),
            match spec_attrs(old(p).bin@, old(p).off as int, n as nat, cp@) {
                None => r == Err::<Vec<AttrInfo>, VmError>(VmError::ClassFormat),
                Some((v, e)) => r is Ok && attr_views(r.unwrap()@) == v && final(p).off == e,
            },
        decreases old(p).bin@.len() - old(p).off, 1nat, n,
    {
        let mut v: Vec<AttrInfo> = Vec::new();
        let ghost s = p.bin@;
        let ghost start = p.off as int;
        let mut i: usize = 0;
        proof {
            match spec_attrs(s, start, n as nat, cp@) {
                None => {},
                Some((rest, end)) => {
                    assert(attr_views(v@) + rest =~= rest);
                },
            }
        }
        while i < n
            invariant
                i <= n,
                p.bin@ == s,
                p.bin == old(p).bin,
                start == old(p).off,
                start <= p.off <= s.len(),
                spec_attrs(s, start, n as nat, cp@) == (match spec_attrs(
                    s,
                    p.off as int,
                    (n - i) as nat,
                    cp@,
                ) {
                    None => None::<(Seq<AttrInfoView>, int)>,
                    Some((rest, end)) => Some((attr_views(v@) + rest, end)),
                }),
            decreases n - i,
        {
            let before: usize = p.off;
            let ghost vv = attr_views(v@);
            let a = match AttrInfo::read_from(p, cp) {
                Ok(a) => a,
                Err(e) => {
                    return Err(VmError::ClassFormat);
                },
            };
            if p.off <= before {
                return Err(VmError::ClassFormat);
            }
            proof {
                match spec_attrs(s, p.off as int, (n - i - 1) as nat, cp@) {
                    None => {},
                    Some((rest, end)) => {
                        assert(vv + (seq![a@] + rest) =~= vv.push(a@) + rest);
                    },
                }
            }
            v.push(a);
            proof {
                assert(attr_views(v@) =~= vv.push(a@));
            }
            i += 1;
        }
        proof {
            assert(attr_views(v@) + Seq::<AttrInfoView>::empty() =~= attr_views(v@));
        }
        Ok(v)
    }

    /// Reads a list of attributes behind its count.
    pub fn read_vec_from(p: &mut ClassFileParser, cp: &ConstantPool) -> (r: Result<
        Vec<AttrInfo>,
        VmError,
    >)
        requires
            old(p).off <= old(p).bin@.len(),
        ensures
            final(p).bin == old(p).bin,
            final(p).off <= final(p).bin@.len(),
            match spec_attr_list(old(p).bin@, old(p).off as int, cp@) {
                None => r == Err::<Vec<AttrInfo>, VmError>(VmError::ClassFormat),
                Some((v, e)) => r is Ok && attr_views(r.unwrap()@) == v && final(p).off == e,
            },
        decreases old(p).bin@.len() - old(p).off, 2nat, 0nat,
    {
        if !p.has(2) {
            return Err(VmError::ClassFormat);
        }
        let n: usize = p.u16() as usize;
        AttrInfo::read_n_from(p, cp, n)
    }
}

impl Code {
    /// Reads the body of a `Code` attribute.
    pub fn read_from(p: &mut ClassFileParser, cp: &ConstantPool) -> (r: Result<Code, VmError>)
        requires
            old(p).off <= old(p).bin@.len(),
        ensures
            final(p).bin == old(p).bin,
            final(p).off <= final(p).bin@.len(),
            match spec_code(old(p).bin@, old(p).off as int, cp@) {
                None => r == Err::<Code, VmError>(VmError::ClassFormat),
                Some((v, e)) => r is Ok && r.unwrap()@ == v && final(p).off == e,
            },
        decreases old(p).bin@.len() - old(p).off, 0nat, 0nat,
    {
        if !p.has(8) {
            return Err(VmError::ClassFormat);
        }
        let start: usize = p.off;
        let max_stack: u16 = p.u16();
        let max_locals: u16 = p.u16();
        let code_len: usize = p.u32() as usize;
        if !p.has(code_len) {
            return Err(VmError::ClassFormat);
        }
        let code: Vec<u8> = p.bytes(code_len);
        let exceptions = match Exception::read_vec_from(p) {
            Ok(t) => t,
            Err(e) => {
                return Err(VmError::ClassFormat);
            },
        };
        if !p.has(2) || p.off < start {
            return Err(VmError::ClassFormat);
        }
        let n: usize = p.u16() as usize;
        let attrs = match AttrInfo::read_n_from(p, cp, n) {
            Ok(t) => t,
            Err(e) => {
                return Err(VmError::ClassFormat);
            },
        };
        Ok(Code { max_stack, max_locals, code, exceptions, attrs })
    }
}

/// A field or a method as the class file gives it.
#[derive(Debug)]
pub struct MemberInfo {
    pub access_flags: u16,
    pub name_i: u16,
    pub desc_i: u16,
    pub name: String,
    pub desc: String,
    pub attrs: Vec<AttrInfo>,
}

/// The mathematical value of a [`MemberInfo`].
pub ghost struct MemberInfoView {
    pub access_flags: u16,
    pub name_i: u16,
    pub desc_i: u16,
    pub name: Seq<char>,
    pub desc: Seq<char>,
    pub attrs: Seq<AttrInfoView>,
}

impl View for MemberInfo {
    type V = MemberInfoView;

    open spec fn view(&self) -> MemberInfoView {
        MemberInfoView {
            access_flags: self.access_flags,
            name_i: self.name_i,
            desc_i: self.desc_i,
            name: self.name@,
            desc: self.desc@,
            attrs: attr_views(self.attrs@),
        }
    }
}

/// The values of a list of members.
pub open spec fn member_views(v: Seq<MemberInfo>) -> Seq<MemberInfoView> {
    Seq::new(v.len(), |i: int| v[i]@)
}

/// The member that starts at `off`: flags, the indices of its name and
/// descriptor, which must be UTF-8 entries of the pool, and its
/// attributes.
pub open spec fn spec_member(s: Seq<u8>, off: int, cp: Seq<ConstantInfoView>) -> Option<
    (MemberInfoView, int),
> {
    if off < 0 || off + 6 > s.len() {
        None
    } else {
        match (pool_utf8(cp, be_u16(s, off + 2)), pool_utf8(cp, be_u16(s, off + 4))) {
            (Some(name), Some(desc)) => match spec_attr_list(s, off + 6, cp) {
                None => None,
                Some((attrs, end)) => Some(
                    (
                        MemberInfoView {
                            access_flags: be_u16(s, off) as u16,
                            name_i: be_u16(s, off + 2) as u16,
                            desc_i: be_u16(s, off + 4) as u16,
                            name,
                            desc,
                            attrs,
                        },
                        end,
                    ),
                ),
            },
            _ => None,
        }
    }
}

/// `n` members one behind the other from `off` on.
pub open spec fn spec_members(s: Seq<u8>, off: int, n: nat, cp: Seq<ConstantInfoView>) -> Option<
    (Seq<MemberInfoView>, int),
>
    decreases n,
{
    if n == 0 {
        Some((Seq::empty(), off))
    } else {
        match spec_member(s, off, cp) {
            None => None,
            Some((m, e)) => match spec_members(s, e, (n - 1) as nat, cp) {
                None => None,
                Some((rest, end)) => Some((seq![m] + rest, end)),
            },
        }
    }
}

/// A list of members behind its 16-bit count.
pub open spec fn spec_member_list(s: Seq<u8>, off: int, cp: Seq<ConstantInfoView>) -> Option<
    (Seq<MemberInfoView>, int),
> {
    if off < 0 || off + 2 > s.len() {
        None
    } else {
        spec_members(s, off + 2, be_u16(s, off) as nat, cp)
    }
}

impl MemberInfo {
    /// Reads one field or method.
    pub fn read_from(p: &mut ClassFileParser, cp: &ConstantPool) -> (r: Result<MemberInfo, VmError>)
        requires
            old(p).off <= old(p).bin@.len(),
        ensures
            final(p).bin == old(p).bin,
            final(p).off <= final(p).bin@.len(),
            match spec_member(old(p).bin@, old(p).off as int, cp@) {
                None => r == Err::<MemberInfo, VmError>(VmError::ClassFormat),
                Some((v, e)) => r is Ok && r.unwrap()@ == v && final(p).off == e,
            },
    {
        if !p.has(6) {
            return Err(VmError::ClassFormat);
        }
        let access_flags: u16 = p.u16();
        let name_i: u16 = p.u16();
        let desc_i: u16 = p.u16();
        let name: String = match cp.utf8(name_i as usize) {
            Some(n) => n.to_owned(),
            None => {
                return Err(VmError::ClassFormat);
            },
        };
        let desc: String = match cp.utf8(desc_i as usize) {
            Some(d) => d.to_owned(),
            None => {
                return Err(VmError::ClassFormat);
            },
        };
        let attrs = match AttrInfo::read_vec_from(p, cp) {
            Ok(a) => a,
            Err(e) => {
                return Err(VmError::ClassFormat);
            },
        };
        Ok(MemberInfo { access_flags, name_i, desc_i, name, desc, attrs })
    }

    /// Reads a list of members behind its count.
    pub fn read_vec_from(p: &mut ClassFileParser, cp: &ConstantPool) -> (r: Result<
        Vec<MemberInfo>,
        VmError,
    >)
        requires
            old(p).off <= old(p).bin@.len(),
        ensures
            final(p).bin == old(p).bin,
            final(p).off <= final(p).bin@.len(),
            match spec_member_list(old(p).bin@, old(p).off as int, cp@) {
                None => r == Err::<Vec<MemberInfo>, VmError>(VmError::ClassFormat),
                Some((v, e)) => r is Ok && member_views(r.unwrap()@) == v && final(p).off == e,
            },
    {
        if !p.has(2) {
            return Err(VmError::ClassFormat);
        }
        let n: usize = p.u16() as usize;
        let mut v: Vec<MemberInfo> = Vec::new();
        let ghost s = p.bin@;
        let ghost start = p.off as int;
        let mut i: usize = 0;
        proof {
            match spec_members(s, start, n as nat, cp@) {
                None => {},
                Some((rest, end)) => {
                    assert(member_views(v@) + rest =~= rest);
                },
            }
        }
        while i < n
            invariant
                i <= n,
                p.bin@ == s,
                p.bin == old(p).bin,
                p.off <= s.len(),
                start == old(p).off + 2,
                start <= s.len(),
                n == be_u16(s, old(p).off as int),
                spec_members(s, start, n as nat, cp@) == (match spec_members(
                    s,
                    p.off as int,
                    (n - i) as nat,
                    cp@,
                ) {
                    None => None::<(Seq<MemberInfoView>, int)>,
                    Some((rest, end)) => Some((member_views(v@) + rest, end)),
                }),
            decreases n - i,
        {
            let ghost vv = member_views(v@);
            let m = match MemberInfo::read_from(p, cp) {
                Ok(m) => m,
                Err(e) => {
                    return Err(VmError::ClassFormat);
                },
            };
            proof {
                match spec_members(s, p.off as int, (n - i - 1) as nat, cp@) {
                    None => {},
                    Some((rest, end)) => {
                        assert(vv + (seq![m@] + rest) =~= vv.push(m@) + rest);
                    },
                }
            }
            v.push(m);
            proof {
                assert(member_views(v@) =~= vv.push(m@));
            }
            i += 1;
        }
        proof {
            assert(member_views(v@) + Seq::<MemberInfoView>::empty() =~= member_views(v@));
        }
        Ok(v)
    }
}

/// A decoded class file.
#[derive(Debug)]
pub struct ClassFile {
    pub magic: u32,
    pub minor_version: u16,
    pub major_version: u16,
    pub cp: ConstantPool,
    pub access_flags: u16,
    pub this_class_i: u16,
    pub super_class_i: u16,
    pub interfaces_i: Vec<u16>,
    pub fields: Vec<MemberInfo>,
    pub methods: Vec<MemberInfo>,
    pub attrs: Vec<AttrInfo>,
}

/// The mathematical value of a [`ClassFile`].
pub ghost struct ClassFileView {
    pub magic: u32,
    pub minor_version: u16,
    pub major_version: u16,
    pub cp: Seq<ConstantInfoView>,
    pub access_flags: u16,
    pub this_class_i: u16,
    pub super_class_i: u16,
    pub interfaces_i: Seq<u16>,
    pub fields: Seq<MemberInfoView>,
    pub methods: Seq<MemberInfoView>,
    pub attrs: Seq<AttrInfoView>,
}

impl View for ClassFile {
    type V = ClassFileView;

    open spec fn view(&self) -> ClassFileView {
        ClassFileView {
            magic: self.magic,
            minor_version: self.minor_version,
            major_version: self.major_version,
            cp: self.cp@,
            access_flags: self.access_flags,
            this_class_i: self.this_class_i,
            super_class_i: self.super_class_i,
            interfaces_i: self.interfaces_i@,
            fields: member_views(self.fields@),
            methods: member_views(self.methods@),
            attrs: attr_views(self.attrs@),
        }
    }
}

/// What follows the constant pool in a class file, from `off` on.
pub open spec fn spec_class_body(
    s: Seq<u8>,
    off: int,
    minor: u16,
    major: u16,
    cp: Seq<ConstantInfoView>,
) -> Option<ClassFileView> {
    if off < 0 || off + 6 > s.len() {
        None
    } else {
        match spec_u16s(s, off + 6) {
            None => None,
            Some((interfaces_i, e2)) => match spec_member_list(s, e2, cp) {
                None => None,
                Some((fields, e3)) => match spec_member_list(s, e3, cp) {
                    None => None,
                    Some((methods, e4)) => match spec_attr_list(s, e4, cp) {
                        None => None,
                        Some((attrs, e5)) => Some(
                            ClassFileView {
                                magic: MAGIC,
                                minor_version: minor,
                                major_version: major,
                                cp,
                                access_flags: be_u16(s, off) as u16,
                                this_class_i: be_u16(s, off + 2) as u16,
                                super_class_i: be_u16(s, off + 4) as u16,
                                interfaces_i,
                                fields,
                                methods,
                                attrs,
                            },
                        ),
                    },
                },
            },
        }
    }
}

/// The class file that the bytes `s` hold: the magic number, the two
/// version numbers, the pool, and the body. What lies behind the last
/// attribute does not count.
pub open spec fn spec_class_file(s: Seq<u8>) -> Option<ClassFileView> {
    if 8 > s.len() || be_u32(s, 0) != MAGIC {
        None
    } else {
        match spec_pool(s, 8) {
            None => None,
            Some((cp, e1)) => spec_class_body(
                s,
                e1,
                be_u16(s, 4) as u16,
                be_u16(s, 6) as u16,
                cp,
            ),
        }
    }
}

impl ClassFile {
    /// Decodes a class file. It fails on a wrong magic number, an unknown
    /// constant tag, a name that is no UTF-8 entry of the pool, or bytes
    /// that end too early.
    pub fn new(bin: Vec<u8>) -> (r: Result<ClassFile, VmError>)
        ensures
            match spec_class_file(bin@) {
                None => r == Err::<ClassFile, VmError>(VmError::ClassFormat),
                Some(v) => r is Ok && r.unwrap()@ == v,
            },
            r is Ok ==> wide_rule(r.unwrap().cp@),
    {
        let mut p = ClassFileParser::new(bin);
        if !p.has(8) {
            return Err(VmError::ClassFormat);
        }
        let magic: u32 = p.u32();
        if magic != MAGIC {
            return Err(VmError::ClassFormat);
        }
        let minor_version: u16 = p.u16();
        let major_version: u16 = p.u16();
        let cp = match ConstantPool::read_from(&mut p) {
            Ok(c) => c,
            Err(e) => {
                return Err(VmError::ClassFormat);
            },
        };
        if !p.has(6) {
            return Err(VmError::ClassFormat);
        }
        let access_flags: u16 = p.u16();
        let this_class_i: u16 = p.u16();
        let super_class_i: u16 = p.u16();
        let interfaces_i = match read_u16s(&mut p) {
            Ok(v) => v,
            Err(e) => {
                return Err(VmError::ClassFormat);
            },
        };
        let fields = match MemberInfo::read_vec_from(&mut p, &cp) {
            Ok(v) => v,
            Err(e) => {
                return Err(VmError::ClassFormat);
            },
        };
        let methods = match MemberInfo::read_vec_from(&mut p, &cp) {
            Ok(v) => v,
            Err(e) => {
                return Err(VmError::ClassFormat);
            },
        };
        let attrs = match AttrInfo::read_vec_from(&mut p, &cp) {
            Ok(v) => v,
            Err(e) => {
                return Err(VmError::ClassFormat);
            },
        };
        Ok(
            ClassFile {
                magic,
                minor_version,
                major_version,
                cp,
                access_flags,
                this_class_i,
                super_class_i,
                interfaces_i,
                fields,
                methods,
                attrs,
            },
        )
    }

    /// The name of the class; `None` where the index names no class
    /// entry.
    pub fn this_class(&self) -> (r: Option<&str>)
        ensures
            r is Some == pool_class(self.cp@, self.this_class_i as int) is Some,
            r is Some ==> r.unwrap()@ == pool_class(self.cp@, self.this_class_i as int).unwrap(),
    {
        self.cp.class(self.this_class_i as usize)
    }

    /// The name of the superclass, empty where the class has none; `None`
    /// where the index names no class entry.
    pub fn super_class(&self) -> (r: Option<&str>)
        ensures
            self.super_class_i == 0 ==> r is Some && r.unwrap()@ == Seq::<char>::empty(),
            self.super_class_i != 0 ==> r is Some == pool_class(
                self.cp@,
                self.super_class_i as int,
            ) is Some,
            self.super_class_i != 0 && r is Some ==> r.unwrap()@ == pool_class(
                self.cp@,
                self.super_class_i as int,
            ).unwrap(),
    {
        if self.super_class_i == 0 {
            let e: &'static str = "";
            proof {
                reveal_strlit("");
                assert(e@ =~= Seq::<char>::empty());
            }
            Some(e)
        } else {
            self.cp.class(self.super_class_i as usize)
        }
    }

    /// How many interfaces the class names.
    pub fn interface_len(&self) -> (r: usize)
        ensures
            r == self.interfaces_i@.len(),
    {
        self.interfaces_i.len()
    }

    /// The name of interface `i`.
    pub fn interface(&self, i: usize) -> (r: Option<&str>)
        requires
            i < self.interfaces_i@.len(),
        ensures
            r is Some == pool_class(self.cp@, self.interfaces_i@[i as int] as int) is Some,
            r is Some ==> r.unwrap()@ == pool_class(
                self.cp@,
                self.interfaces_i@[i as int] as int,
            ).unwrap(),
    {
        self.cp.class(self.interfaces_i[i] as usize)
    }
}

} // verus!
