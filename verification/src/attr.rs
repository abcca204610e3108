//! Attributes of classes, fields, methods and code, and the grammar by
//! which they are laid out in a class file.

use vstd::prelude::*;
use vstd::string::*;
use crate::cp::{ConstantInfoView, pool_utf8, pool_class};
use crate::reader::{be_u16, be_u32};

verus! {

/// One row of a line-number table.
#[derive(Clone, Copy, PartialEq, Eq, Structural, Debug)]
pub struct LineNumber {
    pub start_pc: u16,
    pub line_number: u16,
}

impl Default for LineNumber {
    fn default() -> (r: LineNumber)
        ensures
            r == (LineNumber { start_pc: 0, line_number: 0 }),
    {
        LineNumber { start_pc: 0, line_number: 0 }
    }
}

/// One row of a local-variable table, its name and descriptor resolved.
#[derive(Debug)]
pub struct LocalVariable {
    pub start_pc: u16,
    pub length: u16,
    pub name_i: u16,
    pub desc_i: u16,
    pub index: u16,
    pub name: String,
    pub desc: String,
}

/// The mathematical value of a [`LocalVariable`].
pub ghost struct LocalVariableView {
    pub start_pc: u16,
    pub length: u16,
    pub name_i: u16,
    pub desc_i: u16,
    pub index: u16,
    pub name: Seq<char>,
    pub desc: Seq<char>,
}

impl View for LocalVariable {
    type V = LocalVariableView;

    open spec fn view(&self) -> LocalVariableView {
        LocalVariableView {
            start_pc: self.start_pc,
            length: self.length,
            name_i: self.name_i,
            desc_i: self.desc_i,
            index: self.index,
            name: self.name@,
            desc: self.desc@,
        }
    }
}

/// One row of an exception table.
#[derive(Clone, Copy, PartialEq, Eq, Structural, Debug)]
pub struct Exception {
    pub start_pc: u16,
    pub end_pc: u16,
    pub handler_pc: u16,
    pub catch_type: u16,
}

impl Default for Exception {
    fn default() -> (r: Exception)
        ensures
            r == (Exception { start_pc: 0, end_pc: 0, handler_pc: 0, catch_type: 0 }),
    {
        Exception { start_pc: 0, end_pc: 0, handler_pc: 0, catch_type: 0 }
    }
}

/// The body of a method.
#[derive(Debug)]
pub struct Code {
    pub max_stack: u16,
    pub max_locals: u16,
    pub code: Vec<u8>,
    pub exceptions: Vec<Exception>,
    pub attrs: Vec<AttrInfo>,
}

/// The mathematical value of a [`Code`].
pub ghost struct CodeView {
    pub max_stack: u16,
    pub max_locals: u16,
    pub code: Seq<u8>,
    pub exceptions: Seq<Exception>,
    pub attrs: Seq<AttrInfoView>,
}

/// An attribute. Those that the machine knows are decoded; any other is
/// kept as its name, its length and its bytes.
#[derive(Debug)]
pub enum AttrInfo {
    Code(Code),
    ConstantValue(u16),
    Deprecated,
    Exceptions(Vec<String>),
    LineNumberTable(Vec<LineNumber>),
    LocalVariableTable(Vec<LocalVariable>),
    SourceFile(String),
    Synthetic,
    Unparsed { name: String, len: usize, info: Vec<u8> },
}

/// The mathematical value of an [`AttrInfo`].
pub ghost enum AttrInfoView {
    Code(CodeView),
    ConstantValue(u16),
    Deprecated,
    Exceptions(Seq<Seq<char>>),
    LineNumberTable(Seq<LineNumber>),
    LocalVariableTable(Seq<LocalVariableView>),
    SourceFile(Seq<char>),
    Synthetic,
    Unparsed { name: Seq<char>, len: nat, info: Seq<u8> },
}

/// The value of an attribute.
pub open spec fn attr_view(a: AttrInfo) -> AttrInfoView
    decreases a,
{
    match a {
        AttrInfo::Code(c) => AttrInfoView::Code(
            CodeView {
                max_stack: c.max_stack,
                max_locals: c.max_locals,
                code: c.code@,
                exceptions: c.exceptions@,
                attrs: Seq::new(
                    c.attrs@.len(),
                    |i: int|
                        if 0 <= i < c.attrs@.len() {
                            attr_view(c.attrs@[i])
                        } else {
                            AttrInfoView::Deprecated
                        },
                ),
            },
        ),
        AttrInfo::ConstantValue(v) => AttrInfoView::ConstantValue(v),
        AttrInfo::Deprecated => AttrInfoView::Deprecated,
        AttrInfo::Exceptions(v) => AttrInfoView::Exceptions(Seq::new(v@.len(), |i: int| v@[i]@)),
        AttrInfo::LineNumberTable(v) => AttrInfoView::LineNumberTable(v@),
        AttrInfo::LocalVariableTable(v) => AttrInfoView::LocalVariableTable(
            Seq::new(v@.len(), |i: int| v@[i]@),
        ),
        AttrInfo::SourceFile(s) => AttrInfoView::SourceFile(s@),
        AttrInfo::Synthetic => AttrInfoView::Synthetic,
        AttrInfo::Unparsed { name, len, info } => AttrInfoView::Unparsed {
            name: name@,
            len: len as nat,
            info: info@,
        },
    }
}

impl View for AttrInfo {
    type V = AttrInfoView;

    open spec fn view(&self) -> AttrInfoView {
        attr_view(*self)
    }
}

/// The values of a list of attributes.
pub open spec fn attr_views(v: Seq<AttrInfo>) -> Seq<AttrInfoView> {
    Seq::new(v.len(), |i: int| v[i]@)
}

impl View for Code {
    type V = CodeView;

    open spec fn view(&self) -> CodeView {
        CodeView {
            max_stack: self.max_stack,
            max_locals: self.max_locals,
            code: self.code@,
            exceptions: self.exceptions@,
            attrs: attr_views(self.attrs@),
        }
    }
}

/// The value of a code attribute is the value of its body.
pub proof fn lemma_code_attr_view(c: Code)
    ensures
        AttrInfo::Code(c)@ == AttrInfoView::Code(c@),
{
    let a = AttrInfo::Code(c);
    assert(attr_view(a)->Code_0.attrs =~= attr_views(c.attrs@));
}

/// A list of 16-bit values behind its 16-bit count, and the offset behind
/// it.
pub open spec fn spec_u16s(s: Seq<u8>, off: int) -> Option<(Seq<u16>, int)> {
    if off < 0 || off + 2 > s.len() {
        None
    } else {
        let n = be_u16(s, off);
        if off + 2 + 2 * n > s.len() {
            None
        } else {
            Some((Seq::new(n as nat, |k: int| be_u16(s, off + 2 + 2 * k) as u16), off + 2 + 2 * n))
        }
    }
}

/// A line-number table behind its count.
pub open spec fn spec_line_numbers(s: Seq<u8>, off: int) -> Option<(Seq<LineNumber>, int)> {
    if off < 0 || off + 2 > s.len() {
        None
    } else {
        let n = be_u16(s, off);
        if off + 2 + 4 * n > s.len() {
            None
        } else {
            Some(
                (
                    Seq::new(
                        n as nat,
                        |k: int|
                            LineNumber {
                                start_pc: be_u16(s, off + 2 + 4 * k) as u16,
                                line_number: be_u16(s, off + 4 + 4 * k) as u16,
                            },
                    ),
                    off + 2 + 4 * n,
                ),
            )
        }
    }
}

/// An exception table behind its count.
pub open spec fn spec_exceptions(s: Seq<u8>, off: int) -> Option<(Seq<Exception>, int)> {
    if off < 0 || off + 2 > s.len() {
        None
    } else {
        let n = be_u16(s, off);
        if off + 2 + 8 * n > s.len() {
            None
        } else {
            Some(
                (
                    Seq::new(
                        n as nat,
                        |k: int|
                            Exception {
                                start_pc: be_u16(s, off + 2 + 8 * k) as u16,
                                end_pc: be_u16(s, off + 4 + 8 * k) as u16,
                                handler_pc: be_u16(s, off + 6 + 8 * k) as u16,
                                catch_type: be_u16(s, off + 8 + 8 * k) as u16,
                            },
                    ),
                    off + 2 + 8 * n,
                ),
            )
        }
    }
}

/// The row of a local-variable table that starts at `at`; `None` where
/// its name or its descriptor is no UTF-8 entry of the pool.
pub open spec fn spec_local_var(s: Seq<u8>, at: int, cp: Seq<ConstantInfoView>) -> Option<
    LocalVariableView,
> {
    match (pool_utf8(cp, be_u16(s, at + 4)), pool_utf8(cp, be_u16(s, at + 6))) {
        (Some(name), Some(desc)) => Some(
            LocalVariableView {
                start_pc: be_u16(s, at) as u16,
                length: be_u16(s, at + 2) as u16,
                name_i: be_u16(s, at + 4) as u16,
                desc_i: be_u16(s, at + 6) as u16,
                index: be_u16(s, at + 8) as u16,
                name,
                desc,
            },
        ),
        _ => None,
    }
}

/// A local-variable table behind its count.
pub open spec fn spec_local_vars(s: Seq<u8>, off: int, cp: Seq<ConstantInfoView>) -> Option<
    (Seq<LocalVariableView>, int),
> {
    if off < 0 || off + 2 > s.len() {
        None
    } else {
        let n = be_u16(s, off);
        if off + 2 + 10 * n > s.len() {
            None
        } else if forall|k: int| 0 <= k < n ==> (#[trigger] spec_local_var(s, off + 2 + 10 * k, cp))
            is Some {
            Some(
                (
                    Seq::new(n as nat, |k: int| spec_local_var(s, off + 2 + 10 * k, cp).unwrap()),
                    off + 2 + 10 * n,
                ),
            )
        } else {
            None
        }
    }
}

/// The class names that an `Exceptions` attribute lists, behind their
/// count.
pub open spec fn spec_exception_names(s: Seq<u8>, off: int, cp: Seq<ConstantInfoView>) -> Option<
    (Seq<Seq<char>>, int),
> {
    match spec_u16s(s, off) {
        None => None,
        Some((idx, end)) => if forall|k: int|
            0 <= k < idx.len() ==> (#[trigger] pool_class(cp, idx[k] as int)) is Some {
            Some((Seq::new(idx.len(), |k: int| pool_class(cp, idx[k] as int).unwrap()), end))
        } else {
            None
        },
    }
}

/// The attribute that starts at `off`: the index of its name, its length
/// and its body. A known name decides how the body is read; the length
/// counts only for an unknown one.
pub open spec fn spec_attr(s: Seq<u8>, off: int, cp: Seq<ConstantInfoView>) -> Option<
    (AttrInfoView, int),
>
    decreases s.len() - off, 0nat, 0nat,
{
    if off < 0 || off + 6 > s.len() {
        None
    } else {
        match pool_utf8(cp, be_u16(s, off)) {
            None => None,
            Some(name) => {
                let attr_len = be_u32(s, off + 2);
                let body = off + 6;
                if name == "Deprecated"@ {
                    Some((AttrInfoView::Deprecated, body))
                } else if name == "Synthetic"@ {
                    Some((AttrInfoView::Synthetic, body))
                } else if name == "SourceFile"@ {
                    if body + 2 > s.len() {
                        None
                    } else {
                        match pool_utf8(cp, be_u16(s, body)) {
                            None => None,
                            Some(t) => Some((AttrInfoView::SourceFile(t), body + 2)),
                        }
                    }
                } else if name == "ConstantValue"@ {
                    if body + 2 > s.len() {
                        None
                    } else {
                        Some((AttrInfoView::ConstantValue(be_u16(s, body) as u16), body + 2))
                    }
                } else if name == "Code"@ {
                    match spec_code(s, body, cp) {
                        None => None,
                        Some((c, e)) => Some((AttrInfoView::Code(c), e)),
                    }
                } else if name == "LineNumberTable"@ {
                    match spec_line_numbers(s, body) {
                        None => None,
                        Some((t, e)) => Some((AttrInfoView::LineNumberTable(t), e)),
                    }
                } else if name == "LocalVariableTable"@ {
                    match spec_local_vars(s, body, cp) {
                        None => None,
                        Some((t, e)) => Some((AttrInfoView::LocalVariableTable(t), e)),
                    }
                } else if name == "Exceptions"@ {
                    match spec_exception_names(s, body, cp) {
                        None => None,
                        Some((t, e)) => Some((AttrInfoView::Exceptions(t), e)),
                    }
                } else if body + attr_len > s.len() {
                    None
                } else {
                    Some(
                        (
                            AttrInfoView::Unparsed {
                                name,
                                len: attr_len as nat,
                                info: s.subrange(body, body + attr_len),
                            },
                            body + attr_len,
                        ),
                    )
                }
            },
        }
    }
}

/// The body of a `Code` attribute that starts at `off`: the two limits,
/// the bytecode behind its 32-bit length, the exception table and the
/// nested attributes.
pub open spec fn spec_code(s: Seq<u8>, off: int, cp: Seq<ConstantInfoView>) -> Option<
    (CodeView, int),
>
    decreases s.len() - off, 0nat, 0nat,
{
    if off < 0 || off + 8 > s.len() {
        None
    } else {
        let code_len = be_u32(s, off + 4);
        let c0 = off + 8;
        if c0 + code_len > s.len() {
            None
        } else {
            match spec_exceptions(s, c0 + code_len) {
                None => None,
                Some((exceptions, e1)) => if e1 + 2 > s.len() || e1 < off {
                    None
                } else {
                    match spec_attrs(s, e1 + 2, be_u16(s, e1) as nat, cp) {
                        None => None,
                        Some((attrs, end)) => Some(
                            (
                                CodeView {
                                    max_stack: be_u16(s, off) as u16,
                                    max_locals: be_u16(s, off + 2) as u16,
                                    code: s.subrange(c0, c0 + code_len),
                                    exceptions,
                                    attrs,
                                },
                                end,
                            ),
                        ),
                    }
                },
            }
        }
    }
}

/// `n` attributes one behind the other from `off` on.
pub open spec fn spec_attrs(s: Seq<u8>, off: int, n: nat, cp: Seq<ConstantInfoView>) -> Option<
    (Seq<AttrInfoView>, int),
>
    decreases s.len() - off, 1nat, n,
{
    if n == 0 {
        Some((Seq::empty(), off))
    } else {
        match spec_attr(s, off, cp) {
            None => None,
            Some((a, e)) => if e <= off || e > s.len() {
                None
            } else {
                match spec_attrs(s, e, (n - 1) as nat, cp) {
                    None => None,
                    Some((rest, end)) => Some((seq![a] + rest, end)),
                }
            },
        }
    }
}

/// A list of attributes behind its 16-bit count.
pub open spec fn spec_attr_list(s: Seq<u8>, off: int, cp: Seq<ConstantInfoView>) -> Option<
    (Seq<AttrInfoView>, int),
> {
    if off < 0 || off + 2 > s.len() {
        None
    } else {
        spec_attrs(s, off + 2, be_u16(s, off) as nat, cp)
    }
}

} // verus!
