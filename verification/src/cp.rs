//! The constant pool of a class: entries addressed from 1, with index 0
//! blank and a blank slot behind every 64-bit entry.

use vstd::prelude::*;
use vstd::string::*;

verus! {

/// The tag of UTF-8 text.
pub const TAG_UTF8: u8 = 1;
/// The tag of a 32-bit integer.
pub const TAG_INTEGER: u8 = 3;
/// The tag of a 32-bit floating-point number.
pub const TAG_FLOAT: u8 = 4;
/// The tag of a 64-bit integer.
pub const TAG_LONG: u8 = 5;
/// The tag of a 64-bit floating-point number.
pub const TAG_DOUBLE: u8 = 6;
/// The tag of a class reference.
pub const TAG_CLASS: u8 = 7;
/// The tag of a string reference.
pub const TAG_STRING: u8 = 8;
/// The tag of a field reference.
pub const TAG_FIELD_REF: u8 = 9;
/// The tag of a method reference.
pub const TAG_METHOD_REF: u8 = 10;
/// The tag of an interface-method reference.
pub const TAG_INTERFACE_METHOD_REF: u8 = 11;
/// The tag of a name-and-type pair.
pub const TAG_NAME_AND_TYPE: u8 = 12;
/// The tag of a method handle.
pub const TAG_METHOD_HANDLE: u8 = 15;
/// The tag of a method type.
pub const TAG_METHOD_TYPE: u8 = 16;
/// The tag of an invoke-dynamic entry.
pub const TAG_INVOKE_DYNAMIC: u8 = 18;

/// One entry of a constant pool. Floating-point entries are kept as their
/// bit patterns.
#[derive(Debug)]
pub enum ConstantInfo {
    Blank,
    Integer(u32),
    Float(u32),
    Long(u64),
    Double(u64),
    Utf8(String),
    String { utf8_i: u16 },
    Class { name_i: u16 },
    NameAndType { name_i: u16, desc_i: u16 },
    FieldRef { class_i: u16, name_type_i: u16 },
    MethodRef { class_i: u16, name_type_i: u16 },
    IFaceMethodRef { class_i: u16, name_type_i: u16 },
    InvokeDynamic { boot_i: u16, name_type_i: u16 },
    MethodHandle { ref_kind: u8, ref_i: u16 },
    MethodType { desc_i: u16 },
}

/// The mathematical value of a [`ConstantInfo`].
pub ghost enum ConstantInfoView {
    Blank,
    Integer(u32),
    Float(u32),
    Long(u64),
    Double(u64),
    Utf8(Seq<char>),
    String { utf8_i: u16 },
    Class { name_i: u16 },
    NameAndType { name_i: u16, desc_i: u16 },
    FieldRef { class_i: u16, name_type_i: u16 },
    MethodRef { class_i: u16, name_type_i: u16 },
    IFaceMethodRef { class_i: u16, name_type_i: u16 },
    InvokeDynamic { boot_i: u16, name_type_i: u16 },
    MethodHandle { ref_kind: u8, ref_i: u16 },
    MethodType { desc_i: u16 },
}

impl View for ConstantInfo {
    type V = ConstantInfoView;

    open spec fn view(&self) -> ConstantInfoView {
        match self {
            ConstantInfo::Blank => ConstantInfoView::Blank,
            ConstantInfo::Integer(v) => ConstantInfoView::Integer(*v),
            ConstantInfo::Float(v) => ConstantInfoView::Float(*v),
            ConstantInfo::Long(v) => ConstantInfoView::Long(*v),
            ConstantInfo::Double(v) => ConstantInfoView::Double(*v),
            ConstantInfo::Utf8(s) => ConstantInfoView::Utf8(s@),
            ConstantInfo::String { utf8_i } => ConstantInfoView::String { utf8_i: *utf8_i },
            ConstantInfo::Class { name_i } => ConstantInfoView::Class { name_i: *name_i },
            ConstantInfo::NameAndType { name_i, desc_i } => ConstantInfoView::NameAndType {
                name_i: *name_i,
                desc_i: *desc_i,
            },
            ConstantInfo::FieldRef { class_i, name_type_i } => ConstantInfoView::FieldRef {
                class_i: *class_i,
                name_type_i: *name_type_i,
            },
            ConstantInfo::MethodRef { class_i, name_type_i } => ConstantInfoView::MethodRef {
                class_i: *class_i,
                name_type_i: *name_type_i,
            },
            ConstantInfo::IFaceMethodRef {
                class_i,
                name_type_i,
            } => ConstantInfoView::IFaceMethodRef { class_i: *class_i, name_type_i: *name_type_i },
            ConstantInfo::InvokeDynamic {
                boot_i,
                name_type_i,
            } => ConstantInfoView::InvokeDynamic { boot_i: *boot_i, name_type_i: *name_type_i },
            ConstantInfo::MethodHandle { ref_kind, ref_i } => ConstantInfoView::MethodHandle {
                ref_kind: *ref_kind,
                ref_i: *ref_i,
            },
            ConstantInfo::MethodType { desc_i } => ConstantInfoView::MethodType {
                desc_i: *desc_i,
            },
        }
    }
}

/// The pool of one class.
#[derive(Debug)]
pub struct ConstantPool {
    pub infos: Vec<ConstantInfo>,
}

impl View for ConstantPool {
    type V = Seq<ConstantInfoView>;

    open spec fn view(&self) -> Seq<ConstantInfoView> {
        Seq::new(self.infos@.len(), |i: int| self.infos@[i]@)
    }
}

/// A pool entry as a value that can be pushed.
#[derive(Debug)]
pub enum Constant<'a> {
    /// The bits of a number, and whether it is a 64-bit one.
    Primitive(u64, bool),
    /// A class, by the index of its name.
    ClassRef(u16),
    /// A string literal.
    String(&'a str),
}

/// The mathematical value of a [`Constant`].
pub ghost enum ConstantView {
    Primitive(u64, bool),
    ClassRef(u16),
    String(Seq<char>),
}

impl<'a> View for Constant<'a> {
    type V = ConstantView;

    open spec fn view(&self) -> ConstantView {
        match self {
            Constant::Primitive(v, w) => ConstantView::Primitive(*v, *w),
            Constant::ClassRef(i) => ConstantView::ClassRef(*i),
            Constant::String(s) => ConstantView::String(s@),
        }
    }
}

/// The text of the UTF-8 entry at `i`.
pub open spec fn pool_utf8(p: Seq<ConstantInfoView>, i: int) -> Option<Seq<char>> {
    if 0 <= i < p.len() {
        match p[i] {
            ConstantInfoView::Utf8(s) => Some(s),
            _ => None,
        }
    } else {
        None
    }
}

/// The name of the class entry at `i`.
pub open spec fn pool_class(p: Seq<ConstantInfoView>, i: int) -> Option<Seq<char>> {
    if 0 <= i < p.len() {
        match p[i] {
            ConstantInfoView::Class { name_i } => pool_utf8(p, name_i as int),
            _ => None,
        }
    } else {
        None
    }
}

/// The text of the string entry at `i`.
pub open spec fn pool_string(p: Seq<ConstantInfoView>, i: int) -> Option<Seq<char>> {
    if 0 <= i < p.len() {
        match p[i] {
            ConstantInfoView::String { utf8_i } => pool_utf8(p, utf8_i as int),
            _ => None,
        }
    } else {
        None
    }
}

/// The (name, descriptor) of the name-and-type entry at `i`.
pub open spec fn pool_name_type(p: Seq<ConstantInfoView>, i: int) -> Option<
    (Seq<char>, Seq<char>),
> {
    if 0 <= i < p.len() {
        match p[i] {
            ConstantInfoView::NameAndType { name_i, desc_i } => match (
                pool_utf8(p, name_i as int),
                pool_utf8(p, desc_i as int),
            ) {
                (Some(n), Some(d)) => Some((n, d)),
                _ => None,
            },
            _ => None,
        }
    } else {
        None
    }
}

/// Which kind of member reference is asked for.
#[derive(Clone, Copy, PartialEq, Eq, Structural, Debug)]
pub enum RefKind {
    Field,
    Method,
    IFaceMethod,
}

/// The (class index, name-and-type index) of the member reference of
/// kind `k` at `i`.
pub open spec fn pool_member_indices(p: Seq<ConstantInfoView>, k: RefKind, i: int) -> Option<
    (u16, u16),
> {
    if 0 <= i < p.len() {
        match (p[i], k) {
            (ConstantInfoView::FieldRef { class_i, name_type_i }, RefKind::Field) => Some(
                (class_i, name_type_i),
            ),
            (ConstantInfoView::MethodRef { class_i, name_type_i }, RefKind::Method) => Some(
                (class_i, name_type_i),
            ),
            (
                ConstantInfoView::IFaceMethodRef { class_i, name_type_i },
                RefKind::IFaceMethod,
            ) => Some((class_i, name_type_i)),
            _ => None,
        }
    } else {
        None
    }
}

/// The (class name, member name, descriptor) that the member reference of
/// kind `k` at `i` leads to.
pub open spec fn pool_member(p: Seq<ConstantInfoView>, k: RefKind, i: int) -> Option<
    (Seq<char>, Seq<char>, Seq<char>),
> {
    match pool_member_indices(p, k, i) {
        None => None,
        Some((class_i, name_type_i)) => match (
            pool_name_type(p, name_type_i as int),
            pool_class(p, class_i as int),
        ) {
            (Some((n, d)), Some(c)) => Some((c, n, d)),
            _ => None,
        },
    }
}

/// The entry at `i` as a value that can be pushed.
pub open spec fn pool_constant(p: Seq<ConstantInfoView>, i: int) -> Option<ConstantView> {
    if 0 <= i < p.len() {
        match p[i] {
            ConstantInfoView::Integer(j) => Some(ConstantView::Primitive(j as u64, false)),
            ConstantInfoView::Float(j) => Some(ConstantView::Primitive(j as u64, false)),
            ConstantInfoView::Long(j) => Some(ConstantView::Primitive(j, true)),
            ConstantInfoView::Double(j) => Some(ConstantView::Primitive(j, true)),
            ConstantInfoView::Class { name_i } => Some(ConstantView::ClassRef(name_i)),
            ConstantInfoView::String { utf8_i } => match pool_utf8(p, utf8_i as int) {
                Some(s) => Some(ConstantView::String(s)),
                None => None,
            },
            _ => None,
        }
    } else {
        None
    }
}

/// Whether an entry takes two pool slots.
pub open spec fn is_wide_entry(c: ConstantInfoView) -> bool {
    c is Long || c is Double
}

/// Behind every 64-bit entry that is not the last slot lies a blank one.
pub open spec fn wide_rule(p: Seq<ConstantInfoView>) -> bool {
    forall|i: int| 0 <= i && i + 1 < p.len() && is_wide_entry(#[trigger] p[i]) ==> p[i + 1] is Blank
}

impl ConstantPool {
    /// A pool over the given entries.
    pub fn new(infos: Vec<ConstantInfo>) -> (r: ConstantPool)
        ensures
            r.infos == infos,
    {
        ConstantPool { infos }
    }

    /// The text of the UTF-8 entry at `i`; `None` where `i` is no such
    /// entry.
    pub fn utf8(&self, i: usize) -> (r: Option<&str>)
        ensures
            r is Some == pool_utf8(self@, i as int) is Some,
            r is Some ==> r.unwrap()@ == pool_utf8(self@, i as int).unwrap(),
    {
        if i >= self.infos.len() {
            return None;
        }
        match &self.infos[i] {
            ConstantInfo::Utf8(a) => Some(a.as_str()),
            _ => None,
        }
    }

    /// The name of the class entry at `i`.
    pub fn class(&self, i: usize) -> (r: Option<&str>)
        ensures
            r is Some == pool_class(self@, i as int) is Some,
            r is Some ==> r.unwrap()@ == pool_class(self@, i as int).unwrap(),
    {
        if i >= self.infos.len() {
            return None;
        }
        match &self.infos[i] {
            ConstantInfo::Class { name_i } => self.utf8(*name_i as usize),
            _ => None,
        }
    }

    /// The integer entry at `i`.
    pub fn u32(&self, i: usize) -> (r: Option<u32>)
        ensures
            r == (if i < self@.len() && self@[i as int] is Integer {
                Some(self@[i as int]->Integer_0)
            } else {
                None
            }),
    {
        if i >= self.infos.len() {
            return None;
        }
        match &self.infos[i] {
            ConstantInfo::Integer(j) => Some(*j),
            _ => None,
        }
    }

    /// The long entry at `i`.
    pub fn u64(&self, i: usize) -> (r: Option<u64>)
        ensures
            r == (if i < self@.len() && self@[i as int] is Long {
                Some(self@[i as int]->Long_0)
            } else {
                None
            }),
    {
        if i >= self.infos.len() {
            return None;
        }
        match &self.infos[i] {
            ConstantInfo::Long(j) => Some(*j),
            _ => None,
        }
    }

    /// The bits of the single-precision entry at `i`.
    pub fn float_bits(&self, i: usize) -> (r: Option<u32>)
        ensures
            r == (if i < self@.len() && self@[i as int] is Float {
                Some(self@[i as int]->Float_0)
            } else {
                None
            }),
    {
        if i >= self.infos.len() {
            return None;
        }
        match &self.infos[i] {
            ConstantInfo::Float(j) => Some(*j),
            _ => None,
        }
    }

    /// The bits of the double-precision entry at `i`.
    pub fn double_bits(&self, i: usize) -> (r: Option<u64>)
        ensures
            r == (if i < self@.len() && self@[i as int] is Double {
                Some(self@[i as int]->Double_0)
            } else {
                None
            }),
    {
        if i >= self.infos.len() {
            return None;
        }
        match &self.infos[i] {
            ConstantInfo::Double(j) => Some(*j),
            _ => None,
        }
    }

    /// The text of the string entry at `i`.
    pub fn string(&self, i: usize) -> (r: Option<&str>)
        ensures
            r is Some == pool_string(self@, i as int) is Some,
            r is Some ==> r.unwrap()@ == pool_string(self@, i as int).unwrap(),
    {
        if i >= self.infos.len() {
            return None;
        }
        match &self.infos[i] {
            ConstantInfo::String { utf8_i } => self.utf8(*utf8_i as usize),
            _ => None,
        }
    }

    /// The entry at `i` as a value that can be pushed; `None` for any
    /// other kind of entry.
    pub fn constant(&self, i: usize) -> (r: Option<Constant<'_>>)
        ensures
            r is Some == pool_constant(self@, i as int) is Some,
            r is Some ==> r.unwrap()@ == pool_constant(self@, i as int).unwrap(),
    {
        if i >= self.infos.len() {
            return None;
        }
        match &self.infos[i] {
            ConstantInfo::Integer(j) => Some(Constant::Primitive(*j as u64, false)),
            ConstantInfo::Float(j) => Some(Constant::Primitive(*j as u64, false)),
            ConstantInfo::Long(j) => Some(Constant::Primitive(*j, true)),
            ConstantInfo::Double(j) => Some(Constant::Primitive(*j, true)),
            ConstantInfo::Class { name_i } => Some(Constant::ClassRef(*name_i)),
            ConstantInfo::String { utf8_i } => match self.utf8(*utf8_i as usize) {
                Some(s) => Some(Constant::String(s)),
                None => None,
            },
            _ => None,
        }
    }

    /// Follows the member reference of kind `k` at `i` to its class name,
    /// member name and descriptor.
    pub fn member_ref(&self, k: RefKind, i: usize) -> (r: Option<(&str, &str, &str)>)
        ensures
            r is Some == pool_member(self@, k, i as int) is Some,
            r is Some ==> ({
                let t = r.unwrap();
                let m = pool_member(self@, k, i as int).unwrap();
                t.0@ == m.0 && t.1@ == m.1 && t.2@ == m.2
            }),
    {
        if i >= self.infos.len() {
            return None;
        }
        let j: (u16, u16) = match (&self.infos[i], k) {
            (ConstantInfo::FieldRef { class_i, name_type_i }, RefKind::Field) => (
                *class_i,
                *name_type_i,
            ),
            (ConstantInfo::MethodRef { class_i, name_type_i }, RefKind::Method) => (
                *class_i,
                *name_type_i,
            ),
            (ConstantInfo::IFaceMethodRef { class_i, name_type_i }, RefKind::IFaceMethod) => (
                *class_i,
                *name_type_i,
            ),
            _ => {
                return None;
            },
        };
        if j.1 as usize >= self.infos.len() {
            return None;
        }
        let name_type: (u16, u16) = match &self.infos[j.1 as usize] {
            ConstantInfo::NameAndType { name_i, desc_i } => (*name_i, *desc_i),
            _ => {
                return None;
            },
        };
        let name = match self.utf8(name_type.0 as usize) {
            Some(n) => n,
            None => {
                return None;
            },
        };
        let desc = match self.utf8(name_type.1 as usize) {
            Some(d) => d,
            None => {
                return None;
            },
        };
        match self.class(j.0 as usize) {
            Some(c) => Some((c, name, desc)),
            None => None,
        }
    }

    /// The class name, field name and descriptor behind the field
    /// reference at `i`.
    pub fn field_ref(&self, i: usize) -> (r: Option<(&str, &str, &str)>)
        ensures
            r is Some == pool_member(self@, RefKind::Field, i as int) is Some,
            r is Some ==> ({
                let t = r.unwrap();
                let m = pool_member(self@, RefKind::Field, i as int).unwrap();
                t.0@ == m.0 && t.1@ == m.1 && t.2@ == m.2
            }),
    {
        self.member_ref(RefKind::Field, i)
    }

    /// The class name, method name and descriptor behind the method
    /// reference at `i`.
    pub fn method_ref(&self, i: usize) -> (r: Option<(&str, &str, &str)>)
        ensures
            r is Some == pool_member(self@, RefKind::Method, i as int) is Some,
            r is Some ==> ({
                let t = r.unwrap();
                let m = pool_member(self@, RefKind::Method, i as int).unwrap();
                t.0@ == m.0 && t.1@ == m.1 && t.2@ == m.2
            }),
    {
        self.member_ref(RefKind::Method, i)
    }

    /// The class name, method name and descriptor behind the
    /// interface-method reference at `i`.
    pub fn iface_ref(&self, i: usize) -> (r: Option<(&str, &str, &str)>)
        ensures
            r is Some == pool_member(self@, RefKind::IFaceMethod, i as int) is Some,
            r is Some ==> ({
                let t = r.unwrap();
                let m = pool_member(self@, RefKind::IFaceMethod, i as int).unwrap();
                t.0@ == m.0 && t.1@ == m.1 && t.2@ == m.2
            }),
    {
        self.member_ref(RefKind::IFaceMethod, i)
    }

    /// The number of slots, the blank slot 0 included.
    pub fn len(&self) -> (r: usize)
        ensures
            r == self@.len(),
    {
        self.infos.len()
    }
}

} // verus!
