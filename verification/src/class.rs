//! The class model: classes, their members, and the table of loaded
//! classes with the lookups and the assignability relation that run
//! over it. Classes refer to each other by their ids, which are their
//! positions in the table.

use vstd::prelude::*;
use vstd::string::*;
use crate::attr::{AttrInfo, AttrInfoView, attr_views};
use crate::classfile::{MemberInfo, MemberInfoView};
use crate::cp::ConstantPool;
use crate::desc::{JType, MethodDescriptor};
use crate::flags::{AccessFlags, ACC_STATIC, ACC_INTERFACE};
use crate::frame::MemberRef;
use crate::text::str_eq;

verus! {

/// A field or a method of a loaded class.
#[derive(Debug)]
pub struct ClassMember {
    pub access_flags: AccessFlags,
    pub name: String,
    pub desc: String,
    pub max_stack: usize,
    pub max_locals: usize,
    pub code: Vec<u8>,
    /// The pool index of the constant that seeds a field, 0 for none.
    pub cons_i: usize,
    /// For a field, its index in the static or the instance layout.
    pub id: usize,
    /// The id of the owning class.
    pub class: usize,
    pub m_desc: MethodDescriptor,
}

/// A resolved symbolic reference.
#[derive(Debug)]
pub struct SymRef {
    /// The id of the class referred to.
    pub class: usize,
    pub name: String,
    pub desc: String,
    /// The member referred to; `None` for a class reference and for a
    /// member that the class does not have.
    pub member: Option<MemberRef>,
}

/// A loaded class.
#[derive(Debug)]
pub struct Class {
    pub access_flags: AccessFlags,
    pub name: String,
    pub desc: String,
    pub super_name: String,
    pub iface_names: Vec<String>,
    pub cp: ConstantPool,
    pub fields: Vec<ClassMember>,
    pub methods: Vec<ClassMember>,
    pub super_class: Option<usize>,
    pub interfaces: Vec<usize>,
    /// The static fields in declaration order, by their indices among
    /// `fields`.
    pub static_fields: Vec<usize>,
    pub static_vars: Vec<u64>,
    /// The instance fields: those of the superclass first, then the
    /// class's own.
    pub ins_fields: Vec<MemberRef>,
    /// One slot per pool slot, filled when the reference is first
    /// resolved.
    pub sym_refs: Vec<Option<SymRef>>,
    pub id: usize,
    pub initialized: bool,
    /// For an array class, the class of its elements.
    pub element_class: Option<usize>,
    /// For an array class, the number of its dimensions.
    pub dim: u8,
    /// The object that mirrors the class, 0 while it has none.
    pub j_class: u64,
}

/// The last `Code` attribute of a list.
pub open spec fn last_code(attrs: Seq<AttrInfoView>) -> Option<crate::attr::CodeView>
    decreases attrs.len(),
{
    if attrs.len() == 0 {
        None
    } else {
        match attrs.last() {
            AttrInfoView::Code(c) => Some(c),
            _ => last_code(attrs.drop_last()),
        }
    }
}

/// The index that the last `ConstantValue` attribute of a list holds, 0
/// where there is none.
pub open spec fn last_const(attrs: Seq<AttrInfoView>) -> int
    decreases attrs.len(),
{
    if attrs.len() == 0 {
        0
    } else {
        match attrs.last() {
            AttrInfoView::ConstantValue(i) => i as int,
            _ => last_const(attrs.drop_last()),
        }
    }
}

/// Whether `m` is the member that the class file describes by `info`:
/// the same flags, name and descriptor; the limits and the bytecode of
/// the last `Code` attribute; the index of the last `ConstantValue`; no
/// id, owner or parsed descriptor yet.
pub open spec fn member_of(m: ClassMember, info: MemberInfoView) -> bool {
    &&& m.access_flags.0 == info.access_flags
    &&& m.name@ == info.name
    &&& m.desc@ == info.desc
    &&& match last_code(info.attrs) {
        Some(c) => m.code@ == c.code && m.max_stack == c.max_stack && m.max_locals
            == c.max_locals,
        None => m.code@.len() == 0 && m.max_stack == 0 && m.max_locals == 0,
    }
    &&& m.cons_i == last_const(info.attrs)
    &&& m.id == 0
    &&& m.class == 0
    &&& m.m_desc.params@.len() == 0
    &&& m.m_desc.ret == JType::V
    &&& m.m_desc.arg_slots == 0
}

impl ClassMember {
    /// The member that a class file describes.
    pub fn from_info(m: MemberInfo) -> (r: ClassMember)
        ensures
            member_of(r, m@),
    {
        let MemberInfo { access_flags, name_i, desc_i, name, desc, attrs } = m;
        let mut r = ClassMember {
            access_flags: AccessFlags(access_flags),
            name,
            desc,
            max_stack: 0,
            max_locals: 0,
            code: Vec::new(),
            cons_i: 0,
            id: 0,
            class: 0,
            m_desc: MethodDescriptor { params: Vec::new(), ret: JType::V, arg_slots: 0 },
        };
        let ghost av = attr_views(attrs@);
        let mut attrs = attrs;
        let ghost n = attrs@.len();
        let mut code_rev: Option<crate::attr::Code> = None;
        let mut cons_rev: Option<u16> = None;
        proof {
            assert(av.take(n as int) =~= av);
        }
        // Walk from the end, so that the last attribute of each kind is
        // the one that is kept.
        while attrs.len() > 0
            invariant
                attrs@.len() <= n,
                av.len() == n,
                attr_views(attrs@) == av.take(attrs@.len() as int),
                match code_rev {
                    Some(c) => last_code(av) == Some(c@),
                    None => last_code(av) == last_code(av.take(attrs@.len() as int)),
                },
                match cons_rev {
                    Some(i) => last_const(av) == i as int,
                    None => last_const(av) == last_const(av.take(attrs@.len() as int)),
                },
            decreases attrs@.len(),
        {
            let ghost before = attrs@;
            let a = attrs.pop().unwrap();
            proof {
                let k = before.len() as int;
                assert(av.take(k).last() == a@);
                assert(av.take(k).drop_last() =~= av.take(k - 1));
                assert(attr_views(attrs@) =~= av.take(k - 1));
            }
            match a {
                AttrInfo::Code(c) => {
                    proof {
                        crate::attr::lemma_code_attr_view(c);
                    }
                    if code_rev.is_none() {
                        code_rev = Some(c);
                    }
                },
                AttrInfo::ConstantValue(i) => {
                    if cons_rev.is_none() {
                        cons_rev = Some(i);
                    }
                },
                _ => {},
            }
        }
        proof {
            assert(av.take(0) =~= Seq::<AttrInfoView>::empty());
        }
        match code_rev {
            Some(c) => {
                r.max_stack = c.max_stack as usize;
                r.max_locals = c.max_locals as usize;
                r.code = c.code;
            },
            None => {},
        }
        match cons_rev {
            Some(i) => {
                r.cons_i = i as usize;
            },
            None => {},
        }
        r
    }

    /// Whether the member has this name and this descriptor.
    pub open spec fn is_named(&self, name: Seq<char>, desc: Seq<char>) -> bool {
        self.name@ == name && self.desc@ == desc
    }
}

/// The index of the first member from `from` on that has this name and
/// this descriptor.
pub open spec fn find_member(ms: Seq<ClassMember>, name: Seq<char>, desc: Seq<char>, from: int)
    -> Option<int>
    decreases ms.len() - from,
{
    if from < 0 || from >= ms.len() {
        None
    } else if ms[from].is_named(name, desc) {
        Some(from)
    } else {
        find_member(ms, name, desc, from + 1)
    }
}

/// A member that is found lies in the list, at or behind where the
/// search started.
pub proof fn lemma_find_member_bound(
    ms: Seq<ClassMember>,
    name: Seq<char>,
    desc: Seq<char>,
    from: int,
)
    requires
        find_member(ms, name, desc, from) is Some,
    ensures
        from <= find_member(ms, name, desc, from).unwrap() < ms.len(),
        ms[find_member(ms, name, desc, from).unwrap()].is_named(name, desc),
    decreases ms.len() - from,
{
    if 0 <= from < ms.len() && !ms[from].is_named(name, desc) {
        lemma_find_member_bound(ms, name, desc, from + 1);
    }
}

/// Finds the first member with this name and this descriptor.
pub fn find_in(ms: &Vec<ClassMember>, name: &str, desc: &str) -> (r: Option<usize>)
    ensures
        r is Some == find_member(ms@, name@, desc@, 0) is Some,
        r is Some ==> r.unwrap() == find_member(ms@, name@, desc@, 0).unwrap(),
        r is Some ==> r.unwrap() < ms@.len(),
{
    let mut i: usize = 0;
    while i < ms.len()
        invariant
            i <= ms@.len(),
            find_member(ms@, name@, desc@, 0) == find_member(ms@, name@, desc@, i as int),
        decreases ms@.len() - i,
    {
        if str_eq(ms[i].name.as_str(), name) && str_eq(ms[i].desc.as_str(), desc) {
            return Some(i);
        }
        i += 1;
    }
    None
}

/// The table of loaded classes.
pub struct ClassLoader {
    /// All classes; a class's id is its position here.
    pub classes: Vec<Class>,
    /// The names under which classes are found, each with a class id.
    pub loaded: Vec<(String, usize)>,
    /// The id of `java/lang/Class`, once it is loaded.
    pub jclass: Option<usize>,
    /// The id of `java/lang/String`, once it is loaded.
    pub jstring: Option<usize>,
}

impl ClassLoader {
    /// The class that `name` was first recorded for, from entry `from`
    /// on.
    pub open spec fn find_from(&self, name: Seq<char>, from: int) -> Option<usize>
        decreases self.loaded@.len() - from,
    {
        if from < 0 || from >= self.loaded@.len() {
            None
        } else if self.loaded@[from].0@ == name {
            Some(self.loaded@[from].1)
        } else {
            self.find_from(name, from + 1)
        }
    }

    /// The class that is loaded under `name`.
    pub open spec fn spec_find(&self, name: Seq<char>) -> Option<usize> {
        self.find_from(name, 0)
    }

    /// Looks a loaded class up by a name it is recorded under.
    pub fn find(&self, name: &str) -> (r: Option<usize>)
        ensures
            r == self.spec_find(name@),
    {
        let mut i: usize = 0;
        while i < self.loaded.len()
            invariant
                i <= self.loaded@.len(),
                self.spec_find(name@) == self.find_from(name@, i as int),
            decreases self.loaded@.len() - i,
        {
            if str_eq(self.loaded[i].0.as_str(), name) {
                return Some(self.loaded[i].1);
            }
            i += 1;
        }
        None
    }

    /// The class with this id.
    pub fn get(&self, id: usize) -> (r: Option<&Class>)
        ensures
            r is Some == (id < self.classes@.len()),
            r is Some ==> *r.unwrap() == self.classes@[id as int],
    {
        if id < self.classes.len() {
            Some(&self.classes[id])
        } else {
            None
        }
    }

    /// The method that `m` links to.
    pub open spec fn spec_method(&self, m: MemberRef) -> Option<ClassMember> {
        if m.class < self.classes@.len() && m.index < self.classes@[m.class as int].methods@.len() {
            Some(self.classes@[m.class as int].methods@[m.index as int])
        } else {
            None
        }
    }

    /// The method that `m` links to.
    pub fn method(&self, m: MemberRef) -> (r: Option<&ClassMember>)
        ensures
            r is Some == self.spec_method(m) is Some,
            r is Some ==> *r.unwrap() == self.spec_method(m).unwrap(),
    {
        if m.class < self.classes.len() && m.index < self.classes[m.class].methods.len() {
            Some(&self.classes[m.class].methods[m.index])
        } else {
            None
        }
    }

    /// The field that `m` links to.
    pub open spec fn spec_field(&self, m: MemberRef) -> Option<ClassMember> {
        if m.class < self.classes@.len() && m.index < self.classes@[m.class as int].fields@.len() {
            Some(self.classes@[m.class as int].fields@[m.index as int])
        } else {
            None
        }
    }

    /// The field that `m` links to.
    pub fn field(&self, m: MemberRef) -> (r: Option<&ClassMember>)
        ensures
            r is Some == self.spec_field(m) is Some,
            r is Some ==> *r.unwrap() == self.spec_field(m).unwrap(),
    {
        if m.class < self.classes.len() && m.index < self.classes[m.class].fields.len() {
            Some(&self.classes[m.class].fields[m.index])
        } else {
            None
        }
    }

    /// The first method with this name and descriptor on the way from
    /// class `c` up its superclasses.
    pub open spec fn spec_lookup_method_in_class(&self, c: int, name: Seq<char>, desc: Seq<char>)
        -> Option<MemberRef>
        decreases c,
    {
        if c < 0 || c >= self.classes@.len() {
            None
        } else {
            match find_member(self.classes@[c].methods@, name, desc, 0) {
                Some(k) => Some(MemberRef { class: c as usize, index: k as usize }),
                None => match self.classes@[c].super_class {
                    Some(s) => if s < c {
                        self.spec_lookup_method_in_class(s as int, name, desc)
                    } else {
                        None
                    },
                    None => None,
                },
            }
        }
    }

    /// Walks from class `c` up its superclasses and returns the first
    /// method with this name and descriptor.
    pub fn lookup_method_in_class(&self, c: usize, name: &str, desc: &str) -> (r: Option<MemberRef>)
        ensures
            r == self.spec_lookup_method_in_class(c as int, name@, desc@),
    {
        let mut cur: usize = c;
        loop
            invariant
                self.spec_lookup_method_in_class(c as int, name@, desc@)
                    == self.spec_lookup_method_in_class(cur as int, name@, desc@),
            decreases cur,
        {
            if cur >= self.classes.len() {
                return None;
            }
            match find_in(&self.classes[cur].methods, name, desc) {
                Some(k) => {
                    return Some(MemberRef { class: cur, index: k });
                },
                None => {},
            }
            match self.classes[cur].super_class {
                Some(s) => {
                    if s < cur {
                        cur = s;
                    } else {
                        return None;
                    }
                },
                None => {
                    return None;
                },
            }
        }
    }

    /// The first method with this name and descriptor among the methods
    /// of interface `c` and, in turn, of its super-interfaces.
    pub open spec fn spec_lookup_iface_method(&self, c: int, name: Seq<char>, desc: Seq<char>)
        -> Option<MemberRef>
        decreases c, 1nat, 0nat,
    {
        if c < 0 || c >= self.classes@.len() {
            None
        } else {
            match find_member(self.classes@[c].methods@, name, desc, 0) {
                Some(k) => Some(MemberRef { class: c as usize, index: k as usize }),
                None => self.spec_lookup_in_ifaces(c, 0, name, desc),
            }
        }
    }

    /// The first hit of `spec_lookup_iface_method` among the interfaces
    /// of class `c`, from its interface number `k` on.
    pub open spec fn spec_lookup_in_ifaces(&self, c: int, k: int, name: Seq<char>, desc: Seq<char>)
        -> Option<MemberRef>
        decreases c, 0nat, self.classes@[c].interfaces@.len() - k,
    {
        if c < 0 || c >= self.classes@.len() || k < 0 || k >= self.classes@[c].interfaces@.len() {
            None
        } else {
            let i = self.classes@[c].interfaces@[k];
            let hit = if i < c {
                self.spec_lookup_iface_method(i as int, name, desc)
            } else {
                None
            };
            match hit {
                Some(m) => Some(m),
                None => self.spec_lookup_in_ifaces(c, k + 1, name, desc),
            }
        }
    }

    /// Searches the interfaces of class `c` and their super-interfaces.
    fn lookup_method_in_ifaces(&self, c: usize, name: &str, desc: &str) -> (r: Option<MemberRef>)
        requires
            c < self.classes@.len(),
        ensures
            r == self.spec_lookup_in_ifaces(c as int, 0, name@, desc@),
        decreases c, 0nat,
    {
        let mut k: usize = 0;
        while k < self.classes[c].interfaces.len()
            invariant
                c < self.classes@.len(),
                k <= self.classes@[c as int].interfaces@.len(),
                self.spec_lookup_in_ifaces(c as int, 0, name@, desc@) == self.spec_lookup_in_ifaces(
                    c as int,
                    k as int,
                    name@,
                    desc@,
                ),
            decreases self.classes@[c as int].interfaces@.len() - k,
        {
            let i: usize = self.classes[c].interfaces[k];
            if i < c {
                match self.lookup_iface_method(i, name, desc) {
                    Some(m) => {
                        return Some(m);
                    },
                    None => {},
                }
            }
            k += 1;
        }
        None
    }

    /// Searches the methods of interface `c`, then its super-interfaces.
    pub fn lookup_iface_method(&self, c: usize, name: &str, desc: &str) -> (r: Option<MemberRef>)
        ensures
            r == self.spec_lookup_iface_method(c as int, name@, desc@),
        decreases c, 1nat,
    {
        if c >= self.classes.len() {
            return None;
        }
        match find_in(&self.classes[c].methods, name, desc) {
            Some(k) => Some(MemberRef { class: c, index: k }),
            None => self.lookup_method_in_ifaces(c, name, desc),
        }
    }

    /// The method that a search from class `c` finds: on the way up the
    /// superclasses first, then among the interfaces of `c`.
    pub open spec fn spec_lookup_method(&self, c: int, name: Seq<char>, desc: Seq<char>) -> Option<
        MemberRef,
    > {
        match self.spec_lookup_method_in_class(c, name, desc) {
            Some(m) => Some(m),
            None => self.spec_lookup_in_ifaces(c, 0, name, desc),
        }
    }

    /// Searches the class chain, then the interfaces.
    pub fn lookup_method(&self, c: usize, name: &str, desc: &str) -> (r: Option<MemberRef>)
        ensures
            r == self.spec_lookup_method(c as int, name@, desc@),
    {
        match self.lookup_method_in_class(c, name, desc) {
            Some(m) => Some(m),
            None => if c < self.classes.len() {
                self.lookup_method_in_ifaces(c, name, desc)
            } else {
                None
            },
        }
    }

    /// The field that a search from class `c` finds: among its own
    /// fields, then in each of its interfaces in turn, then in its
    /// superclass.
    pub open spec fn spec_lookup_field(&self, c: int, name: Seq<char>, desc: Seq<char>) -> Option<
        MemberRef,
    >
        decreases c, 1nat, 0nat,
    {
        if c < 0 || c >= self.classes@.len() {
            None
        } else {
            match find_member(self.classes@[c].fields@, name, desc, 0) {
                Some(k) => Some(MemberRef { class: c as usize, index: k as usize }),
                None => match self.spec_field_in_ifaces(c, 0, name, desc) {
                    Some(m) => Some(m),
                    None => match self.classes@[c].super_class {
                        Some(s) => if s < c {
                            self.spec_lookup_field(s as int, name, desc)
                        } else {
                            None
                        },
                        None => None,
                    },
                },
            }
        }
    }

    /// The first hit of `spec_lookup_field` among the interfaces of class
    /// `c`, from its interface number `k` on.
    pub open spec fn spec_field_in_ifaces(&self, c: int, k: int, name: Seq<char>, desc: Seq<char>)
        -> Option<MemberRef>
        decreases c, 0nat, self.classes@[c].interfaces@.len() - k,
    {
        if c < 0 || c >= self.classes@.len() || k < 0 || k >= self.classes@[c].interfaces@.len() {
            None
        } else {
            let i = self.classes@[c].interfaces@[k];
            let hit = if i < c {
                self.spec_lookup_field(i as int, name, desc)
            } else {
                None
            };
            match hit {
                Some(m) => Some(m),
                None => self.spec_field_in_ifaces(c, k + 1, name, desc),
            }
        }
    }

    /// Searches the fields of class `c`, then its interfaces, then its
    /// superclass.
    pub fn lookup_field(&self, c: usize, name: &str, desc: &str) -> (r: Option<MemberRef>)
        ensures
            r == self.spec_lookup_field(c as int, name@, desc@),
        decreases c,
    {
        if c >= self.classes.len() {
            return None;
        }
        match find_in(&self.classes[c].fields, name, desc) {
            Some(k) => {
                return Some(MemberRef { class: c, index: k });
            },
            None => {},
        }
        let mut k: usize = 0;
        while k < self.classes[c].interfaces.len()
            invariant
                c < self.classes@.len(),
                k <= self.classes@[c as int].interfaces@.len(),
                find_member(self.classes@[c as int].fields@, name@, desc@, 0) is None,
                self.spec_field_in_ifaces(c as int, 0, name@, desc@) == self.spec_field_in_ifaces(
                    c as int,
                    k as int,
                    name@,
                    desc@,
                ),
            decreases self.classes@[c as int].interfaces@.len() - k,
        {
            let i: usize = self.classes[c].interfaces[k];
            if i < c {
                match self.lookup_field(i, name, desc) {
                    Some(m) => {
                        return Some(m);
                    },
                    None => {},
                }
            }
            k += 1;
        }
        match self.classes[c].super_class {
            Some(s) => if s < c {
                self.lookup_field(s, name, desc)
            } else {
                None
            },
            None => None,
        }
    }

    /// Whether `other` lies on the way from class `c` up its
    /// superclasses, `c` itself not counted.
    pub open spec fn spec_is_sub_class(&self, c: int, other: int) -> bool
        decreases c,
    {
        if c < 0 || c >= self.classes@.len() {
            false
        } else {
            match self.classes@[c].super_class {
                Some(s) => s == other || (s < c && self.spec_is_sub_class(s as int, other)),
                None => false,
            }
        }
    }

    /// Whether class `c` is a subclass of class `other`.
    pub fn is_sub_class(&self, c: usize, other: usize) -> (r: bool)
        ensures
            r == self.spec_is_sub_class(c as int, other as int),
    {
        let mut cur: usize = c;
        loop
            invariant
                self.spec_is_sub_class(c as int, other as int) == self.spec_is_sub_class(
                    cur as int,
                    other as int,
                ),
            decreases cur,
        {
            if cur >= self.classes.len() {
                return false;
            }
            match self.classes[cur].super_class {
                Some(s) => {
                    if s == other {
                        return true;
                    }
                    if s < cur {
                        cur = s;
                    } else {
                        return false;
                    }
                },
                None => {
                    return false;
                },
            }
        }
    }

    /// Whether `iface` is an interface of class `c` or a super-interface
    /// of one, looking at the interfaces of `c` from number `k` on.
    pub open spec fn spec_sub_iface_from(&self, c: int, k: int, iface: int) -> bool
        decreases c, self.classes@[c].interfaces@.len() - k,
    {
        if c < 0 || c >= self.classes@.len() || k < 0 || k >= self.classes@[c].interfaces@.len() {
            false
        } else {
            let i = self.classes@[c].interfaces@[k];
            i == iface || (i < c && self.spec_sub_iface_from(i as int, 0, iface))
                || self.spec_sub_iface_from(c, k + 1, iface)
        }
    }

    /// Whether `iface` is an interface of class `c` or a super-interface
    /// of one.
    pub open spec fn spec_is_sub_iface(&self, c: int, iface: int) -> bool {
        self.spec_sub_iface_from(c, 0, iface)
    }

    /// Whether `iface` is reached from class `c` through its interfaces
    /// and their super-interfaces.
    pub fn is_sub_iface(&self, c: usize, iface: usize) -> (r: bool)
        ensures
            r == self.spec_is_sub_iface(c as int, iface as int),
        decreases c,
    {
        if c >= self.classes.len() {
            return false;
        }
        let mut k: usize = 0;
        while k < self.classes[c].interfaces.len()
            invariant
                c < self.classes@.len(),
                k <= self.classes@[c as int].interfaces@.len(),
                self.spec_sub_iface_from(c as int, 0, iface as int) == self.spec_sub_iface_from(
                    c as int,
                    k as int,
                    iface as int,
                ),
            decreases self.classes@[c as int].interfaces@.len() - k,
        {
            let i: usize = self.classes[c].interfaces[k];
            if i == iface {
                return true;
            }
            if i < c && self.is_sub_iface(i, iface) {
                return true;
            }
            k += 1;
        }
        false
    }

    /// Whether class `c` or one of its superclasses has `iface` among its
    /// interfaces or their super-interfaces.
    pub open spec fn spec_is_impl(&self, c: int, iface: int) -> bool
        decreases c,
    {
        if c < 0 || c >= self.classes@.len() {
            false
        } else {
            self.spec_is_sub_iface(c, iface) || match self.classes@[c].super_class {
                Some(s) => s < c && self.spec_is_impl(s as int, iface),
                None => false,
            }
        }
    }

    /// Whether class `c` implements `iface`, itself or through a
    /// super-interface or a superclass.
    pub fn is_impl(&self, c: usize, iface: usize) -> (r: bool)
        ensures
            r == self.spec_is_impl(c as int, iface as int),
    {
        let mut cur: usize = c;
        loop
            invariant
                self.spec_is_impl(c as int, iface as int) == self.spec_is_impl(
                    cur as int,
                    iface as int,
                ),
            decreases cur,
        {
            if cur >= self.classes.len() {
                return false;
            }
            if self.is_sub_iface(cur, iface) {
                return true;
            }
            match self.classes[cur].super_class {
                Some(s) => {
                    if s < cur {
                        cur = s;
                    } else {
                        return false;
                    }
                },
                None => {
                    return false;
                },
            }
        }
    }

    /// Whether a value of class `from` can stand where class `to` is
    /// asked for: the two are the same class; or `to` is an interface
    /// that `from` implements; or `to` is a class and `from` a subclass
    /// of it.
    pub open spec fn spec_is_assignable(&self, to: int, from: int) -> bool {
        if to == from {
            true
        } else if 0 <= to < self.classes@.len() && self.classes@[to].access_flags.has(
            ACC_INTERFACE,
        ) {
            self.spec_is_impl(from, to)
        } else {
            self.spec_is_sub_class(from, to)
        }
    }

    /// Whether a value of class `from` can stand where class `to` is
    /// asked for.
    pub fn is_assignable(&self, to: usize, from: usize) -> (r: bool)
        ensures
            r == self.spec_is_assignable(to as int, from as int),
    {
        if to == from {
            return true;
        }
        if to < self.classes.len() && self.classes[to].access_flags.is_iface() {
            self.is_impl(from, to)
        } else {
            self.is_sub_class(from, to)
        }
    }

    /// The first static method `main` of class `c` that takes an array
    /// of strings and returns nothing.
    pub open spec fn spec_main_method(&self, c: int, from: int) -> Option<MemberRef>
        decreases self.classes@[c].methods@.len() - from,
    {
        if c < 0 || c >= self.classes@.len() || from < 0 || from >= self.classes@[c].methods@.len() {
            None
        } else {
            let m = self.classes@[c].methods@[from];
            if m.is_named("main"@, "([Ljava/lang/String;)V"@) && m.access_flags.has(ACC_STATIC) {
                Some(MemberRef { class: c as usize, index: from as usize })
            } else {
                self.spec_main_method(c, from + 1)
            }
        }
    }

    /// Selects the method with which a run of class `c` starts.
    pub fn main_method(&self, c: usize) -> (r: Option<MemberRef>)
        ensures
            r == self.spec_main_method(c as int, 0),
    {
        if c >= self.classes.len() {
            return None;
        }
        let mut i: usize = 0;
        while i < self.classes[c].methods.len()
            invariant
                c < self.classes@.len(),
                i <= self.classes@[c as int].methods@.len(),
                self.spec_main_method(c as int, 0) == self.spec_main_method(c as int, i as int),
            decreases self.classes@[c as int].methods@.len() - i,
        {
            let m = &self.classes[c].methods[i];
            if str_eq(m.name.as_str(), "main") && str_eq(m.desc.as_str(), "([Ljava/lang/String;)V")
                && m.access_flags.is_static() {
                return Some(MemberRef { class: c, index: i });
            }
            i += 1;
        }
        None
    }

    /// The class initializer of class `c`: its first method `<clinit>`
    /// that takes and returns nothing.
    pub fn clinit_method(&self, c: usize) -> (r: Option<MemberRef>)
        ensures
            r == (if c < self.classes@.len() {
                match find_member(self.classes@[c as int].methods@, "<clinit>"@, "()V"@, 0) {
                    Some(k) => Some(MemberRef { class: c, index: k as usize }),
                    None => None,
                }
            } else {
                None
            }),
    {
        if c >= self.classes.len() {
            return None;
        }
        match find_in(&self.classes[c].methods, "<clinit>", "()V") {
            Some(k) => Some(MemberRef { class: c, index: k }),
            None => None,
        }
    }
}

} // verus!
