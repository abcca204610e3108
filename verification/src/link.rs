//! From a decoded class file to a class that is ready to be entered in
//! the table: members, parsed method descriptors, the trampoline of
//! native methods, and the layout of static and instance fields.

use vstd::prelude::*;
use vstd::string::*;
use vstd::utf8::encode_utf8;
use crate::class::{Class, ClassMember, SymRef, last_const, member_of};
use crate::classfile::{ClassFile, ClassFileView, MemberInfo, member_views};
use crate::cp::{ConstantPool, pool_class};
use crate::desc::{DescriptorParser, JType, JTypeView, MethodDescriptor, spec_method};
use crate::error::VmError;
use crate::flags::{AccessFlags, ACC_FINAL, ACC_NATIVE, ACC_STATIC};

verus! {

/// Whether the class file names its class, its superclass and its
/// interfaces by class entries of its pool.
pub open spec fn file_names_ok(f: ClassFileView) -> bool {
    &&& pool_class(f.cp, f.this_class_i as int) is Some
    &&& f.super_class_i != 0 ==> pool_class(f.cp, f.super_class_i as int) is Some
    &&& forall|k: int|
        0 <= k < f.interfaces_i.len() ==> (#[trigger] pool_class(
            f.cp,
            f.interfaces_i[k] as int,
        )) is Some
}

/// Whether a method descriptor parses and leaves room for a receiver
/// among its argument slots.
pub open spec fn method_desc_ok(desc: Seq<char>) -> bool {
    let d = spec_method(encode_utf8(desc), 0);
    d is Some && d.unwrap().0.arg_slots < usize::MAX
}

/// Whether a class can be made of the class file: it names its class,
/// its superclass and its interfaces by class entries of its pool, and
/// the descriptor of every method parses.
#[verifier::opaque]
pub open spec fn file_ok(f: ClassFileView) -> bool {
    &&& file_names_ok(f)
    &&& forall|k: int| 0 <= k < f.methods.len() ==> method_desc_ok((#[trigger] f.methods[k]).desc)
}

/// The name of the superclass that the class file gives; empty where it
/// gives none.
pub open spec fn file_super_name(f: ClassFileView) -> Seq<char> {
    if f.super_class_i == 0 {
        Seq::<char>::empty()
    } else {
        pool_class(f.cp, f.super_class_i as int).unwrap()
    }
}

/// Whether no final field of the class file has a constant value.
pub open spec fn file_plain(f: ClassFileView) -> bool {
    forall|j: int|
        0 <= j < f.fields.len() ==> {
            let m = #[trigger] f.fields[j];
            !AccessFlags(m.access_flags).has(ACC_FINAL) || last_const(m.attrs) == 0
        }
}

/// Whether `c` is the class that the file `f` describes, before it is
/// linked: names, pool and members as the file gives them; one empty
/// slot per pool slot for symbolic references; no superclass link, no
/// layout, no id, no mirror yet.
pub open spec fn class_of_file(c: Class, f: ClassFileView) -> bool {
    &&& c.access_flags.0 == f.access_flags
    &&& Some(c.name@) == pool_class(f.cp, f.this_class_i as int)
    &&& c.desc@ == "L"@ + c.name@ + ";"@
    &&& c.super_name@ == file_super_name(f)
    &&& c.iface_names@.len() == f.interfaces_i.len()
    &&& forall|k: int|
        0 <= k < f.interfaces_i.len() ==> Some((#[trigger] c.iface_names@[k])@) == pool_class(
            f.cp,
            f.interfaces_i[k] as int,
        )
    &&& c.cp@ == f.cp
    &&& c.fields@.len() == f.fields.len()
    &&& forall|k: int| 0 <= k < f.fields.len() ==> member_of(#[trigger] c.fields@[k], f.fields[k])
    &&& c.methods@.len() == f.methods.len()
    &&& forall|k: int|
        0 <= k < f.methods.len() ==> member_of(#[trigger] c.methods@[k], f.methods[k])
    &&& c.sym_refs@.len() == f.cp.len()
    &&& forall|k: int| 0 <= k < f.cp.len() ==> (#[trigger] c.sym_refs@[k]) is None
    &&& c.super_class is None
    &&& c.interfaces@.len() == 0
    &&& c.static_fields@.len() == 0
    &&& c.static_vars@.len() == 0
    &&& c.ins_fields@.len() == 0
    &&& c.id == 0
    &&& !c.initialized
    &&& c.element_class is None
    &&& c.dim == 0
    &&& c.j_class == 0
}

/// Turns the members of a class file into members of a class, in their
/// order.
fn members_from(infos: Vec<MemberInfo>) -> (r: Vec<ClassMember>)
    ensures
        r@.len() == infos@.len(),
        forall|k: int| 0 <= k < r@.len() ==> member_of(#[trigger] r@[k], infos@[k]@),
{
    let ghost iv = infos@;
    let mut infos = infos;
    let mut rev: Vec<ClassMember> = Vec::new();
    while infos.len() > 0
        invariant
            infos@.len() <= iv.len(),
            infos@ == iv.take(infos@.len() as int),
            rev@.len() == iv.len() - infos@.len(),
            forall|k: int|
                0 <= k < rev@.len() ==> member_of(#[trigger] rev@[k], iv[iv.len() - 1 - k]@),
        decreases infos@.len(),
    {
        let ghost n = infos@.len() as int;
        let m = infos.pop().unwrap();
        proof {
            assert(infos@ =~= iv.take(n - 1));
            assert(m == iv[n - 1]);
        }
        rev.push(ClassMember::from_info(m));
    }
    let mut r: Vec<ClassMember> = Vec::new();
    let ghost total = rev@.len() as int;
    let ghost rv = rev@;
    while rev.len() > 0
        invariant
            total == iv.len(),
            rev@.len() <= total,
            rv.len() == total,
            rev@ == rv.take(rev@.len() as int),
            r@.len() == total - rev@.len(),
            forall|k: int| 0 <= k < rv.len() ==> member_of(#[trigger] rv[k], iv[iv.len() - 1 - k]@),
            forall|k: int| 0 <= k < r@.len() ==> member_of(#[trigger] r@[k], iv[k]@),
        decreases rev@.len(),
    {
        let ghost n = rev@.len() as int;
        let m = rev.pop().unwrap();
        proof {
            assert(rev@ =~= rv.take(n - 1));
            assert(m == rv[n - 1]);
        }
        r.push(m);
    }
    r
}

impl Class {
    /// A class with nothing in it.
    pub fn empty() -> (r: Class)
        ensures
            r.access_flags.0 == 0,
            r.name@.len() == 0,
            r.desc@.len() == 0,
            r.super_name@.len() == 0,
            r.iface_names@.len() == 0,
            r.cp@.len() == 0,
            r.fields@.len() == 0,
            r.methods@.len() == 0,
            r.super_class is None,
            r.interfaces@.len() == 0,
            r.static_fields@.len() == 0,
            r.static_vars@.len() == 0,
            r.ins_fields@.len() == 0,
            r.sym_refs@.len() == 0,
            r.id == 0,
            !r.initialized,
            r.element_class is None,
            r.dim == 0,
            r.j_class == 0,
    {
        Class {
            access_flags: AccessFlags(0),
            name: String::new(),
            desc: String::new(),
            super_name: String::new(),
            iface_names: Vec::new(),
            cp: ConstantPool { infos: Vec::new() },
            fields: Vec::new(),
            methods: Vec::new(),
            super_class: None,
            interfaces: Vec::new(),
            static_fields: Vec::new(),
            static_vars: Vec::new(),
            ins_fields: Vec::new(),
            sym_refs: Vec::new(),
            id: 0,
            initialized: false,
            element_class: None,
            dim: 0,
            j_class: 0,
        }
    }

    /// The class that a decoded class file describes, not yet linked. It
    /// fails where the file names its class, its superclass or an
    /// interface by something that is no class entry of its pool.
    pub fn from_file(c: ClassFile) -> (r: Result<Class, VmError>)
        ensures
            !file_names_ok(c@) ==> r == Err::<Class, VmError>(VmError::ClassFormat),
            file_names_ok(c@) ==> r is Ok && class_of_file(r.unwrap(), c@),
    {
        let name: String = match c.this_class() {
            Some(n) => n.to_owned(),
            None => {
                return Err(VmError::ClassFormat);
            },
        };
        let mut desc: String = String::from_str("L");
        desc.append(name.as_str());
        desc.append(";");
        let super_name: String = match c.super_class() {
            Some(n) => n.to_owned(),
            None => {
                return Err(VmError::ClassFormat);
            },
        };
        let mut iface_names: Vec<String> = Vec::with_capacity(c.interfaces_i.len());
        let mut i: usize = 0;
        while i < c.interfaces_i.len()
            invariant
                i <= c.interfaces_i@.len(),
                iface_names@.len() == i,
                pool_class(c.cp@, c.this_class_i as int) is Some,
                c.super_class_i != 0 ==> pool_class(c.cp@, c.super_class_i as int) is Some,
                forall|k: int|
                    0 <= k < i ==> Some((#[trigger] iface_names@[k])@) == pool_class(
                        c.cp@,
                        c.interfaces_i@[k] as int,
                    ),
            decreases c.interfaces_i@.len() - i,
        {
            match c.interface(i) {
                Some(n) => {
                    iface_names.push(n.to_owned());
                },
                None => {
                    proof {
                        assert(pool_class(c.cp@, c.interfaces_i@[i as int] as int) is None);
                    }
                    return Err(VmError::ClassFormat);
                },
            }
            i += 1;
        }
        let ghost cv = c@;
        proof {
            assert forall|k: int| 0 <= k < cv.interfaces_i.len() implies (#[trigger] pool_class(
                cv.cp,
                cv.interfaces_i[k] as int,
            )) is Some by {
                assert(Some(iface_names@[k]@) == pool_class(c.cp@, c.interfaces_i@[k] as int));
            }
            assert(file_names_ok(cv));
        }
        let ClassFile {
            magic,
            minor_version,
            major_version,
            cp,
            access_flags,
            this_class_i,
            super_class_i,
            interfaces_i,
            fields,
            methods,
            attrs,
        } = c;
        proof {
            assert(member_views(fields@) == cv.fields);
            assert(member_views(methods@) == cv.methods);
            assert forall|k: int| 0 <= k < fields@.len() implies fields@[k]@ == cv.fields[k] by {
                assert(member_views(fields@)[k] == fields@[k]@);
            }
            assert forall|k: int| 0 <= k < methods@.len() implies methods@[k]@ == cv.methods[k] by {
                assert(member_views(methods@)[k] == methods@[k]@);
            }
        }
        let fields: Vec<ClassMember> = members_from(fields);
        let methods: Vec<ClassMember> = members_from(methods);
        let mut sym_refs: Vec<Option<SymRef>> = Vec::with_capacity(cp.len());
        let mut j: usize = 0;
        while j < cp.len()
            invariant
                j <= cp@.len(),
                sym_refs@.len() == j,
                forall|k: int| 0 <= k < j ==> (#[trigger] sym_refs@[k]) is None,
            decreases cp@.len() - j,
        {
            sym_refs.push(None);
            j += 1;
        }
        Ok(
            Class {
                access_flags: AccessFlags(access_flags),
                name,
                desc,
                super_name,
                iface_names,
                cp,
                fields,
                methods,
                super_class: None,
                interfaces: Vec::new(),
                static_fields: Vec::new(),
                static_vars: Vec::new(),
                ins_fields: Vec::new(),
                sym_refs,
                id: 0,
                initialized: false,
                element_class: None,
                dim: 0,
                j_class: 0,
            },
        )
    }
}

/// The opcode that calls the host function of a native method.
pub const OP_NATIVE: u8 = 0xfe;

/// The return instruction that fits a return type: `return` for none,
/// `lreturn` for a wide primitive, `areturn` for a reference, `ireturn`
/// for a narrow primitive.
pub open spec fn return_op(ret: JTypeView) -> u8 {
    match ret {
        JTypeView::V => 0xb1,
        JTypeView::DJ(_) => 0xad,
        JTypeView::A(_) => 0xb0,
        JTypeView::FI(_) => 0xac,
    }
}

/// The operand cells that the return value of a native method takes.
pub open spec fn return_cells(ret: JTypeView) -> int {
    match ret {
        JTypeView::V => 0,
        JTypeView::DJ(_) => 2,
        _ => 1,
    }
}

/// Gives a native method its body: the call of its host function, then
/// the return that fits its return type. Its locals are its argument
/// slots, and one more for the receiver unless it is static.
pub fn inject_native(m: &mut ClassMember)
    requires
        old(m).m_desc.arg_slots < usize::MAX,
    ensures
        final(m).code@ == seq![OP_NATIVE, return_op(old(m).m_desc.ret@)],
        final(m).max_locals == old(m).m_desc.arg_slots + (if old(m).access_flags.has(ACC_STATIC) {
            0int
        } else {
            1int
        }),
        final(m).max_stack == (if old(m).m_desc.ret@ is V {
            old(m).max_stack as int
        } else {
            return_cells(old(m).m_desc.ret@)
        }),
        final(m).access_flags == old(m).access_flags,
        final(m).name == old(m).name,
        final(m).desc == old(m).desc,
        final(m).cons_i == old(m).cons_i,
        final(m).id == old(m).id,
        final(m).class == old(m).class,
        final(m).m_desc == old(m).m_desc,
{
    m.max_locals = if m.access_flags.is_static() {
        m.m_desc.arg_slots
    } else {
        m.m_desc.arg_slots + 1
    };
    let mut code: Vec<u8> = Vec::new();
    code.push(OP_NATIVE);
    match &m.m_desc.ret {
        JType::V => {
            code.push(0xb1);
        },
        JType::DJ(_) => {
            code.push(0xad);
            m.max_stack = 2;
        },
        JType::A(_) => {
            code.push(0xb0);
            m.max_stack = 1;
        },
        JType::FI(_) => {
            code.push(0xac);
            m.max_stack = 1;
        },
    }
    proof {
        assert(code@ =~= seq![OP_NATIVE, return_op(old(m).m_desc.ret@)]);
    }
    m.code = code;
}

/// Whether the method `m` is what `prepare` makes of the method `o`: its
/// descriptor parsed, and, where it is native, its body injected.
pub open spec fn prepared(m: ClassMember, o: ClassMember) -> bool {
    let d = spec_method(encode_utf8(o.desc@), 0);
    &&& d is Some
    &&& m.m_desc@ == d.unwrap().0
    &&& m.access_flags == o.access_flags
    &&& m.name == o.name
    &&& m.desc == o.desc
    &&& m.cons_i == o.cons_i
    &&& m.id == o.id
    &&& m.class == o.class
    &&& if o.access_flags.has(ACC_NATIVE) {
        &&& m.code@ == seq![OP_NATIVE, return_op(m.m_desc.ret@)]
        &&& m.max_locals == m.m_desc.arg_slots + (if o.access_flags.has(ACC_STATIC) {
            0int
        } else {
            1int
        })
        &&& m.max_stack == (if m.m_desc.ret@ is V {
            o.max_stack as int
        } else {
            return_cells(m.m_desc.ret@)
        })
    } else {
        m.code == o.code && m.max_locals == o.max_locals && m.max_stack == o.max_stack
    }
}

/// Whether the descriptor of method `o` parses and leaves room for a
/// receiver among its argument slots.
pub open spec fn can_prepare(o: ClassMember) -> bool {
    method_desc_ok(o.desc@)
}

/// Parses the descriptor of every method and gives every native method
/// its body. It fails, and may leave some methods prepared, just where
/// a descriptor is malformed.
pub fn prepare(methods: &mut Vec<ClassMember>) -> (r: Result<(), VmError>)
    ensures
        final(methods)@.len() == old(methods)@.len(),
        r is Ok <==> forall|k: int|
            0 <= k < old(methods)@.len() ==> can_prepare(#[trigger] old(methods)@[k]),
        r is Ok ==> forall|k: int|
            0 <= k < old(methods)@.len() ==> prepared(
                #[trigger] final(methods)@[k],
                old(methods)@[k],
            ),
        r is Err ==> r == Err::<(), VmError>(VmError::ClassFormat),
{
    let mut i: usize = 0;
    while i < methods.len()
        invariant
            i <= methods@.len(),
            methods@.len() == old(methods)@.len(),
            forall|k: int| 0 <= k < i ==> prepared(#[trigger] methods@[k], old(methods)@[k]),
            forall|k: int| 0 <= k < i ==> can_prepare(#[trigger] old(methods)@[k]),
            forall|k: int| i <= k < methods@.len() ==> methods@[k] == old(methods)@[k],
        decreases methods@.len() - i,
    {
        let ghost before = methods@;
        let d: MethodDescriptor = {
            let mut parser = DescriptorParser::new(methods[i].desc.as_str().as_bytes());
            match parser.parse_method() {
                Some(d) => d,
                None => {
                    proof {
                        assert(!can_prepare(old(methods)@[i as int]));
                    }
                    return Err(VmError::ClassFormat);
                },
            }
        };
        if d.arg_slots == usize::MAX {
            proof {
                assert(!can_prepare(old(methods)@[i as int]));
            }
            return Err(VmError::ClassFormat);
        }
        methods[i].m_desc = d;
        if methods[i].access_flags.is_native() {
            inject_native(&mut methods[i]);
        }
        proof {
            assert(prepared(methods@[i as int], old(methods)@[i as int]));
            assert forall|k: int| 0 <= k < i implies prepared(
                #[trigger] methods@[k],
                old(methods)@[k],
            ) by {
                assert(methods@[k] == before[k]);
            }
        }
        i += 1;
    }
    Ok(())
}

} // verus!
