//! Loading and defining classes, and the bootstrap of the classes that
//! the machine itself needs.

use vstd::prelude::*;
use vstd::string::*;
use vstd::utf8::encode_utf8;
use crate::class::{Class, ClassLoader, last_const, member_of};
use crate::classfile::{ClassFile, ClassFileView, spec_class_file};
use crate::cp::pool_class;
use crate::desc::{DescriptorParser, JType, JTypeView, spec_arr};
use crate::error::VmError;
use crate::flags::{AccessFlags, ACC_FINAL, ACC_PUBLIC};
use crate::frame::MemberRef;
use crate::heap::{Heap, PRIMITIVE_N};
use crate::layout::{
    Seed, has_bad_seed, has_text_seed, init_finals, kind_indices, laid_out, layout,
    lemma_kind_indices, own_links, placed, seed_at, seed_of, seeded, static_mask,
};
use crate::link::{
    can_prepare, class_of_file, file_names_ok, file_ok, file_plain, file_super_name,
    method_desc_ok, prepare, prepared,
};
use crate::loader::{Entry, MAX_NESTING, class_ok, same_shape};

verus! {

/// The name under which a value of this kind is loaded as a class.
pub open spec fn class_name_of(t: JTypeView) -> Seq<char> {
    match t {
        JTypeView::FI(c) => seq![c],
        JTypeView::DJ(c) => seq![c],
        JTypeView::A(s) => s,
        JTypeView::V => seq!['V'],
    }
}

/// Whether a class name is that of an array class.
pub open spec fn is_array_name(name: Seq<char>) -> bool {
    name.len() > 0 && name[0] == '['
}

/// The listed index number `p` has `p` listed indices below it.
pub proof fn lemma_kind_rank(st: Seq<bool>, want: bool, n: int, p: int)
    requires
        0 <= n <= st.len(),
        n <= usize::MAX,
        0 <= p < kind_indices(st, want, n).len(),
    ensures
        kind_indices(st, want, kind_indices(st, want, n)[p] as int).len() == p,
    decreases n,
{
    lemma_kind_indices(st, want, n);
    if n > 0 {
        let r = kind_indices(st, want, n - 1);
        lemma_kind_indices(st, want, n - 1);
        if p < r.len() {
            lemma_kind_rank(st, want, n - 1, p);
        }
    }
}

/// A class that was laid out, and whose superclass and interfaces were
/// loaded before, is sound at the end of the table.
pub proof fn lemma_laid_out_ok(cs: Seq<Class>, c: Class, o: Class, before: Class)
    requires
        c.id == cs.len(),
        cs.len() <= usize::MAX,
        o.fields@.len() <= usize::MAX,
        laid_out(before, o, match o.super_class {
            Some(s) => cs[s as int].ins_fields@,
            None => Seq::empty(),
        }, cs.len() as usize),
        same_shape(c, before),
        o.super_class is Some ==> o.super_class.unwrap() < cs.len(),
        forall|k: int| 0 <= k < o.interfaces@.len() ==> (#[trigger] o.interfaces@[k]) < cs.len(),
        o.element_class is Some ==> o.element_class.unwrap() < cs.len(),
        o.sym_refs@.len() == o.cp@.len(),
        crate::cp::wide_rule(o.cp@),
    ensures
        class_ok(cs.push(c), cs.len() as int),
{
    let id = cs.len() as int;
    let all = cs.push(c);
    let st = static_mask(o.fields@);
    let n = o.fields@.len() as int;
    let sup = match o.super_class {
        Some(s) => cs[s as int].ins_fields@,
        None => Seq::empty(),
    };
    lemma_kind_indices(st, true, n);
    lemma_kind_indices(st, false, n);
    assert(c.ins_fields@ == sup + own_links(st, id as usize));
    assert forall|k: int| sup.len() <= k < c.ins_fields@.len() implies (
    #[trigger] c.ins_fields@[k]).class == id && c.ins_fields@[k].index < c.fields@.len()
        && c.fields@[c.ins_fields@[k].index as int].id == k by {
        let p = k - sup.len();
        assert(c.ins_fields@[k] == own_links(st, id as usize)[p]);
        let j = kind_indices(st, false, n)[p] as int;
        lemma_kind_rank(st, false, n, p);
        assert(before.fields@[j].id == sup.len() + kind_indices(st, false, j).len());
    }
    assert forall|k: int| 0 <= k < c.static_fields@.len() implies (
    #[trigger] c.static_fields@[k]) < c.fields@.len() && c.fields@[c.static_fields@[k] as int].id
        == k by {
        let j = kind_indices(st, true, n)[k] as int;
        lemma_kind_rank(st, true, n, k);
        assert(before.fields@[j].id == kind_indices(st, true, j).len());
    }
    if o.super_class is Some {
        let s = o.super_class.unwrap() as int;
        assert(all[s] == cs[s]);
        assert forall|k: int| 0 <= k < sup.len() implies (#[trigger] c.ins_fields@[k])
            == all[s].ins_fields@[k] by {}
    }
    assert(c.static_vars@.len() == c.static_fields@.len());
}

/// Whether `c` is the array class of the name `name` in the table
/// `loader`: it is public and initialized, its superclass is
/// `java/lang/Object`, it has as many dimensions as the name has
/// leading brackets, and its element class is the class of what follows
/// them.
pub open spec fn array_class_of(c: Class, name: Seq<char>, loader: &ClassLoader) -> bool {
    let a = spec_arr(encode_utf8(name), 0);
    &&& a is Some
    &&& c.name@ == name
    &&& c.desc@ == name
    &&& c.initialized
    &&& c.access_flags.0 == ACC_PUBLIC
    &&& c.dim == a.unwrap().dims
    &&& c.super_class is Some
    &&& c.super_class == loader.spec_find("java/lang/Object"@)
    &&& c.element_class is Some
    &&& c.element_class == loader.spec_find(class_name_of(a.unwrap().element))
    &&& c.fields@.len() == 0
    &&& c.methods@.len() == 0
    &&& c.cp@.len() == 0
    &&& c.static_fields@.len() == 0
    &&& c.interfaces@.len() == 0
}

/// Whether every one of `names` names a class that `loader` holds.
pub open spec fn all_found(loader: &ClassLoader, names: Seq<String>) -> bool {
    forall|j: int| 0 <= j < names.len() ==> loader.spec_find((#[trigger] names[j])@) is Some
}

/// Whether `loader` holds the superclass of `c`, where it names one,
/// and all its interfaces.
pub open spec fn supers_found(loader: &ClassLoader, c: Class) -> bool {
    &&& c.super_name@.len() != 0 ==> loader.spec_find(c.super_name@) is Some
    &&& all_found(loader, c.iface_names@)
}

/// Whether no field of `c` asks for more than a number of the right
/// kind as its constant.
#[verifier::opaque]
pub open spec fn plain_seeds(c: Class) -> bool {
    forall|j: int|
        0 <= j < c.fields@.len() ==> ({
            let s = #[trigger] seed_of(c.cp@, c.fields@[j]);
            s is Keep || s is Value
        })
}

/// A class whose fields ask for numbers only has, once it is laid out,
/// no static field that is seeded with a text or with a constant of the
/// wrong kind.
pub proof fn lemma_plain_seeds(c1: Class, c2: Class, sup: Seq<MemberRef>, id: usize)
    requires
        plain_seeds(c1),
        laid_out(c2, c1, sup, id),
        c1.fields@.len() <= usize::MAX,
    ensures
        !has_bad_seed(c2),
        !has_text_seed(c2),
{
    reveal(plain_seeds);
    reveal(has_bad_seed);
    reveal(has_text_seed);
    let st = static_mask(c1.fields@);
    lemma_kind_indices(st, true, c1.fields@.len() as int);
    assert forall|k: int| 0 <= k < c2.static_fields@.len() implies ({
        let s = #[trigger] seed_at(c2, k);
        s is Keep || s is Value
    }) by {
        let j = c2.static_fields@[k] as int;
        assert(j == kind_indices(st, true, c1.fields@.len() as int)[k]);
        assert(0 <= j < c1.fields@.len());
        assert(placed(c2.fields@[j], c1.fields@[j], id, c2.fields@[j].id as int));
        let t = seed_of(c1.cp@, c1.fields@[j]);
        assert(t is Keep || t is Value);
        assert(seed_at(c2, k) == t);
    }
}

/// Whether `c1` is the class `c0` with its methods prepared and nothing
/// else changed.
pub open spec fn methods_prepared(c1: Class, c0: Class) -> bool {
    &&& c1.methods@.len() == c0.methods@.len()
    &&& forall|k: int|
        0 <= k < c0.methods@.len() ==> prepared(#[trigger] c1.methods@[k], c0.methods@[k])
    &&& same_but_methods(c1, c0)
}

/// Whether two classes agree in everything but their methods.
pub open spec fn same_but_methods(c: Class, d: Class) -> bool {
    &&& c.access_flags == d.access_flags
    &&& c.name == d.name
    &&& c.desc == d.desc
    &&& c.super_name == d.super_name
    &&& c.iface_names == d.iface_names
    &&& c.cp == d.cp
    &&& c.fields == d.fields
    &&& c.super_class == d.super_class
    &&& c.interfaces == d.interfaces
    &&& c.static_fields == d.static_fields
    &&& c.static_vars == d.static_vars
    &&& c.ins_fields == d.ins_fields
    &&& c.sym_refs == d.sym_refs
    &&& c.id == d.id
    &&& c.initialized == d.initialized
    &&& c.element_class == d.element_class
    &&& c.dim == d.dim
    &&& c.j_class == d.j_class
}

/// Whether two classes agree in everything but the links to their
/// superclass and interfaces.
pub open spec fn same_but_links(c: Class, d: Class) -> bool {
    &&& c.access_flags == d.access_flags
    &&& c.name == d.name
    &&& c.desc == d.desc
    &&& c.super_name == d.super_name
    &&& c.iface_names == d.iface_names
    &&& c.cp == d.cp
    &&& c.fields == d.fields
    &&& c.methods == d.methods
    &&& c.static_fields == d.static_fields
    &&& c.static_vars == d.static_vars
    &&& c.ins_fields == d.ins_fields
    &&& c.sym_refs == d.sym_refs
    &&& c.id == d.id
    &&& c.initialized == d.initialized
    &&& c.element_class == d.element_class
    &&& c.dim == d.dim
    &&& c.j_class == d.j_class
}

/// Whether `c` is `o` with its superclass and its interfaces linked to
/// the classes that `loader` holds under their names.
pub open spec fn supers_linked(c: Class, o: Class, loader: &ClassLoader) -> bool {
    &&& same_but_links(c, o)
    &&& c.super_class == (if o.super_name@.len() == 0 {
        None
    } else {
        loader.spec_find(o.super_name@)
    })
    &&& o.super_name@.len() != 0 ==> c.super_class is Some
    &&& c.interfaces@.len() == o.iface_names@.len()
    &&& forall|k: int|
        0 <= k < o.iface_names@.len() ==> Some(#[trigger] c.interfaces@[k]) == loader.spec_find(
            o.iface_names@[k]@,
        )
}

/// The instance fields of the superclass of `o` in `loader`; none where
/// `o` has no superclass.
pub open spec fn super_fields(o: Class, loader: &ClassLoader) -> Seq<MemberRef> {
    match o.super_class {
        Some(s) => loader.classes@[s as int].ins_fields@,
        None => Seq::empty(),
    }
}

/// Whether `c` is `o` laid out under its id over the instance fields of
/// its superclass in `loader`, with its constant static fields seeded
/// in `heap`; its mirror apart.
pub open spec fn entered(c: Class, o: Class, loader: &ClassLoader, heap: &Heap) -> bool {
    exists|c2: Class|
        {
            &&& laid_out(c2, o, super_fields(o, loader), c.id)
            &&& #[trigger] same_shape(c, c2)
            &&& c.sym_refs == c2.sym_refs
            &&& c.initialized == c2.initialized
            &&& forall|k: int|
                0 <= k < c2.static_fields@.len() ==> seeded(
                    seed_of(c2.cp@, c2.fields@[c2.static_fields@[k] as int]),
                    #[trigger] c.static_vars@[k],
                    0,
                    heap,
                )
        }
}

/// Whether `c` is the class that defining the file `f` leaves in the
/// table `loader` and the heap `heap`: the class that the file
/// describes; its methods prepared; its superclass and interfaces
/// linked to the classes loaded under their names; its fields laid out
/// over those of its superclass; its constant static fields seeded.
pub open spec fn defined_from(c: Class, f: ClassFileView, loader: &ClassLoader, heap: &Heap)
    -> bool {
    exists|c0: Class, c1: Class, c2: Class|
        {
            &&& #[trigger] class_of_file(c0, f)
            &&& #[trigger] methods_prepared(c1, c0)
            &&& #[trigger] supers_linked(c2, c1, loader)
            &&& entered(c, c2, loader, heap)
        }
}

/// Whether `c` is the class that defining some class file leaves in the
/// table `loader` and the heap `heap`.
pub open spec fn defined_from_some(c: Class, loader: &ClassLoader, heap: &Heap) -> bool {
    exists|bytes: Seq<u8>| #[trigger]
        spec_class_file(bytes) is Some && defined_from(
            c,
            spec_class_file(bytes).unwrap(),
            loader,
            heap,
        )
}

/// Whether the class of the file `f` can be defined under `name` with
/// nothing else to load: the file is in order, the name is free, the
/// superclass and the interfaces are loaded already, and no final field
/// has a constant value.
pub open spec fn can_define(loader: &ClassLoader, f: ClassFileView, name: Seq<char>) -> bool {
    &&& file_ok(f)
    &&& loader.spec_find(name) is None
    &&& file_super_name(f).len() != 0 ==> loader.spec_find(file_super_name(f)) is Some
    &&& forall|k: int|
        0 <= k < f.interfaces_i.len() ==> loader.spec_find(
            pool_class(f.cp, (#[trigger] f.interfaces_i[k]) as int).unwrap(),
        ) is Some
    &&& file_plain(f)
}

/// What `can_define` says of a file holds of the class decoded from it.
pub proof fn lemma_can_define(loader: &ClassLoader, f: ClassFileView, name: Seq<char>, c1: Class)
    requires
        can_define(loader, f, name),
        exists|c0: Class| #[trigger] class_of_file(c0, f) && methods_prepared(c1, c0),
    ensures
        supers_found(loader, c1),
        plain_seeds(c1),
{
    reveal(plain_seeds);
    let c0 = choose|c0: Class| #[trigger] class_of_file(c0, f) && methods_prepared(c1, c0);
    assert forall|j: int| 0 <= j < c1.iface_names@.len() implies loader.spec_find(
        (#[trigger] c1.iface_names@[j])@,
    ) is Some by {
        assert(Some(c0.iface_names@[j]@) == pool_class(f.cp, f.interfaces_i[j] as int));
    }
    assert forall|j: int| 0 <= j < c1.fields@.len() implies ({
        let s = #[trigger] seed_of(c1.cp@, c1.fields@[j]);
        s is Keep || s is Value
    }) by {
        assert(member_of(c0.fields@[j], f.fields[j]));
        let m = f.fields[j];
        assert(!AccessFlags(m.access_flags).has(ACC_FINAL) || last_const(m.attrs) == 0);
        assert(c1.fields@[j].access_flags == AccessFlags(m.access_flags));
    }
}

/// Linking a class to its supertypes changes nothing in what its fields
/// are seeded with.
pub proof fn lemma_plain_kept(c1: Class, c2: Class)
    requires
        plain_seeds(c1),
        c2.cp == c1.cp,
        c2.fields == c1.fields,
    ensures
        plain_seeds(c2),
{
    reveal(plain_seeds);
}

/// A class file with a name that is no class entry is not in order.
pub proof fn lemma_names_needed(fv: ClassFileView)
    ensures
        file_ok(fv) ==> file_names_ok(fv),
{
    reveal(file_ok);
}

/// The methods of the class that a class file describes can all be
/// prepared just where the descriptor of every method of the file
/// parses.
pub proof fn lemma_methods_ok(c0: Class, fv: ClassFileView)
    requires
        class_of_file(c0, fv),
        file_names_ok(fv),
    ensures
        file_ok(fv) <==> forall|k: int|
            0 <= k < c0.methods@.len() ==> can_prepare(#[trigger] c0.methods@[k]),
{
    reveal(file_ok);
    assert forall|k: int| 0 <= k < fv.methods.len() implies can_prepare(c0.methods@[k])
        == method_desc_ok(fv.methods[k].desc) by {
        assert(member_of(c0.methods@[k], fv.methods[k]));
    }
    if file_ok(fv) {
        assert forall|k: int| 0 <= k < c0.methods@.len() implies can_prepare(
            #[trigger] c0.methods@[k],
        ) by {
            assert(method_desc_ok(fv.methods[k].desc));
        }
    } else {
        let k = choose|k: int|
            0 <= k < fv.methods.len() && !method_desc_ok((#[trigger] fv.methods[k]).desc);
        assert(!can_prepare(c0.methods@[k]));
    }
}

/// Decodes a class file and prepares the methods of its class. It fails
/// with a class-format error just where the bytes are no class file, a
/// name of the file is no class entry, or a method descriptor does not
/// parse.
pub fn decode_class(bytes: Vec<u8>) -> (r: Result<Class, VmError>)
    ensures
        r is Err ==> r == Err::<Class, VmError>(VmError::ClassFormat),
        r is Ok <==> spec_class_file(bytes@) is Some && file_ok(spec_class_file(bytes@).unwrap()),
        r is Ok ==> crate::cp::wide_rule(r.unwrap().cp@),
        r is Ok ==> exists|c0: Class| #[trigger]
            class_of_file(c0, spec_class_file(bytes@).unwrap()) && methods_prepared(
                r.unwrap(),
                c0,
            ),
{
    let file = match ClassFile::new(bytes) {
        Ok(f) => f,
        Err(e) => {
            return Err(VmError::ClassFormat);
        },
    };
    let ghost fv = file@;
    let mut cl = match Class::from_file(file) {
        Ok(c) => c,
        Err(e) => {
            proof {
                lemma_names_needed(fv);
            }
            return Err(VmError::ClassFormat);
        },
    };
    let ghost c0 = cl;
    proof {
        lemma_methods_ok(c0, fv);
    }
    match prepare(&mut cl.methods) {
        Ok(_) => {},
        Err(e) => {
            return Err(VmError::ClassFormat);
        },
    }
    proof {
        assert(methods_prepared(cl, c0));
    }
    Ok(cl)
}

/// The name of primitive kind `i`.
pub fn primitive_name(i: usize) -> (r: &'static str)
    requires
        i < PRIMITIVE_N,
    ensures
        r@ == spec_primitive_name(i as int),
{
    if i == 0 {
        "boolean"
    } else if i == 1 {
        "char"
    } else if i == 2 {
        "float"
    } else if i == 3 {
        "double"
    } else if i == 4 {
        "byte"
    } else if i == 5 {
        "short"
    } else if i == 6 {
        "int"
    } else {
        "long"
    }
}

/// The name of primitive kind `i`.
pub open spec fn spec_primitive_name(i: int) -> Seq<char> {
    if i == 0 {
        "boolean"@
    } else if i == 1 {
        "char"@
    } else if i == 2 {
        "float"@
    } else if i == 3 {
        "double"@
    } else if i == 4 {
        "byte"@
    } else if i == 5 {
        "short"@
    } else if i == 6 {
        "int"@
    } else {
        "long"@
    }
}

/// The descriptor letter of primitive kind `i`.
pub fn primitive_desc(i: usize) -> (r: &'static str)
    requires
        i < PRIMITIVE_N,
    ensures
        r@ == spec_primitive_desc(i as int),
{
    if i == 0 {
        "Z"
    } else if i == 1 {
        "C"
    } else if i == 2 {
        "F"
    } else if i == 3 {
        "D"
    } else if i == 4 {
        "B"
    } else if i == 5 {
        "S"
    } else if i == 6 {
        "I"
    } else {
        "J"
    }
}

/// The descriptor letter of primitive kind `i`.
pub open spec fn spec_primitive_desc(i: int) -> Seq<char> {
    if i == 0 {
        "Z"@
    } else if i == 1 {
        "C"@
    } else if i == 2 {
        "F"@
    } else if i == 3 {
        "D"@
    } else if i == 4 {
        "B"@
    } else if i == 5 {
        "S"@
    } else if i == 6 {
        "I"@
    } else {
        "J"@
    }
}

/// The name of the array class of primitive kind `i`.
pub fn primitive_array_name(i: usize) -> (r: &'static str)
    requires
        i < PRIMITIVE_N,
    ensures
        r@ == spec_primitive_array_name(i as int),
{
    if i == 0 {
        "[Z"
    } else if i == 1 {
        "[C"
    } else if i == 2 {
        "[F"
    } else if i == 3 {
        "[D"
    } else if i == 4 {
        "[B"
    } else if i == 5 {
        "[S"
    } else if i == 6 {
        "[I"
    } else {
        "[J"
    }
}

/// The name of the array class of primitive kind `i`.
pub open spec fn spec_primitive_array_name(i: int) -> Seq<char> {
    if i == 0 {
        "[Z"@
    } else if i == 1 {
        "[C"@
    } else if i == 2 {
        "[F"@
    } else if i == 3 {
        "[D"@
    } else if i == 4 {
        "[B"@
    } else if i == 5 {
        "[S"@
    } else if i == 6 {
        "[I"@
    } else {
        "[J"@
    }
}

/// Whether the class `c` was read from the class path `entry` under
/// `name`: the class path answered a request for `name` with the bytes
/// of a class file, and `c` has the shape of the class that these
/// bytes define in some table and heap.
pub open spec fn class_read<E: Entry>(entry: &E, name: &str, c: Class) -> bool {
    exists|b: Vec<u8>, cm: Class, l: ClassLoader, h: Heap|
        call_ensures(E::read_class, (entry, name), Some(b)) && spec_class_file(b@) is Some
            && #[trigger] defined_from(cm, spec_class_file(b@).unwrap(), &l, &h) && same_shape(
            c,
            cm,
        )
}

/// A class that `load` has just read from the class path under `name`
/// was read from the class path.
pub proof fn lemma_loaded_read<E: Entry>(
    entry: &E,
    name: &str,
    loader: &ClassLoader,
    heap: &Heap,
    id: usize,
)
    requires
        exists|b: Vec<u8>| #[trigger]
            call_ensures(E::read_class, (entry, name), Some(b)) && spec_class_file(b@) is Some
                && defined_from(
                loader.classes@[id as int],
                spec_class_file(b@).unwrap(),
                loader,
                heap,
            ),
    ensures
        class_read(entry, name, loader.classes@[id as int]),
{
    let b = choose|b: Vec<u8>| #[trigger]
        call_ensures(E::read_class, (entry, name), Some(b)) && spec_class_file(b@) is Some
            && defined_from(
            loader.classes@[id as int],
            spec_class_file(b@).unwrap(),
            loader,
            heap,
        );
    assert(defined_from(loader.classes@[id as int], spec_class_file(b@).unwrap(), loader, heap));
    assert(same_shape(loader.classes@[id as int], loader.classes@[id as int]));
}

/// A class that was read from the class path and has kept its shape is
/// still one that was read from it.
pub proof fn lemma_read_kept<E: Entry>(entry: &E, name: &str, c: Class, c2: Class)
    requires
        class_read(entry, name, c),
        same_shape(c2, c),
    ensures
        class_read(entry, name, c2),
{
    let (b, cm, l, h) = choose|b: Vec<u8>, cm: Class, l: ClassLoader, h: Heap|
        call_ensures(E::read_class, (entry, name), Some(b)) && spec_class_file(b@) is Some
            && #[trigger] defined_from(cm, spec_class_file(b@).unwrap(), &l, &h) && same_shape(
            c,
            cm,
        );
    assert(defined_from(cm, spec_class_file(b@).unwrap(), &l, &h));
    assert(same_shape(c2, cm));
}

/// Whether the class `c` was read from the class path under a name that
/// reads `n`.
pub open spec fn read_as<E: Entry>(entry: &E, n: Seq<char>, c: Class) -> bool {
    exists|s: &str| s@ == n && #[trigger] class_read(entry, s, c)
}

/// Whether entry `k` of the names of `loader` is one that loading made:
/// the name of an array class, or a name under which its class was
/// read from the class path.
pub open spec fn made<E: Entry>(entry: &E, loader: &ClassLoader, k: int) -> bool {
    is_array_name(loader.loaded@[k].0@) || read_as(
        entry,
        loader.loaded@[k].0@,
        loader.classes@[loader.loaded@[k].1 as int],
    )
}

/// Whether every name that `new` holds and `old` did not is one that
/// loading made: no class was recorded under a name but an array class
/// or the class that the class path gave for that name.
#[verifier::opaque]
pub open spec fn news_read<E: Entry>(entry: &E, old: &ClassLoader, new: &ClassLoader) -> bool {
    forall|k: int| old.loaded@.len() <= k < new.loaded@.len() ==> #[trigger] made(entry, new, k)
}

/// What was loaded in two stretches was loaded.
pub proof fn lemma_news_trans<E: Entry>(
    entry: &E,
    l0: &ClassLoader,
    l1: &ClassLoader,
    l2: &ClassLoader,
)
    requires
        l1.wf(),
        l2.grows_from(l1),
        news_read(entry, l0, l1),
        news_read(entry, l1, l2),
    ensures
        news_read(entry, l0, l2),
{
    reveal(news_read);
    assert forall|k: int| l0.loaded@.len() <= k < l2.loaded@.len() implies #[trigger] made(
        entry,
        l2,
        k,
    ) by {
        if k < l1.loaded@.len() {
            assert(made(entry, l1, k));
            assert(l2.loaded@[k] == l1.loaded@[k]);
            assert(l1.loaded@[k].1 < l1.classes@.len());
            assert(l2.classes@[l1.loaded@[k].1 as int] == l1.classes@[l1.loaded@[k].1 as int]);
        }
    }
}

/// What was loaded does not depend on which classes the table holds
/// as the classes of strings and of mirrors.
pub proof fn lemma_news_fields<E: Entry>(
    entry: &E,
    l0: &ClassLoader,
    l1: &ClassLoader,
    l2: &ClassLoader,
)
    requires
        news_read(entry, l0, l1),
        l2.loaded == l1.loaded,
        l2.classes == l1.classes,
    ensures
        news_read(entry, l0, l2),
{
    reveal(news_read);
    assert forall|k: int| l0.loaded@.len() <= k < l2.loaded@.len() implies #[trigger] made(
        entry,
        l2,
        k,
    ) by {
        assert(made(entry, l1, k));
    }
}

/// A class that was read from the class path under a name and has kept
/// its shape is still one that was read from it under that name.
pub proof fn lemma_read_as_kept<E: Entry>(entry: &E, n: Seq<char>, c: Class, c2: Class)
    requires
        read_as(entry, n, c),
        same_shape(c2, c),
    ensures
        read_as(entry, n, c2),
{
    let s = choose|s: &str| s@ == n && #[trigger] class_read(entry, s, c);
    lemma_read_kept(entry, s, c, c2);
}

/// With no name more nothing was loaded.
pub proof fn lemma_news_none<E: Entry>(entry: &E, l0: &ClassLoader, l1: &ClassLoader)
    requires
        l1.loaded@.len() == l0.loaded@.len(),
    ensures
        news_read(entry, l0, l1),
{
    reveal(news_read);
}

/// One more name, under which the class was read from the class path
/// or which is the name of an array class, was loaded.
pub proof fn lemma_news_one<E: Entry>(entry: &E, l0: &ClassLoader, l1: &ClassLoader, name: &str)
    requires
        l1.grows_from(l0),
        l1.loaded@.len() == l0.loaded@.len() + 1,
        l1.loaded@.last().0@ == name@,
        is_array_name(name@) || class_read(entry, name, l1.classes@[l1.loaded@.last().1 as int]),
    ensures
        news_read(entry, l0, l1),
{
    reveal(news_read);
    assert forall|k: int| l0.loaded@.len() <= k < l1.loaded@.len() implies #[trigger] made(
        entry,
        l1,
        k,
    ) by {
        assert(l1.loaded@[k] == l1.loaded@.last());
        if !is_array_name(name@) {
            assert(class_read(entry, name, l1.classes@[l1.loaded@[k].1 as int]));
            assert(read_as(entry, l1.loaded@[k].0@, l1.classes@[l1.loaded@[k].1 as int]));
        }
    }
}

/// The class found under a name that `old` did not hold, and that is no
/// array name, was read from the class path under that name.
pub proof fn lemma_found_read<E: Entry>(
    entry: &E,
    old: &ClassLoader,
    new: &ClassLoader,
    name: Seq<char>,
    from: int,
)
    requires
        new.names_kept(old),
        news_read(entry, old, new),
        0 <= from,
        old.find_from(name, from) is None,
        new.find_from(name, from) is Some,
        !is_array_name(name),
    ensures
        read_as(entry, name, new.classes@[new.find_from(name, from).unwrap() as int]),
    decreases new.loaded@.len() - from,
{
    reveal(news_read);
    if from < new.loaded@.len() {
        if new.loaded@[from].0@ == name {
            if from < old.loaded@.len() {
                assert(new.loaded@[from] == old.loaded@[from]);
            }
            assert(made(entry, new, from));
        } else {
            if from < old.loaded@.len() {
                assert(new.loaded@[from] == old.loaded@[from]);
            }
            lemma_found_read(entry, old, new, name, from + 1);
        }
    }
}

/// What loading the class `name` from the class path `entry` makes of
/// the table `pre` and the heap `pre_heap`: the class path answered the
/// request for `name` with some `b`, and the outcome is what
/// `read_defined` says for `b`.
pub open spec fn read_post<E: Entry>(
    entry: &E,
    name: &str,
    pre: &ClassLoader,
    pre_heap: &Heap,
    post: &ClassLoader,
    post_heap: &Heap,
    r: Result<usize, VmError>,
) -> bool {
    exists|b: Option<Vec<u8>>| #[trigger]
        call_ensures(E::read_class, (entry, name), b) && ClassLoader::read_defined(
            pre,
            pre_heap,
            name@,
            b,
            post,
            post_heap,
            r,
        )
}

/// The answer `b` of the class path shows that a class was loaded as
/// `read_post` says.
pub proof fn lemma_read_post<E: Entry>(
    entry: &E,
    name: &str,
    b: Option<Vec<u8>>,
    pre: &ClassLoader,
    pre_heap: &Heap,
    post: &ClassLoader,
    post_heap: &Heap,
    r: Result<usize, VmError>,
)
    requires
        call_ensures(E::read_class, (entry, name), b),
        ClassLoader::read_defined(pre, pre_heap, name@, b, post, post_heap, r),
    ensures
        read_post(entry, name, pre, pre_heap, post, post_heap, r),
{
}

impl ClassLoader {
    /// Loads the class `name`, following at most `depth` levels of
    /// classes that it needs in turn.
    #[verifier::rlimit(60)]
    pub fn load_nested<E: Entry>(
        &mut self,
        heap: &mut Heap,
        entry: &E,
        name: &str,
        depth: usize,
    ) -> (r: Result<usize, VmError>)
        requires
            old(self).wf(),
            old(heap).wf(),
        ensures
            final(self).wf(),
            final(heap).wf(),
            final(heap).extends(old(heap)),
            final(self).grows_from(old(self)),
            old(self).spec_find(name@) is Some ==> r == Ok::<usize, VmError>(
                old(self).spec_find(name@).unwrap(),
            ) && *final(self) == *old(self) && *final(heap) == *old(heap),
            old(self).spec_find(name@) is None && depth == 0 ==> r == Err::<usize, VmError>(
                VmError::LinkDepth,
            ) && *final(self) == *old(self) && *final(heap) == *old(heap),
            r is Ok ==> final(self).spec_find(name@) == Some(r.unwrap()) && r.unwrap() < final(self).classes@.len(),
            r is Ok && old(self).spec_find(name@) is None ==> r.unwrap() >= old(self).classes@.len(),
            r is Ok && old(self).spec_find(name@) is None && is_array_name(name@)
                ==> array_class_of(final(self).classes@[r.unwrap() as int], name@, final(self)),
            old(self).spec_find(name@) is None && depth > 0 && is_array_name(name@) ==> match spec_arr(
                encode_utf8(name@),
                0,
            ) {
                None => r == Err::<usize, VmError>(VmError::ClassFormat) && *final(self) == *old(self) && *final(heap) == *old(heap),
                Some(a) => old(self).spec_find("java/lang/Object"@) is Some && old(self).spec_find(
                    class_name_of(a.element),
                ) is Some ==> r is Ok,
            },
            r is Ok && old(self).spec_find(name@) is None && !is_array_name(name@)
                ==> defined_from_some(
                final(self).classes@[r.unwrap() as int],
                final(self),
                final(heap),
            ),
            r is Ok && old(self).spec_find(name@) is None && !is_array_name(name@) ==> exists|
                b: Vec<u8>,
            |
                #[trigger] call_ensures(E::read_class, (entry, name), Some(b)) && spec_class_file(
                    b@,
                ) is Some && defined_from(
                    final(self).classes@[r.unwrap() as int],
                    spec_class_file(b@).unwrap(),
                    final(self),
                    final(heap),
                ),
            old(self).spec_find(name@) is None && depth > 0 && !is_array_name(name@) ==> read_post(
                entry,
                name,
                old(self),
                old(heap),
                final(self),
                final(heap),
                r,
            ),
            final(self).keeps_mirrors(old(self)),
            news_read(entry, old(self), final(self)),
            r is Ok && old(self).spec_find(name@) is None && old(self).mirrors_fit() ==> final(self).classes@[r.unwrap() as int].j_class != 0,
            r is Ok && old(self).spec_find(name@) is None ==> final(self).classes@.len()
                == r.unwrap() + 1,
        decreases depth, 1nat, 0nat,
    {
        proof {
            lemma_news_none(entry, old(self), self);
        }
        match self.find(name) {
            Some(id) => {
                proof {
                    self.lemma_found_valid(name@, 0);
                }
                return Ok(id);
            },
            None => {},
        }
        if depth == 0 {
            return Err(VmError::LinkDepth);
        }
        if !name.is_empty() && name.get_char(0) == '[' {
            let (dim, el): (u8, JType) = {
                let mut parser = DescriptorParser::new(name.as_bytes());
                match parser.parse_arr() {
                    Some(t) => (t.0, t.2),
                    None => {
                        return Err(VmError::ClassFormat);
                    },
                }
            };
            let obj: usize = match self.load_nested(heap, entry, "java/lang/Object", depth - 1) {
                Ok(o) => o,
                Err(e) => {
                    return Err(e);
                },
            };
            let ghost mid1 = *self;
            let el_name: String = el.class();
            let loaded_el = self.load_nested(heap, entry, el_name.as_str(), depth - 1);
            proof {
                lemma_news_trans(entry, old(self), &mid1, self);
            }
            let elc: usize = match loaded_el {
                Ok(o) => o,
                Err(e) => {
                    return Err(e);
                },
            };
            if self.find(name).is_some() {
                return Err(VmError::LinkDepth);
            }
            let id: usize = self.classes.len();
            let mut c = Class::empty();
            c.initialized = true;
            c.access_flags = AccessFlags(ACC_PUBLIC);
            c.super_class = Some(obj);
            c.name = name.to_owned();
            c.desc = name.to_owned();
            c.dim = dim;
            c.element_class = Some(elc);
            let ghost o = c;
            layout(&mut c, &self.classes[obj].ins_fields, id);
            proof {
                lemma_laid_out_ok(self.classes@, c, o, c);
                self.lemma_find_stable(&mid1, "java/lang/Object"@, 0);
            }
            let ghost pre = *self;
            proof {
                reveal_strlit("");
            }
            let r: usize = self.insert(heap, c, name, "");
            proof {
                lemma_news_one(entry, &pre, self, name);
                lemma_news_trans(entry, old(self), &pre, self);
                self.lemma_find_stable(&pre, "java/lang/Object"@, 0);
                self.lemma_find_stable(&pre, el_name@, 0);
                assert(kind_indices(static_mask(o.fields@), true, 0) =~= Seq::<usize>::empty());
            }
            return Ok(r);
        }
        let bytes: Option<Vec<u8>> = entry.read_class(name);
        let ghost b = bytes;
        let r = self.define_read(heap, entry, name, bytes, depth);
        proof {
            assert(call_ensures(E::read_class, (entry, name), b));
            lemma_read_post(entry, name, b, old(self), old(heap), self, heap, r);
            if r is Ok {
                assert(spec_class_file(b.unwrap()@) is Some);
                assert(call_ensures(E::read_class, (entry, name), Some(b.unwrap())));
                assert(defined_from_some(self.classes@[r.unwrap() as int], self, heap));
            }
        }
        r
    }

    /// What defining the class `name` from the answer `bytes` of the
    /// class path makes of the table `pre` and the heap `pre_heap`: with
    /// no bytes the class is not found, and with bytes that are no class
    /// file in order there is a class-format error, and nothing changes;
    /// a class that `can_define` is defined without fail; and after a
    /// success the new class is the one that the bytes define, recorded
    /// under `name`, with its mirror where mirrors are given.
    pub open spec fn read_defined(
        pre: &ClassLoader,
        pre_heap: &Heap,
        name: Seq<char>,
        bytes: Option<Vec<u8>>,
        post: &ClassLoader,
        post_heap: &Heap,
        r: Result<usize, VmError>,
    ) -> bool {
        match bytes {
            None => r == Err::<usize, VmError>(VmError::ClassNotFound) && *post == *pre
                && *post_heap == *pre_heap,
            Some(b) => match spec_class_file(b@) {
                None => r == Err::<usize, VmError>(VmError::ClassFormat) && *post == *pre
                    && *post_heap == *pre_heap,
                Some(f) => {
                    &&& !file_ok(f) ==> r == Err::<usize, VmError>(VmError::ClassFormat) && *post
                        == *pre && *post_heap == *pre_heap
                    &&& can_define(pre, f, name) ==> r is Ok
                    &&& r is Ok ==> {
                        &&& post.spec_find(name) == Some(r.unwrap())
                        &&& r.unwrap() < post.classes@.len()
                        &&& r.unwrap() >= pre.classes@.len()
                        &&& post.classes@[r.unwrap() as int].id == r.unwrap()
                        &&& post.classes@.len() == r.unwrap() + 1
                        &&& defined_from(post.classes@[r.unwrap() as int], f, post, post_heap)
                        &&& pre.mirrors_fit() ==> post.classes@[r.unwrap() as int].j_class != 0
                    }
                },
            },
        }
    }

    /// Defines the class `name` from what the class path gave for it:
    /// with no bytes the class is not found, and nothing changes; with
    /// bytes the class is defined as `define_nested` defines it.
    pub fn define_read<E: Entry>(
        &mut self,
        heap: &mut Heap,
        entry: &E,
        name: &str,
        bytes: Option<Vec<u8>>,
        depth: usize,
    ) -> (r: Result<usize, VmError>)
        requires
            old(self).wf(),
            old(heap).wf(),
            depth >= 1,
        ensures
            final(self).wf(),
            final(heap).wf(),
            final(heap).extends(old(heap)),
            final(self).grows_from(old(self)),
            final(self).keeps_mirrors(old(self)),
            call_ensures(E::read_class, (entry, name), bytes) ==> news_read(
                entry,
                old(self),
                final(self),
            ),
            Self::read_defined(old(self), old(heap), name@, bytes, final(self), final(heap), r),
        decreases depth, 0nat, 1nat,
    {
        proof {
            lemma_news_none(entry, old(self), self);
        }
        match bytes {
            Some(b) => self.define_nested(heap, entry, name, b, depth),
            None => Err(VmError::ClassNotFound),
        }
    }

    /// A name that is found leads to a class of the table.
    pub proof fn lemma_found_valid(&self, name: Seq<char>, from: int)
        requires
            self.wf(),
            0 <= from,
            self.find_from(name, from) is Some,
        ensures
            self.find_from(name, from).unwrap() < self.classes@.len(),
        decreases self.loaded@.len() - from,
    {
        if from < self.loaded@.len() && self.loaded@[from].0@ != name {
            self.lemma_found_valid(name, from + 1);
        }
    }

    /// Loads the class `name`: the class recorded under that name where
    /// there is one, with nothing changed; else an array class made on
    /// the fly for a name that starts with `[`; else the class that the
    /// bytes from `entry` define. What was loaded before stays as it
    /// was. An array name that is no array descriptor is a class-format
    /// error; an array class whose element class and `java/lang/Object`
    /// are loaded already is made without fail.
    pub fn load<E: Entry>(&mut self, heap: &mut Heap, entry: &E, name: &str) -> (r: Result<
        usize,
        VmError,
    >)
        requires
            old(self).wf(),
            old(heap).wf(),
        ensures
            final(self).wf(),
            final(heap).wf(),
            final(heap).extends(old(heap)),
            final(self).grows_from(old(self)),
            old(self).spec_find(name@) is Some ==> r == Ok::<usize, VmError>(
                old(self).spec_find(name@).unwrap(),
            ) && *final(self) == *old(self) && *final(heap) == *old(heap),
            r is Ok ==> final(self).spec_find(name@) == Some(r.unwrap()) && r.unwrap() < final(self).classes@.len(),
            r is Ok && old(self).spec_find(name@) is None && is_array_name(name@)
                ==> array_class_of(final(self).classes@[r.unwrap() as int], name@, final(self)),
            old(self).spec_find(name@) is None && is_array_name(name@) ==> match spec_arr(
                encode_utf8(name@),
                0,
            ) {
                None => r == Err::<usize, VmError>(VmError::ClassFormat) && *final(self) == *old(self) && *final(heap) == *old(heap),
                Some(a) => old(self).spec_find("java/lang/Object"@) is Some && old(self).spec_find(
                    class_name_of(a.element),
                ) is Some ==> r is Ok,
            },
            r is Ok && old(self).spec_find(name@) is None && !is_array_name(name@)
                ==> defined_from_some(
                final(self).classes@[r.unwrap() as int],
                final(self),
                final(heap),
            ),
            r is Ok && old(self).spec_find(name@) is None && !is_array_name(name@) ==> exists|
                b: Vec<u8>,
            |
                #[trigger] call_ensures(E::read_class, (entry, name), Some(b)) && spec_class_file(
                    b@,
                ) is Some && defined_from(
                    final(self).classes@[r.unwrap() as int],
                    spec_class_file(b@).unwrap(),
                    final(self),
                    final(heap),
                ),
            old(self).spec_find(name@) is None && !is_array_name(name@) ==> read_post(
                entry,
                name,
                old(self),
                old(heap),
                final(self),
                final(heap),
                r,
            ),
            final(self).keeps_mirrors(old(self)),
            news_read(entry, old(self), final(self)),
            r is Ok && old(self).spec_find(name@) is None && old(self).mirrors_fit() ==> final(self).classes@[r.unwrap() as int].j_class != 0,
            r is Ok && old(self).spec_find(name@) is None ==> final(self).classes@.len()
                == r.unwrap() + 1,
    {
        self.load_nested(heap, entry, name, MAX_NESTING)
    }

    /// Loads the classes that `names` name, in their order. Where all of
    /// them are loaded already nothing changes.
    pub fn load_all<E: Entry>(
        &mut self,
        heap: &mut Heap,
        entry: &E,
        names: &Vec<String>,
        depth: usize,
    ) -> (r: Result<Vec<usize>, VmError>)
        requires
            old(self).wf(),
            old(heap).wf(),
        ensures
            final(self).wf(),
            final(heap).wf(),
            final(heap).extends(old(heap)),
            final(self).grows_from(old(self)),
            final(self).keeps_mirrors(old(self)),
            news_read(entry, old(self), final(self)),
            r is Ok ==> r.unwrap()@.len() == names@.len() && forall|j: int|
                0 <= j < names@.len() ==> Some(#[trigger] r.unwrap()@[j]) == final(self).spec_find(names@[j]@) && r.unwrap()@[j] < final(self).classes@.len(),
            all_found(old(self), names@) ==> r is Ok && *final(self) == *old(self) && *final(heap)
                == *old(heap),
        decreases depth, 2nat, 0nat,
    {
        let mut ids: Vec<usize> = Vec::new();
        let mut k: usize = 0;
        proof {
            lemma_news_none(entry, old(self), self);
        }
        while k < names.len()
            invariant
                k <= names@.len(),
                self.wf(),
                heap.wf(),
                heap.extends(old(heap)),
                self.grows_from(old(self)),
                self.keeps_mirrors(old(self)),
                news_read(entry, old(self), self),
                all_found(old(self), names@) ==> *self == *old(self) && *heap == *old(heap),
                ids@.len() == k,
                forall|j: int|
                    0 <= j < k ==> Some(#[trigger] ids@[j]) == self.spec_find(names@[j]@) && ids@[j]
                        < self.classes@.len(),
            decreases names@.len() - k,
        {
            let ghost before = *self;
            let ghost prev = ids@;
            proof {
                if all_found(old(self), names@) {
                    assert(old(self).spec_find(#[trigger] names@[k as int]@) is Some);
                }
            }
            let one = self.load_nested(heap, entry, names[k].as_str(), depth);
            proof {
                lemma_news_trans(entry, old(self), &before, self);
            }
            match one {
                Ok(i) => {
                    ids.push(i);
                },
                Err(e) => {
                    return Err(e);
                },
            }
            proof {
                assert forall|j: int| 0 <= j < k implies Some(#[trigger] ids@[j])
                    == self.spec_find(names@[j]@) && ids@[j] < self.classes@.len() by {
                    assert(ids@[j] == prev[j]);
                    self.lemma_find_stable(&before, names@[j]@, 0);
                }
            }
            k += 1;
        }
        Ok(ids)
    }

    /// Links a class to its superclass and its interfaces, loading them
    /// where they are new. Where all of them are loaded already the
    /// table and the heap stay as they are.
    pub fn link_supers<E: Entry>(
        &mut self,
        heap: &mut Heap,
        entry: &E,
        cl: &mut Class,
        depth: usize,
    ) -> (r: Result<(), VmError>)
        requires
            old(self).wf(),
            old(heap).wf(),
        ensures
            final(self).wf(),
            final(heap).wf(),
            final(heap).extends(old(heap)),
            final(self).grows_from(old(self)),
            final(self).keeps_mirrors(old(self)),
            news_read(entry, old(self), final(self)),
            r is Ok ==> supers_linked(*final(cl), *old(cl), final(self)),
            r is Ok && final(cl).super_class is Some ==> final(cl).super_class.unwrap() < final(self).classes@.len(),
            r is Ok ==> forall|k: int|
                0 <= k < final(cl).interfaces@.len() ==> (#[trigger] final(cl).interfaces@[k])
                    < final(self).classes@.len(),
            supers_found(old(self), *old(cl)) ==> r is Ok && *final(self) == *old(self) && *final(heap) == *old(heap),
        decreases depth, 3nat, 0nat,
    {
        let mut sup: Option<usize> = None;
        proof {
            lemma_news_none(entry, old(self), self);
        }
        if !cl.super_name.as_str().is_empty() {
            match self.load_nested(heap, entry, cl.super_name.as_str(), depth) {
                Ok(s) => {
                    sup = Some(s);
                },
                Err(e) => {
                    return Err(e);
                },
            }
        }
        let ghost mid = *self;
        let all = self.load_all(heap, entry, &cl.iface_names, depth);
        proof {
            lemma_news_trans(entry, old(self), &mid, self);
        }
        let ids = match all {
            Ok(v) => v,
            Err(e) => {
                return Err(e);
            },
        };
        proof {
            if old(cl).super_name@.len() != 0 {
                self.lemma_find_stable(&mid, old(cl).super_name@, 0);
            }
        }
        cl.super_class = sup;
        cl.interfaces = ids;
        Ok(())
    }

    /// Lays a linked class out, seeds its constant static fields and
    /// enters it in the table under `name`. It fails where the name is
    /// taken, and where a constant cannot be seeded; it succeeds where
    /// the name is free and no field asks for a text or for a constant
    /// of the wrong kind.
    pub fn enter(&mut self, heap: &mut Heap, cl: Class, name: &str) -> (r: Result<usize, VmError>)
        requires
            old(self).wf(),
            old(heap).wf(),
            cl.static_fields@.len() == 0,
            cl.ins_fields@.len() == 0,
            cl.sym_refs@.len() == cl.cp@.len(),
            crate::cp::wide_rule(cl.cp@),
            cl.super_class is Some ==> cl.super_class.unwrap() < old(self).classes@.len(),
            forall|k: int|
                0 <= k < cl.interfaces@.len() ==> (#[trigger] cl.interfaces@[k]) < old(self).classes@.len(),
            cl.element_class is Some ==> cl.element_class.unwrap() < old(self).classes@.len(),
        ensures
            final(self).wf(),
            final(heap).wf(),
            final(heap).extends(old(heap)),
            final(self).grows_from(old(self)),
            final(self).keeps_mirrors(old(self)),
            r is Ok ==> {
                &&& r.unwrap() == old(self).classes@.len()
                &&& final(self).classes@.len() == r.unwrap() + 1
                &&& final(self).classes@[r.unwrap() as int].id == r.unwrap()
                &&& old(self).spec_find(name@) is None
                &&& final(self).spec_find(name@) == Some(r.unwrap())
                &&& final(self).loaded@.len() == old(self).loaded@.len() + 1
                &&& final(self).loaded@.last().0@ == name@
                &&& final(self).loaded@.last().1 == r.unwrap()
                &&& entered(final(self).classes@[r.unwrap() as int], cl, final(self), final(heap))
                &&& old(self).mirrors_fit() ==> final(self).classes@[r.unwrap() as int].j_class != 0
            },
            r is Err ==> *final(self) == *old(self),
            old(self).spec_find(name@) is Some ==> r == Err::<usize, VmError>(VmError::LinkDepth)
                && *final(heap) == *old(heap),
            old(self).spec_find(name@) is None && plain_seeds(cl) ==> r is Ok,
    {
        if self.find(name).is_some() {
            return Err(VmError::LinkDepth);
        }
        let id: usize = self.classes.len();
        let ghost c1 = cl;
        let mut cl = cl;
        let nf: usize = cl.fields.len();
        match cl.super_class {
            Some(s) => {
                layout(&mut cl, &self.classes[s].ins_fields, id);
            },
            None => {
                let none: Vec<MemberRef> = Vec::new();
                layout(&mut cl, &none, id);
            },
        }
        let ghost c2 = cl;
        proof {
            lemma_kind_indices(static_mask(c1.fields@), true, c1.fields@.len() as int);
            if plain_seeds(c1) {
                lemma_plain_seeds(c1, c2, super_fields(c1, self), id);
            }
        }
        match init_finals(&mut cl, heap, self) {
            Ok(_) => {},
            Err(e) => {
                return Err(e);
            },
        }
        proof {
            assert(same_shape(cl, c2));
            lemma_laid_out_ok(self.classes@, cl, c1, c2);
        }
        let ghost pre_heap = *heap;
        let ghost seeded_class = cl;
        let ghost pre = *self;
        proof {
            reveal_strlit("");
        }
        let r: usize = self.insert(heap, cl, name, "");
        proof {
            let c = self.classes@[r as int];
            assert(super_fields(c1, self) == super_fields(c1, &pre)) by {
                if c1.super_class is Some {
                    assert(self.classes@[c1.super_class.unwrap() as int]
                        == pre.classes@[c1.super_class.unwrap() as int]);
                }
            }
            assert forall|j: int| 0 <= j < c2.static_fields@.len() implies seeded(
                seed_of(c2.cp@, c2.fields@[c2.static_fields@[j] as int]),
                #[trigger] c.static_vars@[j],
                0,
                heap,
            ) by {
                let sd = seed_of(c2.cp@, c2.fields@[c2.static_fields@[j] as int]);
                assert(seeded(sd, seeded_class.static_vars@[j], c2.static_vars@[j], &pre_heap));
                match sd {
                    Seed::Text(t) => {
                        crate::layout::lemma_interned_stable(&pre_heap, heap, t, 0);
                    },
                    _ => {},
                }
            }
            assert(laid_out(c2, c1, super_fields(c1, self), c.id));
            assert(same_shape(c, c2));
        }
        Ok(r)
    }

    /// Defines the class that `bytes` hold and records it under `name`,
    /// following at most `depth - 1` levels of classes that it needs in
    /// turn. It fails with a class-format error where the bytes are no
    /// class file in order, and it succeeds where `can_define` holds.
    pub fn define_nested<E: Entry>(
        &mut self,
        heap: &mut Heap,
        entry: &E,
        name: &str,
        bytes: Vec<u8>,
        depth: usize,
    ) -> (r: Result<usize, VmError>)
        requires
            old(self).wf(),
            old(heap).wf(),
            depth >= 1,
        ensures
            final(self).wf(),
            final(heap).wf(),
            final(heap).extends(old(heap)),
            final(self).grows_from(old(self)),
            final(self).keeps_mirrors(old(self)),
            call_ensures(E::read_class, (entry, name), Some(bytes)) ==> news_read(
                entry,
                old(self),
                final(self),
            ),
            spec_class_file(bytes@) is None || !file_ok(spec_class_file(bytes@).unwrap()) ==> r
                == Err::<usize, VmError>(VmError::ClassFormat) && *final(self) == *old(self)
                && *final(heap) == *old(heap),
            spec_class_file(bytes@) is Some && can_define(
                old(self),
                spec_class_file(bytes@).unwrap(),
                name@,
            ) ==> r is Ok,
            r is Ok ==> {
                &&& final(self).spec_find(name@) == Some(r.unwrap())
                &&& r.unwrap() < final(self).classes@.len()
                &&& r.unwrap() >= old(self).classes@.len()
                &&& spec_class_file(bytes@) is Some
                &&& final(self).classes@[r.unwrap() as int].id == r.unwrap()
                &&& final(self).classes@.len() == r.unwrap() + 1
                &&& defined_from(
                    final(self).classes@[r.unwrap() as int],
                    spec_class_file(bytes@).unwrap(),
                    final(self),
                    final(heap),
                )
                &&& old(self).mirrors_fit() ==> final(self).classes@[r.unwrap() as int].j_class != 0
            },
        decreases depth, 0nat, 0nat,
    {
        proof {
            lemma_news_none(entry, old(self), self);
        }
        let mut cl = match decode_class(bytes) {
            Ok(c) => c,
            Err(e) => {
                return Err(VmError::ClassFormat);
            },
        };
        let ghost fv = spec_class_file(bytes@).unwrap();
        let ghost c1 = cl;
        proof {
            if can_define(old(self), fv, name@) {
                lemma_can_define(old(self), fv, name@, c1);
            }
        }
        match self.link_supers(heap, entry, &mut cl, depth - 1) {
            Ok(_) => {},
            Err(e) => {
                return Err(e);
            },
        }
        let ghost c2 = cl;
        let ghost mid = *self;
        proof {
            if can_define(old(self), fv, name@) {
                lemma_plain_kept(c1, c2);
            }
        }
        let r: usize = match self.enter(heap, cl, name) {
            Ok(r) => r,
            Err(e) => {
                return Err(e);
            },
        };
        proof {
            let c0 = choose|c0: Class| #[trigger]
                class_of_file(c0, fv) && methods_prepared(c1, c0);
            if c1.super_name@.len() != 0 {
                self.lemma_find_stable(&mid, c1.super_name@, 0);
            }
            assert forall|k: int| 0 <= k < c1.iface_names@.len() implies Some(
                #[trigger] c2.interfaces@[k],
            ) == self.spec_find(c1.iface_names@[k]@) by {
                assert(Some(c2.interfaces@[k]) == mid.spec_find(c1.iface_names@[k]@));
                self.lemma_find_stable(&mid, c1.iface_names@[k]@, 0);
            }
            assert(supers_linked(c2, c1, self));
            assert(class_of_file(c0, fv));
            assert(methods_prepared(c1, c0));
            assert(defined_from(self.classes@[r as int], fv, self, heap));
            if call_ensures(E::read_class, (entry, name), Some(bytes)) {
                lemma_loaded_read(entry, name, self, heap, r);
                lemma_news_one(entry, &mid, self, name);
                lemma_news_trans(entry, old(self), &mid, self);
            }
        }
        Ok(r)
    }

    /// Defines the class that `bytes` hold and records it under `name`.
    /// It fails with a class-format error where the bytes are no class
    /// file in order, and it succeeds where `can_define` holds.
    pub fn define<E: Entry>(&mut self, heap: &mut Heap, entry: &E, name: &str, bytes: Vec<u8>) -> (r:
        Result<usize, VmError>)
        requires
            old(self).wf(),
            old(heap).wf(),
        ensures
            final(self).wf(),
            final(heap).wf(),
            final(heap).extends(old(heap)),
            final(self).grows_from(old(self)),
            final(self).keeps_mirrors(old(self)),
            spec_class_file(bytes@) is None || !file_ok(spec_class_file(bytes@).unwrap()) ==> r
                == Err::<usize, VmError>(VmError::ClassFormat) && *final(self) == *old(self)
                && *final(heap) == *old(heap),
            spec_class_file(bytes@) is Some && can_define(
                old(self),
                spec_class_file(bytes@).unwrap(),
                name@,
            ) ==> r is Ok,
            r is Ok ==> {
                &&& final(self).spec_find(name@) == Some(r.unwrap())
                &&& r.unwrap() < final(self).classes@.len()
                &&& spec_class_file(bytes@) is Some
                &&& defined_from(
                    final(self).classes@[r.unwrap() as int],
                    spec_class_file(bytes@).unwrap(),
                    final(self),
                    final(heap),
                )
                &&& old(self).mirrors_fit() ==> final(self).classes@[r.unwrap() as int].j_class != 0
            },
    {
        self.define_nested(heap, entry, name, bytes, MAX_NESTING)
    }
}

} // verus!
