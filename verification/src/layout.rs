//! The layout of a class's fields: the static fields in declaration
//! order, and the instance fields with those of the superclass first;
//! and the seeding of constant static fields.

use vstd::prelude::*;
use vstd::string::*;
use crate::class::{Class, ClassLoader, ClassMember};
use crate::cp::{ConstantInfoView, pool_string};
use crate::error::VmError;
use crate::flags::{ACC_FINAL, ACC_STATIC};
use crate::frame::{MemberRef, zeros};
use crate::heap::Heap;
use crate::text::str_eq;

verus! {

/// For each field, whether it is static.
pub open spec fn static_mask(fields: Seq<ClassMember>) -> Seq<bool> {
    Seq::new(fields.len(), |k: int| fields[k].access_flags.has(ACC_STATIC))
}

/// The indices below `n` at which `st` is `want`, in rising order.
pub open spec fn kind_indices(st: Seq<bool>, want: bool, n: int) -> Seq<usize>
    decreases n,
{
    if n <= 0 {
        Seq::empty()
    } else {
        let r = kind_indices(st, want, n - 1);
        if st[n - 1] == want {
            r.push((n - 1) as usize)
        } else {
            r
        }
    }
}

/// The links to the own instance fields of class `id`.
pub open spec fn own_links(st: Seq<bool>, id: usize) -> Seq<MemberRef> {
    Seq::new(
        kind_indices(st, false, st.len() as int).len(),
        |k: int| MemberRef { class: id, index: kind_indices(st, false, st.len() as int)[k] },
    )
}

/// Whether `m` is `o` with its owner set to `id` and its id to `n`.
pub open spec fn placed(m: ClassMember, o: ClassMember, id: usize, n: int) -> bool {
    &&& m.access_flags == o.access_flags
    &&& m.name == o.name
    &&& m.desc == o.desc
    &&& m.max_stack == o.max_stack
    &&& m.max_locals == o.max_locals
    &&& m.code == o.code
    &&& m.cons_i == o.cons_i
    &&& m.m_desc == o.m_desc
    &&& m.class == id
    &&& m.id == n
}

/// Whether `c` is the class `o` laid out under the id `id` over the
/// instance fields `sup` of its superclass: the static fields are
/// numbered from 0 in declaration order and have one zero value each;
/// the instance fields are those of the superclass, then the own ones
/// numbered on from there; every member is owned by `id`.
pub open spec fn laid_out(c: Class, o: Class, sup: Seq<MemberRef>, id: usize) -> bool {
    let st = static_mask(o.fields@);
    let n = o.fields@.len() as int;
    &&& c.static_fields@ == kind_indices(st, true, n)
    &&& c.static_vars@ == zeros(c.static_fields@.len())
    &&& c.ins_fields@ == sup + own_links(st, id)
    &&& c.id == id
    &&& c.fields@.len() == n
    &&& forall|k: int|
        0 <= k < n ==> placed(
            #[trigger] c.fields@[k],
            o.fields@[k],
            id,
            if st[k] {
                kind_indices(st, true, k).len() as int
            } else {
                (sup.len() + kind_indices(st, false, k).len()) as int
            },
        )
    &&& c.methods@.len() == o.methods@.len()
    &&& forall|k: int|
        0 <= k < o.methods@.len() ==> placed(
            #[trigger] c.methods@[k],
            o.methods@[k],
            id,
            o.methods@[k].id as int,
        )
    &&& c.access_flags == o.access_flags
    &&& c.name == o.name
    &&& c.desc == o.desc
    &&& c.super_name == o.super_name
    &&& c.iface_names == o.iface_names
    &&& c.cp == o.cp
    &&& c.super_class == o.super_class
    &&& c.interfaces == o.interfaces
    &&& c.sym_refs == o.sym_refs
    &&& c.initialized == o.initialized
    &&& c.element_class == o.element_class
    &&& c.dim == o.dim
    &&& c.j_class == o.j_class
}

/// Every index that `kind_indices` lists is below `n`.
pub proof fn lemma_kind_indices(st: Seq<bool>, want: bool, n: int)
    requires
        0 <= n <= st.len(),
        n <= usize::MAX,
    ensures
        kind_indices(st, want, n).len() <= n,
        forall|k: int|
            0 <= k < kind_indices(st, want, n).len() ==> (#[trigger] kind_indices(st, want, n)[k])
                < n && st[kind_indices(st, want, n)[k] as int] == want,
    decreases n,
{
    if n > 0 {
        lemma_kind_indices(st, want, n - 1);
        let r = kind_indices(st, want, n - 1);
        let q = kind_indices(st, want, n);
        assert forall|k: int| 0 <= k < q.len() implies (#[trigger] q[k]) < n && st[q[k] as int]
            == want by {
            if k < r.len() {
                assert(q[k] == r[k]);
            }
        }
    }
}

/// Lays the fields of `c` out under the id `id`, over the instance
/// fields `sup` of its superclass.
pub fn layout(c: &mut Class, sup: &Vec<MemberRef>, id: usize)
    requires
        old(c).static_fields@.len() == 0,
        old(c).ins_fields@.len() == 0,
    ensures
        laid_out(*final(c), *old(c), sup@, id),
{
    let ghost st = static_mask(c.fields@);
    let mut i: usize = 0;
    while i < sup.len()
        invariant
            i <= sup@.len(),
            c.ins_fields@ == sup@.take(i as int),
            c.static_fields@.len() == 0,
            c.fields == old(c).fields,
            c.methods == old(c).methods,
            c.access_flags == old(c).access_flags,
            c.name == old(c).name,
            c.desc == old(c).desc,
            c.super_name == old(c).super_name,
            c.iface_names == old(c).iface_names,
            c.cp == old(c).cp,
            c.super_class == old(c).super_class,
            c.interfaces == old(c).interfaces,
            c.sym_refs == old(c).sym_refs,
            c.initialized == old(c).initialized,
            c.element_class == old(c).element_class,
            c.dim == old(c).dim,
            c.j_class == old(c).j_class,
        decreases sup@.len() - i,
    {
        c.ins_fields.push(sup[i]);
        i += 1;
        proof {
            assert(c.ins_fields@ =~= sup@.take(i as int));
        }
    }
    proof {
        assert(sup@.take(sup@.len() as int) =~= sup@);
    }
    let mut k: usize = 0;
    let n: usize = c.fields.len();
    while k < n
        invariant
            k <= n,
            n == old(c).fields@.len(),
            c.fields@.len() == n,
            st == static_mask(old(c).fields@),
            c.static_fields@ == kind_indices(st, true, k as int),
            c.ins_fields@ == sup@ + Seq::new(
                kind_indices(st, false, k as int).len(),
                |j: int| MemberRef { class: id, index: kind_indices(st, false, k as int)[j] },
            ),
            forall|j: int|
                0 <= j < k ==> placed(
                    #[trigger] c.fields@[j],
                    old(c).fields@[j],
                    id,
                    if st[j] {
                        kind_indices(st, true, j).len() as int
                    } else {
                        (sup@.len() + kind_indices(st, false, j).len()) as int
                    },
                ),
            forall|j: int| k <= j < n ==> c.fields@[j] == old(c).fields@[j],
            c.methods == old(c).methods,
            c.access_flags == old(c).access_flags,
            c.name == old(c).name,
            c.desc == old(c).desc,
            c.super_name == old(c).super_name,
            c.iface_names == old(c).iface_names,
            c.cp == old(c).cp,
            c.super_class == old(c).super_class,
            c.interfaces == old(c).interfaces,
            c.sym_refs == old(c).sym_refs,
            c.initialized == old(c).initialized,
            c.element_class == old(c).element_class,
            c.dim == old(c).dim,
            c.j_class == old(c).j_class,
        decreases n - k,
    {
        let ghost before = c.fields@;
        let ghost ins_before = c.ins_fields@;
        if c.fields[k].access_flags.is_static() {
            c.fields[k].id = c.static_fields.len();
            c.static_fields.push(k);
        } else {
            c.fields[k].id = c.ins_fields.len();
            c.ins_fields.push(MemberRef { class: id, index: k });
            proof {
                assert(c.ins_fields@ =~= sup@ + Seq::new(
                    kind_indices(st, false, k + 1).len(),
                    |j: int| MemberRef { class: id, index: kind_indices(st, false, k + 1)[j] },
                ));
            }
        }
        c.fields[k].class = id;
        proof {
            assert forall|j: int| 0 <= j < k implies placed(
                #[trigger] c.fields@[j],
                old(c).fields@[j],
                id,
                if st[j] {
                    kind_indices(st, true, j).len() as int
                } else {
                    (sup@.len() + kind_indices(st, false, j).len()) as int
                },
            ) by {
                assert(c.fields@[j] == before[j]);
            }
        }
        k += 1;
    }
    let mut m: usize = 0;
    let nm: usize = c.methods.len();
    let ghost fields_done = c.fields@;
    while m < nm
        invariant
            m <= nm,
            nm == old(c).methods@.len(),
            c.methods@.len() == nm,
            c.fields@ == fields_done,
            c.static_fields@ == kind_indices(st, true, n as int),
            c.ins_fields@ == sup@ + own_links(st, id),
            forall|j: int|
                0 <= j < m ==> placed(
                    #[trigger] c.methods@[j],
                    old(c).methods@[j],
                    id,
                    old(c).methods@[j].id as int,
                ),
            forall|j: int| m <= j < nm ==> c.methods@[j] == old(c).methods@[j],
            c.access_flags == old(c).access_flags,
            c.name == old(c).name,
            c.desc == old(c).desc,
            c.super_name == old(c).super_name,
            c.iface_names == old(c).iface_names,
            c.cp == old(c).cp,
            c.super_class == old(c).super_class,
            c.interfaces == old(c).interfaces,
            c.sym_refs == old(c).sym_refs,
            c.initialized == old(c).initialized,
            c.element_class == old(c).element_class,
            c.dim == old(c).dim,
            c.j_class == old(c).j_class,
        decreases nm - m,
    {
        let ghost before = c.methods@;
        c.methods[m].class = id;
        proof {
            assert forall|j: int| 0 <= j < m implies placed(
                #[trigger] c.methods@[j],
                old(c).methods@[j],
                id,
                old(c).methods@[j].id as int,
            ) by {
                assert(c.methods@[j] == before[j]);
            }
        }
        m += 1;
    }
    c.static_vars = vec![0u64; c.static_fields.len()];
    c.id = id;
    proof {
        assert(c.static_vars@ =~= zeros(c.static_fields@.len()));
    }
}

/// With what a static field starts.
pub ghost enum Seed {
    /// It keeps the value it has.
    Keep,
    /// The bits of a number from the pool.
    Value(u64),
    /// The reference to an interned text from the pool.
    Text(Seq<char>),
    /// Its constant is of the wrong kind: the class is malformed.
    Bad,
}

/// With what the field `f` starts, given the pool `cp`: a final field
/// with a constant index takes the pool's number of the kind that its
/// descriptor asks for (`Z B C S I`, `J`, `F`, `D`) or the pool's text
/// for a string; any other field keeps its value.
pub open spec fn seed_of(cp: Seq<ConstantInfoView>, f: ClassMember) -> Seed {
    let i = f.cons_i as int;
    let entry = if 0 <= i < cp.len() {
        cp[i]
    } else {
        ConstantInfoView::Blank
    };
    if !f.access_flags.has(ACC_FINAL) || f.cons_i == 0 {
        Seed::Keep
    } else if f.desc@ == "Z"@ || f.desc@ == "B"@ || f.desc@ == "C"@ || f.desc@ == "S"@ || f.desc@
        == "I"@ {
        match entry {
            ConstantInfoView::Integer(v) => Seed::Value(v as u64),
            _ => Seed::Bad,
        }
    } else if f.desc@ == "J"@ {
        match entry {
            ConstantInfoView::Long(v) => Seed::Value(v),
            _ => Seed::Bad,
        }
    } else if f.desc@ == "F"@ {
        match entry {
            ConstantInfoView::Float(v) => Seed::Value(v as u64),
            _ => Seed::Bad,
        }
    } else if f.desc@ == "D"@ {
        match entry {
            ConstantInfoView::Double(v) => Seed::Value(v),
            _ => Seed::Bad,
        }
    } else if f.desc@ == "Ljava/lang/String;"@ {
        match pool_string(cp, i) {
            Some(t) => Seed::Text(t),
            None => Seed::Bad,
        }
    } else {
        Seed::Keep
    }
}

/// A text found under a reference is still found under it in a heap
/// that extends the first.
pub proof fn lemma_interned_stable(old: &Heap, new: &Heap, s: Seq<char>, from: int)
    requires
        new.extends(old),
        0 <= from,
        old.interned_from(s, from) is Some,
    ensures
        new.interned_from(s, from) == old.interned_from(s, from),
    decreases old.string_pool@.len() - from,
{
    if from < old.string_pool@.len() {
        assert(new.string_pool@[from] == old.string_pool@[from]);
        if old.string_pool@[from].0@ != s {
            lemma_interned_stable(old, new, s, from + 1);
        }
    }
}

/// After `new_jstr` has returned a reference for a text, the text is
/// interned under that reference.
pub proof fn lemma_jstr_interned(pre: &Heap, loader: &ClassLoader, s: Seq<char>, post: &Heap, r: u64)
    requires
        Heap::jstr_post(pre, loader, s, post, Ok(r)),
    ensures
        post.interned(s) == Some(r),
{
    match pre.interned(s) {
        Some(o) => {},
        None => {
            crate::heap::lemma_not_interned(pre, s, 0);
            assert forall|k: int| 0 <= k < post.string_pool@.len() - 1 implies (
            #[trigger] post.string_pool@[k]).0@ != s by {
                assert(post.string_pool@[k] == pre.string_pool@[k]);
            }
            crate::heap::lemma_interned_last(post, s, 0);
        },
    }
}

/// Whether the static value `v` of a field is what its seed asks for in
/// the heap `heap`, `before` being the value it had.
pub open spec fn seeded(seed: Seed, v: u64, before: u64, heap: &Heap) -> bool {
    match seed {
        Seed::Keep => v == before,
        Seed::Value(x) => v == x,
        Seed::Text(t) => heap.interned(t) == Some(v),
        Seed::Bad => false,
    }
}

/// The seed of the static field number `k` of `c`.
pub open spec fn seed_at(c: Class, k: int) -> Seed {
    seed_of(c.cp@, c.fields@[c.static_fields@[k] as int])
}

/// Whether a static field of `c` has a constant of the wrong kind.
#[verifier::opaque]
pub open spec fn has_bad_seed(c: Class) -> bool {
    exists|k: int| 0 <= k < c.static_fields@.len() && #[trigger] seed_at(c, k) is Bad
}

/// Whether a static field of `c` is seeded with a text.
#[verifier::opaque]
pub open spec fn has_text_seed(c: Class) -> bool {
    exists|k: int| 0 <= k < c.static_fields@.len() && #[trigger] seed_at(c, k) is Text
}

/// Seeds the constant static fields of `c`. It fails on the first field
/// whose constant is of the wrong kind, with a class-format error, or
/// whose text cannot be made a string of; the heap only grows, and it
/// stays as it is where no field is seeded with a text.
pub fn init_finals(c: &mut Class, heap: &mut Heap, loader: &ClassLoader) -> (r: Result<(), VmError>)
    requires
        old(heap).wf(),
        old(c).static_vars@.len() == old(c).static_fields@.len(),
        forall|k: int|
            0 <= k < old(c).static_fields@.len() ==> (#[trigger] old(c).static_fields@[k]) < old(c).fields@.len(),
    ensures
        final(heap).wf(),
        final(heap).extends(old(heap)),
        final(c).static_vars@.len() == old(c).static_vars@.len(),
        final(c).access_flags == old(c).access_flags,
        final(c).name == old(c).name,
        final(c).desc == old(c).desc,
        final(c).super_name == old(c).super_name,
        final(c).iface_names == old(c).iface_names,
        final(c).cp == old(c).cp,
        final(c).fields == old(c).fields,
        final(c).methods == old(c).methods,
        final(c).super_class == old(c).super_class,
        final(c).interfaces == old(c).interfaces,
        final(c).static_fields == old(c).static_fields,
        final(c).ins_fields == old(c).ins_fields,
        final(c).sym_refs == old(c).sym_refs,
        final(c).id == old(c).id,
        final(c).initialized == old(c).initialized,
        final(c).element_class == old(c).element_class,
        final(c).dim == old(c).dim,
        final(c).j_class == old(c).j_class,
        r is Ok ==> forall|k: int|
            0 <= k < old(c).static_fields@.len() ==> seeded(
                seed_of(old(c).cp@, old(c).fields@[old(c).static_fields@[k] as int]),
                #[trigger] final(c).static_vars@[k],
                old(c).static_vars@[k],
                final(heap),
            ),
        has_bad_seed(*old(c)) ==> r is Err,
        !has_text_seed(*old(c)) ==> *final(heap) == *old(heap) && r == (if has_bad_seed(*old(c)) {
            Err::<(), VmError>(VmError::ClassFormat)
        } else {
            Ok::<(), VmError>(())
        }),
{
    proof {
        reveal(has_bad_seed);
        reveal(has_text_seed);
    }
    let n: usize = c.static_fields.len();
    let mut i: usize = 0;
    while i < n
        invariant
            i <= n,
            n == old(c).static_fields@.len(),
            heap.wf(),
            heap.extends(old(heap)),
            c.static_vars@.len() == n,
            old(c).static_vars@.len() == n,
            c.access_flags == old(c).access_flags,
            c.name == old(c).name,
            c.desc == old(c).desc,
            c.super_name == old(c).super_name,
            c.iface_names == old(c).iface_names,
            c.cp == old(c).cp,
            c.fields == old(c).fields,
            c.methods == old(c).methods,
            c.super_class == old(c).super_class,
            c.interfaces == old(c).interfaces,
            c.static_fields == old(c).static_fields,
            c.ins_fields == old(c).ins_fields,
            c.sym_refs == old(c).sym_refs,
            c.id == old(c).id,
            c.initialized == old(c).initialized,
            c.element_class == old(c).element_class,
            c.dim == old(c).dim,
            c.j_class == old(c).j_class,
            forall|k: int|
                0 <= k < n ==> (#[trigger] old(c).static_fields@[k]) < old(c).fields@.len(),
            forall|k: int|
                0 <= k < i ==> seeded(
                    seed_of(old(c).cp@, old(c).fields@[old(c).static_fields@[k] as int]),
                    #[trigger] c.static_vars@[k],
                    old(c).static_vars@[k],
                    heap,
                ),
            forall|k: int| i <= k < n ==> c.static_vars@[k] == old(c).static_vars@[k],
            forall|k: int| 0 <= k < i ==> !(#[trigger] seed_at(*old(c), k) is Bad),
            (forall|k: int| 0 <= k < i ==> !(#[trigger] seed_at(*old(c), k) is Text)) ==> *heap
                == *old(heap),
        decreases n - i,
    {
        let fi: usize = c.static_fields[i];
        proof {
            assert(old(c).static_fields@[i as int] < old(c).fields@.len());
        }
        let ghost sd = seed_of(c.cp@, c.fields@[fi as int]);
        proof {
            reveal(has_bad_seed);
            reveal(has_text_seed);
            assert(sd == seed_at(*old(c), i as int));
        }
        let ghost heap_before = *heap;
        let ghost vars_before = c.static_vars@;
        let f = &c.fields[fi];
        if f.access_flags.is_final() && f.cons_i != 0 {
            let d: &str = f.desc.as_str();
            let ci: usize = f.cons_i;
            let v: Option<u64> = if str_eq(d, "Z") || str_eq(d, "B") || str_eq(d, "C") || str_eq(
                d,
                "S",
            ) || str_eq(d, "I") {
                match c.cp.u32(ci) {
                    Some(x) => Some(x as u64),
                    None => {
                        return Err(VmError::ClassFormat);
                    },
                }
            } else if str_eq(d, "J") {
                match c.cp.u64(ci) {
                    Some(x) => Some(x),
                    None => {
                        return Err(VmError::ClassFormat);
                    },
                }
            } else if str_eq(d, "F") {
                match c.cp.float_bits(ci) {
                    Some(x) => Some(x as u64),
                    None => {
                        return Err(VmError::ClassFormat);
                    },
                }
            } else if str_eq(d, "D") {
                match c.cp.double_bits(ci) {
                    Some(x) => Some(x),
                    None => {
                        return Err(VmError::ClassFormat);
                    },
                }
            } else if str_eq(d, "Ljava/lang/String;") {
                match c.cp.string(ci) {
                    Some(t) => match heap.new_jstr(loader, t) {
                        Ok(o) => {
                            proof {
                                lemma_jstr_interned(&heap_before, loader, t@, heap, o);
                            }
                            Some(o)
                        },
                        Err(e) => {
                            return Err(e);
                        },
                    },
                    None => {
                        return Err(VmError::ClassFormat);
                    },
                }
            } else {
                None
            };
            match v {
                Some(x) => {
                    c.static_vars[i] = x;
                },
                None => {},
            }
        }
        proof {
            assert forall|k: int| 0 <= k < i implies seeded(
                seed_of(old(c).cp@, old(c).fields@[old(c).static_fields@[k] as int]),
                #[trigger] c.static_vars@[k],
                old(c).static_vars@[k],
                heap,
            ) by {
                let s = seed_of(old(c).cp@, old(c).fields@[old(c).static_fields@[k] as int]);
                assert(c.static_vars@[k] == vars_before[k]);
                assert(seeded(s, vars_before[k], old(c).static_vars@[k], &heap_before));
                match s {
                    Seed::Text(t) => {
                        lemma_interned_stable(&heap_before, heap, t, 0);
                    },
                    _ => {},
                }
            }
        }
        i += 1;
    }
    Ok(())
}

} // verus!
