//! Symbolic references: a class, a field or a method named in the
//! constant pool of a class is resolved when it is first used, and
//! what it resolved to is kept in the slot of the referring class.

use vstd::prelude::*;
use vstd::string::*;
use crate::class::{Class, ClassLoader, SymRef};
use crate::cp::{RefKind, pool_class, pool_member};
use crate::error::VmError;
use crate::frame::MemberRef;
use crate::heap::Heap;
use crate::loader::{Entry, same_shape};

verus! {

/// What a symbolic reference resolved to: a class and, for a field or a
/// method, the member, which is `None` where the class has none of that
/// name and descriptor.
#[derive(Clone, Copy, PartialEq, Eq, Structural, Debug)]
pub struct Resolved {
    pub class: usize,
    pub member: Option<MemberRef>,
}

/// What a kept reference resolved to.
pub open spec fn resolved_of(s: SymRef) -> Resolved {
    Resolved { class: s.class, member: s.member }
}

/// Whether `after` is `before` with the reference `sym` kept in slot `i`
/// and nothing else changed.
pub open spec fn slot_set(before: Class, after: Class, i: int, sym: SymRef) -> bool {
    &&& same_shape(after, before)
    &&& after.static_vars == before.static_vars
    &&& after.initialized == before.initialized
    &&& after.j_class == before.j_class
    &&& after.sym_refs@ == before.sym_refs@.update(i, Some(sym))
}

impl ClassLoader {
    /// What slot `i` of class `cur` holds; `None` for an empty slot and
    /// for a slot that does not exist.
    pub open spec fn cached(&self, cur: int, i: int) -> Option<SymRef> {
        if 0 <= cur < self.classes@.len() && 0 <= i < self.classes@[cur].sym_refs@.len() {
            self.classes@[cur].sym_refs@[i]
        } else {
            None
        }
    }

    /// What slot `i` of class `cur` holds.
    pub fn sym_ref(&self, cur: usize, i: usize) -> (r: Option<&SymRef>)
        ensures
            r is Some == self.cached(cur as int, i as int) is Some,
            r is Some ==> *r.unwrap() == self.cached(cur as int, i as int).unwrap(),
    {
        if cur < self.classes.len() && i < self.classes[cur].sym_refs.len() {
            self.classes[cur].sym_refs[i].as_ref()
        } else {
            None
        }
    }

    /// The member that a search of kind `k` from class `c` finds: a
    /// field search, a method search, or an interface-method search.
    pub open spec fn spec_lookup(&self, k: RefKind, c: int, name: Seq<char>, desc: Seq<char>)
        -> Option<MemberRef> {
        match k {
            RefKind::Field => self.spec_lookup_field(c, name, desc),
            RefKind::Method => self.spec_lookup_method(c, name, desc),
            RefKind::IFaceMethod => self.spec_lookup_iface_method(c, name, desc),
        }
    }

    /// What a search on the way up the superclasses finds does not
    /// change when classes are added or when what runs changes.
    pub proof fn lemma_method_in_class_kept(
        &self,
        old: &ClassLoader,
        c: int,
        name: Seq<char>,
        desc: Seq<char>,
    )
        requires
            self.evolves_from(old),
            0 <= c < old.classes@.len(),
        ensures
            self.spec_lookup_method_in_class(c, name, desc) == old.spec_lookup_method_in_class(
                c,
                name,
                desc,
            ),
        decreases c,
    {
        assert(same_shape(self.classes@[c], old.classes@[c]));
        match old.classes@[c].super_class {
            Some(s) => {
                if s < c {
                    self.lemma_method_in_class_kept(old, s as int, name, desc);
                }
            },
            None => {},
        }
    }

    /// What a search among interfaces finds does not change when
    /// classes are added or when what runs changes.
    pub proof fn lemma_iface_method_kept(
        &self,
        old: &ClassLoader,
        c: int,
        name: Seq<char>,
        desc: Seq<char>,
    )
        requires
            self.evolves_from(old),
            0 <= c < old.classes@.len(),
        ensures
            self.spec_lookup_iface_method(c, name, desc) == old.spec_lookup_iface_method(
                c,
                name,
                desc,
            ),
        decreases c, 1nat, 0nat,
    {
        assert(same_shape(self.classes@[c], old.classes@[c]));
        self.lemma_in_ifaces_kept(old, c, 0, name, desc);
    }

    /// The search among the interfaces of a class, from its interface
    /// number `k` on, is kept likewise.
    pub proof fn lemma_in_ifaces_kept(
        &self,
        old: &ClassLoader,
        c: int,
        k: int,
        name: Seq<char>,
        desc: Seq<char>,
    )
        requires
            self.evolves_from(old),
            0 <= c < old.classes@.len(),
            0 <= k,
        ensures
            self.spec_lookup_in_ifaces(c, k, name, desc) == old.spec_lookup_in_ifaces(
                c,
                k,
                name,
                desc,
            ),
        decreases c, 0nat, old.classes@[c].interfaces@.len() - k,
    {
        assert(same_shape(self.classes@[c], old.classes@[c]));
        if k < old.classes@[c].interfaces@.len() {
            let i = old.classes@[c].interfaces@[k];
            if i < c {
                self.lemma_iface_method_kept(old, i as int, name, desc);
            }
            self.lemma_in_ifaces_kept(old, c, k + 1, name, desc);
        }
    }

    /// What a field search finds does not change when classes are added
    /// or when what runs changes.
    pub proof fn lemma_field_kept(
        &self,
        old: &ClassLoader,
        c: int,
        name: Seq<char>,
        desc: Seq<char>,
    )
        requires
            self.evolves_from(old),
            0 <= c < old.classes@.len(),
        ensures
            self.spec_lookup_field(c, name, desc) == old.spec_lookup_field(c, name, desc),
        decreases c, 1nat, 0nat,
    {
        assert(same_shape(self.classes@[c], old.classes@[c]));
        self.lemma_field_in_ifaces_kept(old, c, 0, name, desc);
        match old.classes@[c].super_class {
            Some(s) => {
                if s < c {
                    self.lemma_field_kept(old, s as int, name, desc);
                }
            },
            None => {},
        }
    }

    /// The field search among the interfaces of a class, from its
    /// interface number `k` on, is kept likewise.
    pub proof fn lemma_field_in_ifaces_kept(
        &self,
        old: &ClassLoader,
        c: int,
        k: int,
        name: Seq<char>,
        desc: Seq<char>,
    )
        requires
            self.evolves_from(old),
            0 <= c < old.classes@.len(),
            0 <= k,
        ensures
            self.spec_field_in_ifaces(c, k, name, desc) == old.spec_field_in_ifaces(
                c,
                k,
                name,
                desc,
            ),
        decreases c, 0nat, old.classes@[c].interfaces@.len() - k,
    {
        assert(same_shape(self.classes@[c], old.classes@[c]));
        if k < old.classes@[c].interfaces@.len() {
            let i = old.classes@[c].interfaces@[k];
            if i < c {
                self.lemma_field_kept(old, i as int, name, desc);
            }
            self.lemma_field_in_ifaces_kept(old, c, k + 1, name, desc);
        }
    }

    /// What a member search of any kind finds does not change when
    /// classes are added or when what runs changes.
    pub proof fn lemma_lookup_kept(
        &self,
        old: &ClassLoader,
        k: RefKind,
        c: int,
        name: Seq<char>,
        desc: Seq<char>,
    )
        requires
            self.evolves_from(old),
            0 <= c < old.classes@.len(),
        ensures
            self.spec_lookup(k, c, name, desc) == old.spec_lookup(k, c, name, desc),
    {
        self.lemma_field_kept(old, c, name, desc);
        self.lemma_method_in_class_kept(old, c, name, desc);
        self.lemma_in_ifaces_kept(old, c, 0, name, desc);
        self.lemma_iface_method_kept(old, c, name, desc);
    }

    /// Searches a member of kind `k` from class `c`.
    pub fn lookup(&self, k: RefKind, c: usize, name: &str, desc: &str) -> (r: Option<MemberRef>)
        ensures
            r == self.spec_lookup(k, c as int, name@, desc@),
    {
        match k {
            RefKind::Field => self.lookup_field(c, name, desc),
            RefKind::Method => self.lookup_method(c, name, desc),
            RefKind::IFaceMethod => self.lookup_iface_method(c, name, desc),
        }
    }

    /// Keeps the reference `sym` in slot `i` of class `cur`.
    pub fn keep(&mut self, cur: usize, i: usize, sym: SymRef)
        requires
            old(self).wf(),
            cur < old(self).classes@.len(),
            i < old(self).classes@[cur as int].sym_refs@.len(),
        ensures
            final(self).wf(),
            final(self).same_classes(old(self)),
            slot_set(old(self).classes@[cur as int], final(self).classes@[cur as int], i as int, sym),
            forall|c: int|
                0 <= c < old(self).classes@.len() && c != cur ==> final(self).classes@[c] == old(self).classes@[c],
    {
        self.classes[cur].sym_refs[i] = Some(sym);
        proof {
            assert(same_shape(self.classes@[cur as int], old(self).classes@[cur as int]));
            self.lemma_same_classes_wf(old(self));
        }
    }
}

/// Whether the member reference of kind `k` in slot `i` of the pool of
/// class `cur` is not resolved yet and names a class that is loaded, so
/// that resolving it loads nothing.
pub open spec fn member_loaded(loader: &ClassLoader, k: RefKind, cur: int, i: int) -> bool {
    let m = pool_member(loader.classes@[cur].cp@, k, i);
    &&& loader.cached(cur, i) is None
    &&& 0 <= cur < loader.classes@.len()
    &&& m is Some
    &&& loader.spec_find(m.unwrap().0) is Some
}

/// Whether the class reference in slot `i` of the pool of class `cur`
/// is not resolved yet and names a class that is loaded, so that
/// resolving it loads nothing.
pub open spec fn class_loaded(loader: &ClassLoader, cur: int, i: int) -> bool {
    let n = pool_class(loader.classes@[cur].cp@, i);
    &&& loader.cached(cur, i) is None
    &&& 0 <= cur < loader.classes@.len()
    &&& n is Some
    &&& loader.spec_find(n.unwrap()) is Some
}

/// Whether the reference in slot `i` of the pool of class `cur`, a
/// class reference where `k` is `None` and a member reference of kind
/// `k` else, is not resolved yet and names a class that is loaded.
pub open spec fn ref_loaded(loader: &ClassLoader, k: Option<RefKind>, cur: int, i: int) -> bool {
    match k {
        None => class_loaded(loader, cur, i),
        Some(kind) => member_loaded(loader, kind, cur, i),
    }
}

/// Whether `post` is `pre` with the class reference of slot `i` of class
/// `cur` resolved and kept: the slot holds the name from the pool and
/// the class that is loaded under it, no descriptor and no member; the
/// other slots and the classes of `pre` are as they were.
pub open spec fn class_filled(pre: &ClassLoader, post: &ClassLoader, cur: int, i: int) -> bool {
    let sym = post.cached(cur, i).unwrap();
    &&& Some(sym.name@) == pool_class(pre.classes@[cur].cp@, i)
    &&& sym.desc@.len() == 0
    &&& sym.member is None
    &&& post.spec_find(sym.name@) == Some(sym.class)
    &&& slot_set(pre.classes@[cur], post.classes@[cur], i, sym)
    &&& forall|c: int|
        0 <= c < pre.classes@.len() && c != cur ==> post.classes@[c] == pre.classes@[c]
}

/// Whether `post` is `pre` with the member reference of kind `k` of
/// slot `i` of class `cur` resolved and kept: the slot holds the name
/// and the descriptor from the pool, the class that is loaded under the
/// class name from the pool, and the member that a search of kind `k`
/// from that class finds; the other slots and the classes of `pre` are
/// as they were.
pub open spec fn member_filled(
    pre: &ClassLoader,
    post: &ClassLoader,
    k: RefKind,
    cur: int,
    i: int,
) -> bool {
    let sym = post.cached(cur, i).unwrap();
    let m = pool_member(pre.classes@[cur].cp@, k, i);
    &&& m is Some
    &&& sym.name@ == m.unwrap().1
    &&& sym.desc@ == m.unwrap().2
    &&& post.spec_find(m.unwrap().0) == Some(sym.class)
    &&& sym.member == post.spec_lookup(k, sym.class as int, sym.name@, sym.desc@)
    &&& slot_set(pre.classes@[cur], post.classes@[cur], i, sym)
    &&& forall|c: int|
        0 <= c < pre.classes@.len() && c != cur ==> post.classes@[c] == pre.classes@[c]
}

/// Whether `post` is `pre` with the reference of slot `i` of class `cur`
/// resolved and kept, as a class reference where `k` is `None` and as
/// a member reference of kind `k` else.
pub open spec fn filled(
    pre: &ClassLoader,
    post: &ClassLoader,
    k: Option<RefKind>,
    cur: int,
    i: int,
) -> bool {
    match k {
        None => class_filled(pre, post, cur, i),
        Some(kind) => member_filled(pre, post, kind, cur, i),
    }
}

/// What every resolution of slot `i` of class `cur` keeps to: a slot
/// that is filled is answered from the slot, with nothing changed; and
/// after a success the slot holds what was answered.
pub open spec fn ref_post(
    pre: &ClassLoader,
    pre_heap: &Heap,
    cur: int,
    i: int,
    post: &ClassLoader,
    post_heap: &Heap,
    r: Result<Resolved, VmError>,
) -> bool {
    &&& pre.cached(cur, i) is Some ==> r == Ok::<Resolved, VmError>(
        resolved_of(pre.cached(cur, i).unwrap()),
    ) && *post == *pre && *post_heap == *pre_heap
    &&& r is Ok ==> post.cached(cur, i) is Some && resolved_of(post.cached(cur, i).unwrap())
        == r.unwrap()
}

/// A reference is resolved once: after one resolution of a slot has
/// succeeded, the next resolution of the same slot gives the same
/// answer and changes nothing.
pub proof fn lemma_resolved_once(
    l0: ClassLoader,
    h0: Heap,
    l1: ClassLoader,
    h1: Heap,
    l2: ClassLoader,
    h2: Heap,
    cur: int,
    i: int,
    r1: Result<Resolved, VmError>,
    r2: Result<Resolved, VmError>,
)
    requires
        ref_post(&l0, &h0, cur, i, &l1, &h1, r1),
        ref_post(&l1, &h1, cur, i, &l2, &h2, r2),
        r1 is Ok,
    ensures
        r2 == r1,
        l2 == l1,
        h2 == h1,
{
}

impl Heap {
    /// Resolves the class reference in slot `i` of the pool of class
    /// `cur`: the class of that name is loaded and kept in the slot. A
    /// slot that is no class entry is a class-format error; a reference
    /// to a class that is loaded already is resolved without fail.
    pub fn class_ref<E: Entry>(
        &mut self,
        loader: &mut ClassLoader,
        entry: &E,
        cur: usize,
        i: usize,
    ) -> (r: Result<Resolved, VmError>)
        requires
            old(self).wf(),
            old(loader).wf(),
        ensures
            final(self).wf(),
            final(loader).wf(),
            final(self).extends(old(self)),
            final(loader).evolves_from(old(loader)),
            ref_post(old(loader), old(self), cur as int, i as int, final(loader), final(self), r),
            old(loader).cached(cur as int, i as int) is None && (cur >= old(loader).classes@.len()
                || pool_class(old(loader).classes@[cur as int].cp@, i as int) is None) ==> r
                == Err::<Resolved, VmError>(VmError::ClassFormat) && *final(loader) == *old(loader)
                && *final(self) == *old(self),
            old(loader).cached(cur as int, i as int) is None && cur < old(loader).classes@.len()
                && pool_class(old(loader).classes@[cur as int].cp@, i as int) is Some && old(loader).spec_find(pool_class(old(loader).classes@[cur as int].cp@, i as int).unwrap())
                is Some ==> r is Ok && *final(self) == *old(self),
            r is Ok && old(loader).cached(cur as int, i as int) is None ==> class_filled(
                old(loader),
                final(loader),
                cur as int,
                i as int,
            ),
    {
        match loader.sym_ref(cur, i) {
            Some(s) => {
                return Ok(Resolved { class: s.class, member: s.member });
            },
            None => {},
        }
        if cur >= loader.classes.len() {
            return Err(VmError::ClassFormat);
        }
        let name: String = match loader.classes[cur].cp.class(i) {
            Some(n) => n.to_owned(),
            None => {
                return Err(VmError::ClassFormat);
            },
        };
        proof {
            assert(crate::loader::class_ok(loader.classes@, cur as int));
        }
        let class: usize = match loader.load(self, entry, name.as_str()) {
            Ok(c) => c,
            Err(e) => {
                proof {
                    assert(loader.cached(cur as int, i as int) is None);
                }
                return Err(e);
            },
        };
        let ghost mid = *loader;
        let ghost nv = name@;
        let sym = SymRef { class, name, desc: String::new(), member: None };
        loader.keep(cur, i, sym);
        proof {
            loader.lemma_find_same(&mid, nv, 0);
        }
        Ok(Resolved { class, member: None })
    }

    /// Resolves the member reference of kind `k` in slot `i` of the pool
    /// of class `cur`: the class that the reference names is loaded,
    /// the member is searched from it, and both are kept in the slot. A
    /// slot that is no reference of this kind is a class-format error;
    /// a reference to a class that is loaded already is resolved without
    /// fail.
    pub fn member_ref<E: Entry>(
        &mut self,
        loader: &mut ClassLoader,
        entry: &E,
        k: RefKind,
        cur: usize,
        i: usize,
    ) -> (r: Result<Resolved, VmError>)
        requires
            old(self).wf(),
            old(loader).wf(),
        ensures
            final(self).wf(),
            final(loader).wf(),
            final(self).extends(old(self)),
            final(loader).evolves_from(old(loader)),
            ref_post(old(loader), old(self), cur as int, i as int, final(loader), final(self), r),
            old(loader).cached(cur as int, i as int) is None && (cur >= old(loader).classes@.len()
                || pool_member(old(loader).classes@[cur as int].cp@, k, i as int) is None) ==> r
                == Err::<Resolved, VmError>(VmError::ClassFormat) && *final(loader) == *old(loader)
                && *final(self) == *old(self),
            member_loaded(old(loader), k, cur as int, i as int) ==> r is Ok && *final(self) == *old(self),
            r is Ok && old(loader).cached(cur as int, i as int) is None ==> member_filled(
                old(loader),
                final(loader),
                k,
                cur as int,
                i as int,
            ),
    {
        match loader.sym_ref(cur, i) {
            Some(s) => {
                return Ok(Resolved { class: s.class, member: s.member });
            },
            None => {},
        }
        if cur >= loader.classes.len() {
            return Err(VmError::ClassFormat);
        }
        let (class_name, name, desc): (String, String, String) = match loader.classes[cur].cp.member_ref(
            k,
            i,
        ) {
            Some(t) => (t.0.to_owned(), t.1.to_owned(), t.2.to_owned()),
            None => {
                return Err(VmError::ClassFormat);
            },
        };
        proof {
            assert(crate::loader::class_ok(loader.classes@, cur as int));
        }
        let class: usize = match loader.load(self, entry, class_name.as_str()) {
            Ok(c) => c,
            Err(e) => {
                proof {
                    assert(loader.cached(cur as int, i as int) is None);
                }
                return Err(e);
            },
        };
        let member: Option<MemberRef> = loader.lookup(k, class, name.as_str(), desc.as_str());
        let ghost mid = *loader;
        let ghost nv = name@;
        let ghost dv = desc@;
        let sym = SymRef { class, name, desc, member };
        loader.keep(cur, i, sym);
        proof {
            loader.lemma_find_same(&mid, class_name@, 0);
            loader.lemma_lookup_kept(&mid, k, class as int, nv, dv);
        }
        Ok(Resolved { class, member })
    }

    /// Resolves the field reference in slot `i` of the pool of class
    /// `cur`.
    pub fn field_ref<E: Entry>(
        &mut self,
        loader: &mut ClassLoader,
        entry: &E,
        cur: usize,
        i: usize,
    ) -> (r: Result<Resolved, VmError>)
        requires
            old(self).wf(),
            old(loader).wf(),
        ensures
            final(self).wf(),
            final(loader).wf(),
            final(self).extends(old(self)),
            final(loader).evolves_from(old(loader)),
            ref_post(old(loader), old(self), cur as int, i as int, final(loader), final(self), r),
            r is Ok && old(loader).cached(cur as int, i as int) is None ==> {
                let sym = final(loader).cached(cur as int, i as int).unwrap();
                sym.member == final(loader).spec_lookup_field(sym.class as int, sym.name@, sym.desc@)
            },
            old(loader).cached(cur as int, i as int) is None && (cur >= old(loader).classes@.len()
                || pool_member(old(loader).classes@[cur as int].cp@, RefKind::Field, i as int)
                is None) ==> r == Err::<Resolved, VmError>(VmError::ClassFormat) && *final(loader)
                == *old(loader) && *final(self) == *old(self),
            member_loaded(old(loader), RefKind::Field, cur as int, i as int) ==> r is Ok && *final(self) == *old(self),
    {
        self.member_ref(loader, entry, RefKind::Field, cur, i)
    }

    /// Resolves the method reference in slot `i` of the pool of class
    /// `cur`.
    pub fn method_ref<E: Entry>(
        &mut self,
        loader: &mut ClassLoader,
        entry: &E,
        cur: usize,
        i: usize,
    ) -> (r: Result<Resolved, VmError>)
        requires
            old(self).wf(),
            old(loader).wf(),
        ensures
            final(self).wf(),
            final(loader).wf(),
            final(self).extends(old(self)),
            final(loader).evolves_from(old(loader)),
            ref_post(old(loader), old(self), cur as int, i as int, final(loader), final(self), r),
            r is Ok && old(loader).cached(cur as int, i as int) is None ==> {
                let sym = final(loader).cached(cur as int, i as int).unwrap();
                sym.member == final(loader).spec_lookup_method(sym.class as int, sym.name@, sym.desc@)
            },
            old(loader).cached(cur as int, i as int) is None && (cur >= old(loader).classes@.len()
                || pool_member(old(loader).classes@[cur as int].cp@, RefKind::Method, i as int)
                is None) ==> r == Err::<Resolved, VmError>(VmError::ClassFormat) && *final(loader)
                == *old(loader) && *final(self) == *old(self),
            member_loaded(old(loader), RefKind::Method, cur as int, i as int) ==> r is Ok && *final(self) == *old(self),
    {
        self.member_ref(loader, entry, RefKind::Method, cur, i)
    }

    /// Resolves the interface-method reference in slot `i` of the pool
    /// of class `cur`.
    pub fn iface_ref<E: Entry>(
        &mut self,
        loader: &mut ClassLoader,
        entry: &E,
        cur: usize,
        i: usize,
    ) -> (r: Result<Resolved, VmError>)
        requires
            old(self).wf(),
            old(loader).wf(),
        ensures
            final(self).wf(),
            final(loader).wf(),
            final(self).extends(old(self)),
            final(loader).evolves_from(old(loader)),
            ref_post(old(loader), old(self), cur as int, i as int, final(loader), final(self), r),
            r is Ok && old(loader).cached(cur as int, i as int) is None ==> {
                let sym = final(loader).cached(cur as int, i as int).unwrap();
                sym.member == final(loader).spec_lookup_iface_method(
                    sym.class as int,
                    sym.name@,
                    sym.desc@,
                )
            },
            old(loader).cached(cur as int, i as int) is None && (cur >= old(loader).classes@.len()
                || pool_member(old(loader).classes@[cur as int].cp@, RefKind::IFaceMethod, i as int)
                is None) ==> r == Err::<Resolved, VmError>(VmError::ClassFormat) && *final(loader)
                == *old(loader) && *final(self) == *old(self),
            member_loaded(old(loader), RefKind::IFaceMethod, cur as int, i as int) ==> r is Ok && *final(self) == *old(self),
    {
        self.member_ref(loader, entry, RefKind::IFaceMethod, cur, i)
    }
}

} // verus!
