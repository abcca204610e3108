//! The class loader: it finds a class by name, reads and defines it
//! where it is new, makes array classes on the fly, and gives every
//! class its mirror object.

use vstd::prelude::*;
use vstd::string::*;
use crate::class::{Class, ClassLoader};
use crate::cp::wide_rule;
use crate::frame::zeros;
use crate::heap::Heap;

verus! {

/// Where the bytes of classes come from.
pub trait Entry {
    /// The bytes of the class file of the class `name`, given as in
    /// `java/lang/Object`; `None` where there is no such class.
    fn read_class(&self, name: &str) -> Option<Vec<u8>>;
}

/// How deep superclasses, interfaces and element classes may nest while
/// one class is loaded.
pub const MAX_NESTING: usize = 512;

/// Whether class `i` of the table `cs` is sound: it carries its id; its
/// superclass, interfaces and element class were loaded before it; it
/// has one static value per static field and one symbolic-reference
/// slot per pool slot; its instance fields start with those of its
/// superclass, and its own follow with their ids equal to their places;
/// its static fields carry their places as ids; it owns its members.
pub open spec fn class_ok(cs: Seq<Class>, i: int) -> bool {
    let c = cs[i];
    let base = match c.super_class {
        Some(s) => cs[s as int].ins_fields@.len(),
        None => 0,
    };
    &&& c.id == i
    &&& c.super_class is Some ==> c.super_class.unwrap() < i
    &&& forall|k: int| 0 <= k < c.interfaces@.len() ==> (#[trigger] c.interfaces@[k]) < i
    &&& c.element_class is Some ==> c.element_class.unwrap() < i
    &&& c.static_vars@.len() == c.static_fields@.len()
    &&& c.sym_refs@.len() == c.cp@.len()
    &&& wide_rule(c.cp@)
    &&& base <= c.ins_fields@.len()
    &&& c.super_class is Some ==> forall|k: int|
        0 <= k < base ==> (#[trigger] c.ins_fields@[k]) == cs[c.super_class.unwrap() as int].ins_fields@[k]
    &&& forall|k: int|
        base <= k < c.ins_fields@.len() ==> (#[trigger] c.ins_fields@[k]).class == i
            && c.ins_fields@[k].index < c.fields@.len() && c.fields@[c.ins_fields@[k].index as int].id
            == k
    &&& forall|k: int|
        0 <= k < c.static_fields@.len() ==> (#[trigger] c.static_fields@[k]) < c.fields@.len()
            && c.fields@[c.static_fields@[k] as int].id == k
    &&& forall|k: int| 0 <= k < c.fields@.len() ==> (#[trigger] c.fields@[k]).class == i
    &&& forall|k: int| 0 <= k < c.methods@.len() ==> (#[trigger] c.methods@[k]).class == i
}

/// Whether two classes differ at most in what changes while the machine
/// runs: the static values, the resolved symbolic references, the
/// initialization flag and the mirror.
pub open spec fn same_shape(c: Class, d: Class) -> bool {
    &&& c.access_flags == d.access_flags
    &&& c.name == d.name
    &&& c.desc == d.desc
    &&& c.super_name == d.super_name
    &&& c.iface_names == d.iface_names
    &&& c.cp == d.cp
    &&& c.fields == d.fields
    &&& c.methods == d.methods
    &&& c.super_class == d.super_class
    &&& c.interfaces == d.interfaces
    &&& c.static_fields == d.static_fields
    &&& c.static_vars@.len() == d.static_vars@.len()
    &&& c.ins_fields == d.ins_fields
    &&& c.sym_refs@.len() == d.sym_refs@.len()
    &&& c.id == d.id
    &&& c.element_class == d.element_class
    &&& c.dim == d.dim
}

impl ClassLoader {
    /// The table is sound: every class is, and every name leads to a
    /// class.
    pub open spec fn wf(&self) -> bool {
        &&& forall|i: int| 0 <= i < self.classes@.len() ==> class_ok(self.classes@, i)
        &&& forall|k: int|
            0 <= k < self.loaded@.len() ==> (#[trigger] self.loaded@[k]).1 < self.classes@.len()
        &&& self.jclass is Some ==> self.jclass.unwrap() < self.classes@.len()
        &&& self.jstring is Some ==> self.jstring.unwrap() < self.classes@.len()
    }

    /// What `old` held is still there as it was: its classes under their
    /// ids, and its names in their places.
    pub open spec fn grows_from(&self, old: &ClassLoader) -> bool {
        &&& old.classes@.len() <= self.classes@.len()
        &&& forall|i: int| 0 <= i < old.classes@.len() ==> self.classes@[i] == old.classes@[i]
        &&& old.loaded@.len() <= self.loaded@.len()
        &&& forall|k: int| 0 <= k < old.loaded@.len() ==> self.loaded@[k] == old.loaded@[k]
        &&& self.jclass == old.jclass
        &&& self.jstring == old.jstring
    }

    /// The names of `old` are still recorded, in their places.
    pub open spec fn names_kept(&self, old: &ClassLoader) -> bool {
        &&& old.loaded@.len() <= self.loaded@.len()
        &&& forall|k: int| 0 <= k < old.loaded@.len() ==> self.loaded@[k] == old.loaded@[k]
    }

    /// A table whose classes kept their shapes evolved from the table
    /// before.
    pub proof fn lemma_classes_evolve(&self, old: &ClassLoader)
        requires
            self.same_classes(old),
        ensures
            self.evolves_from(old),
    {
    }

    /// A table that evolved from one that evolved from `old` evolved
    /// from `old`.
    pub proof fn lemma_evolves_trans(&self, mid: &ClassLoader, old: &ClassLoader)
        requires
            self.evolves_from(mid),
            mid.evolves_from(old),
        ensures
            self.evolves_from(old),
    {
        assert forall|i: int| 0 <= i < old.classes@.len() implies same_shape(
            #[trigger] self.classes@[i],
            old.classes@[i],
        ) by {
            assert(same_shape(self.classes@[i], mid.classes@[i]));
            assert(same_shape(mid.classes@[i], old.classes@[i]));
        }
        assert forall|k: int| 0 <= k < old.loaded@.len() implies self.loaded@[k]
            == old.loaded@[k] by {
            assert(self.loaded@[k] == mid.loaded@[k]);
        }
    }

    /// The classes of `old` are still there with their shapes; what runs
    /// may have changed in them.
    pub open spec fn same_classes(&self, old: &ClassLoader) -> bool {
        &&& old.classes@.len() == self.classes@.len()
        &&& forall|i: int|
            0 <= i < old.classes@.len() ==> same_shape(#[trigger] self.classes@[i], old.classes@[i])
        &&& self.loaded == old.loaded
        &&& self.jclass == old.jclass
        &&& self.jstring == old.jstring
    }

    /// The classes of `old` are still there with their shapes, and its
    /// names in their places; classes may have been added and what runs
    /// may have changed.
    pub open spec fn evolves_from(&self, old: &ClassLoader) -> bool {
        &&& old.classes@.len() <= self.classes@.len()
        &&& forall|i: int|
            0 <= i < old.classes@.len() ==> same_shape(#[trigger] self.classes@[i], old.classes@[i])
        &&& old.loaded@.len() <= self.loaded@.len()
        &&& forall|k: int| 0 <= k < old.loaded@.len() ==> self.loaded@[k] == old.loaded@[k]
    }

    /// The instance fields of a class start with those of its
    /// superclass, one for one.
    pub proof fn lemma_instance_fields_prefix(&self, c: int)
        requires
            self.wf(),
            0 <= c < self.classes@.len(),
            self.classes@[c].super_class is Some,
        ensures
            ({
                let s = self.classes@[c].super_class.unwrap() as int;
                &&& s < c
                &&& self.classes@[s].ins_fields@.len() <= self.classes@[c].ins_fields@.len()
                &&& self.classes@[c].ins_fields@.subrange(
                    0,
                    self.classes@[s].ins_fields@.len() as int,
                ) == self.classes@[s].ins_fields@
            }),
    {
        assert(class_ok(self.classes@, c));
        let s = self.classes@[c].super_class.unwrap() as int;
        assert(self.classes@[c].ins_fields@.subrange(0, self.classes@[s].ins_fields@.len() as int)
            =~= self.classes@[s].ins_fields@);
    }

    /// A class has one static value for each of its static fields.
    pub proof fn lemma_static_values(&self, c: int)
        requires
            self.wf(),
            0 <= c < self.classes@.len(),
        ensures
            self.classes@[c].static_vars@.len() == self.classes@[c].static_fields@.len(),
    {
        assert(class_ok(self.classes@, c));
    }

    /// In the pool of a class a blank slot lies behind every 64-bit
    /// entry.
    pub proof fn lemma_wide_slots(&self, c: int, i: int)
        requires
            self.wf(),
            0 <= c < self.classes@.len(),
            0 <= i,
            i + 1 < self.classes@[c].cp@.len(),
            self.classes@[c].cp@[i] is Long || self.classes@[c].cp@[i] is Double,
        ensures
            self.classes@[c].cp@[i + 1] is Blank,
    {
        assert(class_ok(self.classes@, c));
    }

    /// A table whose classes kept their shapes is still sound.
    pub proof fn lemma_same_classes_wf(&self, old: &ClassLoader)
        requires
            old.wf(),
            self.same_classes(old),
        ensures
            self.wf(),
    {
        assert forall|i: int| 0 <= i < self.classes@.len() implies class_ok(self.classes@, i) by {
            assert(class_ok(old.classes@, i));
            assert(same_shape(self.classes@[i], old.classes@[i]));
            let c = old.classes@[i];
            if c.super_class is Some {
                let s = c.super_class.unwrap() as int;
                assert(same_shape(self.classes@[s], old.classes@[s]));
            }
        }
    }

    /// A name that is found stays found, under the same id, when the
    /// table grows.
    pub proof fn lemma_find_stable(&self, old: &ClassLoader, name: Seq<char>, from: int)
        requires
            self.names_kept(old),
            0 <= from,
            old.find_from(name, from) is Some,
        ensures
            self.find_from(name, from) == old.find_from(name, from),
        decreases old.loaded@.len() - from,
    {
        if from < old.loaded@.len() {
            assert(self.loaded@[from] == old.loaded@[from]);
            if old.loaded@[from].0@ != name {
                self.lemma_find_stable(old, name, from + 1);
            }
        }
    }

    /// A name that is not found yet is found under `id` once it is
    /// recorded at the end.
    pub proof fn lemma_find_pushed(&self, old: &ClassLoader, name: Seq<char>, id: usize, from: int)
        requires
            0 <= from <= old.loaded@.len(),
            old.find_from(name, from) is None,
            self.loaded@.len() > old.loaded@.len(),
            forall|k: int| 0 <= k < old.loaded@.len() ==> self.loaded@[k] == old.loaded@[k],
            self.loaded@[old.loaded@.len() as int].0@ == name,
            self.loaded@[old.loaded@.len() as int].1 == id,
        ensures
            self.find_from(name, from) == Some(id),
        decreases old.loaded@.len() - from,
    {
        if from < old.loaded@.len() {
            assert(self.loaded@[from] == old.loaded@[from]);
            self.lemma_find_pushed(old, name, id, from + 1);
        }
    }

    /// What a name leads to depends on the recorded names alone.
    pub proof fn lemma_find_same(&self, other: &ClassLoader, name: Seq<char>, from: int)
        requires
            self.loaded@ == other.loaded@,
        ensures
            self.find_from(name, from) == other.find_from(name, from),
        decreases self.loaded@.len() - from,
    {
        if 0 <= from < self.loaded@.len() {
            self.lemma_find_same(other, name, from + 1);
        }
    }

    /// An empty table.
    pub fn new() -> (r: ClassLoader)
        ensures
            r.wf(),
            r.classes@.len() == 0,
            r.loaded@.len() == 0,
            r.jclass is None,
            r.jstring is None,
    {
        ClassLoader { classes: Vec::new(), loaded: Vec::new(), jclass: None, jstring: None }
    }

    /// Every class has a mirror.
    pub open spec fn all_mirrored(&self) -> bool {
        forall|i: int| 0 <= i < self.classes@.len() ==> (#[trigger] self.classes@[i]).j_class != 0
    }

    /// Whether new classes get their mirrors: the class of mirrors is
    /// loaded, and its objects can take one more field.
    pub open spec fn mirrors_fit(&self) -> bool {
        &&& self.jclass is Some
        &&& self.jclass.unwrap() < self.classes@.len()
        &&& self.classes@[self.jclass.unwrap() as int].ins_fields@.len() < usize::MAX
    }

    /// Where new classes got their mirrors in `old` they still get them,
    /// and where every class of `old` had its mirror every class has.
    pub open spec fn keeps_mirrors(&self, old: &ClassLoader) -> bool {
        old.mirrors_fit() ==> self.mirrors_fit() && (old.all_mirrored() ==> self.all_mirrored())
    }

    /// Whether class `c` can be given a mirror now: it has none, the
    /// class of mirrors is loaded and its objects can take one more
    /// field.
    pub open spec fn can_mirror(&self, c: int) -> bool {
        &&& 0 <= c < self.classes@.len()
        &&& self.classes@[c].j_class == 0
        &&& self.jclass is Some
        &&& self.jclass.unwrap() < self.classes@.len()
        &&& self.classes@[self.jclass.unwrap() as int].ins_fields@.len() < usize::MAX
    }

    /// Gives class `c` its mirror where it can be given one: an object of
    /// the class of mirrors with one field more than that class has,
    /// which holds the id of `c`. Otherwise nothing changes.
    pub fn assign_j_class(&mut self, heap: &mut Heap, c: usize)
        requires
            old(self).wf(),
            old(heap).wf(),
        ensures
            final(self).wf(),
            final(heap).wf(),
            final(heap).extends(old(heap)),
            final(self).same_classes(old(self)),
            !old(self).can_mirror(c as int) ==> *final(self) == *old(self) && *final(heap) == *old(heap),
            old(self).can_mirror(c as int) ==> {
                let n = old(self).classes@[old(self).jclass.unwrap() as int].ins_fields@.len();
                &&& final(heap).objects@.len() == old(heap).objects@.len() + 1
                &&& final(heap).string_pool == old(heap).string_pool
                &&& final(heap).objects@.last().class == old(self).jclass.unwrap()
                &&& final(heap).objects@.last().size == n + 1
                &&& final(heap).objects@.last().data.width() == 8
                &&& final(heap).objects@.last().data.cells() == zeros(n + 1).update(
                    n as int,
                    c as u64,
                )
                &&& final(self).classes@[c as int].j_class == final(heap).objects@.len()
                &&& final(self).classes@[c as int].static_vars == old(self).classes@[c as int].static_vars
                &&& final(self).classes@[c as int].sym_refs == old(self).classes@[c as int].sym_refs
                &&& final(self).classes@[c as int].initialized == old(self).classes@[c as int].initialized
                &&& forall|i: int|
                    0 <= i < old(self).classes@.len() && i != c ==> final(self).classes@[i] == old(self).classes@[i]
            },
    {
        if c >= self.classes.len() || self.classes[c].j_class != 0 {
            return ;
        }
        let jc: usize = match self.jclass {
            Some(j) => j,
            None => {
                return ;
            },
        };
        let n: usize = self.classes[jc].ins_fields.len();
        if n == usize::MAX {
            return ;
        }
        let o: u64 = heap.new_obj_size(jc, n + 1);
        let ghost mid = *heap;
        let res = heap.store(o, n, c as u64);
        proof {
            assert(mid.obj(o).data.cells().len() == n + 1);
            assert(mid.access(o, n as int) is Ok);
            assert(heap.obj(o) == heap.objects@.last());
        }
        self.classes[c].j_class = o;
        proof {
            assert(same_shape(self.classes@[c as int], old(self).classes@[c as int]));
            self.lemma_same_classes_wf(old(self));
        }
    }

    /// Stores `v` as the static value `i` of class `c`.
    pub fn set_static(&mut self, c: usize, i: usize, v: u64)
        requires
            old(self).wf(),
            c < old(self).classes@.len(),
            i < old(self).classes@[c as int].static_vars@.len(),
        ensures
            final(self).wf(),
            final(self).same_classes(old(self)),
            final(self).classes@[c as int].static_vars@ == old(self).classes@[c as int].static_vars@.update(i as int, v),
            final(self).classes@[c as int].sym_refs == old(self).classes@[c as int].sym_refs,
            final(self).classes@[c as int].initialized == old(self).classes@[c as int].initialized,
            final(self).classes@[c as int].j_class == old(self).classes@[c as int].j_class,
            forall|k: int|
                0 <= k < old(self).classes@.len() && k != c ==> final(self).classes@[k] == old(self).classes@[k],
    {
        self.classes[c].static_vars[i] = v;
        proof {
            assert(same_shape(self.classes@[c as int], old(self).classes@[c as int]));
            self.lemma_same_classes_wf(old(self));
        }
    }

    /// The static value `i` of class `c`.
    pub fn get_static(&self, c: usize, i: usize) -> (r: u64)
        requires
            c < self.classes@.len(),
            i < self.classes@[c as int].static_vars@.len(),
        ensures
            r == self.classes@[c as int].static_vars@[i as int],
    {
        self.classes[c].static_vars[i]
    }

    /// Enters a class in the table under `name`, and under `alias` too
    /// where that is not empty, and gives it its mirror where it can be
    /// given one. The class gets the next free id.
    pub fn insert(&mut self, heap: &mut Heap, class: Class, name: &str, alias: &str) -> (r: usize)
        requires
            old(self).wf(),
            old(heap).wf(),
            class_ok(old(self).classes@.push(class), old(self).classes@.len() as int),
        ensures
            final(self).wf(),
            final(heap).wf(),
            final(heap).extends(old(heap)),
            final(self).grows_from(old(self)),
            r == old(self).classes@.len(),
            final(self).classes@.len() == r + 1,
            same_shape(final(self).classes@[r as int], class),
            final(self).classes@[r as int].static_vars == class.static_vars,
            final(self).classes@[r as int].sym_refs == class.sym_refs,
            final(self).classes@[r as int].initialized == class.initialized,
            final(self).loaded@.len() == old(self).loaded@.len() + (if alias@.len() == 0 {
                1int
            } else {
                2int
            }),
            final(self).loaded@[old(self).loaded@.len() as int].0@ == name@,
            final(self).loaded@[old(self).loaded@.len() as int].1 == r,
            alias@.len() != 0 ==> final(self).loaded@.last().0@ == alias@ && final(self).loaded@.last().1 == r,
            old(self).spec_find(name@) is None ==> final(self).spec_find(name@) == Some(r),
            final(self).classes@[r as int].j_class != 0 || class.j_class == 0,
            old(self).jclass is Some && old(self).classes@[old(self).jclass.unwrap() as int].ins_fields@.len() < usize::MAX ==> final(self).classes@[r as int].j_class != 0,
            final(self).keeps_mirrors(old(self)),
    {
        let id: usize = self.classes.len();
        self.classes.push(class);
        self.loaded.push((name.to_owned(), id));
        if !alias.is_empty() {
            self.loaded.push((alias.to_owned(), id));
        }
        let ghost mid = *self;
        proof {
            assert forall|i: int| 0 <= i < self.classes@.len() implies class_ok(
                self.classes@,
                i,
            ) by {
                if i < id {
                    assert(class_ok(old(self).classes@, i));
                }
            }
            if old(self).spec_find(name@) is None {
                self.lemma_find_pushed(old(self), name@, id, 0);
            }
        }
        self.assign_j_class(heap, id);
        proof {
            if old(self).spec_find(name@) is None {
                self.lemma_find_same(&mid, name@, 0);
            }
        }
        id
    }
}

} // verus!
