//! The bootstrap: the classes of strings and of mirrors, a mirror for
//! every class, the eight primitive classes and their array classes.

use vstd::prelude::*;
use vstd::string::*;
use crate::class::{Class, ClassLoader};
use crate::error::VmError;
use crate::flags::{AccessFlags, ACC_PUBLIC};
use crate::frame::MemberRef;
use crate::heap::{Heap, PRIMITIVE_N};
use crate::layout::layout;
use vstd::utf8::encode_utf8;
use crate::desc::{count_brackets, spec_arr};
use crate::load::{
    array_class_of, class_name_of, is_array_name, lemma_found_read, lemma_laid_out_ok,
    lemma_news_fields, lemma_news_trans, lemma_read_as_kept, read_as, primitive_array_name,
    primitive_desc, primitive_name, spec_primitive_array_name, spec_primitive_desc,
    spec_primitive_name,
};
use crate::loader::{Entry, same_shape};

verus! {

/// Whether `c` is the class of primitive kind `i`: public, initialized,
/// with the kind's name and descriptor letter, and nothing in it.
pub open spec fn primitive_class_of(c: Class, i: int) -> bool {
    &&& c.name@ == spec_primitive_name(i)
    &&& c.desc@ == spec_primitive_desc(i)
    &&& c.initialized
    &&& c.access_flags.0 == ACC_PUBLIC
    &&& c.super_class is None
    &&& c.element_class is None
    &&& c.fields@.len() == 0
    &&& c.methods@.len() == 0
    &&& c.ins_fields@.len() == 0
    &&& c.static_fields@.len() == 0
    &&& c.interfaces@.len() == 0
    &&& c.cp@.len() == 0
}

impl ClassLoader {
    /// Gives every class that has none its mirror.
    pub fn assign_all(&mut self, heap: &mut Heap)
        requires
            old(self).wf(),
            old(heap).wf(),
        ensures
            final(self).wf(),
            final(heap).wf(),
            final(heap).extends(old(heap)),
            final(self).same_classes(old(self)),
            old(self).jclass is Some && old(self).classes@[old(self).jclass.unwrap() as int].ins_fields@.len() < usize::MAX ==> final(self).all_mirrored(),
    {
        let mut i: usize = 0;
        while i < self.classes.len()
            invariant
                i <= self.classes@.len(),
                self.wf(),
                heap.wf(),
                heap.extends(old(heap)),
                self.same_classes(old(self)),
                old(self).wf(),
                old(self).jclass is Some && old(self).classes@[old(self).jclass.unwrap() as int].ins_fields@.len() < usize::MAX ==> forall|k: int|
                    0 <= k < i ==> (#[trigger] self.classes@[k]).j_class != 0,
            decreases self.classes@.len() - i,
        {
            let ghost before = *self;
            self.assign_j_class(heap, i);
            proof {
                assert forall|k: int| 0 <= k < self.classes@.len() implies same_shape(
                    #[trigger] self.classes@[k],
                    old(self).classes@[k],
                ) by {
                    assert(same_shape(self.classes@[k], before.classes@[k]));
                    assert(same_shape(before.classes@[k], old(self).classes@[k]));
                }
                if old(self).jclass is Some && old(self).classes@[old(self).jclass.unwrap() as int].ins_fields@.len() < usize::MAX {
                    let j = old(self).jclass.unwrap() as int;
                    assert(same_shape(before.classes@[j], old(self).classes@[j]));
                    assert forall|k: int| 0 <= k < i + 1 implies (
                    #[trigger] self.classes@[k]).j_class != 0 by {
                        if before.can_mirror(i as int) {
                            if k < i {
                                assert(self.classes@[k] == before.classes@[k]);
                            }
                        } else {
                            assert(*self == before);
                        }
                    }
                }
            }
            i += 1;
        }
    }

    /// Whether the class of primitive kind `i` is entered under its name
    /// and under its descriptor letter.
    pub open spec fn has_primitive(&self, i: int) -> bool {
        let id = self.spec_find(spec_primitive_name(i));
        &&& id is Some
        &&& self.spec_find(spec_primitive_desc(i)) == id
        &&& id.unwrap() < self.classes@.len()
        &&& primitive_class_of(self.classes@[id.unwrap() as int], i)
    }

    /// A primitive class that is entered stays entered when the table
    /// grows.
    pub proof fn lemma_primitive_kept(&self, old: &ClassLoader, i: int)
        requires
            self.grows_from(old),
            old.has_primitive(i),
        ensures
            self.has_primitive(i),
    {
        self.lemma_find_stable(old, spec_primitive_name(i), 0);
        self.lemma_find_stable(old, spec_primitive_desc(i), 0);
    }

    /// Enters the class of primitive kind `i` under its name and its
    /// descriptor letter. It fails, and changes nothing, where a class
    /// is recorded under one of the two already.
    pub fn add_primitive(&mut self, heap: &mut Heap, i: usize) -> (r: Result<(), VmError>)
        requires
            old(self).wf(),
            old(heap).wf(),
            i < PRIMITIVE_N,
        ensures
            final(self).wf(),
            final(heap).wf(),
            final(heap).extends(old(heap)),
            final(self).grows_from(old(self)),
            old(self).spec_find(spec_primitive_name(i as int)) is Some || old(self).spec_find(
                spec_primitive_desc(i as int),
            ) is Some ==> r == Err::<(), VmError>(VmError::ClassFormat) && *final(self) == *old(self) && *final(heap) == *old(heap),
            old(self).spec_find(spec_primitive_name(i as int)) is None && old(self).spec_find(
                spec_primitive_desc(i as int),
            ) is None ==> r is Ok && final(self).has_primitive(i as int) && final(self).spec_find(
                spec_primitive_name(i as int),
            ) == Some(old(self).classes@.len() as usize),
            final(self).keeps_mirrors(old(self)),
    {
        if self.find(primitive_name(i)).is_some() || self.find(primitive_desc(i)).is_some() {
            return Err(VmError::ClassFormat);
        }
        let id: usize = self.classes.len();
        let mut c = Class::empty();
        c.access_flags = AccessFlags(ACC_PUBLIC);
        c.name = primitive_name(i).to_owned();
        c.desc = primitive_desc(i).to_owned();
        c.initialized = true;
        let ghost o = c;
        let none: Vec<MemberRef> = Vec::new();
        layout(&mut c, &none, id);
        proof {
            lemma_laid_out_ok(self.classes@, c, o, c);
            assert(crate::layout::kind_indices(crate::layout::static_mask(o.fields@), true, 0)
                =~= Seq::<usize>::empty());
            assert(crate::layout::own_links(crate::layout::static_mask(o.fields@), id)
                =~= Seq::<MemberRef>::empty());
        }
        let ghost pre = *self;
        proof {
            lemma_name_is_no_letter(i as int);
        }
        let r: usize = self.insert(heap, c, primitive_name(i), primitive_desc(i));
        proof {
            lemma_name_is_no_letter(i as int);
            let n = pre.loaded@.len() as int;
            assert(self.loaded@[n + 1].0@ == spec_primitive_desc(i as int));
            self.lemma_find_at(&pre, spec_primitive_desc(i as int), 0, n + 1);
        }
        Ok(())
    }

    /// A name that no entry from `from` up to `at` carries, and that the
    /// entry at `at` carries, leads to the class of that entry.
    pub proof fn lemma_find_at(&self, old: &ClassLoader, name: Seq<char>, from: int, at: int)
        requires
            0 <= from <= at < self.loaded@.len(),
            old.loaded@.len() <= at,
            old.find_from(name, from) is None,
            forall|k: int| 0 <= k < old.loaded@.len() ==> self.loaded@[k] == old.loaded@[k],
            forall|k: int| old.loaded@.len() <= k < at ==> self.loaded@[k].0@ != name,
            self.loaded@[at].0@ == name,
        ensures
            self.find_from(name, from) == Some(self.loaded@[at].1),
        decreases at - from,
    {
        if from < at {
            if from < old.loaded@.len() {
                assert(self.loaded@[from] == old.loaded@[from]);
            }
            self.lemma_find_at(old, name, from + 1, at);
        }
    }

    /// Makes the table ready for use: it loads the classes of strings
    /// and of mirrors, gives every class loaded so far its mirror, and
    /// enters the eight primitive classes. A table that is ready stays
    /// as it is.
    pub fn init<E: Entry>(&mut self, heap: &mut Heap, entry: &E) -> (r: Result<(), VmError>)
        requires
            old(self).wf(),
            old(heap).wf(),
        ensures
            final(self).wf(),
            final(heap).wf(),
            final(self).evolves_from(old(self)),
            old(self).jclass is Some ==> r is Ok && *final(self) == *old(self) && *final(heap)
                == *old(heap),
            r is Ok && old(self).jclass is None ==> {
                &&& final(self).jstring is Some
                &&& final(self).jstring == final(self).spec_find("java/lang/String"@)
                &&& final(self).jclass is Some
                &&& final(self).jclass == final(self).spec_find("java/lang/Class"@)
                &&& final(heap).java_lang_string == final(self).jstring
                &&& final(heap).primitives == old(heap).primitives
                &&& final(heap).primitive_array == old(heap).primitive_array
                &&& forall|i: int| 0 <= i < PRIMITIVE_N ==> #[trigger] final(self).has_primitive(i)
                &&& final(self).mirrors_fit()
                &&& final(self).all_mirrored()
                &&& old(self).spec_find("java/lang/String"@) is None ==> read_as(
                    entry,
                    "java/lang/String"@,
                    final(self).classes@[final(self).jstring.unwrap() as int],
                )
                &&& old(self).spec_find("java/lang/Class"@) is None ==> read_as(
                    entry,
                    "java/lang/Class"@,
                    final(self).classes@[final(self).jclass.unwrap() as int],
                )
            },
    {
        if self.jclass.is_some() {
            return Ok(());
        }
        let ghost fresh_string = old(self).spec_find("java/lang/String"@) is None;
        let ghost fresh_class = old(self).spec_find("java/lang/Class"@) is None;
        let s: usize = match self.load(heap, entry, "java/lang/String") {
            Ok(s) => s,
            Err(e) => {
                return Err(e);
            },
        };
        let ghost a = *self;
        proof {
            reveal_strlit("java/lang/String");
            reveal_strlit("java/lang/Class");
        }
        self.jstring = Some(s);
        heap.java_lang_string = Some(s);
        proof {
            self.lemma_find_same(&a, "java/lang/String"@, 0);
        }
        let ghost mid = *self;
        let c: usize = match self.load(heap, entry, "java/lang/Class") {
            Ok(c) => c,
            Err(e) => {
                proof {
                    self.lemma_evolves_trans(&mid, old(self));
                }
                return Err(e);
            },
        };
        proof {
            self.lemma_find_stable(&mid, "java/lang/String"@, 0);
            lemma_news_fields(entry, old(self), &a, &mid);
            lemma_news_trans(entry, old(self), &mid, self);
            if fresh_string {
                lemma_found_read(entry, old(self), self, "java/lang/String"@, 0);
            }
            if fresh_class {
                lemma_found_read(entry, old(self), self, "java/lang/Class"@, 0);
            }
        }
        if self.classes[c].ins_fields.len() >= usize::MAX {
            proof {
                self.lemma_evolves_trans(&mid, old(self));
            }
            return Err(VmError::ClassFormat);
        }
        let ghost b = *self;
        self.jclass = Some(c);
        proof {
            self.lemma_find_same(&b, "java/lang/String"@, 0);
            self.lemma_find_same(&b, "java/lang/Class"@, 0);
            self.lemma_evolves_trans(&mid, old(self));
        }
        let ghost mid2 = *self;
        self.assign_all(heap);
        proof {
            self.lemma_find_same(&mid2, "java/lang/String"@, 0);
            self.lemma_find_same(&mid2, "java/lang/Class"@, 0);
            self.lemma_evolves_trans(&mid2, old(self));
        }
        let ghost mid3 = *self;
        proof {
            assert(same_shape(mid3.classes@[s as int], b.classes@[s as int]));
            assert(same_shape(mid3.classes@[c as int], b.classes@[c as int]));
            if fresh_string {
                lemma_read_as_kept(
                    entry,
                    "java/lang/String"@,
                    b.classes@[s as int],
                    mid3.classes@[s as int],
                );
            }
            if fresh_class {
                lemma_read_as_kept(
                    entry,
                    "java/lang/Class"@,
                    b.classes@[c as int],
                    mid3.classes@[c as int],
                );
            }
        }
        let mut i: usize = 0;
        while i < PRIMITIVE_N
            invariant
                i <= PRIMITIVE_N,
                self.wf(),
                heap.wf(),
                old(self).jclass is None,
                self.mirrors_fit(),
                self.all_mirrored(),
                self.grows_from(&mid3),
                mid3.evolves_from(old(self)),
                heap.java_lang_string == mid3.jstring,
                heap.primitives == old(heap).primitives,
                heap.primitive_array == old(heap).primitive_array,
                forall|k: int| 0 <= k < i ==> #[trigger] self.has_primitive(k),
            decreases PRIMITIVE_N - i,
        {
            let ghost before = *self;
            match self.add_primitive(heap, i) {
                Ok(_) => {},
                Err(e) => {
                    proof {
                        self.lemma_evolves_trans(&mid3, old(self));
                    }
                    return Err(e);
                },
            }
            proof {
                assert forall|k: int| 0 <= k < i + 1 implies #[trigger] self.has_primitive(k) by {
                    if k < i {
                        assert(before.has_primitive(k));
                        self.lemma_primitive_kept(&before, k);
                    }
                }
            }
            i += 1;
        }
        proof {
            self.lemma_find_stable(&mid3, "java/lang/String"@, 0);
            self.lemma_find_stable(&mid3, "java/lang/Class"@, 0);
            self.lemma_evolves_trans(&mid3, old(self));
        }
        Ok(())
    }

    /// A table that grew from another evolved from it.
    pub proof fn lemma_grows_evolves(&self, old: &ClassLoader)
        requires
            self.grows_from(old),
        ensures
            self.evolves_from(old),
    {
    }
}

/// The name of a primitive kind is not its descriptor letter.
pub proof fn lemma_name_is_no_letter(i: int)
    ensures
        spec_primitive_name(i) != spec_primitive_desc(i),
        spec_primitive_desc(i).len() == 1,
{
    reveal_strlit("boolean");
    reveal_strlit("char");
    reveal_strlit("float");
    reveal_strlit("double");
    reveal_strlit("byte");
    reveal_strlit("short");
    reveal_strlit("int");
    reveal_strlit("long");
    reveal_strlit("Z");
    reveal_strlit("C");
    reveal_strlit("F");
    reveal_strlit("D");
    reveal_strlit("B");
    reveal_strlit("S");
    reveal_strlit("I");
    reveal_strlit("J");
    assert(spec_primitive_name(i).len() > 1);
    assert(spec_primitive_desc(i).len() == 1);
}

/// The UTF-8 form of two ASCII characters is the two characters.
pub proof fn lemma_encode_pair(a: char, b: char)
    requires
        a as u32 <= 0x7f,
        b as u32 <= 0x7f,
    ensures
        encode_utf8(seq![a, b]) =~= seq![a as u8, b as u8],
{
    let s = seq![a, b];
    let t = s.drop_first();
    assert(t =~= seq![b]);
    assert(t.drop_first() =~= Seq::<char>::empty());
    reveal_with_fuel(encode_utf8, 3);
    let x: u32 = a as u32;
    let y: u32 = b as u32;
    assert((x & 0x7f) == x) by (bit_vector)
        requires
            x <= 0x7f,
    ;
    assert((y & 0x7f) == y) by (bit_vector)
        requires
            y <= 0x7f,
    ;
}

/// The name of the array class of a primitive kind is a bracket and the
/// kind's letter: an array descriptor of one dimension whose element is
/// loaded under the letter.
pub proof fn lemma_primitive_array_name(i: int)
    requires
        0 <= i < PRIMITIVE_N,
    ensures
        is_array_name(spec_primitive_array_name(i)),
        spec_arr(encode_utf8(spec_primitive_array_name(i)), 0) is Some,
        spec_arr(encode_utf8(spec_primitive_array_name(i)), 0).unwrap().dims == 1,
        class_name_of(spec_arr(encode_utf8(spec_primitive_array_name(i)), 0).unwrap().element)
            == spec_primitive_desc(i),
{
    reveal_strlit("[Z");
    reveal_strlit("[C");
    reveal_strlit("[F");
    reveal_strlit("[D");
    reveal_strlit("[B");
    reveal_strlit("[S");
    reveal_strlit("[I");
    reveal_strlit("[J");
    reveal_strlit("Z");
    reveal_strlit("C");
    reveal_strlit("F");
    reveal_strlit("D");
    reveal_strlit("B");
    reveal_strlit("S");
    reveal_strlit("I");
    reveal_strlit("J");
    let name = spec_primitive_array_name(i);
    let letter = spec_primitive_desc(i);
    assert(letter.len() == 1);
    let c = letter[0];
    assert(name =~= seq!['[', c]);
    lemma_encode_pair('[', c);
    let s = encode_utf8(name);
    assert(s =~= seq![0x5bu8, c as u8]);
    reveal_with_fuel(count_brackets, 3);
    assert(count_brackets(s, 0) == 1);
    assert(letter =~= seq![c]);
    assert((c as u8) as char == c);
}

/// Whether the table and the heap hold the eight primitive classes and
/// their array classes: each primitive class entered under its name and
/// its letter, each array class an array of one dimension over its
/// primitive class, and the heap's two lists naming them by kind.
pub open spec fn primitives_ready(heap: &Heap, loader: &ClassLoader) -> bool {
    &&& heap.primitives@.len() == PRIMITIVE_N
    &&& heap.primitive_array@.len() == PRIMITIVE_N
    &&& forall|k: int|
        0 <= k < PRIMITIVE_N ==> #[trigger] loader.has_primitive(k) && Some(heap.primitives@[k])
            == loader.spec_find(spec_primitive_name(k))
    &&& forall|k: int|
        0 <= k < PRIMITIVE_N ==> #[trigger] has_array(loader, k, heap.primitive_array@[k])
}

/// Whether class `id` is the array class of primitive kind `k`: found
/// under the kind's array name, of one dimension, and with the kind's
/// primitive class as its element class.
pub open spec fn has_array(loader: &ClassLoader, k: int, id: usize) -> bool {
    &&& Some(id) == loader.spec_find(spec_primitive_array_name(k))
    &&& id < loader.classes@.len()
    &&& array_class_of(loader.classes@[id as int], spec_primitive_array_name(k), loader)
    &&& loader.classes@[id as int].dim == 1
    &&& loader.classes@[id as int].element_class == loader.spec_find(spec_primitive_name(k))
}

/// Once the primitive classes are in place an array can be made of
/// every primitive kind, and its class is the array class of one
/// dimension that is loaded under the bracket and the letter of the
/// kind, over the primitive class of the kind.
pub proof fn lemma_ready_kinds(heap: &Heap, loader: &ClassLoader, k: int)
    requires
        primitives_ready(heap, loader),
        0 <= k < PRIMITIVE_N,
    ensures
        heap.has_kind(k as i32),
        Some(heap.primitive_array@[k]) == loader.spec_find(spec_primitive_array_name(k)),
        loader.classes@[heap.primitive_array@[k] as int].dim == 1,
        loader.classes@[heap.primitive_array@[k] as int].element_class == Some(
            heap.primitives@[k],
        ),
{
    assert(has_array(loader, k, heap.primitive_array@[k]));
    assert(loader.has_primitive(k));
}

/// An array class stays what it is when the table grows.
pub proof fn lemma_array_kept(loader: &ClassLoader, before: &ClassLoader, k: int, id: usize)
    requires
        loader.grows_from(before),
        has_array(before, k, id),
        before.spec_find(spec_primitive_name(k)) is Some,
    ensures
        has_array(loader, k, id),
{
    let name = spec_primitive_array_name(k);
    let a = spec_arr(encode_utf8(name), 0);
    loader.lemma_find_stable(before, name, 0);
    loader.lemma_find_stable(before, "java/lang/Object"@, 0);
    loader.lemma_find_stable(before, class_name_of(a.unwrap().element), 0);
    loader.lemma_find_stable(before, spec_primitive_name(k), 0);
}

/// Makes a heap and a class table that are ready for use: the table
/// initialized, and the heap told the eight primitive classes and
/// their array classes, so that arrays of every primitive kind can be
/// made. Every class has its mirror then, and the classes of strings
/// and of mirrors are those that the class path gave under their
/// names. It
/// fails with `ClassFormat` where a class that was read took the name
/// of a primitive array class.
pub fn boot<E: Entry>(entry: &E) -> (r: Result<(Heap, ClassLoader), VmError>)
    ensures
        r is Ok ==> {
            let (heap, loader) = r.unwrap();
            &&& heap.wf()
            &&& loader.wf()
            &&& loader.jclass is Some
            &&& loader.jclass == loader.spec_find("java/lang/Class"@)
            &&& loader.jstring is Some
            &&& loader.jstring == loader.spec_find("java/lang/String"@)
            &&& heap.java_lang_string == loader.jstring
            &&& primitives_ready(&heap, &loader)
            &&& loader.mirrors_fit()
            &&& loader.all_mirrored()
            &&& read_as(
                entry,
                "java/lang/String"@,
                loader.classes@[loader.jstring.unwrap() as int],
            )
            &&& read_as(entry, "java/lang/Class"@, loader.classes@[loader.jclass.unwrap() as int])
        },
{
    let mut heap = Heap::new();
    let mut loader = ClassLoader::new();
    match loader.init(&mut heap, entry) {
        Ok(_) => {},
        Err(e) => {
            return Err(e);
        },
    }
    let ghost ready = loader;
    let mut i: usize = 0;
    while i < PRIMITIVE_N
        invariant
            i <= PRIMITIVE_N,
            heap.wf(),
            loader.wf(),
            loader == ready,
            loader.jclass is Some,
            loader.jstring is Some,
            loader.jclass == loader.spec_find("java/lang/Class"@),
            loader.jstring == loader.spec_find("java/lang/String"@),
            heap.java_lang_string == loader.jstring,
            heap.primitives@.len() == i,
            heap.primitive_array@.len() == 0,
            forall|k: int| 0 <= k < PRIMITIVE_N ==> #[trigger] loader.has_primitive(k),
            forall|k: int|
                0 <= k < i ==> Some(#[trigger] heap.primitives@[k]) == loader.spec_find(
                    spec_primitive_name(k),
                ),
        decreases PRIMITIVE_N - i,
    {
        assert(loader.has_primitive(i as int));
        let id: usize = match loader.load(&mut heap, entry, primitive_name(i)) {
            Ok(c) => c,
            Err(e) => {
                return Err(e);
            },
        };
        heap.primitives.push(id);
        i += 1;
    }
    let mut j: usize = 0;
    while j < PRIMITIVE_N
        invariant
            j <= PRIMITIVE_N,
            heap.wf(),
            loader.wf(),
            loader.grows_from(&ready),
            loader.mirrors_fit(),
            loader.all_mirrored(),
            loader.jclass is Some,
            loader.jstring is Some,
            ready.jclass == ready.spec_find("java/lang/Class"@),
            ready.jstring == ready.spec_find("java/lang/String"@),
            heap.java_lang_string == loader.jstring,
            heap.primitives@.len() == PRIMITIVE_N,
            heap.primitive_array@.len() == j,
            forall|k: int| 0 <= k < PRIMITIVE_N ==> #[trigger] ready.has_primitive(k),
            forall|k: int|
                0 <= k < PRIMITIVE_N ==> Some(#[trigger] heap.primitives@[k]) == ready.spec_find(
                    spec_primitive_name(k),
                ),
            forall|k: int|
                0 <= k < j ==> #[trigger] has_array(&loader, k, heap.primitive_array@[k]),
        decreases PRIMITIVE_N - j,
    {
        let ghost before = loader;
        let ghost prev = heap.primitive_array@;
        if loader.find(primitive_array_name(j)).is_some() {
            return Err(VmError::ClassFormat);
        }
        let id: usize = match loader.load(&mut heap, entry, primitive_array_name(j)) {
            Ok(c) => c,
            Err(e) => {
                return Err(e);
            },
        };
        heap.primitive_array.push(id);
        proof {
            lemma_primitive_array_name(j as int);
            assert(ready.has_primitive(j as int));
            before.lemma_primitive_kept(&ready, j as int);
            loader.lemma_primitive_kept(&before, j as int);
            assert(has_array(&loader, j as int, id));
            assert forall|k: int| 0 <= k < j + 1 implies #[trigger] has_array(
                &loader,
                k,
                heap.primitive_array@[k],
            ) by {
                if k < j {
                    assert(heap.primitive_array@[k] == prev[k]);
                    assert(has_array(&before, k, prev[k]));
                    assert(ready.has_primitive(k));
                    before.lemma_primitive_kept(&ready, k);
                    lemma_array_kept(&loader, &before, k, prev[k]);
                }
            }
        }
        j += 1;
    }
    proof {
        loader.lemma_find_stable(&ready, "java/lang/Class"@, 0);
        loader.lemma_find_stable(&ready, "java/lang/String"@, 0);
        assert forall|k: int| 0 <= k < PRIMITIVE_N implies #[trigger] loader.has_primitive(k)
            && Some(heap.primitives@[k]) == loader.spec_find(spec_primitive_name(k)) by {
            assert(ready.has_primitive(k));
            loader.lemma_primitive_kept(&ready, k);
            loader.lemma_find_stable(&ready, spec_primitive_name(k), 0);
        }
    }
    Ok((heap, loader))
}

} // verus!
