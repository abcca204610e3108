//! Arrays whose class has to be found or made first: arrays of a named
//! element class, and arrays of several dimensions.

use vstd::prelude::*;
use vstd::string::*;
use vstd::utf8::encode_utf8;
use crate::class::ClassLoader;
use crate::error::VmError;
use crate::heap::{Heap, Object, PRIMITIVE_N, kind_width};
use crate::desc::spec_arr;
use crate::load::{
    array_class_of, class_name_of, is_array_name, primitive_name, spec_primitive_name,
};
use crate::loader::{Entry, same_shape};
use crate::text::str_eq;

verus! {

/// The primitive kind whose name is `name`, looking from kind `from`
/// on.
pub open spec fn kind_from(name: Seq<char>, from: int) -> Option<int>
    decreases PRIMITIVE_N - from,
{
    if from < 0 || from >= PRIMITIVE_N {
        None
    } else if spec_primitive_name(from) == name {
        Some(from)
    } else {
        kind_from(name, from + 1)
    }
}

/// The primitive kind whose name is `name`.
pub open spec fn kind_of_name(name: Seq<char>) -> Option<int> {
    kind_from(name, 0)
}

/// The primitive kind whose name is `name`.
pub fn primitive_kind(name: &str) -> (r: Option<usize>)
    ensures
        match kind_of_name(name@) {
            Some(k) => r == Some(k as usize) && 0 <= k < PRIMITIVE_N,
            None => r is None,
        },
{
    let mut i: usize = 0;
    while i < PRIMITIVE_N
        invariant
            i <= PRIMITIVE_N,
            kind_of_name(name@) == kind_from(name@, i as int),
        decreases PRIMITIVE_N - i,
    {
        if str_eq(primitive_name(i), name) {
            return Some(i);
        }
        i += 1;
    }
    None
}

/// Whether an array with elements of the class `name` can be made with
/// nothing to load: the class and its array class are loaded, and for
/// a primitive kind the heap knows the array class of the kind.
pub open spec fn arrays_loaded(heap: &Heap, loader: &ClassLoader, name: Seq<char>) -> bool {
    let e = loader.spec_find(name);
    &&& e is Some
    &&& e.unwrap() < loader.classes@.len()
    &&& loader.spec_find("["@ + loader.classes@[e.unwrap() as int].desc@) is Some
    &&& match kind_of_name(name) {
        Some(k) => k < heap.primitive_array@.len(),
        None => true,
    }
}

/// Whether the object `ob` is a new array of `size` elements of the
/// class named `name`, all zero: an array of the primitive kind, of the
/// kind's width and of the class that `heap` holds for the kind, where
/// the name is that of a primitive; else an array of references, whose
/// class is the one loaded under a bracket and the descriptor of the
/// class loaded under `name`.
pub open spec fn array_made(
    ob: Object,
    heap: &Heap,
    loader: &ClassLoader,
    name: Seq<char>,
    size: int,
) -> bool {
    &&& ob.size == size
    &&& ob.data.cells() == crate::frame::zeros(size as nat)
    &&& match kind_of_name(name) {
        Some(k) => ob.data.width() == kind_width(k) && ob.class == heap.primitive_array@[k],
        None => ob.data.width() == 8 && loader.spec_find(name) is Some && Some(ob.class)
            == loader.spec_find(
            "["@ + loader.classes@[loader.spec_find(name).unwrap() as int].desc@,
        ),
    }
}

/// Whether the object `ob` is what one level of a multi-dimensional
/// allocation makes for the array class `class` and the length `n`:
/// for a class of one dimension an array of `n` elements of its
/// element class, all zero; else an array of `n` references of the
/// class itself, all null where it stands on the last level.
pub open spec fn level_made(
    ob: Object,
    heap: &Heap,
    loader: &ClassLoader,
    class: int,
    n: int,
    last: bool,
) -> bool {
    &&& 0 <= class < loader.classes@.len()
    &&& if loader.classes@[class].dim == 1 {
        let e = loader.classes@[class].element_class;
        &&& e is Some
        &&& e.unwrap() < loader.classes@.len()
        &&& array_made(ob, heap, loader, loader.classes@[e.unwrap() as int].name@, n)
    } else {
        &&& ob.size == n
        &&& ob.class == class
        &&& ob.data.width() == 8
        &&& ob.data.cells().len() == n
        &&& last ==> ob.data.cells() == crate::frame::zeros(n as nat)
    }
}

/// The class of the elements of the arrays of the array class `class`
/// of more than one dimension: the class loaded under the descriptor of
/// `class` without its first bracket.
pub open spec fn inner_class(loader: &ClassLoader, class: int) -> int {
    let desc = loader.classes@[class].desc@;
    loader.spec_find(desc.subrange(1, desc.len() as int)).unwrap() as int
}

/// Whether element `k` of the array behind `o` refers to an array of
/// its own that was made on the next level: an object that `before`
/// did not hold, other than `o`, and what `level_made` says for the
/// class `next` and the length `m`.
pub open spec fn inner_at(
    heap: &Heap,
    before: &Heap,
    loader: &ClassLoader,
    o: u64,
    next: int,
    m: int,
    last: bool,
    k: int,
) -> bool {
    let e = heap.obj(o).data.cells()[k];
    &&& heap.valid_ref(e)
    &&& !before.valid_ref(e)
    &&& e != o
    &&& level_made(heap.obj(e), heap, loader, next, m, last)
}

/// Whether the `n` elements of the array behind `o`, of the array class
/// `class` of more than one dimension, are what a multi-dimensional
/// allocation makes: each refers to a new array of `m` elements of the
/// class with one dimension less, and no two refer to the same array.
pub open spec fn inner_made(
    heap: &Heap,
    before: &Heap,
    loader: &ClassLoader,
    o: u64,
    class: int,
    n: int,
    m: int,
    last: bool,
) -> bool {
    &&& forall|k: int|
        0 <= k < n ==> #[trigger] inner_at(
            heap,
            before,
            loader,
            o,
            inner_class(loader, class),
            m,
            last,
            k,
        )
    &&& forall|k1: int, k2: int|
        0 <= k1 < k2 < n ==> heap.obj(o).data.cells()[k1] != heap.obj(o).data.cells()[k2]
}

/// An array that a level made is still what that level made while the
/// table grows and the heap keeps its table of primitive array classes.
pub proof fn lemma_level_kept(
    ob: Object,
    heap: &Heap,
    heap2: &Heap,
    loader: &ClassLoader,
    loader2: &ClassLoader,
    class: int,
    n: int,
    last: bool,
)
    requires
        loader.wf(),
        loader2.grows_from(loader),
        heap2.primitive_array == heap.primitive_array,
        level_made(ob, heap, loader, class, n, last),
    ensures
        level_made(ob, heap2, loader2, class, n, last),
{
    assert(loader2.classes@[class] == loader.classes@[class]);
    if loader.classes@[class].dim == 1 {
        let e = loader.classes@[class].element_class.unwrap() as int;
        assert(loader2.classes@[e] == loader.classes@[e]);
        let name = loader.classes@[e].name@;
        if kind_of_name(name) is None {
            loader2.lemma_find_stable(loader, name, 0);
            let c = loader.spec_find(name).unwrap() as int;
            loader.lemma_found_valid(name, 0);
            assert(loader2.classes@[c] == loader.classes@[c]);
            loader2.lemma_find_stable(loader, "["@ + loader.classes@[c].desc@, 0);
        }
    }
}

/// Whether arrays of the array class `class` can be made `levels`
/// dimensions deep with nothing to load: for each of these dimensions
/// the class of the arrays is loaded, down to the class of the
/// elements of the arrays of one dimension.
pub open spec fn dims_loaded(heap: &Heap, loader: &ClassLoader, class: int, levels: nat) -> bool
    decreases levels,
{
    if levels == 0 {
        true
    } else if !(0 <= class < loader.classes@.len()) {
        false
    } else if loader.classes@[class].dim == 1 {
        let e = loader.classes@[class].element_class;
        &&& e is Some
        &&& e.unwrap() < loader.classes@.len()
        &&& arrays_loaded(heap, loader, loader.classes@[e.unwrap() as int].name@)
    } else {
        let desc = loader.classes@[class].desc@;
        let next = loader.spec_find(desc.subrange(1, desc.len() as int));
        &&& desc.len() >= 1
        &&& next is Some
        &&& dims_loaded(heap, loader, next.unwrap() as int, (levels - 1) as nat)
    }
}

/// What is loaded for arrays stays loaded while the heap grows.
pub proof fn lemma_dims_loaded(
    heap: &Heap,
    before: &Heap,
    loader: &ClassLoader,
    class: int,
    levels: nat,
)
    requires
        heap.extends(before),
        dims_loaded(before, loader, class, levels),
    ensures
        dims_loaded(heap, loader, class, levels),
    decreases levels,
{
    if levels > 0 && loader.classes@[class].dim != 1 {
        let desc = loader.classes@[class].desc@;
        let next = loader.spec_find(desc.subrange(1, desc.len() as int));
        lemma_dims_loaded(heap, before, loader, next.unwrap() as int, (levels - 1) as nat);
    }
}

/// What is loaded for arrays of a class stays loaded while the table
/// keeps its names and the shapes of its classes.
pub proof fn lemma_arrays_loaded_kept(
    heap: &Heap,
    loader: &ClassLoader,
    before: &ClassLoader,
    name: Seq<char>,
)
    requires
        loader.evolves_from(before),
        arrays_loaded(heap, before, name),
    ensures
        arrays_loaded(heap, loader, name),
{
    let e = before.spec_find(name).unwrap();
    loader.lemma_find_stable(before, name, 0);
    assert(same_shape(loader.classes@[e as int], before.classes@[e as int]));
    loader.lemma_find_stable(before, "["@ + before.classes@[e as int].desc@, 0);
}

/// What is loaded for arrays of several dimensions stays loaded while
/// the table keeps its names and the shapes of its classes.
pub proof fn lemma_dims_loaded_kept(
    heap: &Heap,
    loader: &ClassLoader,
    before: &ClassLoader,
    class: int,
    levels: nat,
)
    requires
        loader.evolves_from(before),
        dims_loaded(heap, before, class, levels),
    ensures
        dims_loaded(heap, loader, class, levels),
    decreases levels,
{
    if levels > 0 {
        assert(same_shape(loader.classes@[class], before.classes@[class]));
        if before.classes@[class].dim == 1 {
            let e = before.classes@[class].element_class.unwrap();
            assert(same_shape(loader.classes@[e as int], before.classes@[e as int]));
            lemma_arrays_loaded_kept(heap, loader, before, before.classes@[e as int].name@);
        } else {
            let desc = before.classes@[class].desc@;
            let inner = desc.subrange(1, desc.len() as int);
            loader.lemma_find_stable(before, inner, 0);
            lemma_dims_loaded_kept(
                heap,
                loader,
                before,
                before.spec_find(inner).unwrap() as int,
                (levels - 1) as nat,
            );
        }
    }
}

impl Heap {
    /// Finds or makes the class of arrays whose elements are of class
    /// `element_class`: the class named by `[` and the descriptor of the
    /// element class. Where that class is loaded already it is the
    /// answer, and nothing changes. Else the class is made as `load`
    /// makes an array class: a name that is no array descriptor is a
    /// class-format error, and with `java/lang/Object` and the class of
    /// the elements loaded it is made without fail.
    pub fn array_class<E: Entry>(
        &mut self,
        loader: &mut ClassLoader,
        entry: &E,
        element_class: usize,
    ) -> (r: Result<usize, VmError>)
        requires
            old(self).wf(),
            old(loader).wf(),
        ensures
            final(self).wf(),
            final(loader).wf(),
            final(self).extends(old(self)),
            final(loader).grows_from(old(loader)),
            element_class >= old(loader).classes@.len() ==> r == Err::<usize, VmError>(
                VmError::InvalidReference,
            ) && *final(self) == *old(self) && *final(loader) == *old(loader),
            r is Ok ==> r.unwrap() < final(loader).classes@.len() && final(loader).spec_find(
                "["@ + old(loader).classes@[element_class as int].desc@,
            ) == Some(r.unwrap()),
            element_class < old(loader).classes@.len() && old(loader).spec_find(
                "["@ + old(loader).classes@[element_class as int].desc@,
            ) is Some ==> r is Ok && *final(self) == *old(self) && *final(loader) == *old(loader),            element_class < old(loader).classes@.len() && old(loader).spec_find(
                "["@ + old(loader).classes@[element_class as int].desc@,
            ) is None ==> match spec_arr(
                encode_utf8("["@ + old(loader).classes@[element_class as int].desc@),
                0,
            ) {
                None => r == Err::<usize, VmError>(VmError::ClassFormat) && *final(self) == *old(self) && *final(loader) == *old(loader),
                Some(a) => old(loader).spec_find("java/lang/Object"@) is Some && old(loader).spec_find(class_name_of(a.element)) is Some ==> r is Ok,
            },
            r is Ok && element_class < old(loader).classes@.len() && old(loader).spec_find(
                "["@ + old(loader).classes@[element_class as int].desc@,
            ) is None ==> array_class_of(
                final(loader).classes@[r.unwrap() as int],
                "["@ + old(loader).classes@[element_class as int].desc@,
                final(loader),
            ) && (old(loader).mirrors_fit() ==> final(loader).classes@[r.unwrap() as int].j_class
                != 0),
            final(loader).keeps_mirrors(old(loader)),
    {
        if element_class >= loader.classes.len() {
            return Err(VmError::InvalidReference);
        }
        let mut name: String = String::from_str("[");
        name.append(loader.classes[element_class].desc.as_str());
        proof {
            reveal_strlit("[");
            assert(name@[0] == '[');
            assert(is_array_name(name@));
        }
        loader.load(self, entry, name.as_str())
    }

    /// Allocates an array of `size` elements of the class named
    /// `element_class`, all zero: an array of the primitive kind where
    /// the name is that of a primitive, an array of references else. The
    /// element class and the array class are loaded where they are new.
    pub fn new_array<E: Entry>(
        &mut self,
        loader: &mut ClassLoader,
        entry: &E,
        element_class: &str,
        size: usize,
    ) -> (r: Result<u64, VmError>)
        requires
            old(self).wf(),
            old(loader).wf(),
        ensures
            final(self).wf(),
            final(loader).wf(),
            final(self).extends(old(self)),
            final(loader).grows_from(old(loader)),
            r is Ok ==> {
                let o = r.unwrap();
                &&& final(self).valid_ref(o)
                &&& !old(self).valid_ref(o)
                &&& o == final(self).objects@.len()
                &&& final(self).obj(o).size == size
                &&& final(self).obj(o).data.cells() == crate::frame::zeros(size as nat)
                &&& match kind_of_name(element_class@) {
                    Some(k) => final(self).obj(o).data.width() == kind_width(k) && final(self).obj(
                        o,
                    ).class == old(self).primitive_array@[k],
                    None => final(self).obj(o).data.width() == 8 && final(loader).spec_find(
                        element_class@,
                    ) is Some && Some(final(self).obj(o).class) == final(loader).spec_find(
                        "["@ + final(loader).classes@[final(loader).spec_find(
                            element_class@,
                        ).unwrap() as int].desc@,
                    ),
                }
            },
            r is Ok ==> array_made(
                final(self).obj(r.unwrap()),
                final(self),
                final(loader),
                element_class@,
                size as int,
            ),
            arrays_loaded(old(self), old(loader), element_class@) ==> r is Ok && *final(loader)
                == *old(loader),
    {
        let kind: Option<usize> = primitive_kind(element_class);
        let class: usize = match loader.load(self, entry, element_class) {
            Ok(c) => c,
            Err(e) => {
                return Err(e);
            },
        };
        let ghost mid = *loader;
        let c: usize = match self.array_class(loader, entry, class) {
            Ok(c) => c,
            Err(e) => {
                return Err(e);
            },
        };
        proof {
            loader.lemma_find_stable(&mid, element_class@, 0);
        }
        match kind {
            Some(k) => self.new_primitive_array(k as i32, size),
            None => Ok(self.new_ref_array(c, size)),
        }
    }

    /// Allocates an array of the array class `class` with the lengths
    /// `sizes`, one for each dimension from the outermost on: the array
    /// of the first length, and in each of its elements an array made
    /// in the same way of the class with one dimension less and the
    /// remaining lengths. With no length left nothing is made. Where the
    /// classes of all these arrays are loaded already the arrays are
    /// made without fail, and nothing is loaded.
    ///
    /// The array is new and what `level_made` says; where a second
    /// length is given its elements are what `inner_made` says: each a
    /// new array of its own, of the class with one dimension less.
    pub fn new_multi_dim<E: Entry>(
        &mut self,
        loader: &mut ClassLoader,
        entry: &E,
        class: usize,
        sizes: &Vec<usize>,
        from: usize,
    ) -> (r: Result<u64, VmError>)
        requires
            old(self).wf(),
            old(loader).wf(),
        ensures
            final(self).wf(),
            final(loader).wf(),
            final(self).extends(old(self)),
            final(loader).grows_from(old(loader)),
            from >= sizes@.len() || class >= old(loader).classes@.len() ==> r == Err::<
                u64,
                VmError,
            >(VmError::ClassFormat) && *final(self) == *old(self) && *final(loader) == *old(loader),
            r is Ok ==> final(self).valid_ref(r.unwrap()) && !old(self).valid_ref(r.unwrap())
                && level_made(
                final(self).obj(r.unwrap()),
                final(self),
                final(loader),
                class as int,
                sizes@[from as int] as int,
                from + 1 >= sizes@.len(),
            ),
            r is Ok && old(loader).classes@[class as int].dim != 1 && from + 1 < sizes@.len()
                ==> inner_made(
                final(self),
                old(self),
                final(loader),
                r.unwrap(),
                class as int,
                sizes@[from as int] as int,
                sizes@[from + 1] as int,
                from + 2 >= sizes@.len(),
            ),
            from < sizes@.len() && dims_loaded(
                old(self),
                old(loader),
                class as int,
                (sizes@.len() - from) as nat,
            ) ==> r is Ok && *final(loader) == *old(loader),
        decreases sizes@.len() - from,
    {
        let ghost owed = from < sizes@.len() && dims_loaded(
            old(self),
            old(loader),
            class as int,
            (sizes@.len() - from) as nat,
        );
        if from >= sizes.len() || class >= loader.classes.len() {
            return Err(VmError::ClassFormat);
        }
        let n: usize = sizes[from];
        if loader.classes[class].dim == 1 {
            let element: usize = match loader.classes[class].element_class {
                Some(e) => e,
                None => {
                    return Err(VmError::InvalidReference);
                },
            };
            if element >= loader.classes.len() {
                return Err(VmError::InvalidReference);
            }
            let name: String = loader.classes[element].name.clone();
            let r = self.new_array(loader, entry, name.as_str(), n);
            proof {
                assert(loader.classes@[class as int] == old(loader).classes@[class as int]);
                assert(loader.classes@[element as int] == old(loader).classes@[element as int]);
            }
            return r;
        }
        let desc: String = loader.classes[class].desc.clone();
        let len: usize = desc.as_str().unicode_len();
        if len < 1 {
            return Err(VmError::ClassFormat);
        }
        let inner: String = desc.as_str().substring_char(1, len).to_owned();
        let next: usize = match loader.load(self, entry, inner.as_str()) {
            Ok(c) => c,
            Err(e) => {
                return Err(e);
            },
        };
        let ghost loaded = *loader;
        let obj: u64 = self.new_ref_array(class, n);
        proof {
            assert(loader.classes@[class as int] == old(loader).classes@[class as int]);
        }
        if from + 1 >= sizes.len() {
            return Ok(obj);
        }
        let ghost first = *self;
        let ghost m = sizes@[from + 1] as int;
        let ghost last = from + 2 >= sizes@.len();
        let mut i: usize = 0;
        while i < n
            invariant
                i <= n,
                self.wf(),
                loader.wf(),
                self.extends(old(self)),
                self.valid_ref(obj),
                loader.grows_from(old(loader)),
                loader.grows_from(&loaded),
                loaded.wf(),
                next < loaded.classes@.len(),
                loaded.spec_find(inner@) == Some(next),
                inner@ == old(loader).classes@[class as int].desc@.subrange(
                    1,
                    old(loader).classes@[class as int].desc@.len() as int,
                ),
                owed == (from < sizes@.len() && dims_loaded(
                    old(self),
                    old(loader),
                    class as int,
                    (sizes@.len() - from) as nat,
                )),
                owed ==> *loader == *old(loader) && dims_loaded(
                    old(self),
                    old(loader),
                    next as int,
                    (sizes@.len() - from - 1) as nat,
                ),
                from + 1 < sizes@.len(),
                from < usize::MAX,
                class < old(loader).classes@.len(),
                old(loader).classes@[class as int].dim != 1,
                n == sizes@[from as int],
                m == sizes@[from + 1],
                last == (from + 2 >= sizes@.len()),
                first.valid_ref(obj),
                !old(self).valid_ref(obj),
                self.obj(obj).size == n,
                self.obj(obj).class == class,
                self.obj(obj).data.width() == 8,
                self.obj(obj).data.cells().len() == n,
                forall|k: int|
                    0 <= k < i ==> inner_at(self, old(self), loader, obj, next as int, m, last, k),
                forall|k1: int, k2: int|
                    0 <= k1 < k2 < i ==> self.obj(obj).data.cells()[k1] != self.obj(
                        obj,
                    ).data.cells()[k2],
            decreases n - i,
        {
            let ghost before = *self;
            let ghost before_loader = *loader;
            proof {
                if owed {
                    lemma_dims_loaded(
                        self,
                        old(self),
                        loader,
                        next as int,
                        (sizes@.len() - from - 1) as nat,
                    );
                }
            }
            let sub: u64 = match self.new_multi_dim(loader, entry, next, sizes, from + 1) {
                Ok(o) => o,
                Err(e) => {
                    return Err(e);
                },
            };
            let ghost mid = *self;
            proof {
                assert(mid.obj(obj) == before.obj(obj));
                assert(mid.access(obj, i as int) is Ok);
            }
            let res = self.store(obj, i, sub);
            proof {
                assert(self.obj(sub) == mid.obj(sub));
                assert(self.obj(obj).data.cells()[i as int] == sub);
                assert forall|k: int| 0 <= k < i + 1 implies inner_at(
                    self,
                    old(self),
                    loader,
                    obj,
                    next as int,
                    m,
                    last,
                    k,
                ) by {
                    if k < i {
                        let e = before.obj(obj).data.cells()[k];
                        assert(inner_at(
                            &before,
                            old(self),
                            &before_loader,
                            obj,
                            next as int,
                            m,
                            last,
                            k,
                        ));
                        assert(mid.obj(obj).data.cells()[k] == e);
                        assert(self.obj(obj).data.cells()[k] == e);
                        assert(mid.objects@[e - 1] == before.objects@[e - 1]);
                        assert(self.objects@[e - 1] == mid.objects@[e - 1]);
                        lemma_level_kept(
                            before.obj(e),
                            &before,
                            self,
                            &before_loader,
                            loader,
                            next as int,
                            m,
                            last,
                        );
                    } else {
                        assert(!before.valid_ref(sub));
                        assert(before.valid_ref(obj));
                    }
                }
                assert forall|k1: int, k2: int| 0 <= k1 < k2 < i + 1 implies self.obj(
                    obj,
                ).data.cells()[k1] != self.obj(obj).data.cells()[k2] by {
                    assert(inner_at(
                        &before,
                        old(self),
                        &before_loader,
                        obj,
                        next as int,
                        m,
                        last,
                        k1,
                    ));
                    assert(self.obj(obj).data.cells()[k1] == before.obj(obj).data.cells()[k1]);
                    if k2 < i {
                        assert(self.obj(obj).data.cells()[k2] == before.obj(obj).data.cells()[k2]);
                    }
                }
                assert forall|k: int| 0 <= k < old(self).objects@.len() implies (
                #[trigger] self.objects@[k]) == old(self).objects@[k] by {
                    assert(mid.objects@[k] == old(self).objects@[k]);
                }
                assert forall|k: int| 0 <= k < old(self).string_pool@.len() implies (
                #[trigger] self.string_pool@[k]) == old(self).string_pool@[k] by {
                    assert(mid.string_pool@[k] == old(self).string_pool@[k]);
                }
            }
            i += 1;
        }
        proof {
            loader.lemma_find_stable(&loaded, inner@, 0);
            assert(loader.classes@[class as int] == old(loader).classes@[class as int]);
            assert forall|k: int| 0 <= k < n implies #[trigger] inner_at(
                self,
                old(self),
                loader,
                obj,
                inner_class(loader, class as int),
                m,
                last,
                k,
            ) by {
                assert(inner_at(self, old(self), loader, obj, next as int, m, last, k));
            }
        }
        Ok(obj)
    }
}

} // verus!
