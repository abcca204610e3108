//! The managed heap: objects and arrays, which live until the machine
//! ends, and the pool of interned strings. A reference is the position
//! of an object in the heap, counted from 1; 0 is the null reference.

use vstd::prelude::*;
use vstd::string::*;
use crate::class::ClassLoader;
use crate::error::VmError;
use crate::frame::zeros;
use crate::text::str_eq;

verus! {

/// How many primitive kinds there are.
pub const PRIMITIVE_N: usize = 8;

/// The number of the primitive kind `boolean`.
pub const KIND_BOOLEAN: usize = 0;
/// The number of the primitive kind `char`.
pub const KIND_CHAR: usize = 1;
/// The number of the primitive kind `float`.
pub const KIND_FLOAT: usize = 2;
/// The number of the primitive kind `double`.
pub const KIND_DOUBLE: usize = 3;
/// The number of the primitive kind `byte`.
pub const KIND_BYTE: usize = 4;
/// The number of the primitive kind `short`.
pub const KIND_SHORT: usize = 5;
/// The number of the primitive kind `int`.
pub const KIND_INT: usize = 6;
/// The number of the primitive kind `long`.
pub const KIND_LONG: usize = 7;

/// The payload of an object: its elements, each as wide as its kind
/// asks for.
#[derive(Debug)]
pub enum ArrayData {
    Bytes(Vec<u8>),
    Shorts(Vec<u16>),
    Ints(Vec<u32>),
    Longs(Vec<u64>),
}

impl ArrayData {
    /// The elements, each widened to 64 bits.
    pub open spec fn cells(&self) -> Seq<u64> {
        match self {
            ArrayData::Bytes(v) => Seq::new(v@.len(), |i: int| v@[i] as u64),
            ArrayData::Shorts(v) => Seq::new(v@.len(), |i: int| v@[i] as u64),
            ArrayData::Ints(v) => Seq::new(v@.len(), |i: int| v@[i] as u64),
            ArrayData::Longs(v) => v@,
        }
    }

    /// The width of one element in bytes.
    pub open spec fn width(&self) -> int {
        match self {
            ArrayData::Bytes(_) => 1,
            ArrayData::Shorts(_) => 2,
            ArrayData::Ints(_) => 4,
            ArrayData::Longs(_) => 8,
        }
    }

    /// The number of elements.
    pub fn len(&self) -> (r: usize)
        ensures
            r == self.cells().len(),
    {
        match self {
            ArrayData::Bytes(v) => v.len(),
            ArrayData::Shorts(v) => v.len(),
            ArrayData::Ints(v) => v.len(),
            ArrayData::Longs(v) => v.len(),
        }
    }

    /// Element `i`, widened to 64 bits.
    pub fn get(&self, i: usize) -> (r: u64)
        requires
            i < self.cells().len(),
        ensures
            r == self.cells()[i as int],
    {
        match self {
            ArrayData::Bytes(v) => v[i] as u64,
            ArrayData::Shorts(v) => v[i] as u64,
            ArrayData::Ints(v) => v[i] as u64,
            ArrayData::Longs(v) => v[i],
        }
    }

    /// Stores the low bytes of `val` in element `i`, as many as the
    /// element is wide.
    pub fn set(&mut self, i: usize, val: u64)
        requires
            i < old(self).cells().len(),
        ensures
            final(self).width() == old(self).width(),
            final(self).cells() == old(self).cells().update(i as int, narrow(val, old(self).width())),
    {
        match self {
            ArrayData::Bytes(v) => {
                v[i] = (val % 0x100) as u8;
                proof {
                    assert(final(self).cells() =~= old(self).cells().update(
                        i as int,
                        narrow(val, 1),
                    ));
                }
            },
            ArrayData::Shorts(v) => {
                v[i] = (val % 0x1_0000) as u16;
                proof {
                    assert(final(self).cells() =~= old(self).cells().update(
                        i as int,
                        narrow(val, 2),
                    ));
                }
            },
            ArrayData::Ints(v) => {
                v[i] = (val % 0x1_0000_0000) as u32;
                proof {
                    assert(final(self).cells() =~= old(self).cells().update(
                        i as int,
                        narrow(val, 4),
                    ));
                }
            },
            ArrayData::Longs(v) => {
                v[i] = val;
            },
        }
    }
}

/// The low `width` bytes of `v`.
pub open spec fn narrow(v: u64, width: int) -> u64 {
    if width == 1 {
        v % 0x100
    } else if width == 2 {
        v % 0x1_0000
    } else if width == 4 {
        v % 0x1_0000_0000
    } else {
        v
    }
}

/// The element width, in bytes, of an array of primitive kind `id`.
pub open spec fn kind_width(id: int) -> int {
    if id == 0 || id == 4 {
        1
    } else if id == 1 || id == 5 {
        2
    } else if id == 2 || id == 6 {
        4
    } else {
        8
    }
}

/// An object or an array.
#[derive(Debug)]
pub struct Object {
    /// The id of its class.
    pub class: usize,
    /// The number of its fields, or the length of the array.
    pub size: usize,
    pub data: ArrayData,
}

impl Object {
    /// The size is the number of elements of the payload.
    pub open spec fn wf(&self) -> bool {
        self.size == self.data.cells().len()
    }

    /// An object of class `class` with `n` elements of `width` bytes, all
    /// zero.
    pub open spec fn is_fresh(&self, class: usize, width: int, n: usize) -> bool {
        &&& self.class == class
        &&& self.size == n
        &&& self.data.width() == width
        &&& self.data.cells() == zeros(n as nat)
    }
}

/// The UTF-16 code units of one character: itself below U+10000, a
/// surrogate pair from there on.
pub open spec fn utf16_of(c: char) -> Seq<u16> {
    if (c as u32) < 0x1_0000 {
        seq![c as u16]
    } else {
        let v = (c as u32 - 0x1_0000) as int;
        seq![(0xD800 + v / 0x400) as u16, (0xDC00 + v % 0x400) as u16]
    }
}

/// The UTF-16 code units of a text.
pub open spec fn utf16_units(s: Seq<char>) -> Seq<u16>
    decreases s.len(),
{
    if s.len() == 0 {
        Seq::empty()
    } else {
        utf16_units(s.drop_last()) + utf16_of(s.last())
    }
}

/// Encodes a string as UTF-16.
///
/// Wraps `str::encode_utf16`: the units of each character in turn, one
/// unit for a character below U+10000 and a surrogate pair for any
/// other.
#[verifier::external_body]
pub(crate) fn encode_utf16(s: &str) -> (r: Vec<u16>)
    ensures
        r@ == utf16_units(s@),
{
    s.encode_utf16().collect()
}

/// The heap.
pub struct Heap {
    pub objects: Vec<Object>,
    /// The interned strings, each with the reference to its object.
    pub string_pool: Vec<(String, u64)>,
    /// The ids of the eight primitive classes, by kind.
    pub primitives: Vec<usize>,
    /// The ids of the eight one-dimensional primitive array classes, by
    /// kind.
    pub primitive_array: Vec<usize>,
    /// The id of `java/lang/String`, once it is loaded.
    pub java_lang_string: Option<usize>,
}

impl Heap {
    /// Every object's size is the length of its payload.
    pub open spec fn wf(&self) -> bool {
        forall|i: int| 0 <= i < self.objects@.len() ==> (#[trigger] self.objects@[i]).wf()
    }

    /// Whether `r` refers to an object.
    pub open spec fn valid_ref(&self, r: u64) -> bool {
        1 <= r <= self.objects@.len()
    }

    /// The object that `r` refers to.
    pub open spec fn obj(&self, r: u64) -> Object {
        self.objects@[r - 1]
    }

    /// The objects of `old` are still there, unchanged, and so are its
    /// interned strings and class tables.
    pub open spec fn extends(&self, old: &Heap) -> bool {
        &&& old.objects@.len() <= self.objects@.len()
        &&& forall|i: int| 0 <= i < old.objects@.len() ==> self.objects@[i] == old.objects@[i]
        &&& old.string_pool@.len() <= self.string_pool@.len()
        &&& forall|i: int|
            0 <= i < old.string_pool@.len() ==> self.string_pool@[i] == old.string_pool@[i]
        &&& self.primitives == old.primitives
        &&& self.primitive_array == old.primitive_array
        &&& self.java_lang_string == old.java_lang_string
    }

    /// The objects of `old` are still there with their classes, sizes
    /// and element widths, and so are its interned strings and class
    /// tables; what the objects hold may have changed.
    pub open spec fn evolves_from(&self, old: &Heap) -> bool {
        &&& old.objects@.len() <= self.objects@.len()
        &&& forall|i: int|
            0 <= i < old.objects@.len() ==> (#[trigger] self.objects@[i]).class
                == old.objects@[i].class && self.objects@[i].size == old.objects@[i].size
                && self.objects@[i].data.width() == old.objects@[i].data.width()
        &&& old.string_pool@.len() <= self.string_pool@.len()
        &&& forall|i: int|
            0 <= i < old.string_pool@.len() ==> self.string_pool@[i] == old.string_pool@[i]
        &&& self.primitives == old.primitives
        &&& self.primitive_array == old.primitive_array
        &&& self.java_lang_string == old.java_lang_string
    }

    /// A heap that evolved from one that evolved from `old` evolved from
    /// `old`.
    pub proof fn lemma_evolves_trans(&self, mid: &Heap, old: &Heap)
        requires
            self.evolves_from(mid),
            mid.evolves_from(old),
        ensures
            self.evolves_from(old),
    {
        assert forall|i: int| 0 <= i < old.objects@.len() implies (
        #[trigger] self.objects@[i]).class == old.objects@[i].class && self.objects@[i].size
            == old.objects@[i].size && self.objects@[i].data.width()
            == old.objects@[i].data.width() by {
            assert(self.objects@[i].class == mid.objects@[i].class);
            assert(mid.objects@[i].class == old.objects@[i].class);
        }
        assert forall|i: int| 0 <= i < old.string_pool@.len() implies self.string_pool@[i]
            == old.string_pool@[i] by {
            assert(self.string_pool@[i] == mid.string_pool@[i]);
        }
    }

    /// A heap that extends another evolved from it.
    pub proof fn lemma_extends_evolves(&self, old: &Heap)
        requires
            self.extends(old),
        ensures
            self.evolves_from(old),
    {
    }

    /// A heap in which an element was stored evolved from the heap
    /// before.
    pub proof fn lemma_stored_evolves(&self, old: &Heap, r: u64, i: int, val: u64)
        requires
            old.valid_ref(r),
            Heap::stored(old, self, r, i, val),
        ensures
            self.evolves_from(old),
    {
        assert forall|k: int| 0 <= k < old.objects@.len() implies (
        #[trigger] self.objects@[k]).class == old.objects@[k].class && self.objects@[k].size
            == old.objects@[k].size && self.objects@[k].data.width()
            == old.objects@[k].data.width() by {
            if k != r - 1 {
                assert(self.objects@[k] == old.objects@[k]);
            }
        }
    }

    /// An empty heap.
    pub fn new() -> (r: Heap)
        ensures
            r.wf(),
            r.objects@.len() == 0,
            r.string_pool@.len() == 0,
            r.primitives@.len() == 0,
            r.primitive_array@.len() == 0,
            r.java_lang_string is None,
    {
        Heap {
            objects: Vec::new(),
            string_pool: Vec::new(),
            primitives: Vec::new(),
            primitive_array: Vec::new(),
            java_lang_string: None,
        }
    }

    /// The object that `r` refers to; `None` for null and for a
    /// reference to nothing.
    pub fn get(&self, r: u64) -> (o: Option<&Object>)
        ensures
            o is Some == self.valid_ref(r),
            o is Some ==> *o.unwrap() == self.obj(r),
    {
        if r == 0 || r > self.objects.len() as u64 {
            None
        } else {
            Some(&self.objects[(r - 1) as usize])
        }
    }

    /// Adds an object and returns the reference to it.
    fn place(&mut self, o: Object) -> (r: u64)
        requires
            old(self).wf(),
            o.wf(),
        ensures
            final(self).wf(),
            final(self).objects@ == old(self).objects@.push(o),
            final(self).string_pool == old(self).string_pool,
            final(self).primitives == old(self).primitives,
            final(self).primitive_array == old(self).primitive_array,
            final(self).java_lang_string == old(self).java_lang_string,
            r == old(self).objects@.len() + 1,
            final(self).valid_ref(r),
            final(self).extends(old(self)),
    {
        self.objects.push(o);
        self.objects.len() as u64
    }

    /// Allocates an object of class `class` with `size` 64-bit fields,
    /// all zero.
    pub fn new_obj_size(&mut self, class: usize, size: usize) -> (r: u64)
        requires
            old(self).wf(),
        ensures
            final(self).wf(),
            final(self).extends(old(self)),
            final(self).objects@.len() == old(self).objects@.len() + 1,
            final(self).string_pool == old(self).string_pool,
            r == final(self).objects@.len(),
            final(self).obj(r).is_fresh(class, 8, size),
    {
        let data: Vec<u64> = vec![0u64; size];
        let o = Object { class, size, data: ArrayData::Longs(data) };
        proof {
            assert(o.data.cells() =~= zeros(size as nat));
        }
        self.place(o)
    }

    /// Allocates an object of class `class` with as many fields as the
    /// class has instance fields; `None`, and nothing allocated, where
    /// `loader` has no such class.
    pub fn new_obj(&mut self, loader: &ClassLoader, class: usize) -> (r: Option<u64>)
        requires
            old(self).wf(),
        ensures
            final(self).wf(),
            final(self).extends(old(self)),
            class >= loader.classes@.len() ==> r is None && *final(self) == *old(self),
            class < loader.classes@.len() ==> r is Some && r.unwrap() == final(self).objects@.len()
                && final(self).objects@.len() == old(self).objects@.len() + 1 && final(self).obj(
                r.unwrap(),
            ).is_fresh(class, 8, loader.classes@[class as int].ins_fields@.len() as usize)
                && final(self).string_pool == old(self).string_pool,
    {
        match loader.get(class) {
            Some(c) => {
                let n: usize = c.ins_fields.len();
                Some(self.new_obj_size(class, n))
            },
            None => None,
        }
    }

    /// Whether an array of primitive kind `id` can be made: the kind is
    /// one of the eight and its array class is known.
    pub open spec fn has_kind(&self, id: i32) -> bool {
        0 <= id < PRIMITIVE_N && id < self.primitive_array@.len()
    }

    /// Allocates an array of `size` elements of primitive kind `id`, all
    /// zero, each as wide as the kind asks for.
    pub fn new_primitive_array(&mut self, id: i32, size: usize) -> (r: Result<u64, VmError>)
        requires
            old(self).wf(),
        ensures
            final(self).wf(),
            final(self).extends(old(self)),
            !old(self).has_kind(id) ==> r == Err::<u64, VmError>(VmError::ClassFormat) && *final(self) == *old(self),
            old(self).has_kind(id) ==> r is Ok && r.unwrap() == final(self).objects@.len()
                && final(self).objects@.len() == old(self).objects@.len() + 1 && final(self).obj(
                r.unwrap(),
            ).is_fresh(old(self).primitive_array@[id as int], kind_width(id as int), size)
                && final(self).string_pool == old(self).string_pool,
    {
        if id < 0 || id >= 8 || id as usize >= self.primitive_array.len() {
            return Err(VmError::ClassFormat);
        }
        let class: usize = self.primitive_array[id as usize];
        let data = if id == 0 || id == 4 {
            let v: Vec<u8> = vec![0u8; size];
            ArrayData::Bytes(v)
        } else if id == 1 || id == 5 {
            let v: Vec<u16> = vec![0u16; size];
            ArrayData::Shorts(v)
        } else if id == 2 || id == 6 {
            let v: Vec<u32> = vec![0u32; size];
            ArrayData::Ints(v)
        } else {
            let v: Vec<u64> = vec![0u64; size];
            ArrayData::Longs(v)
        };
        proof {
            assert(data.cells() =~= zeros(size as nat));
        }
        Ok(self.place(Object { class, size, data }))
    }

    /// Allocates an array of `size` references, all null, of array class
    /// `class`.
    pub fn new_ref_array(&mut self, class: usize, size: usize) -> (r: u64)
        requires
            old(self).wf(),
        ensures
            final(self).wf(),
            final(self).extends(old(self)),
            final(self).objects@.len() == old(self).objects@.len() + 1,
            final(self).string_pool == old(self).string_pool,
            r == final(self).objects@.len(),
            final(self).obj(r).is_fresh(class, 8, size),
    {
        self.new_obj_size(class, size)
    }

    /// The outcome of reaching element `i` of the object behind `r`.
    pub open spec fn access(&self, r: u64, i: int) -> Result<(), VmError> {
        if r == 0 {
            Err(VmError::NullPointer)
        } else if !self.valid_ref(r) {
            Err(VmError::InvalidReference)
        } else if i < 0 || i >= self.obj(r).data.cells().len() {
            Err(VmError::ArrayIndexOutOfBounds)
        } else {
            Ok(())
        }
    }

    /// Reads element `i` of the object or array behind `r`, widened to
    /// 64 bits.
    pub fn load(&self, r: u64, i: usize) -> (v: Result<u64, VmError>)
        ensures
            match self.access(r, i as int) {
                Err(e) => v == Err::<u64, VmError>(e),
                Ok(_) => v == Ok::<u64, VmError>(self.obj(r).data.cells()[i as int]),
            },
    {
        if r == 0 {
            return Err(VmError::NullPointer);
        }
        if r > self.objects.len() as u64 {
            return Err(VmError::InvalidReference);
        }
        let o = &self.objects[(r - 1) as usize];
        if i >= o.data.len() {
            return Err(VmError::ArrayIndexOutOfBounds);
        }
        Ok(o.data.get(i))
    }

    /// Whether `post` is `pre` with the low bytes of `val` stored in
    /// element `i` of the object behind `r`, as many bytes as the element
    /// is wide, and nothing else changed.
    pub open spec fn stored(pre: &Heap, post: &Heap, r: u64, i: int, val: u64) -> bool {
        &&& post.objects@.len() == pre.objects@.len()
        &&& forall|k: int|
            0 <= k < pre.objects@.len() && k != r - 1 ==> post.objects@[k] == pre.objects@[k]
        &&& post.obj(r).class == pre.obj(r).class
        &&& post.obj(r).size == pre.obj(r).size
        &&& post.obj(r).data.width() == pre.obj(r).data.width()
        &&& post.obj(r).data.cells() == pre.obj(r).data.cells().update(
            i,
            narrow(val, pre.obj(r).data.width()),
        )
        &&& post.string_pool == pre.string_pool
        &&& post.primitives == pre.primitives
        &&& post.primitive_array == pre.primitive_array
        &&& post.java_lang_string == pre.java_lang_string
    }

    /// Stores the low bytes of `val` in element `i` of the object or
    /// array behind `r`. Nothing else changes, and on an error nothing
    /// at all.
    pub fn store(&mut self, r: u64, i: usize, val: u64) -> (v: Result<(), VmError>)
        requires
            old(self).wf(),
        ensures
            final(self).wf(),
            v == old(self).access(r, i as int),
            v is Err ==> *final(self) == *old(self),
            v is Ok ==> Heap::stored(old(self), final(self), r, i as int, val),
    {
        if r == 0 {
            return Err(VmError::NullPointer);
        }
        if r > self.objects.len() as u64 {
            return Err(VmError::InvalidReference);
        }
        let k: usize = (r - 1) as usize;
        if i >= self.objects[k].data.len() {
            return Err(VmError::ArrayIndexOutOfBounds);
        }
        proof {
            assert(self.objects@[k as int].wf());
        }
        self.objects[k].data.set(i, val);
        proof {
            assert forall|j: int| 0 <= j < self.objects@.len() implies (
            #[trigger] self.objects@[j]).wf() by {
                if j != k {
                    assert(old(self).objects@[j].wf());
                }
            }
        }
        Ok(())
    }

    /// The length of the array, or the number of fields of the object,
    /// behind `r`.
    pub fn array_len(&self, r: u64) -> (v: Result<usize, VmError>)
        ensures
            r == 0 ==> v == Err::<usize, VmError>(VmError::NullPointer),
            r != 0 && !self.valid_ref(r) ==> v == Err::<usize, VmError>(VmError::InvalidReference),
            self.valid_ref(r) ==> v == Ok::<usize, VmError>(self.obj(r).size),
    {
        if r == 0 {
            return Err(VmError::NullPointer);
        }
        match self.get(r) {
            Some(o) => Ok(o.size),
            None => Err(VmError::InvalidReference),
        }
    }

    /// The class of the object behind `r`.
    pub fn class_of(&self, r: u64) -> (v: Result<usize, VmError>)
        ensures
            r == 0 ==> v == Err::<usize, VmError>(VmError::NullPointer),
            r != 0 && !self.valid_ref(r) ==> v == Err::<usize, VmError>(VmError::InvalidReference),
            self.valid_ref(r) ==> v == Ok::<usize, VmError>(self.obj(r).class),
    {
        if r == 0 {
            return Err(VmError::NullPointer);
        }
        match self.get(r) {
            Some(o) => Ok(o.class),
            None => Err(VmError::InvalidReference),
        }
    }

    /// The reference under which `s` was first interned, looking from
    /// entry `from` on.
    pub open spec fn interned_from(&self, s: Seq<char>, from: int) -> Option<u64>
        decreases self.string_pool@.len() - from,
    {
        if from < 0 || from >= self.string_pool@.len() {
            None
        } else if self.string_pool@[from].0@ == s {
            Some(self.string_pool@[from].1)
        } else {
            self.interned_from(s, from + 1)
        }
    }

    /// The reference under which `s` is interned.
    pub open spec fn interned(&self, s: Seq<char>) -> Option<u64> {
        self.interned_from(s, 0)
    }

    /// Looks `s` up in the pool of interned strings.
    pub fn find_jstr(&self, s: &str) -> (r: Option<u64>)
        ensures
            r == self.interned(s@),
    {
        let mut i: usize = 0;
        while i < self.string_pool.len()
            invariant
                i <= self.string_pool@.len(),
                self.interned(s@) == self.interned_from(s@, i as int),
            decreases self.string_pool@.len() - i,
        {
            if str_eq(self.string_pool[i].0.as_str(), s) {
                return Some(self.string_pool[i].1);
            }
            i += 1;
        }
        None
    }

    /// Whether a string that is not interned yet can be made: the string
    /// class is loaded and has a first field, and the class of character
    /// arrays is known.
    pub open spec fn can_make_jstr(&self, loader: &ClassLoader) -> bool {
        &&& self.java_lang_string is Some
        &&& self.java_lang_string.unwrap() < loader.classes@.len()
        &&& loader.classes@[self.java_lang_string.unwrap() as int].ins_fields@.len() >= 1
        &&& self.has_kind(1)
    }

    /// What `new_jstr` leaves behind and returns for the text `s`, from
    /// the heap `pre`: an interned text is returned as it is, with nothing
    /// changed; any other gets a character array with its UTF-16 units
    /// and a string object whose first field refers to that array, and
    /// is interned under the reference to the object.
    pub open spec fn jstr_post(pre: &Heap, loader: &ClassLoader, s: Seq<char>, post: &Heap, r: Result<u64, VmError>) -> bool {
        match pre.interned(s) {
            Some(o) => r == Ok::<u64, VmError>(o) && *post == *pre,
            None => if !pre.can_make_jstr(loader) {
                r == Err::<u64, VmError>(VmError::ClassNotFound) && *post == *pre
            } else {
                let n = pre.objects@.len() as int;
                let class = pre.java_lang_string.unwrap();
                let fields = loader.classes@[class as int].ins_fields@.len();
                &&& r == Ok::<u64, VmError>((n + 1) as u64)
                &&& post.extends(pre)
                &&& post.objects@.len() == n + 2
                &&& post.objects@[n].class == class
                &&& post.objects@[n].size == fields
                &&& post.objects@[n].data.width() == 8
                &&& post.objects@[n].data.cells() == zeros(fields).update(0, (n + 2) as u64)
                &&& post.objects@[n + 1].class == pre.primitive_array@[1]
                &&& post.objects@[n + 1].data.width() == 2
                &&& post.objects@[n + 1].data.cells() == Seq::new(
                    utf16_units(s).len(),
                    |i: int| utf16_units(s)[i] as u64,
                )
                &&& post.string_pool@.len() == pre.string_pool@.len() + 1
                &&& post.string_pool@.last().0@ == s
                &&& post.string_pool@.last().1 == n + 1
            },
        }
    }

    /// Returns the object that stands for the text `s`, making and
    /// interning it where the text is new.
    pub fn new_jstr(&mut self, loader: &ClassLoader, s: &str) -> (r: Result<u64, VmError>)
        requires
            old(self).wf(),
        ensures
            final(self).wf(),
            final(self).extends(old(self)),
            Heap::jstr_post(old(self), loader, s@, final(self), r),
    {
        match self.find_jstr(s) {
            Some(o) => {
                return Ok(o);
            },
            None => {},
        }
        let class: usize = match self.java_lang_string {
            Some(c) => c,
            None => {
                return Err(VmError::ClassNotFound);
            },
        };
        let fields: usize = match loader.get(class) {
            Some(c) => c.ins_fields.len(),
            None => {
                return Err(VmError::ClassNotFound);
            },
        };
        if fields == 0 || self.primitive_array.len() < 2 {
            return Err(VmError::ClassNotFound);
        }
        let o: u64 = self.new_obj_size(class, fields);
        let units: Vec<u16> = encode_utf16(s);
        let ghost mid = *self;
        let chars: u64 = match self.new_primitive_array(1, units.len()) {
            Ok(c) => c,
            Err(e) => {
                return Err(VmError::ClassNotFound);
            },
        };
        let ghost n: int = old(self).objects@.len() as int;
        let mut i: usize = 0;
        while i < units.len()
            invariant
                i <= units@.len(),
                self.wf(),
                n == old(self).objects@.len(),
                mid.objects@.len() == n + 1,
                old(self).primitive_array@.len() >= 2,
                self.objects@.len() == n + 2,
                chars == n + 2,
                forall|k: int| 0 <= k < n + 1 ==> self.objects@[k] == mid.objects@[k],
                self.string_pool == old(self).string_pool,
                self.primitives == old(self).primitives,
                self.primitive_array == old(self).primitive_array,
                self.java_lang_string == old(self).java_lang_string,
                self.objects@[n + 1].class == old(self).primitive_array@[1],
                self.objects@[n + 1].size == units@.len(),
                self.objects@[n + 1].data.width() == 2,
                self.objects@[n + 1].data.cells().len() == units@.len(),
                forall|k: int| 0 <= k < i ==> self.objects@[n + 1].data.cells()[k] == units@[k] as u64,
            decreases units@.len() - i,
        {
            let ghost before = *self;
            let res = self.store(chars, i, units[i] as u64);
            proof {
                assert(before.access(chars, i as int) is Ok);
                assert(self.obj(chars) == self.objects@[n + 1]);
                assert(before.obj(chars) == before.objects@[n + 1]);
                assert(units@[i as int] as u64 % 0x1_0000 == units@[i as int] as u64);
            }
            i += 1;
        }
        let ghost before = *self;
        let res = self.store(o, 0, chars);
        proof {
            assert(before.obj(o) == before.objects@[n]);
            assert(before.objects@[n] == mid.objects@[n]);
            assert(before.obj(o).data.cells().len() == fields);
            assert(before.access(o, 0) is Ok);
            assert(self.obj(o) == self.objects@[n]);
        }
        self.string_pool.push((s.to_owned(), o));
        proof {
            assert(self.objects@[n + 1].data.cells() =~= Seq::new(
                utf16_units(s@).len(),
                |i: int| utf16_units(s@)[i] as u64,
            ));
        }
        Ok(o)
    }
}

/// A text interned once is found again under the same reference: of two
/// calls of `new_jstr` with the same text, one behind the other, the
/// second returns what the first returned and leaves the heap as it
/// found it.
pub proof fn lemma_intern_twice(
    h0: Heap,
    h1: Heap,
    h2: Heap,
    loader: ClassLoader,
    s: Seq<char>,
    r1: Result<u64, VmError>,
    r2: Result<u64, VmError>,
)
    requires
        Heap::jstr_post(&h0, &loader, s, &h1, r1),
        Heap::jstr_post(&h1, &loader, s, &h2, r2),
        r1 is Ok,
    ensures
        r2 == r1,
        h2 == h1,
{
    match h0.interned(s) {
        Some(o) => {},
        None => {
            lemma_not_interned(&h0, s, 0);
            assert forall|k: int| 0 <= k < h1.string_pool@.len() - 1 implies (
            #[trigger] h1.string_pool@[k]).0@ != s by {
                assert(h1.string_pool@[k] == h0.string_pool@[k]);
            }
            lemma_interned_last(&h1, s, 0);
        },
    }
}

/// A text that is not found from `from` on is the text of no entry from
/// there on.
pub proof fn lemma_not_interned(h: &Heap, s: Seq<char>, from: int)
    requires
        0 <= from,
        h.interned_from(s, from) is None,
    ensures
        forall|k: int| from <= k < h.string_pool@.len() ==> (#[trigger] h.string_pool@[k]).0@ != s,
    decreases h.string_pool@.len() - from,
{
    if from < h.string_pool@.len() {
        lemma_not_interned(h, s, from + 1);
    }
}

/// A text found under a reference stays found under it when the pool
/// grows at its end.
pub proof fn lemma_interned_last(h: &Heap, s: Seq<char>, from: int)
    requires
        h.string_pool@.len() > 0,
        h.string_pool@.last().0@ == s,
        0 <= from < h.string_pool@.len(),
        forall|k: int|
            from <= k < h.string_pool@.len() - 1 ==> (#[trigger] h.string_pool@[k]).0@ != s,
    ensures
        h.interned_from(s, from) == Some(h.string_pool@.last().1),
    decreases h.string_pool@.len() - from,
{
    if from < h.string_pool@.len() - 1 {
        lemma_interned_last(h, s, from + 1);
    }
}

} // verus!
