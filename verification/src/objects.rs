//! What host functions do with objects: fields by name, the hidden last
//! cell of a mirror, the text of a string, and the call of a method of
//! an object.

use vstd::prelude::*;
use vstd::string::*;
use crate::class::ClassLoader;
use crate::error::VmError;
use crate::frame::{FrameView, JStack, MemberRef, with_top, zeros};
use crate::heap::{Heap, utf16_units};
use crate::text::str_eq;
use crate::thread::{JThread, frame_for};

verus! {

/// The name of instance field `i` of class `class`.
pub open spec fn field_name(loader: &ClassLoader, class: int, i: int) -> Option<Seq<char>> {
    match loader.spec_field(loader.classes@[class].ins_fields@[i]) {
        Some(f) => Some(f.name@),
        None => None,
    }
}

/// The place of the last instance field of class `class`, below `upto`,
/// that has the name `name`.
pub open spec fn slot_below(loader: &ClassLoader, class: int, name: Seq<char>, upto: int)
    -> Option<int>
    decreases upto,
{
    if upto <= 0 {
        None
    } else if field_name(loader, class, upto - 1) == Some(name) {
        Some(upto - 1)
    } else {
        slot_below(loader, class, name, upto - 1)
    }
}

/// The place of the instance field `name` in the objects of class
/// `class`: that of the last field of this name, so that a field of a
/// subclass hides one of its superclass.
pub open spec fn field_slot(loader: &ClassLoader, class: int, name: Seq<char>) -> Option<int> {
    if 0 <= class < loader.classes@.len() {
        slot_below(loader, class, name, loader.classes@[class].ins_fields@.len() as int)
    } else {
        None
    }
}

/// Decodes UTF-16.
///
/// Wraps `String::from_utf16`: it succeeds exactly on the code units of
/// some text, and gives that text.
#[verifier::external_body]
pub(crate) fn string_from_utf16(v: &Vec<u16>) -> (r: Option<String>)
    ensures
        r is Some <==> exists|s: Seq<char>| utf16_units(s) == v@,
        r is Some ==> utf16_units(r.unwrap()@) == v@,
{
    String::from_utf16(v.as_slice()).ok()
}

impl ClassLoader {
    /// Finds the place of the instance field `name` in the objects of
    /// class `class`.
    pub fn slot_of(&self, class: usize, name: &str) -> (r: Option<usize>)
        ensures
            match field_slot(self, class as int, name@) {
                Some(i) => r == Some(i as usize) && 0 <= i < self.classes@[class as int].ins_fields@.len(),
                None => r is None,
            },
            r is Some ==> field_slot(self, class as int, name@) == Some(r.unwrap() as int),
    {
        if class >= self.classes.len() {
            return None;
        }
        let mut i: usize = self.classes[class].ins_fields.len();
        while i > 0
            invariant
                class < self.classes@.len(),
                i <= self.classes@[class as int].ins_fields@.len(),
                field_slot(self, class as int, name@) == slot_below(
                    self,
                    class as int,
                    name@,
                    i as int,
                ),
            decreases i,
        {
            let hit: bool = match self.field(self.classes[class].ins_fields[i - 1]) {
                Some(f) => str_eq(f.name.as_str(), name),
                None => false,
            };
            if hit {
                return Some(i - 1);
            }
            i -= 1;
        }
        None
    }
}

impl Heap {
    /// The field `field` of the object behind `obj`; 0 where the object
    /// has no field of this name.
    pub fn get_field(&self, loader: &ClassLoader, obj: u64, field: &str) -> (r: Result<u64, VmError>)
        ensures
            obj == 0 ==> r == Err::<u64, VmError>(VmError::NullPointer),
            obj != 0 && !self.valid_ref(obj) ==> r == Err::<u64, VmError>(
                VmError::InvalidReference,
            ),
            self.valid_ref(obj) ==> match field_slot(loader, self.obj(obj).class as int, field@) {
                None => r == Ok::<u64, VmError>(0),
                Some(i) => match self.access(obj, i) {
                    Ok(_) => r == Ok::<u64, VmError>(self.obj(obj).data.cells()[i]),
                    Err(e) => r == Err::<u64, VmError>(e),
                },
            },
    {
        let class: usize = match self.class_of(obj) {
            Ok(c) => c,
            Err(e) => {
                return Err(e);
            },
        };
        match loader.slot_of(class, field) {
            Some(i) => self.load(obj, i),
            None => Ok(0),
        }
    }

    /// Stores `v` in the field `field` of the object behind `obj`;
    /// nothing where the object has no field of this name.
    pub fn set_field(&mut self, loader: &ClassLoader, obj: u64, field: &str, v: u64) -> (r: Result<
        (),
        VmError,
    >)
        requires
            old(self).wf(),
        ensures
            final(self).wf(),
            obj == 0 ==> r == Err::<(), VmError>(VmError::NullPointer),
            obj != 0 && !old(self).valid_ref(obj) ==> r == Err::<(), VmError>(
                VmError::InvalidReference,
            ),
            r is Err ==> *final(self) == *old(self),
            old(self).valid_ref(obj) ==> match field_slot(
                loader,
                old(self).obj(obj).class as int,
                field@,
            ) {
                None => r is Ok && *final(self) == *old(self),
                Some(i) => r == old(self).access(obj, i) && (r is Ok ==> Heap::stored(
                    old(self),
                    final(self),
                    obj,
                    i,
                    v,
                )),
            },
    {
        let class: usize = match self.class_of(obj) {
            Ok(c) => c,
            Err(e) => {
                return Err(e);
            },
        };
        match loader.slot_of(class, field) {
            Some(i) => self.store(obj, i, v),
            None => Ok(()),
        }
    }

    /// Stores the reference `r` in the field `field` of the object
    /// behind `obj`.
    pub fn set_field_ref(&mut self, loader: &ClassLoader, obj: u64, field: &str, r: u64) -> (res:
        Result<(), VmError>)
        requires
            old(self).wf(),
        ensures
            final(self).wf(),
            res is Err ==> *final(self) == *old(self),
            old(self).valid_ref(obj) ==> match field_slot(
                loader,
                old(self).obj(obj).class as int,
                field@,
            ) {
                None => res is Ok && *final(self) == *old(self),
                Some(i) => res == old(self).access(obj, i) && (res is Ok ==> Heap::stored(
                    old(self),
                    final(self),
                    obj,
                    i,
                    r,
                )),
            },
    {
        self.set_field(loader, obj, field, r)
    }

    /// The last cell of the object behind `obj`: in a mirror, the id of
    /// the class or member that it mirrors.
    pub fn extra(&self, obj: u64) -> (r: Result<u64, VmError>)
        ensures
            obj == 0 ==> r == Err::<u64, VmError>(VmError::NullPointer),
            obj != 0 && !self.valid_ref(obj) ==> r == Err::<u64, VmError>(
                VmError::InvalidReference,
            ),
            self.valid_ref(obj) && self.obj(obj).data.cells().len() == 0 ==> r == Err::<
                u64,
                VmError,
            >(VmError::ArrayIndexOutOfBounds),
            self.valid_ref(obj) && self.obj(obj).data.cells().len() > 0 ==> r == Ok::<
                u64,
                VmError,
            >(self.obj(obj).data.cells().last()),
    {
        let o = match self.get(obj) {
            Some(o) => o,
            None => {
                if obj == 0 {
                    return Err(VmError::NullPointer);
                }
                return Err(VmError::InvalidReference);
            },
        };
        let n: usize = o.data.len();
        if n == 0 {
            return Err(VmError::ArrayIndexOutOfBounds);
        }
        Ok(o.data.get(n - 1))
    }

    /// Whether the object behind `obj` can stand where class `class` is
    /// asked for.
    pub fn instance_of(&self, loader: &ClassLoader, obj: u64, class: usize) -> (r: Result<
        bool,
        VmError,
    >)
        ensures
            obj == 0 ==> r == Err::<bool, VmError>(VmError::NullPointer),
            obj != 0 && !self.valid_ref(obj) ==> r == Err::<bool, VmError>(
                VmError::InvalidReference,
            ),
            self.valid_ref(obj) ==> r == Ok::<bool, VmError>(
                loader.spec_is_assignable(class as int, self.obj(obj).class as int),
            ),
    {
        match self.class_of(obj) {
            Ok(c) => Ok(loader.is_assignable(class, c)),
            Err(e) => Err(e),
        }
    }

    /// The code units that the array behind `arr` holds, each the low 16
    /// bits of an element.
    pub fn units_of(&self, arr: u64) -> (r: Result<Vec<u16>, VmError>)
        ensures
            arr == 0 ==> r == Err::<Vec<u16>, VmError>(VmError::NullPointer),
            arr != 0 && !self.valid_ref(arr) ==> r == Err::<Vec<u16>, VmError>(
                VmError::InvalidReference,
            ),
            self.valid_ref(arr) ==> r is Ok && r.unwrap()@ == Seq::new(
                self.obj(arr).data.cells().len(),
                |i: int| (self.obj(arr).data.cells()[i] % 0x1_0000) as u16,
            ),
    {
        let o = match self.get(arr) {
            Some(o) => o,
            None => {
                if arr == 0 {
                    return Err(VmError::NullPointer);
                }
                return Err(VmError::InvalidReference);
            },
        };
        let n: usize = o.data.len();
        let mut v: Vec<u16> = Vec::with_capacity(n);
        let mut i: usize = 0;
        while i < n
            invariant
                i <= n,
                n == o.data.cells().len(),
                v@.len() == i,
                forall|k: int| 0 <= k < i ==> v@[k] == (o.data.cells()[k] % 0x1_0000) as u16,
            decreases n - i,
        {
            v.push((o.data.get(i) % 0x1_0000) as u16);
            i += 1;
        }
        proof {
            assert(v@ =~= Seq::new(
                self.obj(arr).data.cells().len(),
                |i: int| (self.obj(arr).data.cells()[i] % 0x1_0000) as u16,
            ));
        }
        Ok(v)
    }

    /// The code units of the string object behind `obj`: those that the
    /// array in the object's first field holds.
    pub open spec fn text_units(&self, obj: u64) -> Result<Seq<u16>, VmError> {
        match self.access(obj, 0) {
            Err(e) => Err(e),
            Ok(_) => {
                let arr = self.obj(obj).data.cells()[0];
                if arr == 0 {
                    Err(VmError::NullPointer)
                } else if !self.valid_ref(arr) {
                    Err(VmError::InvalidReference)
                } else {
                    Ok(
                        Seq::new(
                            self.obj(arr).data.cells().len(),
                            |i: int| (self.obj(arr).data.cells()[i] % 0x1_0000) as u16,
                        ),
                    )
                }
            },
        }
    }

    /// The text of the string object behind `obj`: the text whose UTF-16
    /// code units the array in the object's first field holds. Units
    /// that are the units of no text are an invalid reference.
    pub fn jstring(&self, obj: u64) -> (r: Result<String, VmError>)
        ensures
            match self.text_units(obj) {
                Err(e) => r == Err::<String, VmError>(e),
                Ok(u) => if exists|s: Seq<char>| utf16_units(s) == u {
                    r is Ok && utf16_units(r.unwrap()@) == u
                } else {
                    r == Err::<String, VmError>(VmError::InvalidReference)
                },
            },
    {
        let arr: u64 = match self.load(obj, 0) {
            Ok(a) => a,
            Err(e) => {
                return Err(e);
            },
        };
        let units: Vec<u16> = match self.units_of(arr) {
            Ok(u) => u,
            Err(e) => {
                return Err(e);
            },
        };
        match string_from_utf16(&units) {
            Some(s) => Ok(s),
            None => Err(VmError::InvalidReference),
        }
    }
}

/// The method that a call of `name` with the descriptor `desc` on the
/// object behind `obj` with `n` arguments runs, or the error that the
/// call ends with: a null or invalid reference, no such method, more
/// arguments than the method has locals, or no room for its frame.
pub open spec fn obj_target(
    stack: &JStack,
    loader: &ClassLoader,
    heap: &Heap,
    obj: u64,
    name: Seq<char>,
    desc: Seq<char>,
    n: int,
) -> Result<MemberRef, VmError> {
    if obj == 0 {
        Err(VmError::NullPointer)
    } else if !heap.valid_ref(obj) {
        Err(VmError::InvalidReference)
    } else {
        match loader.spec_lookup_method(heap.obj(obj).class as int, name, desc) {
            None => Err(VmError::NoSuchMember),
            Some(m) => match loader.spec_method(m) {
                None => Err(VmError::InvalidReference),
                Some(method) => if method.max_locals < n {
                    Err(VmError::LocalIndex)
                } else if stack.push_fails(method.max_locals, method.max_stack) {
                    Err(VmError::StackOverflow)
                } else {
                    Ok(m)
                },
            },
        }
    }
}

impl JThread {
    /// Calls the method `name` with the descriptor `desc` of the object
    /// behind `obj`: a frame is pushed for the method that a search from
    /// the object's class finds, with `args` as its first locals. Where
    /// `drop` is set, nobody takes the method's return value.
    pub fn invoke_obj(
        &mut self,
        loader: &ClassLoader,
        heap: &Heap,
        obj: u64,
        name: &str,
        desc: &str,
        args: &Vec<u64>,
        drop: bool,
    ) -> (r: Result<(), VmError>)
        requires
            old(self).stack.wf(),
        ensures
            final(self).stack.wf(),
            final(self).pc == old(self).pc,
            r is Err ==> final(self).stack@ == old(self).stack@,
            match obj_target(&old(self).stack, loader, heap, obj, name@, desc@, args@.len() as int) {
                Ok(m) => r is Ok,
                Err(e) => r == Err::<(), VmError>(e),
            },
            r is Ok ==> {
                let m = loader.spec_lookup_method(heap.obj(obj).class as int, name@, desc@);
                &&& heap.valid_ref(obj)
                &&& m is Some
                &&& loader.spec_method(m.unwrap()) is Some
                &&& args@.len() <= loader.spec_method(m.unwrap()).unwrap().max_locals
                &&& final(self).stack@ == old(self).stack@.push(
                    FrameView {
                        no_ret: drop,
                        locals: args@ + zeros(
                            (loader.spec_method(m.unwrap()).unwrap().max_locals - args@.len()) as nat,
                        ),
                        ..frame_for(loader, m.unwrap())
                    },
                )
            },
    {
        let class: usize = match heap.class_of(obj) {
            Ok(c) => c,
            Err(e) => {
                return Err(e);
            },
        };
        let m: MemberRef = match loader.lookup_method(class, name, desc) {
            Some(m) => m,
            None => {
                return Err(VmError::NoSuchMember);
            },
        };
        match loader.method(m) {
            Some(method) => {
                if method.max_locals < args.len() {
                    return Err(VmError::LocalIndex);
                }
            },
            None => {
                return Err(VmError::InvalidReference);
            },
        }
        match self.push_frame(loader, m) {
            Ok(_) => {},
            Err(e) => {
                return Err(e);
            },
        }
        self.stack.set_no_ret(drop);
        let ghost base = self.stack@;
        let ghost ml = loader.spec_method(m).unwrap().max_locals;
        let mut i: usize = 0;
        while i < args.len()
            invariant
                i <= args@.len(),
                args@.len() <= ml,
                self.stack.wf(),
                self.pc == old(self).pc,
                self.stack@.len() == base.len(),
                base.len() > 0,
                base.last().locals == zeros(ml as nat),
                self.stack@ == with_top(
                    base,
                    FrameView {
                        locals: args@.take(i as int) + zeros((ml - i) as nat),
                        ..base.last()
                    },
                ),
            decreases args@.len() - i,
        {
            self.stack.set_local(i, args[i]);
            i += 1;
            proof {
                assert((args@.take(i - 1) + zeros((ml - (i - 1)) as nat)).update(
                    i - 1,
                    args@[i - 1],
                ) =~= args@.take(i as int) + zeros((ml - i) as nat));
            }
        }
        proof {
            assert(args@.take(args@.len() as int) =~= args@);
            assert(self.stack@ =~= old(self).stack@.push(
                FrameView {
                    no_ret: drop,
                    locals: args@ + zeros((ml - args@.len()) as nat),
                    ..frame_for(loader, m)
                },
            ));
        }
        Ok(())
    }
}

} // verus!
