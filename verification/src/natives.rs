//! The registry of native methods: a table from the key
//! `{class}_{method}_{descriptor}` to the host function that stands
//! for the method.

use vstd::prelude::*;
use vstd::string::*;
use vstd::utf8::encode_utf8;
use crate::desc::{DescriptorParser, MethodDescriptor, spec_method};
use crate::error::VmError;
use crate::text::str_eq;
use crate::vm::Jvm;

verus! {

/// A host function that stands for a native method.
pub trait NativeMethod {
    /// The internal name of the class of the method.
    fn class_name(&self) -> &str;

    /// The name of the method.
    fn method_name(&self) -> &str;

    /// The descriptor of the method.
    fn desc(&self) -> &str;

    /// Runs the host function on the machine, whose current frame is
    /// that of the native method: the arguments are its first locals,
    /// and a return value is to be pushed on its operand stack.
    fn exec(&self, jvm: &mut Jvm) -> Result<(), VmError>;
}

/// A registered host function with the parsed descriptor of its method.
pub struct NativeMethodW<N> {
    pub inner: N,
    pub desc: MethodDescriptor,
}

/// The registry.
pub struct NativeRegistry<N> {
    /// The entries, each under its key; no key occurs twice.
    pub data: Vec<(String, NativeMethodW<N>)>,
}

/// The key of a method.
pub open spec fn native_key(class: Seq<char>, method: Seq<char>, desc: Seq<char>) -> Seq<char> {
    class + "_"@ + method + "_"@ + desc
}

/// Builds the key of a method.
pub fn hash(class: &str, method: &str, desc: &str) -> (r: String)
    ensures
        r@ == native_key(class@, method@, desc@),
{
    let mut s: String = class.to_owned();
    s.append("_");
    s.append(method);
    s.append("_");
    s.append(desc);
    s
}

impl<N> NativeRegistry<N> {
    /// The index of the first entry under `key`, from `from` on.
    pub open spec fn index_from(&self, key: Seq<char>, from: int) -> Option<int>
        decreases self.data@.len() - from,
    {
        if from < 0 || from >= self.data@.len() {
            None
        } else if self.data@[from].0@ == key {
            Some(from)
        } else {
            self.index_from(key, from + 1)
        }
    }

    /// The index of the entry under `key`.
    pub open spec fn index_of(&self, key: Seq<char>) -> Option<int> {
        self.index_from(key, 0)
    }

    /// No key occurs twice.
    pub open spec fn wf(&self) -> bool {
        forall|i: int, j: int|
            0 <= i < j < self.data@.len() ==> (#[trigger] self.data@[i]).0@ != (
            #[trigger] self.data@[j]).0@
    }

    /// An empty registry.
    pub fn new() -> (r: Self)
        ensures
            r.wf(),
            r.data@.len() == 0,
    {
        NativeRegistry { data: Vec::new() }
    }

    /// Finds the index of the entry under `key`.
    pub fn position(&self, key: &str) -> (r: Option<usize>)
        ensures
            match self.index_of(key@) {
                Some(i) => r == Some(i as usize) && 0 <= i < self.data@.len() && self.data@[i].0@
                    == key@,
                None => r is None && forall|k: int|
                    0 <= k < self.data@.len() ==> (#[trigger] self.data@[k]).0@ != key@,
            },
            r is Some ==> self.index_of(key@) == Some(r.unwrap() as int),
    {
        let mut i: usize = 0;
        while i < self.data.len()
            invariant
                i <= self.data@.len(),
                self.index_of(key@) == self.index_from(key@, i as int),
                forall|k: int| 0 <= k < i ==> (#[trigger] self.data@[k]).0@ != key@,
            decreases self.data@.len() - i,
        {
            if str_eq(self.data[i].0.as_str(), key) {
                return Some(i);
            }
            i += 1;
        }
        None
    }

    /// What registering `native` for the method `method` with the
    /// descriptor `desc` of the class `class` makes of the registry
    /// `pre`: with a malformed descriptor an error, and nothing changes;
    /// else the entry under the key of the method holds `native` and the
    /// parsed descriptor, in the place of the entry that was under this
    /// key or, where there was none, behind all others, which stay.
    pub open spec fn registered(
        pre: &NativeRegistry<N>,
        post: &NativeRegistry<N>,
        class: Seq<char>,
        method: Seq<char>,
        desc: Seq<char>,
        native: N,
        r: Result<(), VmError>,
    ) -> bool {
        match spec_method(encode_utf8(desc), 0) {
            None => r == Err::<(), VmError>(VmError::ClassFormat) && post.data == pre.data,
            Some(parsed) => {
                let key = native_key(class, method, desc);
                let at = match pre.index_of(key) {
                    Some(i) => i,
                    None => pre.data@.len() as int,
                };
                &&& r is Ok
                &&& post.data@.len() == (if pre.index_of(key) is Some {
                    pre.data@.len()
                } else {
                    pre.data@.len() + 1
                })
                &&& post.data@[at].0@ == key
                &&& post.data@[at].1.inner == native
                &&& post.data@[at].1.desc@ == parsed.0
                &&& forall|k: int|
                    0 <= k < pre.data@.len() && k != at ==> post.data@[k] == pre.data@[k]
            },
        }
    }

    /// Registers the host function `native` for the method `method` with
    /// the descriptor `desc` of the class `class`, in the place of what
    /// was registered for that method before. It fails, and registers
    /// nothing, where the descriptor is malformed.
    pub fn register_as(&mut self, class: &str, method: &str, desc: &str, native: N) -> (r: Result<
        (),
        VmError,
    >)
        requires
            old(self).wf(),
        ensures
            final(self).wf(),
            Self::registered(old(self), final(self), class@, method@, desc@, native, r),
    {
        let h: String = hash(class, method, desc);
        let parsed: MethodDescriptor = {
            let mut parser = DescriptorParser::new(desc.as_bytes());
            match parser.parse_method() {
                Some(d) => d,
                None => {
                    return Err(VmError::ClassFormat);
                },
            }
        };
        let o = NativeMethodW { inner: native, desc: parsed };
        match self.position(h.as_str()) {
            Some(i) => {
                self.data[i] = (h, o);
                proof {
                    assert forall|a: int, b: int| 0 <= a < b < self.data@.len() implies (
                    #[trigger] self.data@[a]).0@ != (#[trigger] self.data@[b]).0@ by {
                        assert(old(self).data@[a].0@ != old(self).data@[b].0@);
                    }
                }
            },
            None => {
                self.data.push((h, o));
                proof {
                    assert forall|a: int, b: int| 0 <= a < b < self.data@.len() implies (
                    #[trigger] self.data@[a]).0@ != (#[trigger] self.data@[b]).0@ by {
                        if b < old(self).data@.len() {
                            assert(old(self).data@[a].0@ != old(self).data@[b].0@);
                        } else {
                            assert(old(self).data@[a].0@ != h@);
                        }
                    }
                }
            },
        }
        Ok(())
    }

    /// Finds the host function that is registered for a method; an
    /// unregistered method is an error.
    pub fn find(&self, class: &str, method: &str, desc: &str) -> (r: Result<
        &NativeMethodW<N>,
        VmError,
    >)
        ensures
            match self.index_of(native_key(class@, method@, desc@)) {
                Some(i) => r is Ok && *r.unwrap() == self.data@[i].1,
                None => r is Err && r->Err_0 == VmError::MissingNative,
            },
    {
        let h: String = hash(class, method, desc);
        match self.position(h.as_str()) {
            Some(i) => Ok(&self.data[i].1),
            None => Err(VmError::MissingNative),
        }
    }
}

/// Whether the host function `native` names its method by the class
/// `class`, the name `method` and the descriptor `desc`: its three
/// naming methods may return these texts.
pub open spec fn names<N: NativeMethod>(
    native: N,
    class: Seq<char>,
    method: Seq<char>,
    desc: Seq<char>,
) -> bool {
    &&& exists|s: &str| #[trigger] call_ensures(N::class_name, (&native,), s) && s@ == class
    &&& exists|s: &str| #[trigger] call_ensures(N::method_name, (&native,), s) && s@ == method
    &&& exists|s: &str| #[trigger] call_ensures(N::desc, (&native,), s) && s@ == desc
}

impl<N: NativeMethod> NativeRegistry<N> {
    /// What registering `native` for the method that it names itself
    /// makes of the registry `pre`: what `registered` says for a class,
    /// a method name and a descriptor that `native` gave.
    pub open spec fn register_post(
        pre: &NativeRegistry<N>,
        post: &NativeRegistry<N>,
        native: N,
        r: Result<(), VmError>,
    ) -> bool {
        exists|class: Seq<char>, method: Seq<char>, desc: Seq<char>|
            names(native, class, method, desc) && #[trigger] Self::registered(
                pre,
                post,
                class,
                method,
                desc,
                native,
                r,
            )
    }

    /// The texts that the host function gave show that it was registered
    /// as `register_post` says.
    pub proof fn lemma_register_post(
        pre: &NativeRegistry<N>,
        post: &NativeRegistry<N>,
        class: Seq<char>,
        method: Seq<char>,
        desc: Seq<char>,
        native: N,
        r: Result<(), VmError>,
    )
        requires
            names(native, class, method, desc),
            Self::registered(pre, post, class, method, desc, native, r),
        ensures
            Self::register_post(pre, post, native, r),
    {
    }

    /// Registers a host function for the method that it names itself:
    /// it is asked for the class, the name and the descriptor of its
    /// method, and registered for them as `register_as` registers it.
    pub fn register(&mut self, native: N) -> (r: Result<(), VmError>)
        requires
            old(self).wf(),
        ensures
            final(self).wf(),
            old(self).data@.len() <= final(self).data@.len() <= old(self).data@.len() + 1,
            r is Err ==> final(self).data == old(self).data,
            Self::register_post(old(self), final(self), native, r),
    {
        let c: &str = native.class_name();
        proof {
            assert(call_ensures(N::class_name, (&native,), c));
        }
        let class: String = c.to_owned();
        let m: &str = native.method_name();
        proof {
            assert(call_ensures(N::method_name, (&native,), m));
        }
        let method: String = m.to_owned();
        let d: &str = native.desc();
        proof {
            assert(call_ensures(N::desc, (&native,), d));
        }
        let desc: String = d.to_owned();
        proof {
            assert(names(native, class@, method@, desc@));
        }
        let r = self.register_as(class.as_str(), method.as_str(), desc.as_str(), native);
        proof {
            Self::lemma_register_post(old(self), self, class@, method@, desc@, native, r);
        }
        r
    }
}

} // verus!
