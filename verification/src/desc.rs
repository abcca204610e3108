//! Field and method descriptors: the grammar
//! `B|Z|C|S|I|J|F|D|V | L<name>; | [<field>` for a field and
//! `(<field>*)<field>` for a method.

use vstd::prelude::*;
use vstd::string::*;
use crate::text::push_char;

verus! {

/// The kind of a value named by a descriptor.
#[derive(Debug)]
pub enum JType {
    /// A primitive that fills one slot; it carries its descriptor letter.
    FI(char),
    /// A primitive that fills two slots; it carries its descriptor letter.
    DJ(char),
    /// A reference; it carries the class name, or for an array the whole
    /// array descriptor.
    A(String),
    /// No value.
    V,
}

/// The mathematical value of a [`JType`].
pub ghost enum JTypeView {
    FI(char),
    DJ(char),
    A(Seq<char>),
    V,
}

impl View for JType {
    type V = JTypeView;

    open spec fn view(&self) -> JTypeView {
        match self {
            JType::FI(c) => JTypeView::FI(*c),
            JType::DJ(c) => JTypeView::DJ(*c),
            JType::A(s) => JTypeView::A(s@),
            JType::V => JTypeView::V,
        }
    }
}

impl Default for JType {
    fn default() -> (r: JType)
        ensures
            r == JType::V,
    {
        JType::V
    }
}

/// A parsed method descriptor.
#[derive(Debug)]
pub struct MethodDescriptor {
    pub params: Vec<JType>,
    pub ret: JType,
    /// How many slots the arguments fill.
    pub arg_slots: usize,
}

/// The mathematical value of a [`MethodDescriptor`].
pub ghost struct MethodDescriptorView {
    pub params: Seq<JTypeView>,
    pub ret: JTypeView,
    pub arg_slots: nat,
}

impl View for MethodDescriptor {
    type V = MethodDescriptorView;

    open spec fn view(&self) -> MethodDescriptorView {
        MethodDescriptorView {
            params: Seq::new(self.params@.len(), |i: int| self.params@[i]@),
            ret: self.ret@,
            arg_slots: self.arg_slots as nat,
        }
    }
}

/// The characters that stand for the bytes of `s`, one for one.
pub open spec fn latin1(s: Seq<u8>) -> Seq<char> {
    Seq::new(s.len(), |i: int| s[i] as char)
}

/// One of the letters `B Z I F S C`.
pub open spec fn is_narrow_letter(c: u8) -> bool {
    c == 0x42 || c == 0x5a || c == 0x49 || c == 0x46 || c == 0x53 || c == 0x43
}

/// One of the letters `J D`.
pub open spec fn is_wide_letter(c: u8) -> bool {
    c == 0x4a || c == 0x44
}

/// The index of the first `;` at or after `from`, or the length of `s`
/// where there is none.
pub open spec fn find_semi(s: Seq<u8>, from: int) -> int
    decreases s.len() - from,
{
    if from < 0 || from >= s.len() {
        s.len() as int
    } else if s[from] == 0x3b {
        from
    } else {
        find_semi(s, from + 1)
    }
}

/// How many `[` follow one another from `from` on.
pub open spec fn count_brackets(s: Seq<u8>, from: int) -> int
    decreases s.len() - from,
{
    if 0 <= from < s.len() && s[from] == 0x5b {
        1 + count_brackets(s, from + 1)
    } else {
        0
    }
}

/// The field type that starts at `off` and is no array, with the offset
/// behind it; `None` where the bytes form none.
pub open spec fn spec_no_array(s: Seq<u8>, off: int) -> Option<(JTypeView, int)> {
    if off < 0 || off >= s.len() {
        None
    } else if is_narrow_letter(s[off]) {
        Some((JTypeView::FI(s[off] as char), off + 1))
    } else if is_wide_letter(s[off]) {
        Some((JTypeView::DJ(s[off] as char), off + 1))
    } else if s[off] == 0x56 {
        Some((JTypeView::V, off + 1))
    } else if s[off] == 0x4c {
        let e = find_semi(s, off + 1);
        if e >= s.len() {
            None
        } else {
            Some((JTypeView::A(latin1(s.subrange(off + 1, e))), e + 1))
        }
    } else {
        None
    }
}

/// What an array descriptor at `off` holds.
pub ghost struct ArrayParse {
    /// The number of leading `[`.
    pub dims: int,
    /// The whole descriptor, as a reference type.
    pub full: JTypeView,
    /// The type behind the brackets.
    pub element: JTypeView,
    /// The offset behind the descriptor.
    pub end: int,
}

/// The array descriptor that starts at `off`: its brackets, at most 255,
/// and the type behind them.
pub open spec fn spec_arr(s: Seq<u8>, off: int) -> Option<ArrayParse> {
    let k = count_brackets(s, off);
    if k > 255 {
        None
    } else {
        match spec_no_array(s, off + k) {
            None => None,
            Some((el, end)) => Some(
                ArrayParse {
                    dims: k,
                    full: JTypeView::A(latin1(s.subrange(off, end))),
                    element: el,
                    end,
                },
            ),
        }
    }
}

/// The field type that starts at `off`, array or not.
pub open spec fn spec_param(s: Seq<u8>, off: int) -> Option<(JTypeView, int)> {
    if 0 <= off < s.len() && s[off] == 0x5b {
        match spec_arr(s, off) {
            None => None,
            Some(a) => Some((a.full, a.end)),
        }
    } else {
        spec_no_array(s, off)
    }
}

/// The field types from `off` up to the next `)`, and the offset of that
/// `)`.
pub open spec fn spec_params(s: Seq<u8>, off: int) -> Option<(Seq<JTypeView>, int)>
    decreases s.len() - off,
{
    if off < 0 || off >= s.len() {
        None
    } else if s[off] == 0x29 {
        Some((Seq::empty(), off))
    } else {
        match spec_param(s, off) {
            None => None,
            Some((t, e)) => if e <= off {
                None
            } else {
                match spec_params(s, e) {
                    None => None,
                    Some((rest, end)) => Some((seq![t] + rest, end)),
                }
            },
        }
    }
}

/// The slots that one argument fills: one for a narrow primitive or a
/// reference, two for anything else.
pub open spec fn slots_of(t: JTypeView) -> nat {
    match t {
        JTypeView::FI(_) => 1,
        JTypeView::A(_) => 1,
        _ => 2,
    }
}

/// The slots that a list of arguments fills.
pub open spec fn slots_sum(p: Seq<JTypeView>) -> nat
    decreases p.len(),
{
    if p.len() == 0 {
        0
    } else {
        slots_sum(p.drop_last()) + slots_of(p.last())
    }
}

/// The method descriptor that starts at `off`: `(`, the parameters, `)`
/// and the return type. `None` where the bytes form none or the argument
/// slots do not fit a `usize`.
pub open spec fn spec_method(s: Seq<u8>, off: int) -> Option<(MethodDescriptorView, int)> {
    if off < 0 || off >= s.len() || s[off] != 0x28 {
        None
    } else {
        match spec_params(s, off + 1) {
            None => None,
            Some((params, close)) => match spec_param(s, close + 1) {
                None => None,
                Some((ret, end)) => if slots_sum(params) > usize::MAX {
                    None
                } else {
                    Some((MethodDescriptorView { params, ret, arg_slots: slots_sum(params) }, end))
                },
            },
        }
    }
}

/// The first `;` at or after `from` is at `e` where none lies before `e`.
pub proof fn lemma_find_semi(s: Seq<u8>, from: int, e: int)
    requires
        0 <= from <= e <= s.len(),
        forall|k: int| from <= k < e ==> s[k] != 0x3b,
        e == s.len() || s[e] == 0x3b,
    ensures
        find_semi(s, from) == e,
    decreases e - from,
{
    if from < e {
        lemma_find_semi(s, from + 1, e);
    }
}

/// The brackets from `from` on are those up to `e`, where the run of
/// brackets ends.
pub proof fn lemma_count_brackets(s: Seq<u8>, from: int, e: int)
    requires
        0 <= from <= e <= s.len(),
        forall|k: int| from <= k < e ==> s[k] == 0x5b,
        e == s.len() || s[e] != 0x5b,
    ensures
        count_brackets(s, from) == e - from,
    decreases e - from,
{
    if from < e {
        lemma_count_brackets(s, from + 1, e);
    }
}

/// A parameter always takes at least one byte.
pub proof fn lemma_param_advances(s: Seq<u8>, off: int)
    requires
        spec_param(s, off) is Some,
    ensures
        spec_param(s, off).unwrap().1 > off,
        spec_param(s, off).unwrap().1 <= s.len(),
{
    if 0 <= off < s.len() && s[off] == 0x5b {
        lemma_count_nonneg(s, off);
        let k = count_brackets(s, off);
        lemma_no_array_advances(s, off + k);
    } else {
        lemma_no_array_advances(s, off);
    }
}

/// There is no negative number of brackets.
pub proof fn lemma_count_nonneg(s: Seq<u8>, from: int)
    ensures
        count_brackets(s, from) >= 0,
    decreases s.len() - from,
{
    if 0 <= from < s.len() && s[from] == 0x5b {
        lemma_count_nonneg(s, from + 1);
    }
}

/// The first `;` is found at or after the start and within the bytes.
pub proof fn lemma_find_semi_bounds(s: Seq<u8>, from: int)
    requires
        0 <= from,
    ensures
        from <= find_semi(s, from) || find_semi(s, from) == s.len(),
        find_semi(s, from) <= s.len(),
    decreases s.len() - from,
{
    if from < s.len() && s[from] != 0x3b {
        lemma_find_semi_bounds(s, from + 1);
    }
}

/// A field type that is no array takes at least one byte and ends
/// within the bytes.
pub proof fn lemma_no_array_advances(s: Seq<u8>, off: int)
    requires
        spec_no_array(s, off) is Some,
    ensures
        spec_no_array(s, off).unwrap().1 > off,
        spec_no_array(s, off).unwrap().1 <= s.len(),
{
    if s[off] == 0x4c && !is_narrow_letter(s[off]) && !is_wide_letter(s[off]) {
        lemma_find_semi_bounds(s, off + 1);
    }
}

/// The slots of a list with one more argument at its end.
pub proof fn lemma_slots_push(p: Seq<JTypeView>, t: JTypeView)
    ensures
        slots_sum(p.push(t)) == slots_sum(p) + slots_of(t),
{
    assert(p.push(t).drop_last() =~= p);
}

/// A parser over the bytes of a descriptor.
pub struct DescriptorParser<'a> {
    pub bytes: &'a [u8],
    pub off: usize,
}

impl<'a> DescriptorParser<'a> {
    /// A parser at the start of `bytes`.
    pub fn new(bytes: &'a [u8]) -> (p: DescriptorParser<'a>)
        ensures
            p.bytes == bytes,
            p.off == 0,
    {
        DescriptorParser { bytes, off: 0 }
    }

    /// Reads one byte and advances past it.
    fn u8(&mut self) -> (r: u8)
        requires
            old(self).off < old(self).bytes@.len(),
        ensures
            r == old(self).bytes@[old(self).off as int],
            final(self).off == old(self).off + 1,
            final(self).bytes == old(self).bytes,
    {
        let u: u8 = self.bytes[self.off];
        self.off += 1;
        u
    }

    /// The next byte, which stays unread.
    fn peek(&self) -> (r: u8)
        requires
            self.off < self.bytes@.len(),
        ensures
            r == self.bytes@[self.off as int],
    {
        self.bytes[self.off]
    }

    /// Parses a whole method descriptor from the cursor on.
    pub fn parse_method(&mut self) -> (r: Option<MethodDescriptor>)
        ensures
            final(self).bytes == old(self).bytes,
            match spec_method(old(self).bytes@, old(self).off as int) {
                None => r is None,
                Some((d, end)) => r is Some && r->0@ == d && final(self).off == end,
            },
    {
        if self.off >= self.bytes.len() || self.peek() != 0x28 {
            return None;
        }
        self.u8();
        let params = match self.parse_params() {
            Some(p) => p,
            None => {
                return None;
            },
        };
        self.u8();
        let ret = match self.parse_param() {
            Some(t) => t,
            None => {
                return None;
            },
        };
        let mut arg_slots: usize = 0;
        let mut i: usize = 0;
        let ghost pv = Seq::new(params@.len(), |k: int| params@[k]@);
        while i < params.len()
            invariant
                i <= params@.len(),
                pv == Seq::new(params@.len(), |k: int| params@[k]@),
                arg_slots == slots_sum(pv.take(i as int)),
                self.bytes == old(self).bytes,
                spec_method(old(self).bytes@, old(self).off as int) == (if slots_sum(pv)
                    > usize::MAX {
                    None::<(MethodDescriptorView, int)>
                } else {
                    Some(
                        (
                            MethodDescriptorView {
                                params: pv,
                                ret: ret@,
                                arg_slots: slots_sum(pv),
                            },
                            self.off as int,
                        ),
                    )
                }),
            decreases params@.len() - i,
        {
            let n: usize = match &params[i] {
                JType::A(_) => 1,
                JType::FI(_) => 1,
                _ => 2,
            };
            proof {
                assert(pv.take(i + 1) =~= pv.take(i as int).push(pv[i as int]));
                lemma_slots_push(pv.take(i as int), pv[i as int]);
                assert(n == slots_of(pv[i as int]));
                lemma_slots_prefix(pv, i + 1);
            }
            if arg_slots > usize::MAX - n {
                return None;
            }
            arg_slots += n;
            i += 1;
        }
        proof {
            assert(pv.take(params@.len() as int) =~= pv);
        }
        Some(MethodDescriptor { params, ret, arg_slots })
    }

    /// Parses parameters up to, and not past, the closing `)`.
    fn parse_params(&mut self) -> (r: Option<Vec<JType>>)
        requires
            old(self).off <= old(self).bytes@.len(),
        ensures
            final(self).bytes == old(self).bytes,
            match spec_params(old(self).bytes@, old(self).off as int) {
                None => r is None,
                Some((p, end)) => r is Some && Seq::new(r->0@.len(), |k: int| r->0@[k]@) == p
                    && final(self).off == end && end < old(self).bytes@.len()
                    && old(self).bytes@[end] == 0x29,
            },
    {
        let mut v: Vec<JType> = Vec::new();
        let ghost s = self.bytes@;
        let ghost start = self.off as int;
        loop
            invariant
                self.bytes@ == s,
                self.bytes == old(self).bytes,
                start == old(self).off,
                start <= self.off <= s.len(),
                spec_params(s, start) == (match spec_params(s, self.off as int) {
                    None => None::<(Seq<JTypeView>, int)>,
                    Some((rest, end)) => Some(
                        (Seq::new(v@.len(), |k: int| v@[k]@) + rest, end),
                    ),
                }),
            decreases s.len() - self.off,
        {
            if self.off >= self.bytes.len() {
                return None;
            }
            if self.peek() == 0x29 {
                proof {
                    assert(Seq::new(v@.len(), |k: int| v@[k]@) + Seq::<JTypeView>::empty()
                        =~= Seq::new(v@.len(), |k: int| v@[k]@));
                }
                return Some(v);
            }
            let ghost before = self.off as int;
            let ghost vv = Seq::new(v@.len(), |k: int| v@[k]@);
            match self.parse_param() {
                None => {
                    return None;
                },
                Some(t) => {
                    proof {
                        lemma_param_advances(s, before);
                        let e = self.off as int;
                        match spec_params(s, e) {
                            None => {},
                            Some((rest, end)) => {
                                assert((vv + (seq![t@] + rest)) =~= (vv.push(t@) + rest));
                            },
                        }
                    }
                    v.push(t);
                    proof {
                        assert(Seq::new(v@.len(), |k: int| v@[k]@) =~= vv.push(t@));
                    }
                },
            }
        }
    }

    /// Parses one field type, array or not.
    fn parse_param(&mut self) -> (r: Option<JType>)
        ensures
            final(self).bytes == old(self).bytes,
            match spec_param(old(self).bytes@, old(self).off as int) {
                None => r is None,
                Some((t, end)) => r is Some && r->0@ == t && final(self).off == end,
            },
    {
        if self.off < self.bytes.len() && self.peek() == 0x5b {
            match self.parse_arr() {
                None => None,
                Some(a) => Some(a.1),
            }
        } else {
            self.parse_no_array()
        }
    }

    /// Parses an array descriptor: the number of its dimensions, the whole
    /// descriptor as a reference type, and the type behind the brackets.
    pub fn parse_arr(&mut self) -> (r: Option<(u8, JType, JType)>)
        ensures
            final(self).bytes == old(self).bytes,
            match spec_arr(old(self).bytes@, old(self).off as int) {
                None => r is None,
                Some(a) => r is Some && ({
                    let t = r.unwrap();
                    t.0 == a.dims && t.1@ == a.full && t.2@ == a.element
                }) && final(self).off == a.end,
            },
    {
        let mut dims: u8 = 0;
        let mut s: String = String::new();
        let ghost b = self.bytes@;
        let ghost start = self.off as int;
        if self.off > self.bytes.len() {
            return None;
        }
        while self.off < self.bytes.len() && self.peek() == 0x5b
            invariant
                self.bytes@ == b,
                self.bytes == old(self).bytes,
                start == old(self).off,
                start <= self.off <= b.len(),
                dims == self.off - start,
                forall|k: int| start <= k < self.off ==> b[k] == 0x5b,
                s@ == latin1(b.subrange(start, self.off as int)),
            decreases b.len() - self.off,
        {
            if dims == 255 {
                proof {
                    lemma_count_brackets_at_least(b, start, self.off as int + 1);
                }
                return None;
            }
            let c: u8 = self.u8();
            push_char(&mut s, c as char);
            dims += 1;
            proof {
                assert(latin1(b.subrange(start, self.off as int)) =~= latin1(
                    b.subrange(start, self.off as int - 1),
                ).push(c as char));
            }
        }
        proof {
            lemma_count_brackets(b, start, self.off as int);
        }
        let now: usize = self.off;
        let element = match self.parse_no_array() {
            Some(e) => e,
            None => {
                return None;
            },
        };
        proof {
            lemma_no_array_advances(b, now as int);
        }
        let mut i: usize = now;
        while i < self.off
            invariant
                self.bytes@ == b,
                0 <= start <= now <= i <= self.off <= b.len(),
                s@ == latin1(b.subrange(start, i as int)),
            decreases self.off - i,
        {
            push_char(&mut s, self.bytes[i] as char);
            i += 1;
            proof {
                assert(latin1(b.subrange(start, i as int)) =~= latin1(
                    b.subrange(start, i as int - 1),
                ).push(b[i as int - 1] as char));
            }
        }
        Some((dims, JType::A(s), element))
    }

    /// Parses one field type that is no array.
    pub fn parse_no_array(&mut self) -> (r: Option<JType>)
        ensures
            final(self).bytes == old(self).bytes,
            match spec_no_array(old(self).bytes@, old(self).off as int) {
                None => r is None,
                Some((t, end)) => r is Some && r->0@ == t && final(self).off == end,
            },
    {
        if self.off >= self.bytes.len() {
            return None;
        }
        let cur: u8 = self.u8();
        if cur == 0x42 || cur == 0x5a || cur == 0x49 || cur == 0x46 || cur == 0x53 || cur == 0x43 {
            Some(JType::FI(cur as char))
        } else if cur == 0x4a || cur == 0x44 {
            Some(JType::DJ(cur as char))
        } else if cur == 0x56 {
            Some(JType::V)
        } else if cur == 0x4c {
            let mut s: String = String::new();
            let ghost b = self.bytes@;
            let ghost start = self.off as int;
            while self.off < self.bytes.len() && self.peek() != 0x3b
                invariant
                    self.bytes@ == b,
                    self.bytes == old(self).bytes,
                    start == old(self).off + 1,
                    start <= self.off <= b.len(),
                    forall|k: int| start <= k < self.off ==> b[k] != 0x3b,
                    s@ == latin1(b.subrange(start, self.off as int)),
                decreases b.len() - self.off,
            {
                let c: u8 = self.u8();
                push_char(&mut s, c as char);
                proof {
                    assert(latin1(b.subrange(start, self.off as int)) =~= latin1(
                        b.subrange(start, self.off as int - 1),
                    ).push(c as char));
                }
            }
            proof {
                lemma_find_semi(b, start, self.off as int);
            }
            if self.off >= self.bytes.len() {
                return None;
            }
            self.u8();
            Some(JType::A(s))
        } else {
            None
        }
    }
}

/// Brackets all the way from `from` to `e` make the count at least their
/// number.
pub proof fn lemma_count_brackets_at_least(s: Seq<u8>, from: int, e: int)
    requires
        0 <= from <= e <= s.len(),
        forall|k: int| from <= k < e ==> s[k] == 0x5b,
    ensures
        count_brackets(s, from) >= e - from,
    decreases e - from,
{
    if from < e {
        lemma_count_brackets_at_least(s, from + 1, e);
    } else {
        lemma_count_nonneg(s, from);
    }
}

/// The slots of a prefix never exceed the slots of the whole list.
pub proof fn lemma_slots_prefix(p: Seq<JTypeView>, n: int)
    requires
        0 <= n <= p.len(),
    ensures
        slots_sum(p.take(n)) <= slots_sum(p),
    decreases p.len() - n,
{
    if n < p.len() {
        assert(p.take(n + 1) =~= p.take(n).push(p[n]));
        lemma_slots_push(p.take(n), p[n]);
        lemma_slots_prefix(p, n + 1);
    } else {
        assert(p.take(n) =~= p);
    }
}

impl JType {
    /// The name under which a value of this kind is loaded as a class: the
    /// letter of a primitive, the name of a reference, `V` for none.
    pub fn class(&self) -> (r: String)
        ensures
            r@ == match self@ {
                JTypeView::FI(c) => seq![c],
                JTypeView::DJ(c) => seq![c],
                JTypeView::A(s) => s,
                JTypeView::V => seq!['V'],
            },
    {
        match self {
            JType::FI(x) => {
                let mut s: String = String::new();
                push_char(&mut s, *x);
                proof {
                    assert(s@ =~= seq![*x]);
                }
                s
            },
            JType::DJ(x) => {
                let mut s: String = String::new();
                push_char(&mut s, *x);
                proof {
                    assert(s@ =~= seq![*x]);
                }
                s
            },
            JType::A(x) => x.clone(),
            JType::V => {
                let mut s: String = String::new();
                push_char(&mut s, 'V');
                proof {
                    assert(s@ =~= seq!['V']);
                }
                s
            },
        }
    }
}

/// The slot width that the first byte of a field descriptor stands for:
/// 1 for `Z B C S I F`, 2 for `D J`, -1 for anything else.
pub open spec fn spec_slots(b: Seq<u8>) -> int {
    if b.len() == 0 {
        -1
    } else if b[0] == 0x5a || b[0] == 0x42 || b[0] == 0x43 || b[0] == 0x53 || b[0] == 0x49
        || b[0] == 0x46 {
        1
    } else if b[0] == 0x44 || b[0] == 0x4a {
        2
    } else {
        -1
    }
}

/// Field descriptors seen as slot widths.
pub trait JTypeDescriptor {
    /// The UTF-8 bytes of the descriptor.
    spec fn descriptor_bytes(&self) -> Seq<u8>;

    /// -1 for a reference, 1 for a narrow primitive, 2 for a wide one.
    fn slots(&self) -> (r: i32)
        ensures
            r == spec_slots(self.descriptor_bytes()),
    ;
}

impl JTypeDescriptor for str {
    open spec fn descriptor_bytes(&self) -> Seq<u8> {
        self.spec_bytes()
    }

    fn slots(&self) -> (r: i32) {
        let b = self.as_bytes();
        if b.len() == 0 {
            return -1;
        }
        let c: u8 = b[0];
        if c == 0x5a || c == 0x42 || c == 0x43 || c == 0x53 || c == 0x49 || c == 0x46 {
            1
        } else if c == 0x44 || c == 0x4a {
            2
        } else {
            -1
        }
    }
}

} // verus!
