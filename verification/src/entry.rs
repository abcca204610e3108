//! The class path: its grammar, the names of class files, an entry made
//! of several entries, and the search for a class in the bytes of an
//! archive.

use vstd::prelude::*;
use vstd::string::*;
use crate::loader::Entry;
use crate::text::{push_char, str_eq};

verus! {

/// Whether `s` ends with the characters `suffix`.
pub open spec fn has_suffix(s: Seq<char>, suffix: Seq<char>) -> bool {
    suffix.len() <= s.len() && s.subrange(s.len() - suffix.len(), s.len() as int) == suffix
}

/// Whether a name is that of an archive of classes: it ends with
/// `.jar` or `.JAR`.
pub open spec fn spec_is_jar(s: Seq<char>) -> bool {
    has_suffix(s, seq!['.', 'j', 'a', 'r']) || has_suffix(s, seq!['.', 'J', 'A', 'R'])
}

/// Whether a name is that of an archive: it ends with `.zip`, `.jar`,
/// `.ZIP` or `.JAR`.
pub open spec fn spec_is_archive(s: Seq<char>) -> bool {
    spec_is_jar(s) || has_suffix(s, seq!['.', 'z', 'i', 'p']) || has_suffix(
        s,
        seq!['.', 'Z', 'I', 'P'],
    )
}

/// Whether the four last characters of `s` are `a`, `b`, `c`, `d`.
fn ends_with4(s: &str, n: usize, a: char, b: char, c: char, d: char) -> (r: bool)
    requires
        n == s@.len(),
    ensures
        r == has_suffix(s@, seq![a, b, c, d]),
{
    if n < 4 {
        return false;
    }
    let r: bool = s.get_char(n - 4) == a && s.get_char(n - 3) == b && s.get_char(n - 2) == c
        && s.get_char(n - 1) == d;
    proof {
        let t = s@.subrange(s@.len() - 4, s@.len() as int);
        if r {
            assert(t =~= seq![a, b, c, d]);
        } else {
            if t == seq![a, b, c, d] {
                assert(t[0] == a && t[1] == b && t[2] == c && t[3] == d);
            }
        }
    }
    r
}

/// Whether a file name is that of an archive of classes.
pub fn is_jar(name: &str) -> (r: bool)
    ensures
        r == spec_is_jar(name@),
{
    let n: usize = name.unicode_len();
    ends_with4(name, n, '.', 'j', 'a', 'r') || ends_with4(name, n, '.', 'J', 'A', 'R')
}

/// Whether a path is that of an archive.
pub fn is_archive(path: &str) -> (r: bool)
    ensures
        r == spec_is_archive(path@),
{
    let n: usize = path.unicode_len();
    ends_with4(path, n, '.', 'j', 'a', 'r') || ends_with4(path, n, '.', 'J', 'A', 'R')
        || ends_with4(path, n, '.', 'z', 'i', 'p') || ends_with4(path, n, '.', 'Z', 'I', 'P')
}

/// Whether `s` holds the character `c`.
pub fn has_char(s: &str, c: char) -> (r: bool)
    ensures
        r == s@.contains(c),
{
    let n: usize = s.unicode_len();
    let mut i: usize = 0;
    while i < n
        invariant
            i <= n,
            n == s@.len(),
            forall|k: int| 0 <= k < i ==> s@[k] != c,
        decreases n - i,
    {
        if s.get_char(i) == c {
            return true;
        }
        i += 1;
    }
    false
}

/// The index of the first `c` in `s` at or after `from`, or the length
/// of `s` where there is none.
pub open spec fn first_index(s: Seq<char>, c: char, from: int) -> int
    decreases s.len() - from,
{
    if from < 0 || from >= s.len() {
        s.len() as int
    } else if s[from] == c {
        from
    } else {
        first_index(s, c, from + 1)
    }
}

/// The pieces of `s` from `start` on that lie between the characters
/// `c`: at least one piece, and one more for every `c`.
pub open spec fn split_from(s: Seq<char>, c: char, start: int) -> Seq<Seq<char>>
    decreases s.len() - start,
{
    let i = first_index(s, c, start);
    if start < 0 || start > s.len() || i >= s.len() || i < start {
        seq![s.subrange(start, s.len() as int)]
    } else {
        seq![s.subrange(start, i)] + split_from(s, c, i + 1)
    }
}

/// The segments of a class path: the pieces between its `:`.
pub open spec fn spec_split_paths(paths: Seq<char>) -> Seq<Seq<char>> {
    split_from(paths, ':', 0)
}

/// The first `c` at or after `from` is at `at` where none lies before
/// `at`.
pub proof fn lemma_first_index(s: Seq<char>, c: char, from: int, at: int)
    requires
        0 <= from <= at <= s.len(),
        forall|k: int| from <= k < at ==> s[k] != c,
        at == s.len() || s[at] == c,
    ensures
        first_index(s, c, from) == at,
    decreases at - from,
{
    if from < at {
        lemma_first_index(s, c, from + 1, at);
    }
}

/// Splits a class path into its segments.
pub fn split_paths(paths: &str) -> (r: Vec<String>)
    ensures
        r@.len() == spec_split_paths(paths@).len(),
        forall|k: int| 0 <= k < r@.len() ==> (#[trigger] r@[k])@ == spec_split_paths(paths@)[k],
{
    let n: usize = paths.unicode_len();
    let mut v: Vec<String> = Vec::new();
    let mut start: usize = 0;
    let mut i: usize = 0;
    let ghost s = paths@;
    let ghost mut done: Seq<Seq<char>> = Seq::empty();
    while i < n
        invariant
            start <= i <= n,
            n == s.len(),
            s == paths@,
            forall|k: int| start <= k < i ==> s[k] != ':',
            v@.len() == done.len(),
            forall|k: int| 0 <= k < v@.len() ==> (#[trigger] v@[k])@ == done[k],
            spec_split_paths(s) == done + split_from(s, ':', start as int),
        decreases n - i,
    {
        if paths.get_char(i) == ':' {
            let piece: String = paths.substring_char(start, i).to_owned();
            proof {
                lemma_first_index(s, ':', start as int, i as int);
                let rest = split_from(s, ':', i + 1);
                assert(split_from(s, ':', start as int) == seq![s.subrange(start as int, i as int)]
                    + rest);
                assert(done + (seq![s.subrange(start as int, i as int)] + rest) =~= done.push(
                    s.subrange(start as int, i as int),
                ) + rest);
                done = done.push(s.subrange(start as int, i as int));
            }
            v.push(piece);
            start = i + 1;
        }
        i += 1;
    }
    let piece: String = paths.substring_char(start, n).to_owned();
    proof {
        lemma_first_index(s, ':', start as int, n as int);
        assert(split_from(s, ':', start as int) == seq![s.subrange(start as int, n as int)]);
        assert(done + seq![s.subrange(start as int, n as int)] =~= done.push(
            s.subrange(start as int, n as int),
        ));
        done = done.push(s.subrange(start as int, n as int));
    }
    v.push(piece);
    v
}

/// The directory of a wildcard segment: the segment without its last
/// character.
pub fn wildcard_dir(path: &str) -> (r: String)
    ensures
        r@ == (if path@.len() == 0 {
            path@
        } else {
            path@.drop_last()
        }),
{
    let n: usize = path.unicode_len();
    if n == 0 {
        return path.to_owned();
    }
    path.substring_char(0, n - 1).to_owned()
}

/// The name of the file that holds the class `name`: the name followed
/// by `.class`.
pub fn class_file_name(name: &str) -> (r: String)
    ensures
        r@ == name@ + ".class"@,
{
    let mut s: String = name.to_owned();
    s.append(".class");
    s
}

/// What one segment of a class path asks for.
#[derive(Debug)]
pub enum Segment {
    /// The classes in the directory of this path.
    Directory(String),
    /// The classes in the archive of this path.
    Archive(String),
    /// The classes in every archive that lies in the directory of this
    /// path.
    Wildcard(String),
}

/// The mathematical value of a [`Segment`].
pub ghost enum SegmentView {
    Directory(Seq<char>),
    Archive(Seq<char>),
    Wildcard(Seq<char>),
}

impl View for Segment {
    type V = SegmentView;

    open spec fn view(&self) -> SegmentView {
        match self {
            Segment::Directory(s) => SegmentView::Directory(s@),
            Segment::Archive(s) => SegmentView::Archive(s@),
            Segment::Wildcard(s) => SegmentView::Wildcard(s@),
        }
    }
}

/// What a class path asks for.
#[derive(Debug)]
pub enum EntryPlan {
    /// One segment.
    One(Segment),
    /// Several segments, to be searched in their order.
    Many(Vec<Segment>),
}

/// What the segment `path` asks for: the archives of a directory where
/// it ends with `*`, an archive where it ends as the name of one, a
/// directory else.
pub open spec fn spec_segment(path: Seq<char>) -> SegmentView {
    if path.len() > 0 && path.last() == '*' {
        SegmentView::Wildcard(path.drop_last())
    } else if spec_is_archive(path) {
        SegmentView::Archive(path)
    } else {
        SegmentView::Directory(path)
    }
}

/// Decides what a segment of a class path asks for.
pub fn segment(path: &str) -> (r: Segment)
    ensures
        r@ == spec_segment(path@),
{
    let n: usize = path.unicode_len();
    if n > 0 && path.get_char(n - 1) == '*' {
        Segment::Wildcard(wildcard_dir(path))
    } else if is_archive(path) {
        Segment::Archive(path.to_owned())
    } else {
        Segment::Directory(path.to_owned())
    }
}

/// Decides what a class path asks for: where it holds a `:`, what each
/// of its segments asks for, in their order; else what it asks for as
/// one segment.
pub fn new_entry(path: &str) -> (r: EntryPlan)
    ensures
        match r {
            EntryPlan::One(s) => !path@.contains(':') && s@ == spec_segment(path@),
            EntryPlan::Many(v) => path@.contains(':') && v@.len() == spec_split_paths(
                path@,
            ).len() && forall|k: int|
                0 <= k < v@.len() ==> (#[trigger] v@[k])@ == spec_segment(
                    spec_split_paths(path@)[k],
                ),
        },
{
    if !has_char(path, ':') {
        return EntryPlan::One(segment(path));
    }
    let parts: Vec<String> = split_paths(path);
    let mut v: Vec<Segment> = Vec::with_capacity(parts.len());
    let mut i: usize = 0;
    while i < parts.len()
        invariant
            i <= parts@.len(),
            v@.len() == i,
            forall|k: int| 0 <= k < i ==> (#[trigger] v@[k])@ == spec_segment(parts@[k]@),
        decreases parts@.len() - i,
    {
        v.push(segment(parts[i].as_str()));
        i += 1;
    }
    EntryPlan::Many(v)
}

/// The separator of path components on this machine.
///
/// Wraps the constant `std::path::MAIN_SEPARATOR`, which is `/` or `\`.
#[verifier::external_body]
pub(crate) fn main_separator() -> (r: char)
    ensures
        r == '/' || r == '\\',
{
    std::path::MAIN_SEPARATOR
}

/// `p` with `sep` in the place of every `/` and `\`.
pub open spec fn spec_norm_path(p: Seq<char>, sep: char) -> Seq<char> {
    Seq::new(
        p.len(),
        |i: int|
            if p[i] == '\\' || p[i] == '/' {
                sep
            } else {
                p[i]
            },
    )
}

/// Replaces every `/` and `\` of `p` by `sep`.
pub fn norm_path_with(p: &str, sep: char) -> (r: String)
    ensures
        r@ == spec_norm_path(p@, sep),
{
    let n: usize = p.unicode_len();
    let mut s: String = String::new();
    let mut i: usize = 0;
    while i < n
        invariant
            i <= n,
            n == p@.len(),
            s@ == spec_norm_path(p@, sep).take(i as int),
        decreases n - i,
    {
        let c: char = p.get_char(i);
        if c == '\\' || c == '/' {
            push_char(&mut s, sep);
        } else {
            push_char(&mut s, c);
        }
        i += 1;
        proof {
            assert(s@ =~= spec_norm_path(p@, sep).take(i as int));
        }
    }
    proof {
        assert(spec_norm_path(p@, sep).take(n as int) =~= spec_norm_path(p@, sep));
    }
    s
}

/// Replaces every `/` and `\` of `p` by the separator of this machine.
pub fn norm_path(p: &str) -> (r: String)
    ensures
        r@ == spec_norm_path(p@, '/') || r@ == spec_norm_path(p@, '\\'),
{
    norm_path_with(p, main_separator())
}

/// Whether `r` is an answer of the entry `child` to a request for the
/// class `name`: what a call of its `read_class` may return.
pub open spec fn answered<E: Entry>(child: E, name: &str, r: Option<Vec<u8>>) -> bool {
    call_ensures(E::read_class, (&child, name), r)
}

/// Whether `r` is the first hit among the answers of `children` to a
/// request for the class `name`: the bytes that one of them answered,
/// all before it having answered that they have no such class; or
/// `None`, all of them having answered so.
pub open spec fn first_hit<E: Entry>(children: Seq<E>, name: &str, r: Option<Vec<u8>>) -> bool {
    match r {
        Some(v) => exists|i: int|
            0 <= i < children.len() && #[trigger] answered(children[i], name, Some(v))
                && forall|j: int| 0 <= j < i ==> #[trigger] answered(children[j], name, None),
        None => forall|j: int|
            0 <= j < children.len() ==> #[trigger] answered(children[j], name, None),
    }
}

/// An entry made of several entries; a class is read from the first
/// that has it.
pub struct CompositeEntry<E: Entry> {
    pub children: Vec<E>,
}

impl<E: Entry> Entry for CompositeEntry<E> {
    /// Asks the children in their order and gives the first hit: the
    /// bytes that a child answered after all before it had none, or
    /// `None` where no child has the class.
    fn read_class(&self, name: &str) -> (r: Option<Vec<u8>>)
        ensures
            first_hit(self.children@, name, r),
    {
        let mut i: usize = 0;
        while i < self.children.len()
            invariant
                i <= self.children@.len(),
                forall|j: int| 0 <= j < i ==> #[trigger] answered(self.children@[j], name, None),
            decreases self.children@.len() - i,
        {
            let found: Option<Vec<u8>> = self.children[i].read_class(name);
            proof {
                assert(answered(self.children@[i as int], name, found));
            }
            match found {
                Some(v) => {
                    return Some(v);
                },
                None => {},
            }
            i += 1;
        }
        None
    }
}

/// The names of the entries of the archive that the bytes `archive`
/// hold, in the order of its directory; a name is `None` where it
/// cannot be read as text. `None` where the bytes hold no archive.
pub uninterp spec fn zip_names(archive: Seq<u8>) -> Option<Seq<Option<Seq<char>>>>;

/// The unpacked bytes of entry `i` of the archive that the bytes
/// `archive` hold; `None` where there is no such entry or it cannot be
/// unpacked.
pub uninterp spec fn zip_file(archive: Seq<u8>, i: int) -> Option<Seq<u8>>;

/// Lists the names of the entries of an archive.
///
/// Wraps `zip::ZipArchive::new` over the bytes and
/// `ZipArchive::file_names`: both are functions of the bytes alone.
#[verifier::external_body]
pub(crate) fn archive_names(archive: &[u8]) -> (r: Option<Vec<Option<String>>>)
    ensures
        r is Some == zip_names(archive@) is Some,
        r is Some ==> r.unwrap()@.len() == zip_names(archive@).unwrap().len(),
        r is Some ==> forall|k: int|
            0 <= k < r.unwrap()@.len() ==> (match #[trigger] r.unwrap()@[k] {
                Some(s) => Some(s@),
                None => None,
            }) == zip_names(archive@).unwrap()[k],
{
    match zip::ZipArchive::new(std::io::Cursor::new(archive)) {
        Ok(a) => Some(a.file_names().map(|n| n.ok().map(|c| c.into_owned())).collect()),
        Err(_) => None,
    }
}

/// Unpacks entry `i` of an archive.
///
/// Wraps `zip::ZipArchive::new` over the bytes, `ZipArchive::by_index`
/// and the reading of the entry to its end: a function of the bytes and
/// the index alone.
#[verifier::external_body]
pub(crate) fn archive_file(archive: &[u8], i: usize) -> (r: Option<Vec<u8>>)
    ensures
        r is Some == zip_file(archive@, i as int) is Some,
        r is Some ==> r.unwrap()@ == zip_file(archive@, i as int).unwrap(),
{
    let mut a = zip::ZipArchive::new(std::io::Cursor::new(archive)).ok()?;
    let mut f = a.by_index(i).ok()?;
    let mut r: Vec<u8> = Vec::new();
    std::io::Read::read_to_end(&mut f, &mut r).ok()?;
    Some(r)
}

/// The index of the first of `names` that is `name`, from `from` on.
pub open spec fn name_index(names: Seq<Option<Seq<char>>>, name: Seq<char>, from: int) -> Option<
    int,
>
    decreases names.len() - from,
{
    if from < 0 || from >= names.len() {
        None
    } else if names[from] == Some(name) {
        Some(from)
    } else {
        name_index(names, name, from + 1)
    }
}

/// The names as values.
pub open spec fn name_views(names: Seq<Option<String>>) -> Seq<Option<Seq<char>>> {
    Seq::new(
        names.len(),
        |k: int|
            match names[k] {
                Some(s) => Some(s@),
                None => None,
            },
    )
}

/// Finds the first entry of an archive whose name is `name`.
pub fn pick_entry(names: &Vec<Option<String>>, name: &str) -> (r: Option<usize>)
    ensures
        match name_index(name_views(names@), name@, 0) {
            Some(i) => r == Some(i as usize) && 0 <= i < names@.len(),
            None => r is None,
        },
        r is Some ==> name_index(name_views(names@), name@, 0) == Some(r.unwrap() as int),
{
    let mut i: usize = 0;
    while i < names.len()
        invariant
            i <= names@.len(),
            name_index(name_views(names@), name@, 0) == name_index(
                name_views(names@),
                name@,
                i as int,
            ),
        decreases names@.len() - i,
    {
        let hit: bool = match &names[i] {
            Some(s) => str_eq(s.as_str(), name),
            None => false,
        };
        proof {
            assert(name_views(names@)[i as int] == match names@[i as int] {
                Some(s) => Some(s@),
                None => None::<Seq<char>>,
            });
        }
        if hit {
            return Some(i);
        }
        i += 1;
    }
    None
}

/// The bytes of the class `name` in the archive that the bytes
/// `archive` hold: the unpacked bytes of the first entry whose name is
/// the name of the class followed by `.class`.
pub open spec fn spec_class_in_archive(archive: Seq<u8>, name: Seq<char>) -> Option<Seq<u8>> {
    match zip_names(archive) {
        None => None,
        Some(names) => match name_index(names, name + ".class"@, 0) {
            None => None,
            Some(i) => zip_file(archive, i),
        },
    }
}

/// Reads the class `name` from the bytes of an archive.
pub fn class_in_archive(archive: &[u8], name: &str) -> (r: Option<Vec<u8>>)
    ensures
        r is Some == spec_class_in_archive(archive@, name@) is Some,
        r is Some ==> r.unwrap()@ == spec_class_in_archive(archive@, name@).unwrap(),
{
    let full: String = class_file_name(name);
    let names: Vec<Option<String>> = match archive_names(archive) {
        Some(n) => n,
        None => {
            return None;
        },
    };
    proof {
        assert(name_views(names@) =~= zip_names(archive@).unwrap());
    }
    match pick_entry(&names, full.as_str()) {
        Some(i) => archive_file(archive, i),
        None => None,
    }
}

} // verus!
