//! Absolute paths, as Unix writes them.

use std::path::PathBuf;

use vstd::prelude::*;

verus! {

/// `std::path::PathBuf`: a path as the system writes it, which need not be text.
#[verifier::external_type_specification]
#[verifier::external_body]
pub struct ExPathBuf(std::path::PathBuf);

/// The bytes that a path is made of: what `OsStr::as_encoded_bytes` returns for it.
pub uninterp spec fn path_bytes(path: PathBuf) -> Seq<u8>;

/// `OsStr::as_encoded_bytes`: the bytes that a path is made of.
#[verifier::external_body]
fn bytes_of(path: &PathBuf) -> (bytes: Vec<u8>)
    ensures
        bytes@ == path_bytes(*path),
{
    path.as_os_str().as_encoded_bytes().to_vec()
}

/// `PathBuf::clone`: a path that is made of the same bytes.
#[verifier::external_body]
fn copy_path(path: &PathBuf) -> (copy: PathBuf)
    ensures
        path_bytes(copy) == path_bytes(*path),
{
    path.clone()
}

/// `dunce::canonicalize`: the path as the file system resolves it now, `None` where it
/// cannot. What it returns rests on what is on disk, so no clause says which path that is.
#[verifier::external_body]
fn canonicalize_path(path: &PathBuf) -> (resolved: Option<PathBuf>) {
    dunce::canonicalize(path).ok()
}

/// What separates the names on a path: a slash.
pub const SEPARATOR: u8 = 47;

/// The character of which the name is made that stands for the directory itself: a dot.
pub const DOT: u8 = 46;

/// Whether a path starts at the root of the file system.
pub open spec fn is_absolute_path(path: Seq<u8>) -> bool {
    path.len() > 0 && path[0] == SEPARATOR
}

/// The bytes of an optional path.
pub open spec fn opt_path(path: Option<PathBuf>) -> Option<Seq<u8>> {
    match path {
        Some(p) => Some(path_bytes(p)),
        None => None,
    }
}

/// The names on a path once the name that was being read is complete. Empty names (from
/// repeated separators) and the name `.` do not count.
pub open spec fn with_name(names: Seq<Seq<u8>>, name: Seq<u8>) -> Seq<Seq<u8>> {
    if name.len() == 0 || name == seq![DOT] {
        names
    } else {
        names.push(name)
    }
}

/// The names on a path that are complete, and the bytes behind the last separator.
pub open spec fn scanned_names(path: Seq<u8>) -> (Seq<Seq<u8>>, Seq<u8>)
    decreases path.len(),
{
    if path.len() == 0 {
        (Seq::empty(), Seq::empty())
    } else {
        let (names, name) = scanned_names(path.drop_last());
        if path.last() == SEPARATOR {
            (with_name(names, name), Seq::empty())
        } else {
            (names, name.push(path.last()))
        }
    }
}

/// The names on a path, from the root down.
pub open spec fn path_names(path: Seq<u8>) -> Seq<Seq<u8>> {
    with_name(scanned_names(path).0, scanned_names(path).1)
}

/// Whether two absolute paths are equal: they have the same names, whatever separators
/// and `.` stand between them.
pub open spec fn same_path(a: Seq<u8>, b: Seq<u8>) -> bool {
    path_names(a) == path_names(b)
}

/// Why a path was refused.
#[derive(Clone, Copy, Debug, PartialEq, Eq, Structural)]
pub enum PathError {
    /// The path does not start at the root.
    NotAbsolute,
}

/// A path that starts at the root of the file system.
#[derive(Debug)]
pub struct AbsolutePathBuf {
    path: PathBuf,
}

impl View for AbsolutePathBuf {
    type V = Seq<u8>;

    closed spec fn view(&self) -> Seq<u8> {
        path_bytes(self.path)
    }
}

/// The paths that a list holds.
pub open spec fn path_list(paths: Seq<AbsolutePathBuf>) -> Seq<Seq<u8>> {
    Seq::new(paths.len(), |i: int| paths[i]@)
}

impl AbsolutePathBuf {
    #[verifier::type_invariant]
    spec fn starts_at_root(&self) -> bool {
        is_absolute_path(path_bytes(self.path))
    }

    /// Takes a path that is absolute; refuses any other.
    pub fn from_absolute_path(path: PathBuf) -> (result: Result<AbsolutePathBuf, PathError>)
        ensures
            match result {
                Ok(p) => is_absolute_path(path_bytes(path)) && p@ == path_bytes(path),
                Err(e) => !is_absolute_path(path_bytes(path)) && e == PathError::NotAbsolute,
            },
    {
        let bytes = bytes_of(&path);
        if bytes.len() > 0 && bytes[0] == SEPARATOR {
            Ok(AbsolutePathBuf { path })
        } else {
            Err(PathError::NotAbsolute)
        }
    }

    /// The path as the system writes it.
    pub fn as_path(&self) -> (path: &PathBuf)
        ensures
            path_bytes(*path) == self@,
            is_absolute_path(self@),
    {
        proof {
            use_type_invariant(self);
        }
        &self.path
    }

    /// A copy of the path as the system writes it.
    pub fn to_path_buf(&self) -> (path: PathBuf)
        ensures
            path_bytes(path) == self@,
            is_absolute_path(self@),
    {
        proof {
            use_type_invariant(self);
        }
        copy_path(&self.path)
    }

    /// Whether this path equals another.
    pub fn same_as(&self, other: &AbsolutePathBuf) -> (result: bool)
        ensures
            result == same_path(self@, other@),
    {
        let a = names_of(&bytes_of(&self.path));
        let b = names_of(&bytes_of(&other.path));
        same_names(&a, &b)
    }
}

impl PartialEq for AbsolutePathBuf {
    fn eq(&self, other: &Self) -> (result: bool) {
        self.same_as(other)
    }
}

impl vstd::std_specs::cmp::PartialEqSpecImpl for AbsolutePathBuf {
    open spec fn obeys_eq_spec() -> bool {
        true
    }

    open spec fn eq_spec(&self, other: &Self) -> bool {
        same_path(self@, other@)
    }
}

/// The names that a list of byte lists holds.
spec fn byte_lists(names: Seq<Vec<u8>>) -> Seq<Seq<u8>> {
    Seq::new(names.len(), |i: int| names[i]@)
}

/// Adds a name that is complete.
fn finish_name(names: &mut Vec<Vec<u8>>, name: Vec<u8>)
    ensures
        byte_lists(final(names)@) == with_name(byte_lists(old(names)@), name@),
{
    if name.len() == 0 || (name.len() == 1 && name[0] == DOT) {
        assert(name@.len() == 1 ==> name@ =~= seq![DOT]);
    } else {
        assert(name@.len() == 1 ==> name@[0] != DOT);
        assert(name@ != seq![DOT]);
        let ghost before = names@;
        names.push(name);
        assert(byte_lists(names@) =~= byte_lists(before).push(name@));
    }
}

/// The names on a path, from the root down.
fn names_of(path: &Vec<u8>) -> (names: Vec<Vec<u8>>)
    ensures
        byte_lists(names@) == path_names(path@),
{
    let mut names: Vec<Vec<u8>> = Vec::new();
    let mut name: Vec<u8> = Vec::new();
    let len: usize = path.len();
    let mut i: usize = 0;
    assert(byte_lists(names@) =~= Seq::empty());
    assert(path@.take(0).len() == 0);
    while i < len
        invariant
            i <= len == path@.len(),
            (byte_lists(names@), name@) == scanned_names(path@.take(i as int)),
        decreases len - i,
    {
        let c: u8 = path[i];
        let ghost now = path@.take(i + 1);
        assert(now.drop_last() =~= path@.take(i as int));
        if c == SEPARATOR {
            finish_name(&mut names, name);
            name = Vec::new();
        } else {
            name.push(c);
        }
        i = i + 1;
    }
    assert(path@.take(len as int) =~= path@);
    finish_name(&mut names, name);
    names
}

fn same_name(a: &Vec<u8>, b: &Vec<u8>) -> (result: bool)
    ensures
        result == (a@ == b@),
{
    if a.len() != b.len() {
        return false;
    }
    let mut i: usize = 0;
    while i < a.len()
        invariant
            i <= a@.len() == b@.len(),
            forall|j: int| 0 <= j < i ==> a@[j] == b@[j],
        decreases a@.len() - i,
    {
        if a[i] != b[i] {
            return false;
        }
        i = i + 1;
    }
    assert(a@ =~= b@);
    true
}

fn same_names(a: &Vec<Vec<u8>>, b: &Vec<Vec<u8>>) -> (result: bool)
    ensures
        result == (byte_lists(a@) == byte_lists(b@)),
{
    if a.len() != b.len() {
        assert(byte_lists(a@).len() != byte_lists(b@).len());
        return false;
    }
    let mut i: usize = 0;
    while i < a.len()
        invariant
            i <= a@.len() == b@.len(),
            forall|j: int| 0 <= j < i ==> (#[trigger] a@[j])@ == b@[j]@,
        decreases a@.len() - i,
    {
        if !same_name(&a[i], &b[i]) {
            assert(byte_lists(a@)[i as int] != byte_lists(b@)[i as int]);
            return false;
        }
        i = i + 1;
    }
    assert(byte_lists(a@) =~= byte_lists(b@));
    true
}

/// Whether `resolved` is what the file system may answer when it is asked about the path
/// `value`: an outcome of `canonicalize_path` on that very path.
pub closed spec fn may_answer(value: Seq<u8>, resolved: Option<Seq<u8>>) -> bool {
    exists|path: &PathBuf, answer: Option<PathBuf>|
        path_bytes(*path) == value && opt_path(answer) == resolved && #[trigger] call_ensures(
            canonicalize_path,
            (path,),
            answer,
        )
}

/// Asks the file system what a path resolves to.
pub fn resolve_path(path: &PathBuf) -> (resolved: Option<PathBuf>)
    ensures
        may_answer(path_bytes(*path), opt_path(resolved)),
{
    let resolved = canonicalize_path(path);
    assert(call_ensures(canonicalize_path, (path,), resolved));
    resolved
}

/// The names on a path are those on its two sides of any separator, one after the other.
pub proof fn law_names_split_at_a_separator(before: Seq<u8>, behind: Seq<u8>)
    ensures
        path_names(before + seq![47u8] + behind) == path_names(before) + path_names(behind),
{
    lemma_scanned_behind(before, behind);
    let (names, name) = scanned_names(behind);
    if name.len() == 0 || name == seq![DOT] {
        assert(path_names(before) + names =~= path_names(before) + path_names(behind));
    } else {
        assert((path_names(before) + names).push(name) =~= path_names(before) + names.push(name));
    }
}

proof fn lemma_scanned_behind(before: Seq<u8>, behind: Seq<u8>)
    ensures
        scanned_names(before + seq![47u8] + behind) == (
            path_names(before) + scanned_names(behind).0,
            scanned_names(behind).1,
        ),
    decreases behind.len(),
{
    let path = before + seq![47u8] + behind;
    if behind.len() == 0 {
        assert(path =~= before.push(47u8));
        assert(path.drop_last() =~= before);
        assert(path_names(before) + Seq::<Seq<u8>>::empty() =~= path_names(before));
    } else {
        assert(path.drop_last() =~= before + seq![47u8] + behind.drop_last());
        assert(path.last() == behind.last());
        lemma_scanned_behind(before, behind.drop_last());
        let (names, name) = scanned_names(behind.drop_last());
        if behind.last() == SEPARATOR && !(name.len() == 0 || name == seq![DOT]) {
            assert((path_names(before) + names).push(name) =~= path_names(before) + names.push(
                name,
            ));
        }
    }
}

/// Between separators stands one name, which is all that stands there; nothing, and a single
/// dot, are no names.
pub proof fn law_what_stands_between_separators_is_a_name(name: Seq<u8>)
    requires
        forall|i: int| 0 <= i < name.len() ==> #[trigger] name[i] != 47u8,
    ensures
        name.len() > 0 && name != seq![46u8] ==> path_names(name) == seq![name],
        name.len() == 0 || name == seq![46u8] ==> path_names(name).len() == 0,
{
    lemma_scanned_name(name);
}

proof fn lemma_scanned_name(name: Seq<u8>)
    requires
        forall|i: int| 0 <= i < name.len() ==> #[trigger] name[i] != 47u8,
    ensures
        scanned_names(name) == (Seq::<Seq<u8>>::empty(), name),
    decreases name.len(),
{
    if name.len() > 0 {
        assert(name.last() != 47u8);
        lemma_scanned_name(name.drop_last());
        assert(name.drop_last().push(name.last()) =~= name);
    }
}

/// A path is absolute where it begins with a separator, and paths are equal where the names on
/// them are.
pub proof fn law_absolute_and_equal_paths(a: Seq<u8>, b: Seq<u8>)
    ensures
        is_absolute_path(a) <==> a.len() > 0 && a[0] == 47u8,
        same_path(a, b) <==> path_names(a) == path_names(b),
{
}

/// A list of paths is seen path by path, in its order.
pub proof fn law_a_list_of_paths_is_seen_path_by_path(paths: Seq<AbsolutePathBuf>, i: int)
    requires
        0 <= i < paths.len(),
    ensures
        path_list(paths).len() == paths.len(),
        path_list(paths)[i] == paths[i]@,
{
}

/// An optional path is there exactly where its bytes are.
pub proof fn law_what_an_optional_path_holds(path: Option<PathBuf>)
    ensures
        path is Some <==> opt_path(path) is Some,
        path is Some ==> opt_path(path)->0 == path_bytes(path->0),
{
}

} // verus!
