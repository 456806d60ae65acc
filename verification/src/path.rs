//! Repository paths: normalized, forward-slash, repository-relative.
//!
//! A path is a UTF-8 string made of components separated by `/`. The empty
//! string is the repository root. Every component of a non-empty path is
//! non-empty, is neither `.` nor `..`, and holds none of the bytes NUL,
//! SOH, LF and CR. A path therefore never starts or ends with a slash and
//! never holds two slashes in a row.

use vstd::prelude::*;
use vstd::utf8::*;
use crate::split::{lemma_run_len_bounds, lemma_split_covers, piece_end, run_len, split};

verus! {

/// The component separator, `/`.
pub const SLASH: u8 = 0x2f;

/// The byte `.`.
pub const DOT: u8 = 0x2e;

/// Why a byte string is not a repository path.
#[derive(Clone, Copy, Debug, PartialEq, Eq, Structural)]
pub enum PathError {
    /// The bytes are not UTF-8.
    InvalidUtf8,
    /// The last byte is a slash.
    TrailingSlash,
    /// A component is empty: a leading slash or two slashes in a row.
    EmptyComponent,
    /// A component is `.`.
    CurrentDirectory,
    /// A component is `..`.
    ParentDirectory,
    /// A component holds this byte, which no path may hold.
    InvalidByte(u8),
}

/// The bytes that no component may hold: NUL, SOH, LF, CR.
pub open spec fn is_forbidden_byte(b: u8) -> bool {
    b == 0 || b == 1 || b == 10 || b == 13
}

/// Whether `i` is the position of the first forbidden byte of `c`.
pub open spec fn is_first_forbidden(c: Seq<u8>, i: int) -> bool {
    &&& 0 <= i < c.len()
    &&& is_forbidden_byte(c[i])
    &&& forall|j: int| 0 <= j < i ==> !is_forbidden_byte(c[j])
}

/// What is wrong with one component, if anything.
pub open spec fn component_defect(c: Seq<u8>) -> Option<PathError> {
    if c.len() == 0 {
        Some(PathError::EmptyComponent)
    } else if c =~= seq![DOT] {
        Some(PathError::CurrentDirectory)
    } else if c =~= seq![DOT, DOT] {
        Some(PathError::ParentDirectory)
    } else if exists|i: int| is_first_forbidden(c, i) {
        Some(PathError::InvalidByte(c[choose|i: int| is_first_forbidden(c, i)]))
    } else {
        None
    }
}

/// The defect of the first defective component, if there is one.
pub open spec fn first_defect(components: Seq<Seq<u8>>) -> Option<PathError>
    decreases components.len(),
{
    if components.len() == 0 {
        None
    } else {
        match component_defect(components[0]) {
            Some(e) => Some(e),
            None => first_defect(components.skip(1)),
        }
    }
}

/// What is wrong with `bytes` as a repository path, if anything. Defects
/// are looked for in this order: encoding, trailing slash, then the
/// components from left to right.
pub open spec fn path_defect(bytes: Seq<u8>) -> Option<PathError> {
    if !valid_utf8(bytes) {
        Some(PathError::InvalidUtf8)
    } else if bytes.len() == 0 {
        None
    } else if bytes.last() == SLASH {
        Some(PathError::TrailingSlash)
    } else {
        first_defect(split(bytes, SLASH))
    }
}

/// Whether `bytes` is a repository path.
pub open spec fn is_repo_path(bytes: Seq<u8>) -> bool {
    path_defect(bytes) is None
}

/// An owned repository path.
#[derive(Debug, PartialEq, Eq, PartialOrd, Ord, Hash)]
pub struct RepoPathBuf {
    text: String,
}

impl View for RepoPathBuf {
    type V = Seq<u8>;

    /// The bytes of the path.
    closed spec fn view(&self) -> Seq<u8> {
        encode_utf8(self.text@)
    }
}

/// The first component of a sequence decides, or else the rest does.
proof fn lemma_first_defect_unfold(c: Seq<u8>, rest: Seq<Seq<u8>>)
    ensures
        first_defect(seq![c] + rest) == match component_defect(c) {
            Some(e) => Some(e),
            None => first_defect(rest),
        },
{
    let all = seq![c] + rest;
    assert(all[0] == c);
    assert(all.skip(1) =~= rest);
}

/// Looks for the defect of the component `bytes[start..end]`.
fn check_component(bytes: &[u8], start: usize, end: usize) -> (defect: Option<PathError>)
    requires
        start <= end <= bytes.len(),
    ensures
        defect == component_defect(bytes@.subrange(start as int, end as int)),
{
    let ghost c = bytes@.subrange(start as int, end as int);
    if end == start {
        return Some(PathError::EmptyComponent);
    }
    if end - start == 1 && bytes[start] == DOT {
        assert(c =~= seq![DOT]);
        return Some(PathError::CurrentDirectory);
    }
    if end - start == 2 && bytes[start] == DOT && bytes[start + 1] == DOT {
        assert(c =~= seq![DOT, DOT]);
        return Some(PathError::ParentDirectory);
    }
    assert(!(c =~= seq![DOT])) by {
        if c =~= seq![DOT] {
            assert(c.len() == 1 && c[0] == DOT);
        }
    }
    assert(!(c =~= seq![DOT, DOT])) by {
        if c =~= seq![DOT, DOT] {
            assert(c.len() == 2 && c[0] == DOT && c[1] == DOT);
        }
    }
    let mut i: usize = start;
    while i < end
        invariant
            start <= i <= end <= bytes.len(),
            c == bytes@.subrange(start as int, end as int),
            forall|j: int| 0 <= j < i - start ==> !is_forbidden_byte(c[j]),
        decreases end - i,
    {
        let b: u8 = bytes[i];
        if b == 0 || b == 1 || b == 10 || b == 13 {
            proof {
                let at = i - start;
                assert(c[at] == b);
                assert(is_first_forbidden(c, at));
                let chosen = choose|k: int| is_first_forbidden(c, k);
                assert(chosen == at);
            }
            return Some(PathError::InvalidByte(b));
        }
        i += 1;
    }
    assert(component_defect(c) is None) by {
        if exists|k: int| is_first_forbidden(c, k) {
            let k = choose|k: int| is_first_forbidden(c, k);
            assert(!is_forbidden_byte(c[k]));
        }
    }
    None
}

/// Looks for the defect of well-formed UTF-8 as a repository path.
fn find_defect(bytes: &[u8]) -> (defect: Option<PathError>)
    requires
        valid_utf8(bytes@),
    ensures
        defect == path_defect(bytes@),
{
    let n: usize = bytes.len();
    if n == 0 {
        return None;
    }
    if bytes[n - 1] == SLASH {
        return Some(PathError::TrailingSlash);
    }
    let mut start: usize = 0;
    assert(bytes@.skip(0) =~= bytes@);
    loop
        invariant
            start <= n,
            n == bytes.len(),
            first_defect(split(bytes@, SLASH)) == first_defect(
                split(bytes@.skip(start as int), SLASH),
            ),
            path_defect(bytes@) == first_defect(split(bytes@, SLASH)),
        decreases n - start,
    {
        let end: usize = piece_end(bytes, start, SLASH);
        let defect = check_component(bytes, start, end);
        proof {
            let tail = bytes@.skip(start as int);
            let piece = bytes@.subrange(start as int, end as int);
            if end < n {
                assert(tail.take(end - start) =~= piece);
                assert(tail.skip(end - start + 1) =~= bytes@.skip(end + 1));
                lemma_first_defect_unfold(piece, split(bytes@.skip(end + 1), SLASH));
            } else {
                assert(tail =~= piece);
                lemma_first_defect_unfold(piece, Seq::empty());
                assert(seq![piece] + Seq::<Seq<u8>>::empty() =~= seq![piece]);
            }
        }
        if defect.is_some() {
            return defect;
        }
        if end >= n {
            return None;
        }
        start = end + 1;
    }
}

impl RepoPathBuf {
    #[verifier::type_invariant]
    spec fn well_formed(&self) -> bool {
        is_repo_path(encode_utf8(self.text@))
    }

    /// The empty path: the root of the repository.
    pub fn new() -> (p: RepoPathBuf)
        ensures
            p@ == Seq::<u8>::empty(),
    {
        let text = String::new();
        proof {
            broadcast use encode_utf8_valid_utf8;

            reveal_with_fuel(encode_utf8, 1);
            assert(encode_utf8(text@) =~= Seq::<u8>::empty());
        }
        RepoPathBuf { text }
    }

    /// Checks that `text` is a repository path and takes it as one.
    pub fn from_string(text: String) -> (r: Result<RepoPathBuf, PathError>)
        ensures
            match r {
                Ok(p) => is_repo_path(encode_utf8(text@)) && p@ == encode_utf8(text@),
                Err(e) => path_defect(encode_utf8(text@)) == Some(e),
            },
    {
        proof {
            broadcast use encode_utf8_valid_utf8;

        }
        let defect = find_defect(text.as_str().as_bytes());
        match defect {
            Some(e) => Err(e),
            None => Ok(RepoPathBuf { text }),
        }
    }

    /// Decodes `bytes` as a repository path.
    pub fn from_utf8(bytes: Vec<u8>) -> (r: Result<RepoPathBuf, PathError>)
        ensures
            match r {
                Ok(p) => is_repo_path(bytes@) && p@ == bytes@,
                Err(e) => path_defect(bytes@) == Some(e),
            },
    {
        match String::from_utf8(bytes) {
            Ok(text) => RepoPathBuf::from_string(text),
            Err(_) => Err(PathError::InvalidUtf8),
        }
    }

    /// The bytes of the path.
    pub fn as_bytes(&self) -> (bytes: &[u8])
        ensures
            bytes@ == self@,
            is_repo_path(self@),
    {
        proof {
            use_type_invariant(self);
        }
        self.text.as_str().as_bytes()
    }

    /// The path as text.
    pub fn as_str(&self) -> (text: &str)
        ensures
            encode_utf8(text@) == self@,
    {
        self.text.as_str()
    }

    /// The number of bytes in the path.
    pub fn len(&self) -> (n: usize)
        ensures
            n == self@.len(),
    {
        self.text.as_str().as_bytes().len()
    }

    /// Whether this is the repository root.
    pub fn is_empty(&self) -> (empty: bool)
        ensures
            empty == (self@.len() == 0),
    {
        self.len() == 0
    }
}

impl Clone for RepoPathBuf {
    fn clone(&self) -> (copy: RepoPathBuf)
        ensures
            copy@ == self@,
    {
        proof {
            use_type_invariant(self);
        }
        RepoPathBuf { text: self.text.clone() }
    }
}

/// Whether no component has a defect.
pub open spec fn all_components_valid(components: Seq<Seq<u8>>) -> bool {
    forall|i: int|
        0 <= i < components.len() ==> component_defect(#[trigger] components[i]) is None
}

/// There is no first defect exactly when no component has one.
pub proof fn lemma_no_first_defect(components: Seq<Seq<u8>>)
    ensures
        first_defect(components) is None <==> all_components_valid(components),
    decreases components.len(),
{
    if components.len() > 0 {
        let rest = components.skip(1);
        lemma_no_first_defect(rest);
        if all_components_valid(components) {
            assert(component_defect(components[0]) is None);
            assert forall|i: int| 0 <= i < rest.len() implies component_defect(
                #[trigger] rest[i],
            ) is None by {
                assert(rest[i] == components[i + 1]);
            }
        }
        if first_defect(components) is None {
            assert forall|i: int| 0 <= i < components.len() implies component_defect(
                #[trigger] components[i],
            ) is None by {
                if i > 0 {
                    assert(components[i] == rest[i - 1]);
                }
            }
        }
    }
}

/// The last piece of a string that ends with the separator is empty.
pub proof fn lemma_empty_piece_after_last_separator(s: Seq<u8>, sep: u8)
    requires
        s.len() > 0,
        s.last() == sep,
    ensures
        split(s, sep).len() >= 1,
        split(s, sep).last().len() == 0,
    decreases s.len(),
{
    lemma_run_len_bounds(s, sep);
    let n = run_len(s, sep) as int;
    if n >= s.len() {
        assert(s[s.len() - 1] != sep);
    } else {
        let rest = s.skip(n + 1);
        if rest.len() > 0 {
            assert(rest.last() == s.last());
            lemma_empty_piece_after_last_separator(rest, sep);
        } else {
            assert(run_len(rest, sep) == 0);
            assert(split(rest, sep) =~= seq![rest]);
        }
        assert(split(s, sep).last() == split(rest, sep).last());
    }
}

/// A component with a forbidden byte has a first one.
proof fn lemma_first_forbidden_exists(c: Seq<u8>, j: int)
    requires
        0 <= j < c.len(),
        is_forbidden_byte(c[j]),
    ensures
        exists|i: int| is_first_forbidden(c, i),
    decreases j,
{
    if exists|earlier: int| 0 <= earlier < j && is_forbidden_byte(c[earlier]) {
        let earlier = choose|earlier: int| 0 <= earlier < j && is_forbidden_byte(c[earlier]);
        lemma_first_forbidden_exists(c, earlier);
    } else {
        assert(is_first_forbidden(c, j));
    }
}

/// A repository path holds no forbidden byte.
pub proof fn lemma_repo_path_holds_no_forbidden_byte(bytes: Seq<u8>)
    requires
        is_repo_path(bytes),
    ensures
        forall|k: int| 0 <= k < bytes.len() ==> !is_forbidden_byte(#[trigger] bytes[k]),
{
    lemma_repo_path_by_components(bytes);
    let components = split(bytes, SLASH);
    assert forall|k: int| 0 <= k < bytes.len() implies !is_forbidden_byte(
        #[trigger] bytes[k],
    ) by {
        if is_forbidden_byte(bytes[k]) {
            lemma_split_covers(bytes, SLASH, k);
            let (i, j) = choose|i: int, j: int|
                0 <= i < components.len() && 0 <= j < components[i].len()
                    && #[trigger] components[i][j] == bytes[k];
            assert(component_defect(components[i]) is None);
            lemma_first_forbidden_exists(components[i], j);
        }
    }
}

/// A byte string is a repository path exactly when it is UTF-8 and, unless
/// it is empty, none of the components between its slashes has a defect.
pub proof fn lemma_repo_path_by_components(bytes: Seq<u8>)
    ensures
        is_repo_path(bytes) <==> valid_utf8(bytes) && (bytes.len() == 0 || all_components_valid(
            split(bytes, SLASH),
        )),
{
    let components = split(bytes, SLASH);
    lemma_no_first_defect(components);
    if bytes.len() > 0 && bytes.last() == SLASH {
        lemma_empty_piece_after_last_separator(bytes, SLASH);
        assert(component_defect(components[components.len() - 1]) is Some);
    }
}

} // verus!
