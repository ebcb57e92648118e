//! Path resolution against a working directory.
//!
//! A path names a resource as `scheme:reference`. A path without a scheme is
//! relative to the working directory of the context that uses it.

use crate::bytes::{append, starts_with};
use vstd::prelude::*;

verus! {

/// The byte that ends the scheme of a path: `:`.
pub const SCHEME_SEPARATOR: u8 = 0x3a;

/// The byte that separates the segments of a path: `/`.
pub const SEGMENT_SEPARATOR: u8 = 0x2f;

/// The byte of which `.` and `..` are made.
pub const DOT: u8 = 0x2e;

/// The byte ends a segment or a scheme.
pub open spec fn is_separator(byte: u8) -> bool {
    byte == SEGMENT_SEPARATOR || byte == SCHEME_SEPARATOR
}

/// The lowest index at which `bytes` holds a scheme separator.
pub open spec fn scheme_end(bytes: Seq<u8>) -> Option<int>
    decreases bytes.len(),
{
    if bytes.len() == 0 {
        None
    } else {
        match scheme_end(bytes.drop_last()) {
            Some(i) => Some(i),
            None => if bytes.last() == SCHEME_SEPARATOR {
                Some(bytes.len() - 1)
            } else {
                None
            },
        }
    }
}

/// The highest index at which `bytes` holds a separator of either sort.
pub open spec fn last_separator(bytes: Seq<u8>) -> Option<int>
    decreases bytes.len(),
{
    if bytes.len() == 0 {
        None
    } else if is_separator(bytes.last()) {
        Some(bytes.len() - 1)
    } else {
        last_separator(bytes.drop_last())
    }
}

/// The path names its scheme, and so is fully qualified.
pub open spec fn is_qualified(path: Seq<u8>) -> bool {
    scheme_end(path) is Some
}

/// The directory above `dir`: what stands before the last separator of `dir`,
/// where a separator that ends `dir` does not count. A directory with no
/// such separator is its own parent.
pub open spec fn parent(dir: Seq<u8>) -> Seq<u8> {
    if dir.len() == 0 {
        dir
    } else {
        match last_separator(dir.drop_last()) {
            Some(i) => dir.take(i),
            None => dir,
        }
    }
}

/// The scheme of `dir` with its separator; the first byte of `dir` where it
/// names no scheme.
pub open spec fn scheme_part(dir: Seq<u8>) -> Seq<u8> {
    match scheme_end(dir) {
        Some(i) => dir.take(i + 1),
        None => if dir.len() == 0 {
            dir
        } else {
            dir.take(1)
        },
    }
}

/// `rest` below the directory `dir`: the two with exactly one `/` between
/// them where `dir` does not end in one.
pub open spec fn join(dir: Seq<u8>, rest: Seq<u8>) -> Seq<u8> {
    if dir.len() > 0 && dir.last() == SEGMENT_SEPARATOR {
        dir + rest
    } else {
        dir.push(SEGMENT_SEPARATOR) + rest
    }
}

/// The fully qualified form of `path` for a context whose working directory
/// is `dir`.
pub open spec fn canonical(dir: Seq<u8>, path: Seq<u8>) -> Seq<u8> {
    if is_qualified(path) {
        path
    } else if path == seq![DOT] {
        dir
    } else if path == seq![DOT, DOT] {
        parent(dir)
    } else if seq![DOT, SEGMENT_SEPARATOR].is_prefix_of(path) {
        join(dir, path.skip(2))
    } else if seq![DOT, DOT, SEGMENT_SEPARATOR].is_prefix_of(path) {
        join(parent(dir), path.skip(3))
    } else if seq![SEGMENT_SEPARATOR].is_prefix_of(path) {
        scheme_part(dir) + path
    } else {
        join(dir, path)
    }
}

/// `scheme_end` finds a scheme separator before which there is none, and
/// finds nothing only where there is none at all.
pub proof fn lemma_scheme_end(bytes: Seq<u8>)
    ensures
        match scheme_end(bytes) {
            Some(i) => 0 <= i < bytes.len() && bytes[i] == SCHEME_SEPARATOR && forall|j: int|
                0 <= j < i ==> #[trigger] bytes[j] != SCHEME_SEPARATOR,
            None => forall|j: int| 0 <= j < bytes.len() ==> #[trigger] bytes[j] != SCHEME_SEPARATOR,
        },
    decreases bytes.len(),
{
    if bytes.len() > 0 {
        let front = bytes.drop_last();
        lemma_scheme_end(front);
        assert forall|j: int| 0 <= j < front.len() implies front[j] == bytes[j] by {}
    }
}

/// `last_separator` finds a separator after which there is none, and finds
/// nothing only where there is none at all.
pub proof fn lemma_last_separator(bytes: Seq<u8>)
    ensures
        match last_separator(bytes) {
            Some(i) => 0 <= i < bytes.len() && is_separator(bytes[i]) && forall|j: int|
                i < j < bytes.len() ==> !is_separator(#[trigger] bytes[j]),
            None => forall|j: int| 0 <= j < bytes.len() ==> !is_separator(#[trigger] bytes[j]),
        },
    decreases bytes.len(),
{
    if bytes.len() > 0 && !is_separator(bytes.last()) {
        let front = bytes.drop_last();
        lemma_last_separator(front);
        assert forall|j: int| 0 <= j < front.len() implies front[j] == bytes[j] by {}
    }
}

/// The index of the first scheme separator in `bytes`.
pub fn find_scheme_end(bytes: &[u8]) -> (found: Option<usize>)
    ensures
        match found {
            Some(i) => i < bytes@.len() && scheme_end(bytes@) == Some(i as int),
            None => scheme_end(bytes@) is None,
        },
{
    let mut i: usize = 0;
    while i < bytes.len()
        invariant
            0 <= i <= bytes@.len(),
            forall|j: int| 0 <= j < i ==> #[trigger] bytes@[j] != SCHEME_SEPARATOR,
        decreases bytes@.len() - i,
    {
        if bytes[i] == SCHEME_SEPARATOR {
            proof {
                lemma_scheme_end(bytes@);
                assert(bytes@[i as int] == SCHEME_SEPARATOR);
            }
            return Some(i);
        }
        i += 1;
    }
    proof {
        lemma_scheme_end(bytes@);
    }
    None
}

/// The length of the parent of `dir`.
pub fn parent_len(dir: &[u8]) -> (len: usize)
    ensures
        len <= dir@.len(),
        parent(dir@) == dir@.take(len as int),
{
    if dir.len() == 0 {
        assert(dir@.take(0) =~= dir@);
        return 0;
    }
    let ghost trimmed = dir@.drop_last();
    let mut i: usize = dir.len() - 1;
    while i > 0
        invariant
            0 <= i <= trimmed.len(),
            trimmed == dir@.drop_last(),
            dir@.len() > 0,
            forall|j: int| i <= j < trimmed.len() ==> !is_separator(#[trigger] trimmed[j]),
        decreases i,
    {
        i -= 1;
        if dir[i] == SEGMENT_SEPARATOR || dir[i] == SCHEME_SEPARATOR {
            proof {
                lemma_last_separator(trimmed);
                assert(is_separator(trimmed[i as int]));
            }
            return i;
        }
    }
    proof {
        lemma_last_separator(trimmed);
        assert(dir@.take(dir@.len() as int) =~= dir@);
    }
    dir.len()
}

/// `rest` below the directory `dir`.
fn joined(dir: &[u8], rest: &[u8]) -> (path: Vec<u8>)
    ensures
        path@ == join(dir@, rest@),
{
    let mut path: Vec<u8> = Vec::new();
    append(&mut path, dir);
    assert(path@ =~= dir@);
    if !(dir.len() > 0 && dir[dir.len() - 1] == SEGMENT_SEPARATOR) {
        path.push(SEGMENT_SEPARATOR);
    }
    append(&mut path, rest);
    path
}

/// Resolve `path` against the working directory `dir`.
///
/// A path that names its scheme is returned as it is. Of the others, `.` is
/// the working directory and `..` its parent; `./rest` and `../rest` lie
/// below those two; a path that starts with `/` keeps the scheme of the
/// working directory; every other path lies below the working directory.
pub fn canonicalize(dir: &[u8], path: &[u8]) -> (canon: Vec<u8>)
    ensures
        canon@ == canonical(dir@, path@),
{
    let mut canon: Vec<u8> = Vec::new();
    if find_scheme_end(path).is_some() {
        append(&mut canon, path);
        assert(canon@ =~= path@);
        return canon;
    }
    let dot: [u8; 1] = [DOT];
    let dot_dot: [u8; 2] = [DOT, DOT];
    let dot_slash: [u8; 2] = [DOT, SEGMENT_SEPARATOR];
    let dot_dot_slash: [u8; 3] = [DOT, DOT, SEGMENT_SEPARATOR];
    let slash: [u8; 1] = [SEGMENT_SEPARATOR];
    assert(dot@ =~= seq![DOT]);
    assert(dot_dot@ =~= seq![DOT, DOT]);
    assert(dot_slash@ =~= seq![DOT, SEGMENT_SEPARATOR]);
    assert(dot_dot_slash@ =~= seq![DOT, DOT, SEGMENT_SEPARATOR]);
    assert(slash@ =~= seq![SEGMENT_SEPARATOR]);
    if path.len() == 1 && starts_with(path, dot.as_slice()) {
        assert(path@ =~= seq![DOT]);
        append(&mut canon, dir);
        assert(canon@ =~= dir@);
        canon
    } else if path.len() == 2 && starts_with(path, dot_dot.as_slice()) {
        assert(path@ =~= seq![DOT, DOT]);
        let len: usize = parent_len(dir);
        append(&mut canon, &dir[0..len]);
        assert(canon@ =~= dir@.take(len as int));
        canon
    } else if starts_with(path, dot_slash.as_slice()) {
        joined(dir, &path[2..path.len()])
    } else if starts_with(path, dot_dot_slash.as_slice()) {
        let len: usize = parent_len(dir);
        joined(&dir[0..len], &path[3..path.len()])
    } else if starts_with(path, slash.as_slice()) {
        let total: usize = dir.len();
        let len: usize = match find_scheme_end(dir) {
            Some(i) => i + 1,
            None => if total == 0 {
                0
            } else {
                1
            },
        };
        append(&mut canon, &dir[0..len]);
        append(&mut canon, path);
        assert(canon@ =~= dir@.take(len as int) + path@);
        canon
    } else {
        joined(dir, path)
    }
}

} // verus!
