//! A byte-string model of file system paths.
//!
//! A path is a byte string whose segments are separated by `/`.  The
//! functions here mirror the path questions the pipelines ask: the
//! file name of a path, its extension, and joining a directory with a
//! child name.

use vstd::prelude::*;
use crate::bytesutil::ascii_seq;
use crate::bytesutil::ends_with;
use crate::bytesutil::ends_with_bytes;
use crate::bytesutil::lemma_rfind;
use crate::bytesutil::push_bytes;
use crate::bytesutil::rfind;
use crate::bytesutil::rfind_bytes;
use crate::bytesutil::subrange_bytes;
use crate::bytesutil::tok;

verus! {

/// The path separator.
pub open spec fn slash() -> u8 {
    47
}

/// The extension separator.
pub open spec fn dot() -> u8 {
    46
}

/// The file name of a path: everything after the last `/`, or the
/// whole path when it has no `/`.
pub open spec fn file_name_spec(p: Seq<u8>) -> Seq<u8> {
    match rfind(p, slash()) {
        None => p,
        Some(i) => p.subrange(i + 1, p.len() as int),
    }
}

/// The file name of `p`.
pub fn file_name(p: &Vec<u8>) -> (r: Vec<u8>)
    ensures
        r@ == file_name_spec(p@),
{
    proof {
        lemma_rfind(p@, slash());
    }
    let n = p.len();
    match rfind_bytes(p, 47) {
        None => p.clone(),
        Some(i) => {
            proof {
                assert(rfind(p@, slash()) == Some(i as int));
                assert(i < n);
            }
            subrange_bytes(p, i + 1, n)
        },
    }
}

/// `dir` and `child` joined with a separator.
pub open spec fn join_spec(dir: Seq<u8>, child: Seq<u8>) -> Seq<u8> {
    dir + seq![slash()] + child
}

/// Joins a directory path with a child name.
pub fn join_path(dir: &Vec<u8>, child: &Vec<u8>) -> (r: Vec<u8>)
    ensures
        r@ == join_spec(dir@, child@),
{
    let mut r = dir.clone();
    r.push(47);
    proof {
        assert(r@ =~= dir@ + seq![slash()]);
    }
    push_bytes(&mut r, child);
    r
}

/// Joining the same directory with different child names gives
/// different paths, and the child is recoverable as the file name
/// whenever it contains no separator.
pub proof fn lemma_join_file_name(dir: Seq<u8>, child: Seq<u8>)
    requires
        forall|j: int| 0 <= j < child.len() ==> child[j] != slash(),
    ensures
        file_name_spec(join_spec(dir, child)) == child,
{
    let p = join_spec(dir, child);
    assert(p[dir.len() as int] == slash());
    assert forall|j: int| dir.len() < j < p.len() implies p[j] != slash() by {
        assert(p[j] == child[j - dir.len() - 1]);
    }
    lemma_rfind(p, slash());
    match rfind(p, slash()) {
        None => {
            assert(p[dir.len() as int] == slash());
        },
        Some(i) => {
            assert(i == dir.len() as int);
            assert(p.subrange(i + 1, p.len() as int) =~= child);
        },
    }
}

/// Joining is injective in the child name: two children of the same
/// directory coincide only when their names do.
pub proof fn lemma_join_injective(dir: Seq<u8>, a: Seq<u8>, b: Seq<u8>)
    requires
        join_spec(dir, a) == join_spec(dir, b),
    ensures
        a == b,
{
    assert(join_spec(dir, a).len() == dir.len() + 1 + a.len());
    assert(join_spec(dir, b).len() == dir.len() + 1 + b.len());
    assert forall|k: int| 0 <= k < a.len() implies a[k] == b[k] by {
        assert(join_spec(dir, a)[dir.len() + 1 + k] == a[k]);
        assert(join_spec(dir, b)[dir.len() + 1 + k] == b[k]);
    }
    assert(a =~= b);
}

/// Whether the file name of `p` carries the (dot-prefixed) extension
/// `dotext`: the name ends with it and has at least one byte before
/// it, the convention under which a bare `.apk` is a hidden file with
/// no extension.
pub open spec fn has_dot_ext(p: Seq<u8>, dotext: Seq<u8>) -> bool {
    ends_with(file_name_spec(p), dotext) && file_name_spec(p).len() > dotext.len()
}

/// Whether the file name of `p` carries extension `dotext` (which
/// includes its leading dot).
pub fn has_dot_ext_bytes(p: &Vec<u8>, dotext: &Vec<u8>) -> (r: bool)
    ensures
        r == has_dot_ext(p@, dotext@),
{
    let name = file_name(p);
    ends_with_bytes(&name, dotext) && name.len() > dotext.len()
}

/// The `.apk` extension, with its leading dot.
pub open spec fn apk_dot_ext() -> Seq<u8> {
    ascii_seq(".apk"@)
}

/// The `.dex` extension, with its leading dot.
pub open spec fn dex_dot_ext() -> Seq<u8> {
    ascii_seq(".dex"@)
}

/// Whether `p` names an APK file.
pub open spec fn is_apk_path(p: Seq<u8>) -> bool {
    has_dot_ext(p, apk_dot_ext())
}

/// Whether `p` names a dex file.
pub open spec fn is_dex_path(p: Seq<u8>) -> bool {
    has_dot_ext(p, dex_dot_ext())
}

/// Whether `p` names an APK file.
pub fn is_apk_path_bytes(p: &Vec<u8>) -> (r: bool)
    ensures
        r == is_apk_path(p@),
{
    proof {
        reveal_strlit(".apk");
    }
    let ext = tok(".apk");
    has_dot_ext_bytes(p, &ext)
}

/// Whether `p` names a dex file.
pub fn is_dex_path_bytes(p: &Vec<u8>) -> (r: bool)
    ensures
        r == is_dex_path(p@),
{
    proof {
        reveal_strlit(".dex");
    }
    let ext = tok(".dex");
    has_dot_ext_bytes(p, &ext)
}

/// `p` with its `.apk` extension removed.
pub open spec fn strip_apk_ext(p: Seq<u8>) -> Seq<u8> {
    p.subrange(0, p.len() - apk_dot_ext().len())
}

/// Removes the `.apk` extension from a path that has one.
pub fn strip_apk_ext_bytes(p: &Vec<u8>) -> (r: Vec<u8>)
    requires
        is_apk_path(p@),
    ensures
        r@ == strip_apk_ext(p@),
{
    proof {
        reveal_strlit(".apk");
        lemma_rfind(p@, slash());
        assert(file_name_spec(p@).len() <= p@.len());
    }
    subrange_bytes(p, 0, p.len() - 4)
}

/// The stem of a file name: everything before the last `.`, except
/// that a name whose only `.` is its first byte is all stem.
pub open spec fn stem_spec(name: Seq<u8>) -> Seq<u8> {
    match rfind(name, dot()) {
        None => name,
        Some(i) => if i == 0 {
            name
        } else {
            name.subrange(0, i)
        },
    }
}

/// The stem of a file name.
pub fn stem(name: &Vec<u8>) -> (r: Vec<u8>)
    ensures
        r@ == stem_spec(name@),
{
    proof {
        lemma_rfind(name@, dot());
    }
    match rfind_bytes(name, 46) {
        None => name.clone(),
        Some(i) => {
            if i == 0 {
                name.clone()
            } else {
                subrange_bytes(name, 0, i)
            }
        },
    }
}

} // verus!
