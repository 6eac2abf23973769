//! Small executable helpers over byte strings.
//!
//! Paths and command-line tokens are modelled as byte strings
//! (`Vec<u8>`), the plain form in which the rest of the library states
//! its contracts.  ASCII string literals enter the byte world through
//! [`tok`], whose result is pinned to [`ascii_seq`] of the literal's
//! characters.

use vstd::prelude::*;
use vstd::slice::slice_subrange;
use vstd::slice::slice_to_vec;
use vstd::string::StrSliceExecFns;
use vstd::string::StringSliceAdditionalSpecFns;

verus! {

/// The characters of an ASCII string, one byte per character.
pub open spec fn ascii_seq(s: Seq<char>) -> Seq<u8> {
    Seq::new(s.len(), |i: int| s[i] as u8)
}

/// The bytes of an ASCII string slice.
pub fn tok(s: &str) -> (r: Vec<u8>)
    requires
        vstd::string::is_ascii(s),
    ensures
        r@ == ascii_seq(s@),
{
    proof {
        vstd::string::is_ascii_spec_bytes(s);
        assert(ascii_seq(s@) =~= s.spec_bytes());
    }
    s.as_bytes_vec()
}

/// True when `s` ends with `suffix`.
pub open spec fn ends_with(s: Seq<u8>, suffix: Seq<u8>) -> bool {
    suffix.len() <= s.len() && s.subrange(s.len() - suffix.len(), s.len() as int) == suffix
}

/// Byte-for-byte equality of two byte strings.
pub fn bytes_eq(a: &Vec<u8>, b: &Vec<u8>) -> (r: bool)
    ensures
        r == (a@ == b@),
{
    let r = a == b;
    proof {
        if r {
            assert(a@ =~= b@);
        } else {
            assert(a@ != b@);
        }
    }
    r
}

/// Whether `s` ends with `suffix`, byte for byte.
pub fn ends_with_bytes(s: &Vec<u8>, suffix: &Vec<u8>) -> (r: bool)
    ensures
        r == ends_with(s@, suffix@),
{
    if suffix.len() > s.len() {
        return false;
    }
    let off = s.len() - suffix.len();
    let mut i: usize = 0;
    while i < suffix.len()
        invariant
            0 <= i <= suffix@.len(),
            suffix@.len() <= s@.len(),
            off == s@.len() - suffix@.len(),
            s@.len() <= usize::MAX,
            forall|j: int| 0 <= j < i ==> s@[off + j] == suffix@[j],
        decreases suffix@.len() - i,
    {
        proof {
            assert((off as int) + (i as int) < s@.len());
        }
        if s[off + i] != suffix[i] {
            proof {
                assert(s@.subrange(s@.len() - suffix@.len(), s@.len() as int)[i as int]
                    == s@[off + i]);
            }
            return false;
        }
        i += 1;
    }
    proof {
        assert(s@.subrange(s@.len() - suffix@.len(), s@.len() as int) =~= suffix@);
    }
    true
}

/// Appends `b` to `a` in place.
pub fn push_bytes(a: &mut Vec<u8>, b: &Vec<u8>)
    ensures
        final(a)@ == old(a)@ + b@,
{
    a.extend_from_slice(b.as_slice());
    proof {
        assert(final(a)@ =~= old(a)@ + b@);
    }
}

/// `a` followed by `b`.
pub fn concat_bytes(a: &Vec<u8>, b: &Vec<u8>) -> (r: Vec<u8>)
    ensures
        r@ == a@ + b@,
{
    let mut r = a.clone();
    push_bytes(&mut r, b);
    r
}

/// The bytes of `s` from `from` (inclusive) to `to` (exclusive).
pub fn subrange_bytes(s: &Vec<u8>, from: usize, to: usize) -> (r: Vec<u8>)
    requires
        0 <= from <= to <= s@.len(),
    ensures
        r@ == s@.subrange(from as int, to as int),
{
    slice_to_vec(slice_subrange(s.as_slice(), from, to))
}

/// Index of the last occurrence of `b` in `s`, scanning from the end.
pub open spec fn rfind(s: Seq<u8>, b: u8) -> Option<int>
    decreases s.len(),
{
    if s.len() == 0 {
        None
    } else if s[s.len() - 1] == b {
        Some(s.len() - 1)
    } else {
        rfind(s.drop_last(), b)
    }
}

/// `rfind` returns the index of the last occurrence, or `None` when the
/// byte does not occur at all.
pub proof fn lemma_rfind(s: Seq<u8>, b: u8)
    ensures
        match rfind(s, b) {
            Some(i) => 0 <= i < s.len() && s[i] == b && forall|j: int|
                i < j < s.len() ==> s[j] != b,
            None => forall|j: int| 0 <= j < s.len() ==> s[j] != b,
        },
    decreases s.len(),
{
    if s.len() > 0 && s[s.len() - 1] != b {
        lemma_rfind(s.drop_last(), b);
        assert forall|j: int| 0 <= j < s.len() - 1 implies s.drop_last()[j] == s[j] by {}
    }
}

/// Index of the last occurrence of `b` in `s`, if any.
pub fn rfind_bytes(s: &Vec<u8>, b: u8) -> (r: Option<usize>)
    ensures
        match r {
            Some(i) => rfind(s@, b) == Some(i as int),
            None => rfind(s@, b) is None,
        },
{
    let mut i: usize = s.len();
    proof {
        assert(s@.subrange(0, s@.len() as int) =~= s@);
    }
    while i > 0
        invariant
            0 <= i <= s@.len(),
            rfind(s@, b) == rfind(s@.subrange(0, i as int), b),
        decreases i,
    {
        proof {
            if s@[i - 1] != b {
                assert(s@.subrange(0, i as int).drop_last() =~= s@.subrange(0, (i - 1) as int));
                assert(rfind(s@.subrange(0, i as int), b)
                    == rfind(s@.subrange(0, (i - 1) as int), b));
            }
        }
        if s[i - 1] == b {
            proof {
                assert(rfind(s@.subrange(0, i as int), b) == Some((i - 1) as int));
            }
            return Some(i - 1);
        }
        i -= 1;
    }
    proof {
        assert(s@.subrange(0, 0) =~= Seq::<u8>::empty());
    }
    None
}

/// Whether the list `haystack` contains `x` as an element.
pub fn contains_bytes(haystack: &Vec<Vec<u8>>, x: &Vec<u8>) -> (r: bool)
    ensures
        r == haystack.deep_view().contains(x@),
{
    let mut i: usize = 0;
    while i < haystack.len()
        invariant
            0 <= i <= haystack@.len(),
            haystack.deep_view().len() == haystack@.len(),
            forall|j: int| 0 <= j < haystack@.len() ==> haystack.deep_view()[j] == haystack@[j]@,
            forall|j: int| 0 <= j < i ==> haystack@[j]@ != x@,
        decreases haystack@.len() - i,
    {
        if bytes_eq(&haystack[i], x) {
            proof {
                assert(haystack.deep_view()[i as int] == x@);
            }
            return true;
        }
        i += 1;
    }
    proof {
        assert(forall|j: int| 0 <= j < haystack.deep_view().len()
            ==> haystack.deep_view()[j] != x@);
    }
    false
}

/// The deep view of a list of byte strings is elementwise the view
/// of each byte string.
pub proof fn lemma_deep_view_elems(v: &Vec<Vec<u8>>)
    ensures
        v.deep_view().len() == v@.len(),
        forall|i: int| 0 <= i < v@.len() ==> v.deep_view()[i] == v@[i]@,
{
    assert forall|i: int| 0 <= i < v@.len() implies v.deep_view()[i] == v@[i]@ by {
        assert(v.deep_view()[i] =~= v@[i]@);
    }
}

} // verus!
