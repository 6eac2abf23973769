//! Decimal numerals as byte strings.
//!
//! Output artifacts are named by a number; the library formats and
//! parses those numerals itself so that the numbering contract can be
//! stated end to end.

use vstd::prelude::*;

verus! {

/// Whether `b` is a decimal digit.
pub open spec fn is_digit(b: u8) -> bool {
    48 <= b <= 57
}

/// Whether every byte of `s` is a decimal digit and there is at least
/// one.
pub open spec fn is_numeral(s: Seq<u8>) -> bool {
    s.len() > 0 && forall|i: int| 0 <= i < s.len() ==> is_digit(#[trigger] s[i])
}

/// The value of a digit string, most significant digit first.
pub open spec fn digits_val(s: Seq<u8>) -> nat
    decreases s.len(),
{
    if s.len() == 0 {
        0
    } else {
        digits_val(s.drop_last()) * 10 + ((s.last() - 48) as nat)
    }
}

/// The canonical decimal numeral of `n`: no leading zeros.
pub open spec fn dec_of(n: nat) -> Seq<u8>
    decreases n,
{
    if n < 10 {
        seq![(48 + n) as u8]
    } else {
        dec_of(n / 10) + seq![(48 + n % 10) as u8]
    }
}

/// The canonical numeral is made of digits and evaluates back to `n`.
pub proof fn lemma_dec_of_val(n: nat)
    ensures
        is_numeral(dec_of(n)),
        digits_val(dec_of(n)) == n,
    decreases n,
{
    if n < 10 {
        let d = dec_of(n);
        assert(d.drop_last() =~= Seq::<u8>::empty());
        assert(digits_val(d) == digits_val(d.drop_last()) * 10 + ((d.last() - 48) as nat));
    } else {
        lemma_dec_of_val(n / 10);
        let d = dec_of(n);
        assert(d.drop_last() =~= dec_of(n / 10));
        assert(digits_val(d) == (n / 10) * 10 + n % 10);
        assert((n / 10) * 10 + n % 10 == n) by (nonlinear_arith);
    }
}

/// Formats `n` as its canonical decimal numeral.
pub fn format_u64(n: u64) -> (r: Vec<u8>)
    ensures
        r@ == dec_of(n as nat),
    decreases n,
{
    if n < 10 {
        let mut v: Vec<u8> = Vec::new();
        v.push(48 + n as u8);
        proof {
            assert(v@ =~= dec_of(n as nat));
        }
        v
    } else {
        let mut v = format_u64(n / 10);
        v.push(48 + (n % 10) as u8);
        proof {
            assert(v@ =~= dec_of(n as nat));
        }
        v
    }
}

/// A digit string's value only grows as more digits follow.
proof fn lemma_digits_val_prefix(s: Seq<u8>, i: int)
    requires
        0 <= i <= s.len(),
        forall|j: int| 0 <= j < s.len() ==> is_digit(#[trigger] s[j]),
    ensures
        digits_val(s.subrange(0, i)) <= digits_val(s),
    decreases s.len() - i,
{
    if i < s.len() {
        lemma_digits_val_prefix(s, i + 1);
        let p = s.subrange(0, i);
        let q = s.subrange(0, i + 1);
        assert(q.drop_last() =~= p);
        assert(digits_val(q) == digits_val(p) * 10 + (q.last() - 48));
        assert(digits_val(p) <= digits_val(p) * 10) by (nonlinear_arith);
    } else {
        assert(s.subrange(0, i) =~= s);
    }
}

/// Parses a decimal numeral.  Succeeds exactly on non-empty
/// all-digit strings whose value fits in a `u64`.
pub fn parse_u64(s: &Vec<u8>) -> (r: Option<u64>)
    ensures
        match r {
            Some(v) => is_numeral(s@) && digits_val(s@) == v,
            None => !is_numeral(s@) || digits_val(s@) > u64::MAX,
        },
{
    if s.len() == 0 {
        return None;
    }
    let mut val: u64 = 0;
    let mut i: usize = 0;
    while i < s.len()
        invariant
            0 <= i <= s@.len(),
            forall|j: int| 0 <= j < i ==> is_digit(#[trigger] s@[j]),
            val == digits_val(s@.subrange(0, i as int)),
        decreases s@.len() - i,
    {
        let b = s[i];
        if b < 48 || b > 57 {
            return None;
        }
        let step = match val.checked_mul(10) {
            Some(m) => m.checked_add((b - 48) as u64),
            None => None,
        };
        match step {
            None => {
                proof {
                    if is_numeral(s@) {
                        let q = s@.subrange(0, i + 1);
                        assert(q.drop_last() =~= s@.subrange(0, i as int));
                        assert(digits_val(q) == val * 10 + (b - 48));
                        lemma_digits_val_prefix(s@, i + 1);
                    }
                }
                return None;
            },
            Some(next) => {
                proof {
                    let q = s@.subrange(0, i + 1);
                    assert(q.drop_last() =~= s@.subrange(0, i as int));
                }
                val = next;
            },
        }
        i += 1;
    }
    proof {
        assert(s@.subrange(0, s@.len() as int) =~= s@);
    }
    Some(val)
}

} // verus!
