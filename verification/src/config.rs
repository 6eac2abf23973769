//! The persisted project configuration.
//!
//! Unpack writes the configuration next to the project marker; pack
//! reads it back to choose its strategy.  The record is persisted as
//! a small JSON object with a fixed field order; the codec here is
//! verified in both directions, and parsing inverts emission.

use vstd::prelude::*;
use crate::bytesutil::ascii_seq;
use crate::bytesutil::push_bytes;
use crate::bytesutil::tok;

verus! {

/// The unpack-time choices, persisted at the project root and read
/// back during pack.
#[derive(Clone, Copy, Debug, PartialEq, Eq, Structural)]
pub struct RlaConfig {
    /// Disassemble only the top-level dex entries, skipping full
    /// extraction and decompilation.
    pub smali_only: bool,
    /// Initialise version control at unpack time.
    pub git_enable: bool,
    /// Decompile to readable source for reference.
    pub jadx_enable: bool,
    /// Remove a pre-existing unpack destination instead of failing.
    pub force_override: bool,
}

impl RlaConfig {
    /// Builds the configuration from the unpack command's switches,
    /// which disable rather than enable the optional features.
    pub fn from_unpack_flags(smali_only: bool, no_git: bool, no_jadx: bool, force: bool) -> (r:
        RlaConfig)
        ensures
            r.smali_only == smali_only,
            r.git_enable == !no_git,
            r.jadx_enable == !no_jadx,
            r.force_override == force,
    {
        RlaConfig {
            smali_only,
            git_enable: !no_git,
            jadx_enable: !no_jadx,
            force_override: force,
        }
    }
}

/// A JSON boolean literal.
pub open spec fn bool_json(b: bool) -> Seq<u8> {
    if b {
        ascii_seq("true"@)
    } else {
        ascii_seq("false"@)
    }
}

/// The serialized form of a configuration: a single-line JSON object
/// with the four fields in fixed order.
pub open spec fn config_json(c: RlaConfig) -> Seq<u8> {
    ascii_seq("{\"smali_only\":"@) + bool_json(c.smali_only) + ascii_seq(",\"git_enable\":"@)
        + bool_json(c.git_enable) + ascii_seq(",\"jadx_enable\":"@) + bool_json(c.jadx_enable)
        + ascii_seq(",\"force_override\":"@) + bool_json(c.force_override) + ascii_seq("}"@)
}

/// The bytes of a JSON boolean.
fn bool_json_bytes(b: bool) -> (r: Vec<u8>)
    ensures
        r@ == bool_json(b),
{
    if b {
        proof {
            reveal_strlit("true");
        }
        tok("true")
    } else {
        proof {
            reveal_strlit("false");
        }
        tok("false")
    }
}

/// Serializes a configuration.
pub fn emit_config(c: &RlaConfig) -> (r: Vec<u8>)
    ensures
        r@ == config_json(*c),
{
    proof {
        reveal_strlit("{\"smali_only\":");
        reveal_strlit(",\"git_enable\":");
        reveal_strlit(",\"jadx_enable\":");
        reveal_strlit(",\"force_override\":");
        reveal_strlit("}");
    }
    let mut r = tok("{\"smali_only\":");
    let b0 = bool_json_bytes(c.smali_only);
    push_bytes(&mut r, &b0);
    let k1 = tok(",\"git_enable\":");
    push_bytes(&mut r, &k1);
    let b1 = bool_json_bytes(c.git_enable);
    push_bytes(&mut r, &b1);
    let k2 = tok(",\"jadx_enable\":");
    push_bytes(&mut r, &k2);
    let b2 = bool_json_bytes(c.jadx_enable);
    push_bytes(&mut r, &b2);
    let k3 = tok(",\"force_override\":");
    push_bytes(&mut r, &k3);
    let b3 = bool_json_bytes(c.force_override);
    push_bytes(&mut r, &b3);
    let k4 = tok("}");
    push_bytes(&mut r, &k4);
    proof {
        assert(r@ =~= config_json(*c));
    }
    r
}

/// JSON insignificant whitespace.
pub open spec fn is_ws(b: u8) -> bool {
    b == 32 || b == 9 || b == 10 || b == 13
}

/// The first position at or after `i` that does not hold whitespace.
pub open spec fn skip_ws(s: Seq<u8>, i: int) -> int
    decreases s.len() - i,
        when 0 <= i <= s.len()
{
    if i < s.len() && is_ws(s[i]) {
        skip_ws(s, i + 1)
    } else {
        i
    }
}

/// The position just past token `t` when `s` carries it at `i`.
pub open spec fn token_at(s: Seq<u8>, i: int, t: Seq<u8>) -> Option<int> {
    if 0 <= i && i + t.len() <= s.len() && s.subrange(i, i + t.len()) == t {
        Some(i + t.len())
    } else {
        None
    }
}

/// A JSON boolean read at `i`, with the position just past it.
pub open spec fn bool_at(s: Seq<u8>, i: int) -> Option<(bool, int)> {
    match token_at(s, i, ascii_seq("true"@)) {
        Some(j) => Some((true, j)),
        None => match token_at(s, i, ascii_seq("false"@)) {
            Some(j) => Some((false, j)),
            None => None,
        },
    }
}

/// A `"key": boolean` pair read at `i`, whitespace allowed around the
/// tokens.
pub open spec fn field_at(s: Seq<u8>, i: int, key: Seq<u8>) -> Option<(bool, int)> {
    match token_at(s, skip_ws(s, i), key) {
        None => None,
        Some(j) => match token_at(s, skip_ws(s, j), ascii_seq(":"@)) {
            None => None,
            Some(k) => bool_at(s, skip_ws(s, k)),
        },
    }
}

/// A comma followed by a `"key": boolean` pair.
pub open spec fn sep_field_at(s: Seq<u8>, i: int, key: Seq<u8>) -> Option<(bool, int)> {
    match token_at(s, skip_ws(s, i), ascii_seq(","@)) {
        None => None,
        Some(j) => field_at(s, j, key),
    }
}

/// The meaning of a serialized configuration: the object's four
/// fields in fixed order, whitespace allowed between tokens, nothing
/// but whitespace around the object.
pub open spec fn parse_config_spec(s: Seq<u8>) -> Option<RlaConfig> {
    match token_at(s, skip_ws(s, 0), ascii_seq("{"@)) {
        None => None,
        Some(i1) => match field_at(s, i1, ascii_seq("\"smali_only\""@)) {
            None => None,
            Some((smali_only, i2)) => match sep_field_at(s, i2, ascii_seq("\"git_enable\""@)) {
                None => None,
                Some((git_enable, i3)) => match sep_field_at(
                    s,
                    i3,
                    ascii_seq("\"jadx_enable\""@),
                ) {
                    None => None,
                    Some((jadx_enable, i4)) => match sep_field_at(
                        s,
                        i4,
                        ascii_seq("\"force_override\""@),
                    ) {
                        None => None,
                        Some((force_override, i5)) => match token_at(
                            s,
                            skip_ws(s, i5),
                            ascii_seq("}"@),
                        ) {
                            None => None,
                            Some(i6) => if skip_ws(s, i6) == s.len() {
                                Some(
                                    RlaConfig {
                                        smali_only,
                                        git_enable,
                                        jadx_enable,
                                        force_override,
                                    },
                                )
                            } else {
                                None
                            },
                        },
                    },
                },
            },
        },
    }
}

/// Whether `b` is JSON whitespace.
fn is_ws_byte(b: u8) -> (r: bool)
    ensures
        r == is_ws(b),
{
    b == 32 || b == 9 || b == 10 || b == 13
}

/// Advances past whitespace.
fn skip_ws_exec(s: &Vec<u8>, from: usize) -> (r: usize)
    requires
        from as int <= s@.len(),
    ensures
        r as int == skip_ws(s@, from as int),
        from <= r,
        r as int <= s@.len(),
{
    let mut i = from;
    while i < s.len() && is_ws_byte(s[i])
        invariant
            from <= i,
            i as int <= s@.len(),
            skip_ws(s@, from as int) == skip_ws(s@, i as int),
        decreases s@.len() - i,
    {
        i += 1;
    }
    i
}

/// Reads token `t` at position `i`.
fn token_at_exec(s: &Vec<u8>, i: usize, t: &Vec<u8>) -> (r: Option<usize>)
    requires
        i as int <= s@.len(),
    ensures
        match r {
            Some(j) => token_at(s@, i as int, t@) == Some(j as int),
            None => token_at(s@, i as int, t@) is None,
        },
{
    if t.len() > s.len() - i {
        return None;
    }
    let mut k: usize = 0;
    while k < t.len()
        invariant
            0 <= k <= t@.len(),
            (i as int) + t@.len() <= s@.len(),
            s@.len() <= usize::MAX,
            forall|j: int| 0 <= j < k ==> s@[i + j] == t@[j],
        decreases t@.len() - k,
    {
        proof {
            assert((i as int) + (k as int) < s@.len());
        }
        if s[i + k] != t[k] {
            proof {
                if token_at(s@, i as int, t@) is Some {
                    assert(s@.subrange(i as int, i + t@.len())[k as int] == s@[i + k]);
                }
            }
            return None;
        }
        k += 1;
    }
    proof {
        assert(s@.subrange(i as int, i + t@.len()) =~= t@);
    }
    Some(i + t.len())
}

/// Reads a JSON boolean at position `i`.
fn bool_at_exec(s: &Vec<u8>, i: usize) -> (r: Option<(bool, usize)>)
    requires
        i as int <= s@.len(),
    ensures
        match r {
            Some((b, j)) => bool_at(s@, i as int) == Some((b, j as int)),
            None => bool_at(s@, i as int) is None,
        },
{
    proof {
        reveal_strlit("true");
        reveal_strlit("false");
    }
    let t = tok("true");
    match token_at_exec(s, i, &t) {
        Some(j) => Some((true, j)),
        None => {
            let f = tok("false");
            match token_at_exec(s, i, &f) {
                Some(j) => Some((false, j)),
                None => None,
            }
        },
    }
}

/// Reads a `"key": boolean` pair at position `i`.
fn field_at_exec(s: &Vec<u8>, i: usize, key: &Vec<u8>) -> (r: Option<(bool, usize)>)
    requires
        i as int <= s@.len(),
    ensures
        match r {
            Some((b, j)) => field_at(s@, i as int, key@) == Some((b, j as int)) && j as int
                <= s@.len(),
            None => field_at(s@, i as int, key@) is None,
        },
{
    proof {
        reveal_strlit(":");
    }
    let i1 = skip_ws_exec(s, i);
    match token_at_exec(s, i1, key) {
        None => None,
        Some(j) => {
            let j1 = skip_ws_exec(s, j);
            let colon = tok(":");
            match token_at_exec(s, j1, &colon) {
                None => None,
                Some(k) => {
                    let k1 = skip_ws_exec(s, k);
                    bool_at_exec(s, k1)
                },
            }
        },
    }
}

/// Reads a comma and then a `"key": boolean` pair.
fn sep_field_at_exec(s: &Vec<u8>, i: usize, key: &Vec<u8>) -> (r: Option<(bool, usize)>)
    requires
        i as int <= s@.len(),
    ensures
        match r {
            Some((b, j)) => sep_field_at(s@, i as int, key@) == Some((b, j as int)) && j as int
                <= s@.len(),
            None => sep_field_at(s@, i as int, key@) is None,
        },
{
    proof {
        reveal_strlit(",");
    }
    let i1 = skip_ws_exec(s, i);
    let comma = tok(",");
    match token_at_exec(s, i1, &comma) {
        None => None,
        Some(j) => field_at_exec(s, j, key),
    }
}

/// Parses a serialized configuration.  Returns `None` exactly when
/// the bytes are not a configuration object as `parse_config_spec`
/// defines it.
pub fn parse_config(s: &Vec<u8>) -> (r: Option<RlaConfig>)
    ensures
        r == parse_config_spec(s@),
{
    proof {
        reveal_strlit("{");
        reveal_strlit("}");
        reveal_strlit("\"smali_only\"");
        reveal_strlit("\"git_enable\"");
        reveal_strlit("\"jadx_enable\"");
        reveal_strlit("\"force_override\"");
    }
    let i0 = skip_ws_exec(s, 0);
    let lbrace = tok("{");
    let i1 = match token_at_exec(s, i0, &lbrace) {
        None => {
            return None;
        },
        Some(j) => j,
    };
    let key0 = tok("\"smali_only\"");
    let (smali_only, i2) = match field_at_exec(s, i1, &key0) {
        None => {
            return None;
        },
        Some(p) => p,
    };
    let key1 = tok("\"git_enable\"");
    let (git_enable, i3) = match sep_field_at_exec(s, i2, &key1) {
        None => {
            return None;
        },
        Some(p) => p,
    };
    let key2 = tok("\"jadx_enable\"");
    let (jadx_enable, i4) = match sep_field_at_exec(s, i3, &key2) {
        None => {
            return None;
        },
        Some(p) => p,
    };
    let key3 = tok("\"force_override\"");
    let (force_override, i5) = match sep_field_at_exec(s, i4, &key3) {
        None => {
            return None;
        },
        Some(p) => p,
    };
    let i51 = skip_ws_exec(s, i5);
    let rbrace = tok("}");
    let i6 = match token_at_exec(s, i51, &rbrace) {
        None => {
            return None;
        },
        Some(j) => j,
    };
    let i7 = skip_ws_exec(s, i6);
    if i7 == s.len() {
        Some(
            RlaConfig {
                smali_only,
                git_enable,
                jadx_enable,
                force_override,
            },
        )
    } else {
        None
    }
}

proof fn lemma_token_here(s: Seq<u8>, i: int, t: Seq<u8>)
    requires
        0 <= i,
        i + t.len() <= s.len(),
        s.subrange(i, i + t.len()) == t,
    ensures
        token_at(s, i, t) == Some(i + t.len()),
{
}

proof fn lemma_token_absent(s: Seq<u8>, i: int, t: Seq<u8>)
    requires
        0 <= i < s.len(),
        t.len() > 0,
        s[i] != t[0],
    ensures
        token_at(s, i, t) is None,
{
    if 0 <= i && i + t.len() <= s.len() && s.subrange(i, i + t.len()) == t {
        assert(s.subrange(i, i + t.len())[0] == s[i]);
    }
}

proof fn lemma_skip_ws_at_nonws(s: Seq<u8>, i: int)
    requires
        0 <= i <= s.len(),
        i == s.len() || !is_ws(s[i]),
    ensures
        skip_ws(s, i) == i,
{
}

proof fn lemma_bool_here(s: Seq<u8>, i: int, b: bool)
    requires
        0 <= i,
        i + bool_json(b).len() <= s.len(),
        s.subrange(i, i + bool_json(b).len()) == bool_json(b),
    ensures
        bool_at(s, i) == Some((b, i + bool_json(b).len())),
{
    reveal_strlit("true");
    reveal_strlit("false");
    assert(s[i] == bool_json(b)[0]);
    if b {
        lemma_token_here(s, i, ascii_seq("true"@));
    } else {
        lemma_token_absent(s, i, ascii_seq("true"@));
        lemma_token_here(s, i, ascii_seq("false"@));
    }
}

proof fn lemma_field_here(s: Seq<u8>, i: int, key: Seq<u8>, b: bool)
    requires
        0 <= i,
        key.len() > 0,
        key[0] == 34,
        i + key.len() + 1 + bool_json(b).len() <= s.len(),
        s.subrange(i, i + key.len()) == key,
        s[i + key.len()] == 58,
        s.subrange(i + key.len() + 1, i + key.len() + 1 + bool_json(b).len()) == bool_json(b),
    ensures
        field_at(s, i, key) == Some((b, i + key.len() + 1 + bool_json(b).len())),
{
    reveal_strlit(":");
    reveal_strlit("true");
    reveal_strlit("false");
    assert(s[i] == key[0]);
    lemma_skip_ws_at_nonws(s, i);
    lemma_token_here(s, i, key);
    let j = i + key.len();
    lemma_skip_ws_at_nonws(s, j);
    assert(s.subrange(j, j + 1) =~= ascii_seq(":"@));
    lemma_token_here(s, j, ascii_seq(":"@));
    let k = j + 1;
    assert(s[k] == bool_json(b)[0]);
    lemma_skip_ws_at_nonws(s, k);
    lemma_bool_here(s, k, b);
}

proof fn lemma_sep_field_here(s: Seq<u8>, i: int, key: Seq<u8>, b: bool)
    requires
        0 <= i,
        key.len() > 0,
        key[0] == 34,
        s[i] == 44,
        i + 1 + key.len() + 1 + bool_json(b).len() <= s.len(),
        s.subrange(i + 1, i + 1 + key.len()) == key,
        s[i + 1 + key.len()] == 58,
        s.subrange(
            i + 1 + key.len() + 1,
            i + 1 + key.len() + 1 + bool_json(b).len(),
        ) == bool_json(b),
    ensures
        sep_field_at(s, i, key) == Some((b, i + 1 + key.len() + 1 + bool_json(b).len())),
{
    reveal_strlit(",");
    lemma_skip_ws_at_nonws(s, i);
    assert(s.subrange(i, i + 1) =~= ascii_seq(","@));
    lemma_token_here(s, i, ascii_seq(","@));
    lemma_field_here(s, i + 1, key, b);
}

proof fn lemma_sub_left(p: Seq<u8>, q: Seq<u8>, x: int, y: int)
    requires
        0 <= x <= y <= p.len(),
    ensures
        (p + q).subrange(x, y) == p.subrange(x, y),
{
    assert((p + q).subrange(x, y) =~= p.subrange(x, y));
}

proof fn lemma_sub_right(p: Seq<u8>, q: Seq<u8>, x: int, y: int)
    requires
        0 <= x <= y <= q.len(),
    ensures
        (p + q).subrange(p.len() + x, p.len() + y) == q.subrange(x, y),
{
    assert((p + q).subrange(p.len() + x, p.len() + y) =~= q.subrange(x, y));
}

proof fn lemma_sub_all(p: Seq<u8>)
    ensures
        p.subrange(0, p.len() as int) == p,
{
    assert(p.subrange(0, p.len() as int) =~= p);
}

/// Byte offsets of the serialized form: where each boolean starts.
spec fn rt_i2(c: RlaConfig) -> int {
    14 + bool_json(c.smali_only).len() as int
}

spec fn rt_i3(c: RlaConfig) -> int {
    rt_i2(c) + 14 + bool_json(c.git_enable).len() as int
}

spec fn rt_i4(c: RlaConfig) -> int {
    rt_i3(c) + 15 + bool_json(c.jadx_enable).len() as int
}

spec fn rt_i5(c: RlaConfig) -> int {
    rt_i4(c) + 18 + bool_json(c.force_override).len() as int
}

/// Each block of the serialized form sits at its offset.
#[verifier::rlimit(100)]
proof fn rt_carve(c: RlaConfig)
    ensures
        config_json(c).len() == rt_i5(c) + 1,
        config_json(c).subrange(0, 14) == ascii_seq("{\"smali_only\":"@),
        config_json(c).subrange(14, rt_i2(c)) == bool_json(c.smali_only),
        config_json(c).subrange(rt_i2(c), rt_i2(c) + 14) == ascii_seq(",\"git_enable\":"@),
        config_json(c).subrange(rt_i2(c) + 14, rt_i3(c)) == bool_json(c.git_enable),
        config_json(c).subrange(rt_i3(c), rt_i3(c) + 15) == ascii_seq(",\"jadx_enable\":"@),
        config_json(c).subrange(rt_i3(c) + 15, rt_i4(c)) == bool_json(c.jadx_enable),
        config_json(c).subrange(rt_i4(c), rt_i4(c) + 18) == ascii_seq(",\"force_override\":"@),
        config_json(c).subrange(rt_i4(c) + 18, rt_i5(c)) == bool_json(c.force_override),
        config_json(c).subrange(rt_i5(c), rt_i5(c) + 1) == ascii_seq("}"@),
{
    reveal_strlit("{\"smali_only\":");
    reveal_strlit(",\"git_enable\":");
    reveal_strlit(",\"jadx_enable\":");
    reveal_strlit(",\"force_override\":");
    reveal_strlit("}");
    reveal_strlit("true");
    reveal_strlit("false");
    let a0 = ascii_seq("{\"smali_only\":"@);
    let a1 = ascii_seq(",\"git_enable\":"@);
    let a2 = ascii_seq(",\"jadx_enable\":"@);
    let a3 = ascii_seq(",\"force_override\":"@);
    let a4 = ascii_seq("}"@);
    let b0 = bool_json(c.smali_only);
    let b1 = bool_json(c.git_enable);
    let b2 = bool_json(c.jadx_enable);
    let b3 = bool_json(c.force_override);
    let n0 = b0.len() as int;
    let n1 = b1.len() as int;
    let n2 = b2.len() as int;
    let n3 = b3.len() as int;
    let x1 = a0;
    let x2 = x1 + b0;
    let x3 = x2 + a1;
    let x4 = x3 + b1;
    let x5 = x4 + a2;
    let x6 = x5 + b2;
    let x7 = x6 + a3;
    let x8 = x7 + b3;
    let s = config_json(c);
    assert(s == x8 + a4);
    let i2 = rt_i2(c);
    let i3 = rt_i3(c);
    let i4 = rt_i4(c);
    let i5 = rt_i5(c);

    lemma_sub_left(x8, a4, 0, 14);
    lemma_sub_left(x7, b3, 0, 14);
    lemma_sub_left(x6, a3, 0, 14);
    lemma_sub_left(x5, b2, 0, 14);
    lemma_sub_left(x4, a2, 0, 14);
    lemma_sub_left(x3, b1, 0, 14);
    lemma_sub_left(x2, a1, 0, 14);
    lemma_sub_left(x1, b0, 0, 14);
    lemma_sub_all(a0);

    lemma_sub_left(x8, a4, 14, i2);
    lemma_sub_left(x7, b3, 14, i2);
    lemma_sub_left(x6, a3, 14, i2);
    lemma_sub_left(x5, b2, 14, i2);
    lemma_sub_left(x4, a2, 14, i2);
    lemma_sub_left(x3, b1, 14, i2);
    lemma_sub_left(x2, a1, 14, i2);
    lemma_sub_right(x1, b0, 0, n0);
    lemma_sub_all(b0);

    lemma_sub_left(x8, a4, i2, i2 + 14);
    lemma_sub_left(x7, b3, i2, i2 + 14);
    lemma_sub_left(x6, a3, i2, i2 + 14);
    lemma_sub_left(x5, b2, i2, i2 + 14);
    lemma_sub_left(x4, a2, i2, i2 + 14);
    lemma_sub_left(x3, b1, i2, i2 + 14);
    lemma_sub_right(x2, a1, 0, 14);
    lemma_sub_all(a1);

    lemma_sub_left(x8, a4, i2 + 14, i3);
    lemma_sub_left(x7, b3, i2 + 14, i3);
    lemma_sub_left(x6, a3, i2 + 14, i3);
    lemma_sub_left(x5, b2, i2 + 14, i3);
    lemma_sub_left(x4, a2, i2 + 14, i3);
    lemma_sub_right(x3, b1, 0, n1);
    lemma_sub_all(b1);

    lemma_sub_left(x8, a4, i3, i3 + 15);
    lemma_sub_left(x7, b3, i3, i3 + 15);
    lemma_sub_left(x6, a3, i3, i3 + 15);
    lemma_sub_left(x5, b2, i3, i3 + 15);
    lemma_sub_right(x4, a2, 0, 15);
    lemma_sub_all(a2);

    lemma_sub_left(x8, a4, i3 + 15, i4);
    lemma_sub_left(x7, b3, i3 + 15, i4);
    lemma_sub_left(x6, a3, i3 + 15, i4);
    lemma_sub_right(x5, b2, 0, n2);
    lemma_sub_all(b2);

    lemma_sub_left(x8, a4, i4, i4 + 18);
    lemma_sub_left(x7, b3, i4, i4 + 18);
    lemma_sub_right(x6, a3, 0, 18);
    lemma_sub_all(a3);

    lemma_sub_left(x8, a4, i4 + 18, i5);
    lemma_sub_right(x7, b3, 0, n3);
    lemma_sub_all(b3);

    lemma_sub_right(x8, a4, 0, 1);
    lemma_sub_all(a4);
}

/// The object opens with `{` and the first field follows.
#[verifier::rlimit(100)]
proof fn rt_field0(c: RlaConfig, s: Seq<u8>)
    requires
        s.len() == rt_i5(c) + 1,
        s.subrange(0, 14) == ascii_seq("{\"smali_only\":"@),
        s.subrange(14, rt_i2(c)) == bool_json(c.smali_only),
    ensures
        skip_ws(s, 0) == 0,
        token_at(s, 0, ascii_seq("{"@)) == Some(1int),
        field_at(s, 1, ascii_seq("\"smali_only\""@)) == Some((c.smali_only, rt_i2(c))),
{
    reveal_strlit("{\"smali_only\":");
    reveal_strlit("{");
    reveal_strlit("\"smali_only\"");
    reveal_strlit("true");
    reveal_strlit("false");
    let a0 = ascii_seq("{\"smali_only\":"@);
    let k0 = ascii_seq("\"smali_only\""@);
    let n0 = bool_json(c.smali_only).len() as int;
    assert forall|p: int| 0 <= p < 14 implies s[p] == a0[p] by {
        assert(s.subrange(0, 14)[p] == s[p]);
    }
    assert(s[0] == 123);
    lemma_skip_ws_at_nonws(s, 0);
    assert(s.subrange(0, 1) =~= ascii_seq("{"@));
    lemma_token_here(s, 0, ascii_seq("{"@));
    assert(s.subrange(1, 13) =~= k0);
    assert(s[13] == 58);
    assert(s.subrange(14, 14 + n0) == bool_json(c.smali_only));
    lemma_field_here(s, 1, k0, c.smali_only);
}

/// The second field, after its comma.
#[verifier::rlimit(100)]
proof fn rt_field1(c: RlaConfig, s: Seq<u8>)
    requires
        s.len() == rt_i5(c) + 1,
        s.subrange(rt_i2(c), rt_i2(c) + 14) == ascii_seq(",\"git_enable\":"@),
        s.subrange(rt_i2(c) + 14, rt_i3(c)) == bool_json(c.git_enable),
    ensures
        sep_field_at(s, rt_i2(c), ascii_seq("\"git_enable\""@)) == Some(
            (c.git_enable, rt_i3(c)),
        ),
{
    reveal_strlit(",\"git_enable\":");
    reveal_strlit("\"git_enable\"");
    reveal_strlit("true");
    reveal_strlit("false");
    let a1 = ascii_seq(",\"git_enable\":"@);
    let k1 = ascii_seq("\"git_enable\""@);
    let i2 = rt_i2(c);
    let n1 = bool_json(c.git_enable).len() as int;
    assert forall|p: int| i2 <= p < i2 + 14 implies s[p] == a1[p - i2] by {
        assert(s.subrange(i2, i2 + 14)[p - i2] == s[p]);
    }
    assert(s[i2] == 44);
    assert(s.subrange(i2 + 1, i2 + 13) =~= k1);
    assert(s[i2 + 13] == 58);
    assert(s.subrange(i2 + 14, i2 + 14 + n1) == bool_json(c.git_enable));
    lemma_sep_field_here(s, i2, k1, c.git_enable);
}

/// The third field, after its comma.
#[verifier::rlimit(100)]
proof fn rt_field2(c: RlaConfig, s: Seq<u8>)
    requires
        s.len() == rt_i5(c) + 1,
        s.subrange(rt_i3(c), rt_i3(c) + 15) == ascii_seq(",\"jadx_enable\":"@),
        s.subrange(rt_i3(c) + 15, rt_i4(c)) == bool_json(c.jadx_enable),
    ensures
        sep_field_at(s, rt_i3(c), ascii_seq("\"jadx_enable\""@)) == Some(
            (c.jadx_enable, rt_i4(c)),
        ),
{
    reveal_strlit(",\"jadx_enable\":");
    reveal_strlit("\"jadx_enable\"");
    reveal_strlit("true");
    reveal_strlit("false");
    let a2 = ascii_seq(",\"jadx_enable\":"@);
    let k2 = ascii_seq("\"jadx_enable\""@);
    let i3 = rt_i3(c);
    let n2 = bool_json(c.jadx_enable).len() as int;
    assert forall|p: int| i3 <= p < i3 + 15 implies s[p] == a2[p - i3] by {
        assert(s.subrange(i3, i3 + 15)[p - i3] == s[p]);
    }
    assert(s[i3] == 44);
    assert(s.subrange(i3 + 1, i3 + 14) =~= k2);
    assert(s[i3 + 14] == 58);
    assert(s.subrange(i3 + 15, i3 + 15 + n2) == bool_json(c.jadx_enable));
    lemma_sep_field_here(s, i3, k2, c.jadx_enable);
}

/// The fourth field, after its comma, and the closing brace.
#[verifier::rlimit(100)]
proof fn rt_field3(c: RlaConfig, s: Seq<u8>)
    requires
        s.len() == rt_i5(c) + 1,
        s.subrange(rt_i4(c), rt_i4(c) + 18) == ascii_seq(",\"force_override\":"@),
        s.subrange(rt_i4(c) + 18, rt_i5(c)) == bool_json(c.force_override),
        s.subrange(rt_i5(c), rt_i5(c) + 1) == ascii_seq("}"@),
    ensures
        sep_field_at(s, rt_i4(c), ascii_seq("\"force_override\""@)) == Some(
            (c.force_override, rt_i5(c)),
        ),
        token_at(s, skip_ws(s, rt_i5(c)), ascii_seq("}"@)) == Some(rt_i5(c) + 1),
        skip_ws(s, rt_i5(c) + 1) == s.len(),
{
    reveal_strlit(",\"force_override\":");
    reveal_strlit("\"force_override\"");
    reveal_strlit("}");
    reveal_strlit("true");
    reveal_strlit("false");
    let a3 = ascii_seq(",\"force_override\":"@);
    let k3 = ascii_seq("\"force_override\""@);
    let i4 = rt_i4(c);
    let i5 = rt_i5(c);
    let n3 = bool_json(c.force_override).len() as int;
    assert forall|p: int| i4 <= p < i4 + 18 implies s[p] == a3[p - i4] by {
        assert(s.subrange(i4, i4 + 18)[p - i4] == s[p]);
    }
    assert(s[i4] == 44);
    assert(s.subrange(i4 + 1, i4 + 17) =~= k3);
    assert(s[i4 + 17] == 58);
    assert(s.subrange(i4 + 18, i4 + 18 + n3) == bool_json(c.force_override));
    lemma_sep_field_here(s, i4, k3, c.force_override);
    assert(s[i5] == s.subrange(i5, i5 + 1)[0]);
    assert(s[i5] == 125);
    lemma_skip_ws_at_nonws(s, i5);
    lemma_token_here(s, i5, ascii_seq("}"@));
    lemma_skip_ws_at_nonws(s, s.len() as int);
}

/// Parsing inverts emission: the serialized form of any
/// configuration reads back as exactly that configuration.
#[verifier::rlimit(100)]
pub proof fn lemma_config_round_trip(c: RlaConfig)
    ensures
        parse_config_spec(config_json(c)) == Some(c),
{
    rt_carve(c);
    let s = config_json(c);
    rt_field0(c, s);
    rt_field1(c, s);
    rt_field2(c, s);
    rt_field3(c, s);
}

} // verus!

