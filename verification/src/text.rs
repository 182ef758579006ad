//! The text encoding of the mesh format: a `solid`/`endsolid` block
//! of `facet normal` / `outer loop` / `vertex` records, tolerant of
//! surrounding whitespace.
//!
//! Coordinates are decimal literals. They are converted here to
//! binary32 bit patterns by integer arithmetic alone: the digits are
//! scaled by powers of ten and two with a sticky bit, rounded to
//! nearest (ties to even) -- into the subnormal range where the
//! magnitude calls for it -- and packed. Values beyond the largest
//! finite magnitude are rejected as non-finite.

use vstd::prelude::*;

use crate::ParseError;
use crate::mesh::{Mesh, Vec3, vec3_finite};
use crate::scalar::{NEG_ZERO_BITS, ZERO_BITS, finite_bits, is_zero_bits};

verus! {

/// What parsing a text stream must return: a well-formed mesh of
/// exactly one triangle per facet record where the stream follows
/// the grammar and every literal is finite; malformed exactly where
/// the token stream breaks the grammar; non-finite where the
/// grammar holds but a literal has no finite encoding.
pub open spec fn text_load_result(b: Seq<u8>, r: Result<Mesh, ParseError>) -> bool {
    match r {
        Ok(m) => {
            &&& m.wf()
            &&& text_syntax(b) matches Some(n) && m.vertices@.len() == 3 * n
        },
        Err(e) => match e {
            ParseError::Malformed => text_syntax(b) matches None,
            ParseError::NonFinite => text_syntax(b) matches Some(_),
            _ => false,
        },
    }
}

/// The keywords of the text grammar.
#[derive(Clone, Copy, Debug, PartialEq, Eq, Structural)]
pub enum Kw {
    Solid,
    Facet,
    Normal,
    Outer,
    Loop,
    Vertex,
    EndLoop,
    EndFacet,
    EndSolid,
    Other,
}

/// A blank byte: space, tab, carriage return or newline.
pub open spec fn ws_byte(c: u8) -> bool {
    c == 32 || c == 9 || c == 13 || c == 10
}

/// The first non-blank position at or after `p`: where the next
/// token starts, or the end of the stream.
pub open spec fn skip_ws_end(b: Seq<u8>, p: int) -> int
    decreases b.len() - p,
{
    if 0 <= p < b.len() && ws_byte(b[p]) {
        skip_ws_end(b, p + 1)
    } else {
        p
    }
}

/// The first blank position at or after `p`: where a token that
/// starts at `p` ends.
pub open spec fn token_end(b: Seq<u8>, p: int) -> int
    decreases b.len() - p,
{
    if 0 <= p < b.len() && !ws_byte(b[p]) {
        token_end(b, p + 1)
    } else {
        p
    }
}

/// The skip of blanks stays within the stream.
pub proof fn lemma_skip_ws_end(b: Seq<u8>, p: int)
    requires
        0 <= p <= b.len(),
    ensures
        p <= skip_ws_end(b, p) <= b.len(),
    decreases b.len() - p,
{
    if p < b.len() && ws_byte(b[p]) {
        lemma_skip_ws_end(b, p + 1);
    }
}

/// A token's end stays within the stream.
pub proof fn lemma_token_end(b: Seq<u8>, p: int)
    requires
        0 <= p <= b.len(),
    ensures
        p <= token_end(b, p) <= b.len(),
    decreases b.len() - p,
{
    if p < b.len() && !ws_byte(b[p]) {
        lemma_token_end(b, p + 1);
    }
}

/// Whether `c` is blank: space, tab, carriage return or newline.
fn is_ws(c: u8) -> (r: bool)
    ensures
        r == ws_byte(c),
{
    c == 32 || c == 9 || c == 13 || c == 10
}

/// The bounds of the next whitespace-delimited token at or after
/// `p`: exactly the blank skip and the token end of the stream, or
/// nothing when only blanks remain.
fn next_token(b: &Vec<u8>, p: usize) -> (r: Option<(usize, usize)>)
    requires
        p <= b.len(),
    ensures
        match r {
            Some(t) => {
                &&& p <= t.0 < t.1 <= b@.len()
                &&& t.0 == skip_ws_end(b@, p as int)
                &&& t.1 == token_end(b@, t.0 as int)
            },
            None => skip_ws_end(b@, p as int) == b@.len(),
        },
{
    let mut s = p;
    while s < b.len() && is_ws(b[s])
        invariant
            p <= s <= b@.len(),
            skip_ws_end(b@, p as int) == skip_ws_end(b@, s as int),
        decreases b@.len() - s,
    {
        s = s + 1;
    }
    if s == b.len() {
        return None;
    }
    let mut e = s + 1;
    while e < b.len() && !is_ws(b[e])
        invariant
            s < e <= b@.len(),
            token_end(b@, s as int) == token_end(b@, e as int),
        decreases b@.len() - e,
    {
        e = e + 1;
    }
    Some((s, e))
}

/// The token at `s..e` is the keyword `loop`.
pub open spec fn kw_loop(b: Seq<u8>, s: int, e: int) -> bool {
    e - s == 4 && b[s] == 108u8 && b[s + 1] == 111u8 && b[s + 2] == 111u8 && b[s + 3] == 112u8
}

/// The token at `s..e` is the keyword `solid`.
pub open spec fn kw_solid(b: Seq<u8>, s: int, e: int) -> bool {
    e - s == 5 && b[s] == 115u8 && b[s + 1] == 111u8 && b[s + 2] == 108u8 && b[s + 3] == 105u8
        && b[s + 4] == 100u8
}

/// The token at `s..e` is the keyword `facet`.
pub open spec fn kw_facet(b: Seq<u8>, s: int, e: int) -> bool {
    e - s == 5 && b[s] == 102u8 && b[s + 1] == 97u8 && b[s + 2] == 99u8 && b[s + 3] == 101u8 && b[s
        + 4] == 116u8
}

/// The token at `s..e` is the keyword `outer`.
pub open spec fn kw_outer(b: Seq<u8>, s: int, e: int) -> bool {
    e - s == 5 && b[s] == 111u8 && b[s + 1] == 117u8 && b[s + 2] == 116u8 && b[s + 3] == 101u8
        && b[s + 4] == 114u8
}

/// The token at `s..e` is the keyword `normal`.
pub open spec fn kw_normal(b: Seq<u8>, s: int, e: int) -> bool {
    e - s == 6 && b[s] == 110u8 && b[s + 1] == 111u8 && b[s + 2] == 114u8 && b[s + 3] == 109u8
        && b[s + 4] == 97u8 && b[s + 5] == 108u8
}

/// The token at `s..e` is the keyword `vertex`.
pub open spec fn kw_vertex(b: Seq<u8>, s: int, e: int) -> bool {
    e - s == 6 && b[s] == 118u8 && b[s + 1] == 101u8 && b[s + 2] == 114u8 && b[s + 3] == 116u8
        && b[s + 4] == 101u8 && b[s + 5] == 120u8
}

/// The token at `s..e` is the keyword `endloop`.
pub open spec fn kw_endloop(b: Seq<u8>, s: int, e: int) -> bool {
    e - s == 7 && b[s] == 101u8 && b[s + 1] == 110u8 && b[s + 2] == 100u8 && b[s + 3] == 108u8
        && b[s + 4] == 111u8 && b[s + 5] == 111u8 && b[s + 6] == 112u8
}

/// The token at `s..e` is the keyword `endfacet`.
pub open spec fn kw_endfacet(b: Seq<u8>, s: int, e: int) -> bool {
    e - s == 8 && b[s] == 101u8 && b[s + 1] == 110u8 && b[s + 2] == 100u8 && b[s + 3] == 102u8
        && b[s + 4] == 97u8 && b[s + 5] == 99u8 && b[s + 6] == 101u8 && b[s + 7] == 116u8
}

/// The token at `s..e` is the keyword `endsolid`.
pub open spec fn kw_endsolid(b: Seq<u8>, s: int, e: int) -> bool {
    e - s == 8 && b[s] == 101u8 && b[s + 1] == 110u8 && b[s + 2] == 100u8 && b[s + 3] == 115u8
        && b[s + 4] == 111u8 && b[s + 5] == 108u8 && b[s + 6] == 105u8 && b[s + 7] == 100u8
}

/// Which keyword the token at `s..e` is, exactly.
fn classify(b: &Vec<u8>, s: usize, e: usize) -> (r: Kw)
    requires
        s < e <= b.len(),
    ensures
        (r == Kw::Loop) == kw_loop(b@, s as int, e as int),
        (r == Kw::Solid) == kw_solid(b@, s as int, e as int),
        (r == Kw::Facet) == kw_facet(b@, s as int, e as int),
        (r == Kw::Outer) == kw_outer(b@, s as int, e as int),
        (r == Kw::Normal) == kw_normal(b@, s as int, e as int),
        (r == Kw::Vertex) == kw_vertex(b@, s as int, e as int),
        (r == Kw::EndLoop) == kw_endloop(b@, s as int, e as int),
        (r == Kw::EndFacet) == kw_endfacet(b@, s as int, e as int),
        (r == Kw::EndSolid) == kw_endsolid(b@, s as int, e as int),
{
    let l = e - s;
    if l == 4 && b[s] == 108 && b[s + 1] == 111 && b[s + 2] == 111 && b[s + 3] == 112 {
        Kw::Loop
    } else if l == 5 && b[s] == 115 && b[s + 1] == 111 && b[s + 2] == 108 && b[s + 3] == 105 && b[s
        + 4] == 100 {
        Kw::Solid
    } else if l == 5 && b[s] == 102 && b[s + 1] == 97 && b[s + 2] == 99 && b[s + 3] == 101 && b[s
        + 4] == 116 {
        Kw::Facet
    } else if l == 5 && b[s] == 111 && b[s + 1] == 117 && b[s + 2] == 116 && b[s + 3] == 101 && b[s
        + 4] == 114 {
        Kw::Outer
    } else if l == 6 && b[s] == 110 && b[s + 1] == 111 && b[s + 2] == 114 && b[s + 3] == 109 && b[s
        + 4] == 97 && b[s + 5] == 108 {
        Kw::Normal
    } else if l == 6 && b[s] == 118 && b[s + 1] == 101 && b[s + 2] == 114 && b[s + 3] == 116 && b[s
        + 4] == 101 && b[s + 5] == 120 {
        Kw::Vertex
    } else if l == 7 && b[s] == 101 && b[s + 1] == 110 && b[s + 2] == 100 && b[s + 3] == 108 && b[s
        + 4] == 111 && b[s + 5] == 111 && b[s + 6] == 112 {
        Kw::EndLoop
    } else if l == 8 && b[s] == 101 && b[s + 1] == 110 && b[s + 2] == 100 && b[s + 3] == 102 && b[s
        + 4] == 97 && b[s + 5] == 99 && b[s + 6] == 101 && b[s + 7] == 116 {
        Kw::EndFacet
    } else if l == 8 && b[s] == 101 && b[s + 1] == 110 && b[s + 2] == 100 && b[s + 3] == 115 && b[s
        + 4] == 111 && b[s + 5] == 108 && b[s + 6] == 105 && b[s + 7] == 100 {
        Kw::EndSolid
    } else {
        Kw::Other
    }
}

/// The token at `s..e` is the keyword `k` (`Other` matches no
/// token).
pub open spec fn kw_matches(k: Kw, b: Seq<u8>, s: int, e: int) -> bool {
    match k {
        Kw::Loop => kw_loop(b, s, e),
        Kw::Solid => kw_solid(b, s, e),
        Kw::Facet => kw_facet(b, s, e),
        Kw::Outer => kw_outer(b, s, e),
        Kw::Normal => kw_normal(b, s, e),
        Kw::Vertex => kw_vertex(b, s, e),
        Kw::EndLoop => kw_endloop(b, s, e),
        Kw::EndFacet => kw_endfacet(b, s, e),
        Kw::EndSolid => kw_endsolid(b, s, e),
        Kw::Other => false,
    }
}

/// Consumes the next token exactly when it is the keyword `k`.
fn expect_kw(b: &Vec<u8>, p: usize, k: Kw) -> (r: Result<usize, ParseError>)
    requires
        p <= b.len(),
        k != Kw::Other,
    ensures
        match r {
            Ok(np) => {
                &&& p < np <= b@.len()
                &&& skip_ws_end(b@, p as int) < b@.len()
                &&& np == token_end(b@, skip_ws_end(b@, p as int))
                &&& kw_matches(k, b@, skip_ws_end(b@, p as int), np as int)
            },
            Err(e) => {
                &&& e == ParseError::Malformed
                &&& (skip_ws_end(b@, p as int) == b@.len() || !kw_matches(
                    k,
                    b@,
                    skip_ws_end(b@, p as int),
                    token_end(b@, skip_ws_end(b@, p as int)),
                ))
            },
        },
{
    match next_token(b, p) {
        Some((s, e)) => {
            if classify(b, s, e) == k {
                Ok(e)
            } else {
                Err(ParseError::Malformed)
            }
        },
        None => Err(ParseError::Malformed),
    }
}

/// The zero pattern with the given sign.
fn zero_of(neg: bool) -> (r: u32)
    ensures
        finite_bits(r),
        is_zero_bits(r),
        crate::scalar::sign_neg(r) == neg,
{
    if neg {
        NEG_ZERO_BITS
    } else {
        ZERO_BITS
    }
}

/// Packs sign, biased exponent and fraction into a finite pattern
/// (a biased exponent of zero packs a subnormal or a zero).
fn pack_bits(neg: bool, frac: u32, bexp: u32) -> (r: u32)
    requires
        frac < 0x80_0000,
        bexp <= 254,
    ensures
        finite_bits(r),
        crate::scalar::sign_neg(r) == neg,
{
    if neg {
        let r: u32 = 0x8000_0000 + bexp * 0x80_0000 + frac;
        proof {
            assert((0x8000_0000 + (bexp as int) * 0x80_0000 + frac as int) / 0x80_0000 % 0x100
                == bexp) by (nonlinear_arith)
                requires frac < 0x80_0000, 0 <= bexp <= 254;
        }
        r
    } else {
        let r: u32 = bexp * 0x80_0000 + frac;
        proof {
            assert(((bexp as int) * 0x80_0000 + frac as int) / 0x80_0000 % 0x100 == bexp)
                by (nonlinear_arith)
                requires frac < 0x80_0000, 0 <= bexp <= 254;
        }
        r
    }
}

/// A decimal digit byte.
pub open spec fn digit_byte(c: u8) -> bool {
    48 <= c <= 57
}

/// The end of the run of digits that starts at `p` (bounded by `e`).
pub open spec fn digit_run_end(b: Seq<u8>, p: int, e: int) -> int
    decreases e - p,
{
    if 0 <= p < e <= b.len() && digit_byte(b[p]) {
        digit_run_end(b, p + 1, e)
    } else {
        p
    }
}

/// The token at `s..e` is a decimal literal: an optional sign, then
/// digits with an optional point, at least one digit in all, then an
/// optional exponent part with at least one digit, and nothing else.
#[verifier::opaque]
pub open spec fn num_syntax(b: Seq<u8>, s: int, e: int) -> bool {
    let p0 = if b[s] == 43u8 || b[s] == 45u8 {
        s + 1
    } else {
        s
    };
    let q1 = digit_run_end(b, p0, e);
    let q2 = if q1 < e && b[q1] == 46u8 {
        digit_run_end(b, q1 + 1, e)
    } else {
        q1
    };
    let has_digit = q1 > p0 || (q1 < e && b[q1] == 46u8 && q2 > q1 + 1);
    if q2 < e && (b[q2] == 101u8 || b[q2] == 69u8) {
        let p3 = if q2 + 1 < e && (b[q2 + 1] == 43u8 || b[q2 + 1] == 45u8) {
            q2 + 2
        } else {
            q2 + 1
        };
        has_digit && digit_run_end(b, p3, e) > p3 && digit_run_end(b, p3, e) == e
    } else {
        has_digit && q2 == e
    }
}

/// Converts the decimal literal at `s..e` to the nearest binary32
/// pattern (ties to even, subnormals included). Rejects as
/// malformed exactly the tokens that are no decimal literal, and as
/// non-finite a literal whose magnitude has no finite encoding.
#[verifier::rlimit(80)]
fn dec_to_bits(b: &Vec<u8>, s: usize, e: usize) -> (r: Result<u32, ParseError>)
    requires
        s < e <= b.len(),
    ensures
        match r {
            Ok(w) => num_syntax(b@, s as int, e as int) && finite_bits(w)
                && crate::scalar::sign_neg(w) == (b@[s as int] == 45),
            Err(err) => (err == ParseError::Malformed && !num_syntax(b@, s as int, e as int)) || (
            err == ParseError::NonFinite && num_syntax(b@, s as int, e as int)),
        },
{
    let mut p = s;
    let mut neg = false;
    if b[p] == 43 {
        p = p + 1;
    } else if b[p] == 45 {
        neg = true;
        p = p + 1;
    }
    let ghost p0 = p as int;
    let mut mant: u64 = 0;
    let mut extra: i64 = 0;
    let mut sticky = false;
    let mut has_digit = false;
    while p < e && 48 <= b[p] && b[p] <= 57
        invariant
            s <= p <= e,
            e <= b@.len(),
            mant < 10_000_000_000_000_000_000,
            0 <= extra <= 1_000_000,
            p0 <= p,
            digit_run_end(b@, p0, e as int) == digit_run_end(b@, p as int, e as int),
            has_digit == (p > p0),
        decreases e - p,
    {
        let d = (b[p] - 48) as u64;
        if mant < 1_000_000_000_000_000_000 {
            mant = mant * 10 + d;
        } else {
            if extra < 1_000_000 {
                extra = extra + 1;
            }
            if d != 0 {
                sticky = true;
            }
        }
        has_digit = true;
        p = p + 1;
    }
    let ghost q1 = p as int;
    proof {
        assert(q1 == digit_run_end(b@, p0, e as int));
    }
    if p < e && b[p] == 46 {
        p = p + 1;
        while p < e && 48 <= b[p] && b[p] <= 57
            invariant
                s <= p <= e,
                e <= b@.len(),
                mant < 10_000_000_000_000_000_000,
                -1_000_000 <= extra <= 1_000_000,
                q1 + 1 <= p,
                digit_run_end(b@, q1 + 1, e as int) == digit_run_end(b@, p as int, e as int),
                has_digit == (q1 > p0 || p > q1 + 1),
            decreases e - p,
        {
            let d = (b[p] - 48) as u64;
            if mant < 1_000_000_000_000_000_000 && extra > -1_000_000 {
                mant = mant * 10 + d;
                extra = extra - 1;
            } else {
                if d != 0 {
                    sticky = true;
                }
            }
            has_digit = true;
            p = p + 1;
        }
    }
    let ghost q2 = p as int;
    let mut e10: i64 = extra;
    if p < e && (b[p] == 101 || b[p] == 69) {
        p = p + 1;
        let mut eneg = false;
        if p < e && (b[p] == 43 || b[p] == 45) {
            eneg = b[p] == 45;
            p = p + 1;
        }
        let ghost p3 = p as int;
        if !(p < e && 48 <= b[p] && b[p] <= 57) {
            proof {
                reveal(num_syntax);
                assert(digit_run_end(b@, p3, e as int) == p3);
                assert(!num_syntax(b@, s as int, e as int));
            }
            return Err(ParseError::Malformed);
        }
        let mut eacc: i64 = 0;
        while p < e && 48 <= b[p] && b[p] <= 57
            invariant
                s <= p <= e,
                e <= b@.len(),
                0 <= eacc <= 10_000_009,
                p3 <= p,
                digit_run_end(b@, p3, e as int) == digit_run_end(b@, p as int, e as int),
            decreases e - p,
        {
            if eacc < 1_000_000 {
                eacc = eacc * 10 + (b[p] - 48) as i64;
            }
            p = p + 1;
        }
        proof {
            assert(p == digit_run_end(b@, p3, e as int));
            assert(p > p3);
        }
        e10 = if eneg {
            extra - eacc
        } else {
            extra + eacc
        };
    }
    if p != e {
        proof {
            reveal(num_syntax);
            assert(!num_syntax(b@, s as int, e as int));
        }
        return Err(ParseError::Malformed);
    }
    if !has_digit {
        proof {
            reveal(num_syntax);
            assert(!num_syntax(b@, s as int, e as int));
        }
        return Err(ParseError::Malformed);
    }
    proof {
        reveal(num_syntax);
        assert(num_syntax(b@, s as int, e as int));
    }
    if mant == 0 {
        return Ok(zero_of(neg));
    }
    if e10 >= 61 {
        return Err(ParseError::NonFinite);
    }
    if e10 <= -71 {
        return Ok(zero_of(neg));
    }
    let mut m: u128 = mant as u128;
    let mut e2: i64 = 0;
    while e10 > 0
        invariant
            1 <= m,
            -70 <= e10 <= 60,
            -10_000_001 <= e2 <= 10_000_001,
            m < 0x1_0000_0000_0000_0000_0000_0000_0000,
            num_syntax(b@, s as int, e as int),
        decreases e10,
    {
        while m >= 0x1000_0000_0000_0000_0000_0000_0000
            invariant
                1 <= m,
                -10_000_001 <= e2 <= 10_000_001,
                m < 0x1_0000_0000_0000_0000_0000_0000_0000,
                num_syntax(b@, s as int, e as int),
            decreases m,
        {
            if e2 >= 10_000_000 {
                return Err(ParseError::NonFinite);
            }
            if m % 2 == 1 {
                sticky = true;
            }
            m = m / 2;
            e2 = e2 + 1;
        }
        m = m * 10;
        e10 = e10 - 1;
    }
    while e10 < 0
        invariant
            1 <= m,
            -70 <= e10 <= 0,
            -10_000_001 <= e2 <= 10_000_001,
            m < 0x2_0000_0000_0000_0000_0000_0000_0000,
            s < b@.len() && neg == (b@[s as int] == 45),
            num_syntax(b@, s as int, e as int),
        decreases -e10,
    {
        while m < 0x100_0000_0000_0000_0000_0000_0000
            invariant
                1 <= m,
                m < 0x2_0000_0000_0000_0000_0000_0000_0000,
                -10_000_001 <= e2 <= 10_000_001,
                s < b@.len() && neg == (b@[s as int] == 45),
                num_syntax(b@, s as int, e as int),
            decreases 0x2_0000_0000_0000_0000_0000_0000_0000 - m,
        {
            if e2 <= -10_000_000 {
                return Ok(zero_of(neg));
            }
            m = m * 2;
            e2 = e2 - 1;
        }
        if m % 10 != 0 {
            sticky = true;
        }
        m = m / 10;
        e10 = e10 + 1;
    }
    while m >= 0x200_0000
        invariant
            1 <= m,
            -10_000_001 <= e2 <= 10_000_001,
            num_syntax(b@, s as int, e as int),
        decreases m,
    {
        if e2 >= 10_000_000 {
            return Err(ParseError::NonFinite);
        }
        if m % 2 == 1 {
            sticky = true;
        }
        m = m / 2;
        e2 = e2 + 1;
    }
    while m < 0x100_0000
        invariant
            1 <= m < 0x200_0000,
            -10_000_001 <= e2 <= 10_000_001,
            s < b@.len() && neg == (b@[s as int] == 45),
            num_syntax(b@, s as int, e as int),
        decreases 0x200_0000 - m,
    {
        if e2 <= -10_000_000 {
            return Ok(zero_of(neg));
        }
        m = m * 2;
        e2 = e2 - 1;
    }
    let m25: u64 = m as u64;
    let pre_bexp: i64 = e2 + 151;
    if pre_bexp <= 0 {
        // below the normal range: align with the subnormal grid by
        // halving further, keeping a sticky bit, before the one
        // rounding halving
        let extra: i64 = 1 - pre_bexp;
        if extra >= 25 {
            // strictly below half the smallest subnormal magnitude
            return Ok(zero_of(neg));
        }
        let mut mm: u64 = m25;
        let mut k: i64 = extra;
        while k > 0
            invariant
                0 <= k <= 24,
                mm <= 0x1ff_ffff,
                k == extra || mm <= 0xff_ffff,
            decreases k,
        {
            if mm % 2 == 1 {
                sticky = true;
            }
            mm = mm / 2;
            k = k - 1;
        }
        let mut frac: u64 = mm / 2;
        if mm % 2 == 1 && (sticky || frac % 2 == 1) {
            frac = frac + 1;
        }
        if frac == 0x80_0000 {
            // rounded up into the smallest normal value
            return Ok(pack_bits(neg, 0, 1));
        }
        return Ok(pack_bits(neg, frac as u32, 0));
    }
    let mut r24: u64 = m25 / 2;
    if m25 % 2 == 1 && (sticky || r24 % 2 == 1) {
        r24 = r24 + 1;
    }
    if r24 == 0x100_0000 {
        r24 = 0x80_0000;
        e2 = e2 + 1;
    }
    let bexp: i64 = e2 + 151;
    if bexp >= 255 {
        return Err(ParseError::NonFinite);
    }
    Ok(pack_bits(neg, (r24 - 0x80_0000) as u32, bexp as u32))
}

/// Where the blank skip from `p` lands, when it is not the stream
/// end, the byte there is not blank.
pub proof fn lemma_skip_ws_lands(b: Seq<u8>, p: int)
    requires
        0 <= p <= b.len(),
    ensures
        skip_ws_end(b, p) < b.len() ==> !ws_byte(b[skip_ws_end(b, p)]),
    decreases b.len() - p,
{
    if p < b.len() && ws_byte(b[p]) {
        lemma_skip_ws_lands(b, p + 1);
    }
}

/// The start and the end of the next token after `p`.
pub open spec fn tok_s(b: Seq<u8>, p: int) -> int {
    skip_ws_end(b, p)
}

/// The end of the next token after `p`.
pub open spec fn tok_e(b: Seq<u8>, p: int) -> int {
    token_end(b, tok_s(b, p))
}

/// A token exists after `p` and is a decimal literal.
pub open spec fn num_step_ok(b: Seq<u8>, p: int) -> bool {
    tok_s(b, p) < b.len() && num_syntax(b, tok_s(b, p), tok_e(b, p))
}

/// Three consecutive decimal-literal tokens follow `p`.
pub open spec fn num3_syntax(b: Seq<u8>, p: int) -> bool {
    num_step_ok(b, p) && num_step_ok(b, tok_e(b, p)) && num_step_ok(b, tok_e(b, tok_e(b, p)))
}

/// Where the third of those tokens ends.
pub open spec fn num3_end(b: Seq<u8>, p: int) -> int {
    tok_e(b, tok_e(b, tok_e(b, p)))
}

/// Consumes three decimal literals: one coordinate triple. The
/// result is the converted triple, or nothing when a literal's
/// magnitude has no finite encoding; malformed is exactly a triple
/// that does not follow the literal grammar.
fn read_num3(b: &Vec<u8>, p: usize) -> (r: Result<(Option<Vec3>, usize), ParseError>)
    requires
        p <= b.len(),
    ensures
        match r {
            Ok(t) => {
                &&& num3_syntax(b@, p as int)
                &&& p < t.1 <= b@.len()
                &&& t.1 == num3_end(b@, p as int)
                &&& (t.0 matches Some(v) ==> vec3_finite(v))
            },
            Err(e) => e == ParseError::Malformed && !num3_syntax(b@, p as int),
        },
{
    let (sx, ex) = match next_token(b, p) {
        Some(t) => t,
        None => { return Err(ParseError::Malformed) },
    };
    let rx = dec_to_bits(b, sx, ex);
    if rx matches Err(ParseError::Malformed) {
        return Err(ParseError::Malformed);
    }
    let (sy, ey) = match next_token(b, ex) {
        Some(t) => t,
        None => { return Err(ParseError::Malformed) },
    };
    let ry = dec_to_bits(b, sy, ey);
    if ry matches Err(ParseError::Malformed) {
        return Err(ParseError::Malformed);
    }
    let (sz, ez) = match next_token(b, ey) {
        Some(t) => t,
        None => { return Err(ParseError::Malformed) },
    };
    let rz = dec_to_bits(b, sz, ez);
    if rz matches Err(ParseError::Malformed) {
        return Err(ParseError::Malformed);
    }
    match (rx, ry, rz) {
        (Ok(x), Ok(y), Ok(z)) => Ok((Some(Vec3 { x, y, z }), ez)),
        _ => Ok((None, ez)),
    }
}

/// One keyword token follows `p`; where it ends.
pub open spec fn kw_step(b: Seq<u8>, p: int, k: Kw) -> Option<int> {
    if tok_s(b, p) < b.len() && kw_matches(k, b, tok_s(b, p), tok_e(b, p)) {
        Some(tok_e(b, p))
    } else {
        None
    }
}

/// Lifts a facet count from a later position by the records built
/// before it.
pub open spec fn add_facets(o: Option<int>, k: int) -> Option<int> {
    match o {
        Some(n) => Some(n + k),
        None => None,
    }
}

/// The tail of a facet record, after its `facet` keyword: where the
/// record ends, or nothing where the grammar fails.
#[verifier::opaque]
pub open spec fn facet_tail(b: Seq<u8>, p: int) -> Option<int> {
    match kw_step(b, p, Kw::Normal) {
        None => None,
        Some(p1) => if !num3_syntax(b, p1) {
            None
        } else {
            match kw_step(b, num3_end(b, p1), Kw::Outer) {
                None => None,
                Some(p3) => match kw_step(b, p3, Kw::Loop) {
                    None => None,
                    Some(p4) => match kw_step(b, p4, Kw::Vertex) {
                        None => None,
                        Some(p5) => if !num3_syntax(b, p5) {
                            None
                        } else {
                            match kw_step(b, num3_end(b, p5), Kw::Vertex) {
                                None => None,
                                Some(p7) => if !num3_syntax(b, p7) {
                                    None
                                } else {
                                    match kw_step(b, num3_end(b, p7), Kw::Vertex) {
                                        None => None,
                                        Some(p9) => if !num3_syntax(b, p9) {
                                            None
                                        } else {
                                            match kw_step(b, num3_end(b, p9), Kw::EndLoop) {
                                                None => None,
                                                Some(p11) => kw_step(b, p11, Kw::EndFacet),
                                            }
                                        },
                                    }
                                },
                            }
                        },
                    },
                },
            }
        },
    }
}

/// How many facet records stand between `p` and the `endsolid`
/// keyword, or nothing where the grammar fails. The fuel only
/// bounds the recursion; any fuel above the remaining length gives
/// the same answer.
pub open spec fn facets_syntax(b: Seq<u8>, p: int, fuel: nat) -> Option<int>
    decreases fuel,
{
    if fuel == 0 {
        None
    } else if tok_s(b, p) >= b.len() {
        None
    } else if kw_endsolid(b, tok_s(b, p), tok_e(b, p)) {
        Some(0)
    } else if kw_facet(b, tok_s(b, p), tok_e(b, p)) {
        match facet_tail(b, tok_e(b, p)) {
            None => None,
            Some(pr) => add_facets(facets_syntax(b, pr, (fuel - 1) as nat), 1),
        }
    } else {
        None
    }
}

/// Skips the free-form solid name: tokens before the first `facet`
/// or `endsolid`, where the facet records begin.
pub open spec fn name_zone(b: Seq<u8>, p: int, fuel: nat) -> Option<int>
    decreases fuel,
{
    if fuel == 0 {
        None
    } else if tok_s(b, p) >= b.len() {
        None
    } else if kw_facet(b, tok_s(b, p), tok_e(b, p)) || kw_endsolid(b, tok_s(b, p), tok_e(b, p)) {
        facets_syntax(b, p, fuel)
    } else {
        name_zone(b, tok_e(b, p), (fuel - 1) as nat)
    }
}

/// How many facet records a well-formed text stream holds, or
/// nothing where its token stream does not follow the grammar.
pub open spec fn text_syntax(b: Seq<u8>) -> Option<int> {
    if tok_s(b, 0) < b.len() && kw_solid(b, tok_s(b, 0), tok_e(b, 0)) {
        name_zone(b, tok_e(b, 0), (b.len() + 1) as nat)
    } else {
        None
    }
}

/// Token positions after `p` stay within the stream and move
/// forward.
pub proof fn lemma_step_bounds(b: Seq<u8>, p: int)
    requires
        0 <= p <= b.len(),
    ensures
        p <= tok_s(b, p) <= b.len(),
        tok_s(b, p) <= tok_e(b, p) <= b.len(),
        tok_s(b, p) < b.len() ==> p < tok_e(b, p),
{
    lemma_skip_ws_end(b, p);
    lemma_skip_ws_lands(b, p);
    lemma_token_end(b, tok_s(b, p));
    if tok_s(b, p) < b.len() {
        assert(!ws_byte(b[tok_s(b, p)]));
        assert(token_end(b, tok_s(b, p)) == token_end(b, tok_s(b, p) + 1));
        lemma_token_end(b, tok_s(b, p) + 1);
    }
}

/// Three literal tokens stay within the stream and move forward.
pub proof fn lemma_num3_bounds(b: Seq<u8>, p: int)
    requires
        0 <= p <= b.len(),
        num3_syntax(b, p),
    ensures
        p < num3_end(b, p) <= b.len(),
{
    lemma_step_bounds(b, p);
    lemma_step_bounds(b, tok_e(b, p));
    lemma_step_bounds(b, tok_e(b, tok_e(b, p)));
}

/// A facet record's tail stays within the stream and moves forward.
pub proof fn lemma_facet_tail_bounds(b: Seq<u8>, p: int)
    requires
        0 <= p <= b.len(),
    ensures
        facet_tail(b, p) matches Some(pr) ==> p < pr <= b.len(),
{
    reveal(facet_tail);
    lemma_step_bounds(b, p);
    match kw_step(b, p, Kw::Normal) {
        None => {},
        Some(p1) => {
            if num3_syntax(b, p1) {
                lemma_num3_bounds(b, p1);
                let p2 = num3_end(b, p1);
                lemma_step_bounds(b, p2);
                match kw_step(b, p2, Kw::Outer) {
                    None => {},
                    Some(p3) => {
                        lemma_step_bounds(b, p3);
                        match kw_step(b, p3, Kw::Loop) {
                            None => {},
                            Some(p4) => {
                                lemma_step_bounds(b, p4);
                                match kw_step(b, p4, Kw::Vertex) {
                                    None => {},
                                    Some(p5) => {
                                        if num3_syntax(b, p5) {
                                            lemma_num3_bounds(b, p5);
                                            let p6 = num3_end(b, p5);
                                            lemma_step_bounds(b, p6);
                                            match kw_step(b, p6, Kw::Vertex) {
                                                None => {},
                                                Some(p7) => {
                                                    if num3_syntax(b, p7) {
                                                        lemma_num3_bounds(b, p7);
                                                        let p8 = num3_end(b, p7);
                                                        lemma_step_bounds(b, p8);
                                                        match kw_step(b, p8, Kw::Vertex) {
                                                            None => {},
                                                            Some(p9) => {
                                                                if num3_syntax(b, p9) {
                                                                    lemma_num3_bounds(b, p9);
                                                                    let p10 = num3_end(b, p9);
                                                                    lemma_step_bounds(b, p10);
                                                                    match kw_step(b, p10, Kw::EndLoop) {
                                                                        None => {},
                                                                        Some(p11) => {
                                                                            lemma_step_bounds(b, p11);
                                                                        },
                                                                    }
                                                                }
                                                            },
                                                        }
                                                    }
                                                },
                                            }
                                        }
                                    },
                                }
                            },
                        }
                    },
                }
            }
        },
    }
}

/// Any fuel above the remaining stream length gives the facet count
/// the same answer.
pub proof fn lemma_facets_fuel(b: Seq<u8>, p: int, f1: nat, f2: nat)
    requires
        0 <= p <= b.len(),
        f1 > b.len() - p,
        f2 > b.len() - p,
    ensures
        facets_syntax(b, p, f1) == facets_syntax(b, p, f2),
    decreases f1,
{
    lemma_step_bounds(b, p);
    if tok_s(b, p) < b.len() && !kw_endsolid(b, tok_s(b, p), tok_e(b, p)) && kw_facet(
        b,
        tok_s(b, p),
        tok_e(b, p),
    ) {
        lemma_facet_tail_bounds(b, tok_e(b, p));
        match facet_tail(b, tok_e(b, p)) {
            None => {},
            Some(pr) => {
                lemma_facets_fuel(b, pr, (f1 - 1) as nat, (f2 - 1) as nat);
            },
        }
    }
}

/// The same, for the name zone.
pub proof fn lemma_name_fuel(b: Seq<u8>, p: int, f1: nat, f2: nat)
    requires
        0 <= p <= b.len(),
        f1 > b.len() - p,
        f2 > b.len() - p,
    ensures
        name_zone(b, p, f1) == name_zone(b, p, f2),
    decreases f1,
{
    lemma_step_bounds(b, p);
    if tok_s(b, p) < b.len() {
        if kw_facet(b, tok_s(b, p), tok_e(b, p)) || kw_endsolid(b, tok_s(b, p), tok_e(b, p)) {
            lemma_facets_fuel(b, p, f1, f2);
        } else {
            lemma_name_fuel(b, tok_e(b, p), (f1 - 1) as nat, (f2 - 1) as nat);
        }
    }
}

/// Consumes one facet record after its `facet` keyword: the
/// converted normal and vertices (absent where a literal's
/// magnitude has no finite encoding), and where the record ends.
#[verifier::rlimit(100)]
fn parse_facet(b: &Vec<u8>, e: usize) -> (r: Result<
    (Option<Vec3>, Option<Vec3>, Option<Vec3>, Option<Vec3>, usize),
    ParseError,
>)
    requires
        e <= b.len(),
    ensures
        match r {
            Ok(t) => {
                &&& facet_tail(b@, e as int) == Some(t.4 as int)
                &&& e < t.4 <= b@.len()
                &&& (t.0 matches Some(v) ==> vec3_finite(v))
                &&& (t.1 matches Some(v) ==> vec3_finite(v))
                &&& (t.2 matches Some(v) ==> vec3_finite(v))
                &&& (t.3 matches Some(v) ==> vec3_finite(v))
            },
            Err(err) => err == ParseError::Malformed && facet_tail(b@, e as int) matches None,
        },
{
    proof {
        reveal(facet_tail);
    }
    let mut p = expect_kw(b, e, Kw::Normal)?;
    let (n_opt, np) = read_num3(b, p)?;
    p = np;
    p = expect_kw(b, p, Kw::Outer)?;
    p = expect_kw(b, p, Kw::Loop)?;
    p = expect_kw(b, p, Kw::Vertex)?;
    let (v0_opt, np0) = read_num3(b, p)?;
    p = np0;
    p = expect_kw(b, p, Kw::Vertex)?;
    let (v1_opt, np1) = read_num3(b, p)?;
    p = np1;
    p = expect_kw(b, p, Kw::Vertex)?;
    let (v2_opt, np2) = read_num3(b, p)?;
    p = np2;
    p = expect_kw(b, p, Kw::EndLoop)?;
    p = expect_kw(b, p, Kw::EndFacet)?;
    Ok((n_opt, v0_opt, v1_opt, v2_opt, p))
}

/// Parses a text stream: the `solid` keyword and an optional name,
/// any number of facet records, and the closing `endsolid`. Each
/// facet contributes its three vertices and its facet normal,
/// duplicated to each vertex, to the mesh.
#[verifier::rlimit(100)]
pub fn parse_text(b: &Vec<u8>) -> (r: Result<Mesh, ParseError>)
    ensures
        text_load_result(b@, r),
{
    let mut p: usize;
    match next_token(b, 0) {
        None => { return Err(ParseError::Malformed) },
        Some((s, e)) => {
            if classify(b, s, e) != Kw::Solid {
                return Err(ParseError::Malformed);
            }
            p = e;
        },
    }
    proof {
        lemma_name_fuel(b@, p as int, (b@.len() + 1) as nat, (b@.len() + 1 - p) as nat);
    }
    let mut scanning = true;
    while scanning
        invariant
            p <= b@.len(),
            text_syntax(b@) == name_zone(b@, p as int, (b@.len() + 1 - p) as nat),
            !scanning ==> {
                let s = tok_s(b@, p as int);
                s < b@.len() && (kw_facet(b@, s, tok_e(b@, p as int)) || kw_endsolid(
                    b@,
                    s,
                    tok_e(b@, p as int),
                ))
            },
        decreases b@.len() - p, (if scanning { 1int } else { 0int }),
    {
        match next_token(b, p) {
            None => { return Err(ParseError::Malformed) },
            Some((s, e)) => {
                let k = classify(b, s, e);
                if k == Kw::Facet || k == Kw::EndSolid {
                    scanning = false;
                } else {
                    proof {
                        lemma_step_bounds(b@, p as int);
                        lemma_name_fuel(
                            b@,
                            e as int,
                            (b@.len() - p) as nat,
                            (b@.len() + 1 - e) as nat,
                        );
                    }
                    p = e;
                }
            },
        }
    }
    proof {
        lemma_facets_fuel(b@, p as int, (b@.len() + 1 - p) as nat, (b@.len() + 1 - p) as nat);
    }
    let ghost mut built: int = 0;
    let mut pending = false;
    let mut vertices: Vec<Vec3> = Vec::new();
    let mut normals: Vec<Vec3> = Vec::new();
    let mut in_body = true;
    while in_body
        invariant
            p <= b@.len(),
            built >= 0,
            in_body ==> add_facets(
                facets_syntax(b@, p as int, (b@.len() + 1 - p) as nat),
                built,
            ) == text_syntax(b@),
            !in_body ==> text_syntax(b@) == Some(built),
            !pending ==> vertices@.len() == 3 * built,
            vertices@.len() == normals@.len(),
            vertices@.len() % 3 == 0,
            forall|i: int|
                0 <= i < vertices@.len() ==> vec3_finite(#[trigger] vertices@[i]) && vec3_finite(
                    normals@[i],
                ),
            forall|i: int|
                0 <= i < normals@.len() ==> #[trigger] normals@[i] == normals@[3 * (i / 3)],
        decreases b@.len() - p, (if in_body { 1int } else { 0int }),
    {
        let ghost p_entry = p as int;
        match next_token(b, p) {
            None => { return Err(ParseError::Malformed) },
            Some((s, e)) => {
                let k = classify(b, s, e);
                if k == Kw::EndSolid {
                    in_body = false;
                } else if k == Kw::Facet {
                    let (n_opt, v0_opt, v1_opt, v2_opt, np) = parse_facet(b, e)?;
                    p = np;
                    proof {
                        assert(facets_syntax(
                            b@,
                            p_entry,
                            (b@.len() + 1 - p_entry) as nat,
                        ) == add_facets(
                            facets_syntax(b@, p as int, (b@.len() - p_entry) as nat),
                            1,
                        ));
                        lemma_facet_tail_bounds(b@, e as int);
                        lemma_facets_fuel(
                            b@,
                            p as int,
                            (b@.len() - p_entry) as nat,
                            (b@.len() + 1 - p) as nat,
                        );
                        built = built + 1;
                    }
                    match (n_opt, v0_opt, v1_opt, v2_opt) {
                        (Some(n), Some(v0), Some(v1), Some(v2)) => {
                            let ghost old_len = vertices@.len();
                            let ghost old_vertices = vertices@;
                            let ghost old_normals = normals@;
                            vertices.push(v0);
                            vertices.push(v1);
                            vertices.push(v2);
                            normals.push(n);
                            normals.push(n);
                            normals.push(n);
                            proof {
                                let kk = old_len as int;
                                assert((kk + 3) % 3 == 0) by (nonlinear_arith)
                                    requires kk % 3 == 0;
                                assert forall|i: int|
                                    0 <= i < normals@.len() implies #[trigger] normals@[i]
                                    == normals@[3 * (i / 3)] by {
                                    if i < kk {
                                        assert(0 <= 3 * (i / 3) <= i) by (nonlinear_arith)
                                            requires 0 <= i;
                                        assert(normals@[i] == old_normals[i]);
                                        assert(old_normals[i] == old_normals[3 * (i / 3)]);
                                    } else {
                                        assert(3 * (i / 3) == kk) by (nonlinear_arith)
                                            requires kk % 3 == 0, kk <= i < kk + 3;
                                        assert(normals@[i] == n && normals@[kk] == n);
                                    }
                                }
                                assert forall|i: int|
                                    0 <= i < vertices@.len() implies vec3_finite(
                                    #[trigger] vertices@[i],
                                ) && vec3_finite(normals@[i]) by {
                                    if i < kk {
                                        assert(vertices@[i] == old_vertices[i]);
                                        assert(normals@[i] == old_normals[i]);
                                        assert(vec3_finite(old_vertices[i]) && vec3_finite(
                                            old_normals[i],
                                        ));
                                    } else {
                                        assert(vertices@[i] == v0 || vertices@[i] == v1
                                            || vertices@[i] == v2);
                                        assert(normals@[i] == n);
                                    }
                                }
                            }
                        },
                        _ => {
                            pending = true;
                        },
                    }
                } else {
                    return Err(ParseError::Malformed);
                }
            },
        }
    }
    if pending {
        return Err(ParseError::NonFinite);
    }
    Ok(Mesh { vertices, normals })
}

} // verus!
