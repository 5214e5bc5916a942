use vstd::prelude::*;
use vstd::arithmetic::div_mod::{lemma_div_is_ordered, lemma_div_multiples_vanish, lemma_div_pos_is_pos};

verus! {

/// Fixed length of every semantic embedding vector.
pub const EMBEDDING_DIM: usize = 768;

/// All similarity scores are fixed-point values scaled by this factor:
/// a score of 1.0 is stored as 1_000_000.
pub const SIMILARITY_SCALE: i64 = 1_000_000;

/// Dot product of two equally long integer vectors.
pub open spec fn dot(a: Seq<i32>, b: Seq<i32>) -> int
    recommends
        a.len() == b.len(),
    decreases a.len(),
{
    if a.len() == 0 {
        0
    } else {
        dot(a.drop_last(), b.drop_last()) + (a.last() as int) * (b.last() as int)
    }
}

/// Squared Euclidean norm of an integer vector.
pub open spec fn norm_sq(a: Seq<i32>) -> int {
    dot(a, a)
}

/// The floor of the square root of a natural number.
pub open spec fn sqrt_floor(n: nat) -> nat
    decreases n,
{
    if n == 0 {
        0
    } else {
        let s = sqrt_floor((n - 1) as nat);
        if (s + 1) * (s + 1) <= n {
            s + 1
        } else {
            s
        }
    }
}

/// `r` is the floor of the square root of `n`.
pub open spec fn is_sqrt_floor(n: nat, r: nat) -> bool {
    r * r <= n < (r + 1) * (r + 1)
}

proof fn lemma_sqrt_floor_correct(n: nat)
    ensures
        is_sqrt_floor(n, sqrt_floor(n)),
    decreases n,
{
    if n > 0 {
        let m = (n - 1) as nat;
        lemma_sqrt_floor_correct(m);
        let s = sqrt_floor(m);
        assert(s * s <= m < (s + 1) * (s + 1));
        if (s + 1) * (s + 1) <= n {
            assert(sqrt_floor(n) == s + 1);
            assert(n <= (s + 1) * (s + 1));
            assert((s + 1) * (s + 1) < (s + 2) * (s + 2)) by (nonlinear_arith)
                requires s >= 0;
            assert(is_sqrt_floor(n, s + 1));
        } else {
            assert(sqrt_floor(n) == s);
            assert(is_sqrt_floor(n, s));
        }
    } else {
        assert(sqrt_floor(n) == 0);
        assert(0 * 0 <= n < (0 + 1) * (0 + 1)) by (nonlinear_arith)
            requires n == 0;
    }
    assert(is_sqrt_floor(n, sqrt_floor(n)));
}

proof fn lemma_sqrt_floor_unique(n: nat, r: nat)
    requires
        is_sqrt_floor(n, r),
    ensures
        r == sqrt_floor(n),
{
    lemma_sqrt_floor_correct(n);
    let s = sqrt_floor(n);
    if r < s {
        assert((r + 1) * (r + 1) <= s * s) by (nonlinear_arith)
            requires r + 1 <= s;
    }
    if s < r {
        assert((s + 1) * (s + 1) <= r * r) by (nonlinear_arith)
            requires s + 1 <= r;
    }
}

/// Cosine similarity of two embedding vectors, scaled by
/// `SIMILARITY_SCALE` and clamped to [-SIMILARITY_SCALE, SIMILARITY_SCALE].
///
/// Defined as 0 when the vectors differ in length, are empty, or when
/// either has zero norm. The magnitude is |a.b| * SCALE divided by the
/// product of the integer square roots of the squared norms, so the
/// clamp absorbs the rounding of the square roots.
pub open spec fn cosine_spec(a: Seq<i32>, b: Seq<i32>) -> int {
    if a.len() != b.len() || a.len() == 0 {
        0
    } else if norm_sq(a) == 0 || norm_sq(b) == 0 {
        0
    } else {
        let d = dot(a, b);
        let ra = sqrt_floor(norm_sq(a) as nat) as int;
        let rb = sqrt_floor(norm_sq(b) as nat) as int;
        let mag = (if d < 0 { -d } else { d }) * (SIMILARITY_SCALE as int) / (ra * rb);
        let clamped = if mag > SIMILARITY_SCALE as int { SIMILARITY_SCALE as int } else { mag };
        if d < 0 { -clamped } else { clamped }
    }
}

/// The squared norm of a vector is never negative.
pub proof fn lemma_norm_sq_nonneg(a: Seq<i32>)
    ensures
        norm_sq(a) >= 0,
    decreases a.len(),
{
    if a.len() == 0 {
    } else {
        lemma_norm_sq_nonneg(a.drop_last());
        assert(a.drop_last() == a.drop_last());
        assert((a.last() as int) * (a.last() as int) >= 0) by (nonlinear_arith);
    }
}

/// A vector with a nonzero entry has a positive squared norm.
pub proof fn lemma_norm_sq_pos(a: Seq<i32>, i: int)
    requires
        0 <= i < a.len(),
        a[i] != 0,
    ensures
        norm_sq(a) > 0,
    decreases a.len(),
{
    lemma_norm_sq_nonneg(a.drop_last());
    if i == a.len() - 1 {
        assert((a.last() as int) * (a.last() as int) > 0) by (nonlinear_arith)
            requires a.last() != 0;
    } else {
        lemma_norm_sq_pos(a.drop_last(), i);
        assert((a.last() as int) * (a.last() as int) >= 0) by (nonlinear_arith);
    }
}

/// Cosine similarity is always within [-1, 1] in scaled form.
pub proof fn lemma_cosine_bounds(a: Seq<i32>, b: Seq<i32>)
    ensures
        -(SIMILARITY_SCALE as int) <= cosine_spec(a, b) <= SIMILARITY_SCALE as int,
{
    if a.len() == b.len() && a.len() > 0 && norm_sq(a) != 0 && norm_sq(b) != 0 {
        lemma_norm_sq_nonneg(a);
        lemma_norm_sq_nonneg(b);
        lemma_sqrt_floor_correct(norm_sq(a) as nat);
        lemma_sqrt_floor_correct(norm_sq(b) as nat);
        let d = dot(a, b);
        let ra = sqrt_floor(norm_sq(a) as nat) as int;
        let rb = sqrt_floor(norm_sq(b) as nat) as int;
        assert(ra >= 1 && rb >= 1) by (nonlinear_arith)
            requires
                is_sqrt_floor(norm_sq(a) as nat, ra as nat),
                is_sqrt_floor(norm_sq(b) as nat, rb as nat),
                norm_sq(a) >= 1,
                norm_sq(b) >= 1,
                ra == sqrt_floor(norm_sq(a) as nat),
                rb == sqrt_floor(norm_sq(b) as nat);
        assert(ra * rb >= 1) by (nonlinear_arith)
            requires ra >= 1, rb >= 1;
        let ad = if d < 0 { -d } else { d };
        lemma_div_pos_is_pos(ad * (SIMILARITY_SCALE as int), ra * rb);
    }
}

/// Cosine similarity of a nonzero vector with itself is exactly 1 in
/// scaled form.
pub proof fn lemma_cosine_self(a: Seq<i32>, i: int)
    requires
        0 <= i < a.len(),
        a[i] != 0,
    ensures
        cosine_spec(a, a) == SIMILARITY_SCALE as int,
{
    lemma_norm_sq_pos(a, i);
    let n = norm_sq(a);
    lemma_sqrt_floor_correct(n as nat);
    let r = sqrt_floor(n as nat) as int;
    assert(r >= 1) by (nonlinear_arith)
        requires is_sqrt_floor(n as nat, r as nat), n >= 1, r == sqrt_floor(n as nat);
    assert(r * r >= 1) by (nonlinear_arith)
        requires r >= 1;
    assert(r * r <= n);
    let scale = SIMILARITY_SCALE as int;
    assert((r * r) * scale <= n * scale) by (nonlinear_arith)
        requires r * r <= n, scale > 0;
    lemma_div_is_ordered((r * r) * scale, n * scale, r * r);
    lemma_div_multiples_vanish(scale, r * r);
    assert((r * r) * scale == scale * (r * r)) by (nonlinear_arith);
    assert(n * scale / (r * r) >= scale);
}

/// Integer square root: the floor of the square root of `n`.
///
/// Accepts any value up to the largest squared norm an embedding can
/// reach (EMBEDDING_DIM * i32::MIN^2 is far below 2^72).
fn isqrt(n: u128) -> (r: u128)
    requires
        n < 0x10_0000_0000_0000_0000_0000u128,  // 2^84
    ensures
        r as nat == sqrt_floor(n as nat),
        r * r <= n,
        (r + 1) * (r + 1) > n,
        r <= 0x800_0000_0000u128,
{
    let mut lo: u128 = 0;
    let mut hi: u128 = 0x800_0000_0000u128;  // 2^43, and 2^86 > n
    assert(hi * hi > n) by (nonlinear_arith)
        requires
            hi == 0x800_0000_0000u128,
            n < 0x10_0000_0000_0000_0000_0000u128;
    while lo + 1 < hi
        invariant
            lo < hi,
            lo * lo <= n,
            hi * hi > n,
            hi <= 0x800_0000_0000u128,
        decreases hi - lo,
    {
        let mid: u128 = lo + (hi - lo) / 2;
        assert(lo < mid < hi);
        assert(mid * mid <= 0x4000_0000_0000_0000_0000_0000u128) by (nonlinear_arith)
            requires mid <= 0x800_0000_0000u128;
        if mid * mid <= n {
            lo = mid;
        } else {
            hi = mid;
        }
    }
    proof {
        assert(is_sqrt_floor(n as nat, lo as nat)) by {
            assert(lo + 1 == hi);
        }
        lemma_sqrt_floor_unique(n as nat, lo as nat);
    }
    lo
}

/// Cosine similarity of two embedding vectors in scaled fixed point:
/// 1_000_000 means 1.0. Returns exactly `cosine_spec` of the inputs,
/// which is 0 for mismatched lengths, empty vectors, or zero norms.
pub fn cosine_similarity(v1: &Vec<i32>, v2: &Vec<i32>) -> (r: i64)
    requires
        v1@.len() <= 1_000_000,
    ensures
        r == cosine_spec(v1@, v2@),
        -SIMILARITY_SCALE <= r <= SIMILARITY_SCALE,
{
    proof {
        lemma_cosine_bounds(v1@, v2@);
    }
    if v1.len() != v2.len() || v1.len() == 0 {
        return 0;
    }
    let n = v1.len();
    let mut d: i128 = 0;
    let mut na: i128 = 0;
    let mut nb: i128 = 0;
    let max_p: i128 = 0x4000_0000_0000_0000i128;  // 2^62 bounds |x*y| for i32 x, y
    let mut i: usize = 0;
    while i < n
        invariant
            n == v1@.len(),
            n == v2@.len(),
            n <= 1_000_000,
            i <= n,
            d == dot(v1@.take(i as int), v2@.take(i as int)),
            na == norm_sq(v1@.take(i as int)),
            nb == norm_sq(v2@.take(i as int)),
            -(i as i128) * max_p <= d <= (i as i128) * max_p,
            0 <= na <= (i as i128) * max_p,
            0 <= nb <= (i as i128) * max_p,
            max_p == 0x4000_0000_0000_0000i128,
        decreases n - i,
    {
        let x = v1[i] as i128;
        let y = v2[i] as i128;
        proof {
            assert(-max_p <= x * y <= max_p) by (nonlinear_arith)
                requires
                    -0x8000_0000 <= x <= 0x7fff_ffff,
                    -0x8000_0000 <= y <= 0x7fff_ffff,
                    max_p == 0x4000_0000_0000_0000i128;
            assert(0 <= x * x <= max_p) by (nonlinear_arith)
                requires -0x8000_0000 <= x <= 0x7fff_ffff, max_p == 0x4000_0000_0000_0000i128;
            assert(0 <= y * y <= max_p) by (nonlinear_arith)
                requires -0x8000_0000 <= y <= 0x7fff_ffff, max_p == 0x4000_0000_0000_0000i128;
            assert(v1@.take(i + 1 as int).drop_last() =~= v1@.take(i as int));
            assert(v2@.take(i + 1 as int).drop_last() =~= v2@.take(i as int));
        }
        d = d + x * y;
        na = na + x * x;
        nb = nb + y * y;
        i = i + 1;
    }
    proof {
        assert(v1@.take(n as int) =~= v1@);
        assert(v2@.take(n as int) =~= v2@);
    }
    if na == 0 || nb == 0 {
        return 0;
    }
    let ra: u128 = isqrt(na as u128);
    let rb: u128 = isqrt(nb as u128);
    proof {
        assert(ra >= 1 && rb >= 1) by (nonlinear_arith)
            requires
                (ra + 1) * (ra + 1) > na as u128,
                (rb + 1) * (rb + 1) > nb as u128,
                na >= 1,
                nb >= 1;
        assert(ra * rb >= 1 && ra * rb <= 0x4000_0000_0000_0000_0000_0000u128) by (nonlinear_arith)
            requires
                1 <= ra <= 0x800_0000_0000u128,
                1 <= rb <= 0x800_0000_0000u128;
    }
    let neg = d < 0;
    let ad: u128 = if neg { (-d) as u128 } else { d as u128 };
    let mag: u128 = ad * 1_000_000u128 / (ra * rb);
    proof {
        lemma_div_pos_is_pos(ad as int * 1_000_000, (ra * rb) as int);
    }
    let clamped: i64 = if mag > 1_000_000u128 { 1_000_000i64 } else { mag as i64 };
    if neg {
        -clamped
    } else {
        clamped
    }
}

} // verus!
