use vstd::prelude::*;
use crate::embedding::SIMILARITY_SCALE;
use vstd::arithmetic::div_mod::{lemma_div_is_ordered, lemma_div_multiples_vanish, lemma_div_pos_is_pos};

verus! {

/// Levenshtein edit distance between two character sequences:
/// the least number of insertions, deletions and substitutions that
/// turn one into the other.
pub open spec fn lev(a: Seq<char>, b: Seq<char>) -> nat
    decreases a.len() + b.len(),
{
    if a.len() == 0 {
        b.len()
    } else if b.len() == 0 {
        a.len()
    } else {
        let cost: nat = if a.last() == b.last() { 0 } else { 1 };
        let d1 = lev(a.drop_last(), b) + 1;
        let d2 = lev(a, b.drop_last()) + 1;
        let d3 = lev(a.drop_last(), b.drop_last()) + cost;
        if d1 <= d2 && d1 <= d3 {
            d1
        } else if d2 <= d3 {
            d2
        } else {
            d3
        }
    }
}

/// The edit distance never exceeds the length of the longer sequence.
pub proof fn lemma_lev_le_max(a: Seq<char>, b: Seq<char>)
    ensures
        lev(a, b) <= a.len() || lev(a, b) <= b.len(),
        lev(a, b) <= if a.len() >= b.len() { a.len() } else { b.len() },
    decreases a.len() + b.len(),
{
    if a.len() == 0 || b.len() == 0 {
    } else {
        lemma_lev_le_max(a.drop_last(), b);
        lemma_lev_le_max(a, b.drop_last());
        lemma_lev_le_max(a.drop_last(), b.drop_last());
    }
}

/// Levenshtein distance, computed by the usual one-row dynamic
/// programme over prefixes and proved equal to the recursive
/// definition `lev`.
pub fn levenshtein(a: &str, b: &str) -> (r: usize)
    requires
        a@.len() < usize::MAX,
        b@.len() < usize::MAX,
    ensures
        r == lev(a@, b@),
{
    let la: usize = a.unicode_len();
    let lb: usize = b.unicode_len();
    let mut row: Vec<u64> = Vec::new();
    let mut j: usize = 0;
    while j <= lb
        invariant
            lb == b@.len(),
            lb < usize::MAX,
            j <= lb + 1,
            row@.len() == j,
            forall|k: int| 0 <= k < j ==> row@[k] == lev(a@.take(0), b@.take(k)),
        decreases lb + 1 - j,
    {
        proof {
            assert(a@.take(0) =~= Seq::<char>::empty());
            assert(b@.take(j as int).len() == j);
            assert(lev(a@.take(0), b@.take(j as int)) == j);
        }
        row.push(j as u64);
        j = j + 1;
    }
    let mut i: usize = 1;
    while i <= la
        invariant
            la == a@.len(),
            lb == b@.len(),
            la < usize::MAX,
            lb < usize::MAX,
            1 <= i <= la + 1,
            row@.len() == lb + 1,
            forall|k: int| 0 <= k <= lb ==> row@[k] == lev(a@.take(i - 1), b@.take(k)),
        decreases la + 1 - i,
    {
        let mut prev_diag: u64 = row[0];
        proof {
            assert(a@.take(i as int).len() == i);
            assert(lev(a@.take(i as int), b@.take(0)) == i);
        }
        row.set(0, i as u64);
        let mut j2: usize = 1;
        while j2 <= lb
            invariant
                la == a@.len(),
                lb == b@.len(),
                la < usize::MAX,
                lb < usize::MAX,
                1 <= i <= la,
                1 <= j2 <= lb + 1,
                row@.len() == lb + 1,
                prev_diag == lev(a@.take(i - 1), b@.take(j2 - 1)),
                forall|k: int| 0 <= k < j2 ==> row@[k] == lev(a@.take(i as int), b@.take(k)),
                forall|k: int| j2 <= k <= lb ==> row@[k] == lev(a@.take(i - 1), b@.take(k)),
            decreases lb + 1 - j2,
        {
            let ca = a.get_char(i - 1);
            let cb = b.get_char(j2 - 1);
            let cost: u64 = if ca == cb { 0 } else { 1 };
            proof {
                lemma_lev_le_max(a@.take(i - 1), b@.take(j2 as int));
                lemma_lev_le_max(a@.take(i as int), b@.take(j2 - 1));
                lemma_lev_le_max(a@.take(i - 1), b@.take(j2 - 1));
            }
            let up: u64 = row[j2] + 1;
            let left: u64 = row[j2 - 1] + 1;
            let diag: u64 = prev_diag + cost;
            let cur: u64 = if up <= left && up <= diag {
                up
            } else if left <= diag {
                left
            } else {
                diag
            };
            proof {
                let ai = a@.take(i as int);
                let bj = b@.take(j2 as int);
                assert(ai.len() == i && bj.len() == j2);
                assert(ai.drop_last() =~= a@.take(i - 1));
                assert(bj.drop_last() =~= b@.take(j2 - 1));
                assert(ai.last() == a@[i - 1]);
                assert(bj.last() == b@[j2 - 1]);
                assert(ai.take(i - 1) =~= a@.take(i - 1));
                assert(cur == lev(ai, bj));
            }
            prev_diag = row[j2];
            row.set(j2, cur);
            j2 = j2 + 1;
        }
        i = i + 1;
    }
    proof {
        assert(a@.take(la as int) =~= a@);
        assert(b@.take(lb as int) =~= b@);
        lemma_lev_le_max(a@, b@);
    }
    let result: u64 = row[lb];
    if la >= lb {
        assert(result <= la);
        result as usize
    } else {
        assert(result <= lb);
        result as usize
    }
}

/// The larger of two sequence lengths.
pub open spec fn max_len(a: Seq<char>, b: Seq<char>) -> nat {
    if a.len() >= b.len() { a.len() } else { b.len() }
}

/// Structural similarity of two strings, scaled by `SIMILARITY_SCALE`:
/// 1 minus the edit distance divided by the longer length, and 1 when
/// both strings are empty.
pub open spec fn string_similarity_spec(a: Seq<char>, b: Seq<char>) -> int {
    if max_len(a, b) == 0 {
        SIMILARITY_SCALE as int
    } else {
        SIMILARITY_SCALE - (SIMILARITY_SCALE * lev(a, b)) / (max_len(a, b) as int)
    }
}

/// The scaled structural similarity always lies in [0, 1].
pub proof fn lemma_string_similarity_bounds(a: Seq<char>, b: Seq<char>)
    ensures
        0 <= string_similarity_spec(a, b) <= SIMILARITY_SCALE as int,
{
    if max_len(a, b) != 0 {
        let m = max_len(a, b) as int;
        let d = lev(a, b) as int;
        lemma_lev_le_max(a, b);
        lemma_div_pos_is_pos(SIMILARITY_SCALE * d, m);
        assert(SIMILARITY_SCALE * d <= SIMILARITY_SCALE * m) by (nonlinear_arith)
            requires 0 <= d <= m;
        lemma_div_is_ordered(SIMILARITY_SCALE * d, SIMILARITY_SCALE * m, m);
        lemma_div_multiples_vanish(SIMILARITY_SCALE as int, m);
        assert(SIMILARITY_SCALE * m == m * (SIMILARITY_SCALE as int)) by (nonlinear_arith);
    }
}

/// Structural similarity in scaled fixed point, from the edit
/// distance: 1_000_000 means identical shape, 0 means nothing shared.
pub fn string_similarity(s1: &str, s2: &str) -> (r: i64)
    requires
        s1@.len() < usize::MAX,
        s2@.len() < usize::MAX,
    ensures
        r == string_similarity_spec(s1@, s2@),
        0 <= r <= SIMILARITY_SCALE,
{
    proof {
        lemma_string_similarity_bounds(s1@, s2@);
    }
    let l1: usize = s1.unicode_len();
    let l2: usize = s2.unicode_len();
    let ml: usize = if l1 >= l2 { l1 } else { l2 };
    if ml == 0 {
        return SIMILARITY_SCALE;
    }
    let dist: usize = levenshtein(s1, s2);
    let scaled: u128 = (1_000_000u128 * (dist as u128)) / (ml as u128);
    proof {
        let m = ml as int;
        let d = dist as int;
        lemma_lev_le_max(s1@, s2@);
        lemma_div_pos_is_pos(SIMILARITY_SCALE * d, m);
        assert(SIMILARITY_SCALE * d <= SIMILARITY_SCALE * m) by (nonlinear_arith)
            requires 0 <= d <= m;
        lemma_div_is_ordered(SIMILARITY_SCALE * d, SIMILARITY_SCALE * m, m);
        lemma_div_multiples_vanish(SIMILARITY_SCALE as int, m);
        assert(SIMILARITY_SCALE * m == m * (SIMILARITY_SCALE as int)) by (nonlinear_arith);
    }
    1_000_000i64 - (scaled as i64)
}

} // verus!
