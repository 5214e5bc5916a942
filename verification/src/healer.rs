use vstd::prelude::*;
use crate::embedding::{cosine_spec, cosine_similarity, EMBEDDING_DIM, SIMILARITY_SCALE};
use crate::locator::{base64_decode_of, image_parses};
use crate::perception::{Candidate, PerceptionBackend, mock_embedding, mock_embedding_from_seed};
use crate::strsim::{string_similarity, string_similarity_spec};

verus! {

/// A healing request: the reference that stopped matching (kept for
/// reporting only), the element's last known embedding, and the
/// current view to re-scan.
#[derive(Debug)]
pub struct HealRequest {
    pub failed_selector: String,
    pub last_known_embedding: Vec<i32>,
    pub current_image: String,
}

/// The healer's answer: whether a replacement cleared the threshold,
/// the replacement reference, the best combined score found, a
/// reason, and a human-readable audit trail.
#[derive(Debug)]
pub struct HealResult {
    pub healed: bool,
    pub new_selector: String,
    pub similarity_score_micro: i64,
    pub reason: String,
    pub audit_trail: Vec<String>,
}

/// Why a healing call failed outright rather than reporting a low
/// score.
#[derive(Clone, Copy, Debug, PartialEq, Eq, Structural)]
pub enum HealError {
    /// The last known embedding does not have the fixed dimension.
    DimensionMismatch,
    /// The current view could not be decoded.
    DecodeError,
}

/// Weight of the visual (embedding) similarity when a structural
/// label is available, in thousandths.
pub const VISUAL_WEIGHT_MILLI: i64 = 600;

/// Weight of the structural (string) similarity when a label is
/// available, in thousandths.
pub const STRUCTURAL_WEIGHT_MILLI: i64 = 400;

/// Combined score of one candidate against the lost reference, in
/// thousandths of the scaled similarity: visual and structural
/// similarity mixed 0.6/0.4 when the candidate carries a label, else
/// visual similarity alone.
pub open spec fn combined_score_raw(selector: Seq<char>, emb: Seq<i32>, c: Candidate) -> int {
    match c.label {
        Some(l) => VISUAL_WEIGHT_MILLI * cosine_spec(emb, c.embedding@)
            + STRUCTURAL_WEIGHT_MILLI * string_similarity_spec(selector, l@),
        None => 1000 * cosine_spec(emb, c.embedding@),
    }
}

/// The best combined score over a candidate list, never below zero
/// (an empty scan scores zero).
pub open spec fn best_score_raw(selector: Seq<char>, emb: Seq<i32>, cands: Seq<Candidate>) -> int
    decreases cands.len(),
{
    if cands.len() == 0 {
        0
    } else {
        let prev = best_score_raw(selector, emb, cands.drop_last());
        let cur = combined_score_raw(selector, emb, cands.last());
        if cur > prev {
            cur
        } else {
            prev
        }
    }
}

/// Index of the candidate holding the best combined score, the
/// earliest one among equals, or -1 when no candidate scores above
/// zero.
pub open spec fn best_score_idx(selector: Seq<char>, emb: Seq<i32>, cands: Seq<Candidate>) -> int
    decreases cands.len(),
{
    if cands.len() == 0 {
        -1
    } else {
        let p = best_score_idx(selector, emb, cands.drop_last());
        let prev = best_score_raw(selector, emb, cands.drop_last());
        let cur = combined_score_raw(selector, emb, cands.last());
        if cur > prev {
            cands.len() - 1
        } else {
            p
        }
    }
}

/// The best score never drops below zero.
pub proof fn lemma_best_score_nonneg(selector: Seq<char>, emb: Seq<i32>, cands: Seq<Candidate>)
    ensures
        best_score_raw(selector, emb, cands) >= 0,
    decreases cands.len(),
{
    if cands.len() > 0 {
        lemma_best_score_nonneg(selector, emb, cands.drop_last());
    }
}

/// Recovers a broken element reference by similarity search over the
/// candidates currently visible. The threshold is fixed for the life
/// of one healer; a different threshold takes a new healer.
pub struct SemanticHealer {
    threshold_micro: i64,
}

impl SemanticHealer {
    /// The threshold a combined score must strictly clear, fixed for
    /// the life of the healer.
    pub closed spec fn spec_threshold(self) -> i64 {
        self.threshold_micro
    }

    /// The threshold a combined score must strictly clear.
    pub fn threshold(&self) -> (r: i64)
        ensures
            r == self.spec_threshold(),
    {
        self.threshold_micro
    }

    /// The default healer: threshold 0.85 of the scaled similarity.
    pub fn new() -> (r: SemanticHealer)
        ensures
            r.spec_threshold() == 850_000,
    {
        SemanticHealer { threshold_micro: 850_000 }
    }

    /// A healer with a caller-chosen threshold.
    pub fn with_threshold(threshold_micro: i64) -> (r: SemanticHealer)
        requires
            0 <= threshold_micro <= SIMILARITY_SCALE,
        ensures
            r.spec_threshold() == threshold_micro,
    {
        SemanticHealer { threshold_micro }
    }

    /// Scores every candidate against the lost reference — the full
    /// list, no early exit — and reports the best. Healing succeeds
    /// exactly when the best combined score strictly clears the
    /// threshold; the reported score is the best score whether or not
    /// it cleared.
    pub fn score_candidates(
        &self,
        failed_selector: &str,
        last_known_embedding: &Vec<i32>,
        candidates: &Vec<Candidate>,
    ) -> (r: HealResult)
        requires
            self.spec_threshold() >= 0,
            last_known_embedding@.len() == EMBEDDING_DIM,
            failed_selector@.len() < 0xFFFF_FFFFu64,
            forall|i: int| 0 <= i < candidates@.len() ==> (#[trigger] candidates@[i]).wf(),
        ensures
            r.similarity_score_micro == best_score_raw(
                failed_selector@,
                last_known_embedding@,
                candidates@,
            ) / 1000,
            r.healed == (r.similarity_score_micro > self.spec_threshold()),
            r.healed ==> r.similarity_score_micro > self.spec_threshold(),
            0 <= r.similarity_score_micro <= SIMILARITY_SCALE,
            r.healed ==> {
                let w = best_score_idx(failed_selector@, last_known_embedding@, candidates@);
                &&& 0 <= w < candidates@.len()
                &&& r.new_selector@ == match candidates@[w].label {
                    Some(l) => l@,
                    None => Seq::<char>::empty(),
                }
            },
            !r.healed ==> r.new_selector@ == Seq::<char>::empty(),
    {
        let ghost sel = failed_selector@;
        let ghost emb = last_known_embedding@;
        let mut best_raw: i64 = 0;
        let mut best_idx: usize = 0;
        let mut has_best: bool = false;
        let n = candidates.len();
        let mut i: usize = 0;
        while i < n
            invariant
                n == candidates@.len(),
                last_known_embedding@.len() == EMBEDDING_DIM,
                failed_selector@.len() < 0xFFFF_FFFFu64,
                forall|k: int| 0 <= k < n ==> (#[trigger] candidates@[k]).wf(),
                i <= n,
                sel == failed_selector@,
                emb == last_known_embedding@,
                best_raw == best_score_raw(sel, emb, candidates@.take(i as int)),
                has_best ==> best_idx < i && best_idx as int == best_score_idx(
                    sel,
                    emb,
                    candidates@.take(i as int),
                ),
                !has_best ==> best_score_idx(sel, emb, candidates@.take(i as int)) == -1
                    && best_raw == 0,
                -1_000_000_000 <= best_raw <= 1_000_000_000,
            decreases n - i,
        {
            let c = &candidates[i];
            let visual: i64 = cosine_similarity(last_known_embedding, &c.embedding);
            let raw: i64 = match &c.label {
                Some(l) => {
                    let structural: i64 = string_similarity(failed_selector, l.as_str());
                    600 * visual + 400 * structural
                },
                None => 1000 * visual,
            };
            proof {
                assert(raw == combined_score_raw(sel, emb, candidates@[i as int]));
                assert(candidates@.take(i + 1).drop_last() =~= candidates@.take(i as int));
                assert(candidates@.take(i + 1).last() == candidates@[i as int]);
            }
            if raw > best_raw {
                best_raw = raw;
                best_idx = i;
                has_best = true;
            }
            i = i + 1;
        }
        proof {
            assert(candidates@.take(n as int) =~= candidates@);
            lemma_best_score_nonneg(sel, emb, candidates@);
        }
        proof {
            assert(best_raw >= 0);
        }
        let score_micro: i64 = ((best_raw as u64) / 1000u64) as i64;
        proof {
            assert(score_micro == best_score_raw(sel, emb, candidates@) / 1000);
            assert(0 <= score_micro <= SIMILARITY_SCALE);
        }
        let healed: bool = score_micro > self.threshold_micro;
        proof {
            if healed {
                assert(score_micro >= 1);
                assert(best_raw >= 1);
                assert(has_best);
            }
        }
        let new_selector: String = if healed {
            match &candidates[best_idx].label {
                Some(l) => l.clone(),
                None => String::new(),
            }
        } else {
            String::new()
        };
        let reason: String = if healed {
            String::from_str("combined similarity cleared the threshold")
        } else {
            String::from_str("no candidate cleared the threshold")
        };
        let mut audit_trail: Vec<String> = Vec::new();
        audit_trail.push(String::from_str("scored every visible candidate against the lost reference"));
        audit_trail.push(reason.clone());
        HealResult {
            healed,
            new_selector,
            similarity_score_micro: score_micro,
            reason,
            audit_trail,
        }
    }

    /// Heals a broken reference against the current view: validates
    /// the embedding dimension, decodes the view, re-runs detection,
    /// and scores every candidate. Never reports success at or below
    /// the threshold, whatever the backend returned.
    pub fn heal<B: PerceptionBackend>(&self, backend: &B, request: &HealRequest) -> (r: Result<
        HealResult,
        HealError,
    >)
        requires
            self.spec_threshold() >= 0,
            request.failed_selector@.len() < 0xFFFF_FFFFu64,
        ensures
            (request.last_known_embedding@.len() != EMBEDDING_DIM) <==> r == Err::<
                HealResult,
                HealError,
            >(HealError::DimensionMismatch),
            request.last_known_embedding@.len() == EMBEDDING_DIM && base64_decode_of(
                request.current_image@,
            ) is None ==> r == Err::<HealResult, HealError>(HealError::DecodeError),
            request.last_known_embedding@.len() == EMBEDDING_DIM && (base64_decode_of(
                request.current_image@,
            ) matches Some(bytes) && !image_parses(bytes)) ==> r == Err::<HealResult, HealError>(
                HealError::DecodeError,
            ),
            request.last_known_embedding@.len() == EMBEDDING_DIM && (base64_decode_of(
                request.current_image@,
            ) matches Some(bytes) && image_parses(bytes)) ==> r is Ok,
            r matches Ok(h) ==> {
                &&& h.healed == (h.similarity_score_micro > self.spec_threshold())
                &&& 0 <= h.similarity_score_micro <= SIMILARITY_SCALE
            },
    {
        if request.last_known_embedding.len() != EMBEDDING_DIM {
            return Err(HealError::DimensionMismatch);
        }
        let bytes = match crate::locator::base64_decode(request.current_image.as_str()) {
            Ok(b) => b,
            Err(_) => {
                return Err(HealError::DecodeError);
            },
        };
        let img = match crate::locator::image_from_bytes(&bytes) {
            Ok(i) => i,
            Err(_) => {
                return Err(HealError::DecodeError);
            },
        };
        let candidates = backend.detect(&img, request.failed_selector.as_str());
        Ok(self.score_candidates(
            request.failed_selector.as_str(),
            &request.last_known_embedding,
            &candidates,
        ))
    }

    /// A deterministic stand-in embedding derived from a string, for
    /// exercising the healer without a vision model.
    pub fn mock_embedding_from_string(&self, s: &str) -> (r: Vec<i32>)
        ensures
            r@ == mock_embedding(char_sum(s@)),
    {
        let len: usize = s.unicode_len();
        let mut seed: u64 = 0;
        let mut i: usize = 0;
        while i < len
            invariant
                len == s@.len(),
                i <= len,
                seed == char_sum(s@.take(i as int)) % 65536,
            decreases len - i,
        {
            let c = s.get_char(i);
            seed = (seed + ((c as u32 as u64) % 65536)) % 65536;
            i = i + 1;
            proof {
                assert(s@.take(i as int).drop_last() =~= s@.take(i - 1));
                let a = char_sum(s@.take(i - 1)) as int;
                let b = ((s@[i - 1] as u32) as u64) as int;
                assert(char_sum(s@.take(i as int)) == a + b);
                vstd::arithmetic::div_mod::lemma_add_mod_noop(a, b, 65536);
            }
        }
        proof {
            assert(s@.take(len as int) =~= s@);
        }
        let r = mock_embedding_from_seed(seed);
        proof {
            assert(r@ =~= mock_embedding(char_sum(s@)));
        }
        r
    }
}

/// Sum of the code points of a character sequence.
pub open spec fn char_sum(s: Seq<char>) -> nat
    decreases s.len(),
{
    if s.len() == 0 {
        0
    } else {
        char_sum(s.drop_last()) + (s.last() as u32 as nat)
    }
}

} // verus!
