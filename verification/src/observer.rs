use vstd::prelude::*;

verus! {

/// Environment signals consumed by one `observe` call; never persisted.
///
/// `layout_shift_milli` is the cumulative layout shift in thousandths
/// (a CLS of 0.1 is stored as 100); all scores in this crate use the
/// same fixed-point convention of thousandths.
#[derive(Clone, Copy, Debug)]
pub struct StabilitySample {
    pub pending_network: u32,
    pub dom_mutation_rate: u32,
    pub layout_shift_milli: u32,
    pub time_since_last_interaction_ms: u64,
}

/// Wire form of an observation request: the page under observation
/// plus the sample of its environment signals.
#[derive(Clone, Debug)]
pub struct ObserverRequest {
    pub url: String,
    pub sample: StabilitySample,
}

/// The observer's answer: a stability score in thousandths, the
/// stable/unstable verdict derived from it, and a recommendation.
#[derive(Clone, Debug)]
pub struct ObserverVerdict {
    pub stable: bool,
    pub score_milli: u32,
    pub recommendation: String,
}

/// Sum of the stability penalties for a sample, in thousandths:
/// 500 for any pending network request, 5 per thousandth of layout
/// shift, 50 per unit of DOM mutation rate, and 200 when the last
/// interaction is more recent than the recency window.
pub open spec fn penalty_milli(sample: StabilitySample, recency_window_ms: u64) -> int {
    (if sample.pending_network > 0 { 500int } else { 0int })
    + 5 * sample.layout_shift_milli
    + 50 * sample.dom_mutation_rate
    + (if sample.time_since_last_interaction_ms < recency_window_ms { 200int } else { 0int })
}

/// Stability score of a sample, in thousandths: 1000 minus the
/// penalties, clamped to [0, 1000].
pub open spec fn stability_score_milli(sample: StabilitySample, recency_window_ms: u64) -> int {
    if penalty_milli(sample, recency_window_ms) >= 1000 {
        0int
    } else {
        1000 - penalty_milli(sample, recency_window_ms)
    }
}

/// Computes a stability verdict from environment signals.
///
/// Pure and stateless: the verdict is a function of the sample and the
/// two configuration fields alone.
pub struct StateChangeObserver {
    pub stability_threshold_milli: u32,
    pub recency_window_ms: u64,
}

impl StateChangeObserver {
    /// The default observer: stability threshold 0.950, recency window 300 ms.
    pub fn new() -> (r: StateChangeObserver)
        ensures
            r.stability_threshold_milli == 950,
            r.recency_window_ms == 300,
    {
        StateChangeObserver { stability_threshold_milli: 950, recency_window_ms: 300 }
    }

    /// Scores a sample and derives the stable/unstable verdict.
    ///
    /// The score always lies in [0, 1000] and the verdict is exactly
    /// `score >= threshold`; identical samples always give identical
    /// verdicts (see `lemma_observer_deterministic`).
    pub fn observe(&self, sample: &StabilitySample) -> (r: ObserverVerdict)
        ensures
            r.score_milli == stability_score_milli(*sample, self.recency_window_ms),
            0 <= r.score_milli <= 1000,
            r.stable == (r.score_milli >= self.stability_threshold_milli),
            r.stable ==> r.recommendation@ == "proceed"@,
            !r.stable ==> r.recommendation@ == "wait for stabilization"@,
    {
        let network_penalty: u64 = if sample.pending_network > 0 { 500 } else { 0 };
        let layout_penalty: u64 = 5 * (sample.layout_shift_milli as u64);
        let dom_penalty: u64 = 50 * (sample.dom_mutation_rate as u64);
        let recency_penalty: u64 =
            if sample.time_since_last_interaction_ms < self.recency_window_ms { 200 } else { 0 };
        let penalty: u64 = network_penalty + layout_penalty + dom_penalty + recency_penalty;
        let score_milli: u32 = if penalty >= 1000 { 0 } else { 1000 - (penalty as u32) };
        let stable: bool = score_milli >= self.stability_threshold_milli;
        let recommendation: String = if stable {
            String::from_str("proceed")
        } else {
            String::from_str("wait for stabilization")
        };
        ObserverVerdict { stable, score_milli, recommendation }
    }

    /// Scores the sample carried by a wire request; the URL plays no
    /// part in the score.
    pub fn observe_request(&self, request: &ObserverRequest) -> (r: ObserverVerdict)
        ensures
            r.score_milli == stability_score_milli(request.sample, self.recency_window_ms),
            r.stable == (r.score_milli >= self.stability_threshold_milli),
    {
        self.observe(&request.sample)
    }
}

/// Observer determinism: two identical samples scored under the same
/// recency window always receive the same score, so `observe` has no
/// hidden state or randomness.
pub proof fn lemma_observer_deterministic(
    s1: StabilitySample,
    s2: StabilitySample,
    recency_window_ms: u64,
)
    requires
        s1.pending_network == s2.pending_network,
        s1.dom_mutation_rate == s2.dom_mutation_rate,
        s1.layout_shift_milli == s2.layout_shift_milli,
        s1.time_since_last_interaction_ms == s2.time_since_last_interaction_ms,
    ensures
        stability_score_milli(s1, recency_window_ms) == stability_score_milli(
            s2,
            recency_window_ms,
        ),
{
}

} // verus!
