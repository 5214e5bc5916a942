use std::cell::Cell;

use base64::Engine;
use veritas_core::embedding::cosine_similarity;
use veritas_core::healer::{HealRequest, SemanticHealer};
use veritas_core::locator::{
    pixel_similarity_micro, select_primary, NeuralLocator, VisionCompareRequest, VisionRequest,
};
use veritas_core::observer::{ObserverRequest, StabilitySample, StateChangeObserver};
use veritas_core::perception::{
    BoundingBox, Candidate, PerceptionBackend, VisionTransformer, VisionTransformerLayer,
};
use veritas_core::strsim::{levenshtein, string_similarity};
use veritas_core::strutil::{contains_substring, str_eq, to_ascii_lower};

fn unit_embedding(axis: usize) -> Vec<i32> {
    let mut v = vec![0i32; 768];
    v[axis] = 1_000_000;
    v
}

fn tiny_png_base64() -> String {
    let img = image::DynamicImage::new_rgb8(2, 2);
    let mut bytes: Vec<u8> = Vec::new();
    img.write_to(&mut std::io::Cursor::new(&mut bytes), image::ImageFormat::Png)
        .unwrap();
    base64::engine::general_purpose::STANDARD.encode(&bytes)
}

#[test]
fn cosine_similarity_of_identical_unit_vectors_is_one() {
    let a = unit_embedding(0);
    let b = unit_embedding(0);
    assert_eq!(cosine_similarity(&a, &b), 1_000_000);
}

#[test]
fn cosine_similarity_of_orthogonal_vectors_is_zero() {
    let a = unit_embedding(0);
    let c = unit_embedding(1);
    assert_eq!(cosine_similarity(&a, &c), 0);
}

#[test]
fn cosine_similarity_of_opposite_vectors_is_minus_one() {
    let a = unit_embedding(0);
    let mut b = unit_embedding(0);
    b[0] = -1_000_000;
    assert_eq!(cosine_similarity(&a, &b), -1_000_000);
}

#[test]
fn cosine_similarity_stays_within_bounds() {
    let a = vec![3i32, -7, 11];
    let b = vec![-2i32, 5, 13];
    let s = cosine_similarity(&a, &b);
    assert!(-1_000_000 <= s && s <= 1_000_000);
    assert_eq!(cosine_similarity(&a, &a), 1_000_000);
}

#[test]
fn cosine_similarity_of_zero_norm_vector_is_zero() {
    let a = vec![0i32; 768];
    let b = unit_embedding(0);
    assert_eq!(cosine_similarity(&a, &b), 0);
}

#[test]
fn levenshtein_of_kitten_and_sitting_is_three() {
    assert_eq!(levenshtein("kitten", "sitting"), 3);
    assert_eq!(levenshtein("", "abc"), 3);
    assert_eq!(levenshtein("abc", "abc"), 0);
}

#[test]
fn string_similarity_matches_the_formula() {
    // one edit over three characters: 1 - 1/3, in millionths
    assert_eq!(string_similarity("abc", "abd"), 1_000_000 - 333_333);
    assert_eq!(string_similarity("", ""), 1_000_000);
    assert_eq!(string_similarity("same", "same"), 1_000_000);
}

#[test]
fn ascii_lowering_and_substring_search() {
    let lowered = to_ascii_lower("Find The CHECKOUT Button");
    assert!(str_eq(lowered.as_str(), "find the checkout button"));
    assert!(contains_substring(lowered.as_str(), "checkout"));
    assert!(!contains_substring(lowered.as_str(), "login"));
}

#[test]
fn test_observer() {
    let observer = StateChangeObserver::new();
    let request = ObserverRequest {
        url: "http://localhost".to_string(),
        sample: StabilitySample {
            pending_network: 0,
            dom_mutation_rate: 0,
            layout_shift_milli: 0,
            time_since_last_interaction_ms: 5000,
        },
    };
    let verdict = observer.observe_request(&request);
    assert!(verdict.stable);
    assert!(verdict.score_milli > 900);
}

#[test]
fn observer_scores_a_quiet_page_at_one() {
    let observer = StateChangeObserver::new();
    let sample = StabilitySample {
        pending_network: 0,
        dom_mutation_rate: 0,
        layout_shift_milli: 0,
        time_since_last_interaction_ms: 1000,
    };
    let verdict = observer.observe(&sample);
    assert_eq!(verdict.score_milli, 1000);
    assert!(verdict.stable);
    assert_eq!(verdict.recommendation, "proceed");
}

#[test]
fn observer_penalises_a_busy_page() {
    let observer = StateChangeObserver::new();
    let sample = StabilitySample {
        pending_network: 3,
        dom_mutation_rate: 5,
        layout_shift_milli: 100,
        time_since_last_interaction_ms: 100,
    };
    // 1000 - 500 - 250 - 500 - 200 clamps to 0
    let verdict = observer.observe(&sample);
    assert_eq!(verdict.score_milli, 0);
    assert!(!verdict.stable);
}

#[test]
fn observer_is_deterministic() {
    let observer = StateChangeObserver::new();
    let sample = StabilitySample {
        pending_network: 1,
        dom_mutation_rate: 2,
        layout_shift_milli: 30,
        time_since_last_interaction_ms: 400,
    };
    let first = observer.observe(&sample);
    let second = observer.observe(&sample);
    assert_eq!(first.score_milli, second.score_milli);
    assert_eq!(first.stable, second.stable);
}

#[test]
fn test_invalid_base64() {
    let mut locator = NeuralLocator::new();
    let request = VisionRequest {
        image_base64: "invalid_base64_string".to_string(),
        intent: "anything".to_string(),
    };
    let result = locator.analyze(&request);
    assert!(!result.found);
    assert!(result.reasoning.contains("Failed to decode Base64 image data."));
}

struct CountingBackend {
    calls: Cell<u32>,
}

impl PerceptionBackend for CountingBackend {
    fn detect(&self, _image: &image::DynamicImage, _intent: &str) -> Vec<Candidate> {
        self.calls.set(self.calls.get() + 1);
        vec![Candidate {
            bbox: BoundingBox { x: 10, y: 20, width: 30, height: 40 },
            label: Some("Primary Action".to_string()),
            confidence_milli: 950,
            embedding: unit_embedding(0),
        }]
    }
}

#[test]
fn cache_coherence_answers_repeat_intents_from_memory() {
    let backend = CountingBackend { calls: Cell::new(0) };
    let mut locator = NeuralLocator::with_backend(backend);
    let request = VisionRequest {
        image_base64: tiny_png_base64(),
        intent: "Find the Checkout button".to_string(),
    };
    let first = locator.analyze(&request);
    assert!(first.found);
    assert_eq!(first.confidence_milli, 950);
    assert_eq!(locator.vit.calls.get(), 1);

    let second = locator.analyze(&request);
    assert!(second.found);
    assert_eq!(second.confidence_milli, 980);
    assert_eq!(second.reasoning, "retrieved from memory");
    assert_eq!(
        second.location,
        Some(BoundingBox { x: 10, y: 20, width: 30, height: 40 })
    );
    // the perception backend was not consulted again
    assert_eq!(locator.vit.calls.get(), 1);
}

#[test]
fn low_confidence_results_are_not_cached() {
    struct ShakyBackend;
    impl PerceptionBackend for ShakyBackend {
        fn detect(&self, _image: &image::DynamicImage, _intent: &str) -> Vec<Candidate> {
            vec![Candidate {
                bbox: BoundingBox { x: 0, y: 0, width: 5, height: 5 },
                label: None,
                confidence_milli: 600,
                embedding: unit_embedding(2),
            }]
        }
    }
    let mut locator = NeuralLocator::with_backend(ShakyBackend);
    let request = VisionRequest {
        image_base64: tiny_png_base64(),
        intent: "Find anything".to_string(),
    };
    let first = locator.analyze(&request);
    assert!(first.found);
    assert_eq!(first.confidence_milli, 600);
    // a second call runs perception again: nothing was cached
    let second = locator.analyze(&request);
    assert_eq!(second.confidence_milli, 600);
    assert_ne!(second.reasoning, "retrieved from memory");
}

#[test]
fn analyze_with_stand_in_backend_picks_the_strongest_candidate() {
    let mut locator = NeuralLocator::new();
    let request = VisionRequest {
        image_base64: tiny_png_base64(),
        intent: "buy the product".to_string(),
    };
    let result = locator.analyze(&request);
    assert!(result.found);
    assert_eq!(result.confidence_milli, 950);
    assert_eq!(result.candidates.len(), 4);
    assert_eq!(
        result.location,
        Some(BoundingBox { x: 800, y: 600, width: 150, height: 50 })
    );
}

#[test]
fn unmatched_intent_is_a_negative_answer_not_an_error() {
    struct EmptyBackend;
    impl PerceptionBackend for EmptyBackend {
        fn detect(&self, _image: &image::DynamicImage, _intent: &str) -> Vec<Candidate> {
            Vec::new()
        }
    }
    let mut locator = NeuralLocator::with_backend(EmptyBackend);
    let request = VisionRequest {
        image_base64: tiny_png_base64(),
        intent: "FAIL_TEST".to_string(),
    };
    let result = locator.analyze(&request);
    assert!(!result.found);
    assert!(result.candidates.is_empty());
    assert_eq!(result.reasoning, "no candidate matched the intent");
}

#[test]
fn primary_selection_prefers_confidence_then_area() {
    let make = |conf: u32, w: u32| Candidate {
        bbox: BoundingBox { x: 0, y: 0, width: w, height: 10 },
        label: None,
        confidence_milli: conf,
        embedding: vec![0; 768],
    };
    let cands = vec![make(700, 10), make(900, 10), make(900, 50), make(800, 99)];
    assert_eq!(select_primary(&cands), Some(2));
    let tied = vec![make(900, 50), make(900, 50)];
    assert_eq!(select_primary(&tied), Some(0));
    assert_eq!(select_primary(&Vec::new()), None);
}

#[test]
fn healing_accepts_an_identical_candidate() {
    let healer = SemanticHealer::new();
    let candidate = Candidate {
        bbox: BoundingBox { x: 1, y: 2, width: 3, height: 4 },
        label: Some("#submit-order-btn".to_string()),
        confidence_milli: 900,
        embedding: unit_embedding(0),
    };
    let result = healer.score_candidates("#submit-order-btn", &unit_embedding(0), &vec![candidate]);
    assert!(result.healed);
    assert_eq!(result.similarity_score_micro, 1_000_000);
    assert_eq!(result.new_selector, "#submit-order-btn");
}

#[test]
fn healing_never_succeeds_at_or_below_the_threshold() {
    // even a perfect match cannot clear a threshold of 1.0: the
    // comparison is strict
    let healer = SemanticHealer::with_threshold(1_000_000);
    let candidate = Candidate {
        bbox: BoundingBox { x: 1, y: 2, width: 3, height: 4 },
        label: Some("#submit-btn".to_string()),
        confidence_milli: 900,
        embedding: unit_embedding(0),
    };
    let result = healer.score_candidates("#submit-btn", &unit_embedding(0), &vec![candidate]);
    assert!(!result.healed);
    assert!(result.similarity_score_micro <= 1_000_000);
}

#[test]
fn healing_over_an_empty_view_reports_zero() {
    let healer = SemanticHealer::new();
    let result = healer.score_candidates("#gone", &unit_embedding(0), &Vec::new());
    assert!(!result.healed);
    assert_eq!(result.similarity_score_micro, 0);
    assert_eq!(result.new_selector, "");
}

#[test]
fn heal_rejects_a_wrong_embedding_dimension() {
    let healer = SemanticHealer::new();
    let backend = VisionTransformer::new();
    let request = HealRequest {
        failed_selector: "#btn".to_string(),
        last_known_embedding: vec![1i32; 10],
        current_image: tiny_png_base64(),
    };
    let result = healer.heal(&backend, &request);
    assert!(matches!(result, Err(veritas_core::healer::HealError::DimensionMismatch)));
}

#[test]
fn heal_rejects_an_undecodable_view() {
    let healer = SemanticHealer::new();
    let backend = VisionTransformer::new();
    let request = HealRequest {
        failed_selector: "#btn".to_string(),
        last_known_embedding: vec![1i32; 768],
        current_image: "%%% not base64 %%%".to_string(),
    };
    let result = healer.heal(&backend, &request);
    assert!(matches!(result, Err(veritas_core::healer::HealError::DecodeError)));
}

#[test]
fn heal_scores_the_stand_in_detections() {
    let healer = SemanticHealer::with_threshold(0);
    let backend = VisionTransformer::new();
    let request = HealRequest {
        failed_selector: "#btn".to_string(),
        last_known_embedding: vec![1i32; 768],
        current_image: tiny_png_base64(),
    };
    let result = healer.heal(&backend, &request).unwrap();
    // whatever the backend saw, success implies the score cleared
    // the threshold strictly
    if result.healed {
        assert!(result.similarity_score_micro > 0);
    }
    assert!(result.similarity_score_micro <= 1_000_000);
}

#[test]
fn mock_embeddings_are_deterministic() {
    let healer = SemanticHealer::new();
    let a = healer.mock_embedding_from_string("#submit-order-btn");
    let b = healer.mock_embedding_from_string("#submit-order-btn");
    let c = healer.mock_embedding_from_string("#header-logo");
    assert_eq!(a, b);
    assert_ne!(a, c);
    assert_eq!(a.len(), 768);
}

#[test]
fn identical_images_compare_as_equal() {
    let locator = NeuralLocator::new();
    let img = tiny_png_base64();
    let result = locator.compare(&VisionCompareRequest {
        image_a_base64: img.clone(),
        image_b_base64: img,
    });
    assert_eq!(result.similarity_score_micro, 1_000_000);
    assert!(result.diff_reason.is_none());
}

#[test]
fn images_of_different_sizes_compare_as_nothing_alike() {
    let locator = NeuralLocator::new();
    let small = {
        let img = image::DynamicImage::new_rgb8(1, 1);
        let mut bytes: Vec<u8> = Vec::new();
        img.write_to(&mut std::io::Cursor::new(&mut bytes), image::ImageFormat::Png)
            .unwrap();
        base64::engine::general_purpose::STANDARD.encode(&bytes)
    };
    let result = locator.compare(&VisionCompareRequest {
        image_a_base64: small,
        image_b_base64: tiny_png_base64(),
    });
    assert_eq!(result.similarity_score_micro, 0);
    assert_eq!(result.diff_reason.as_deref(), Some("image dimensions differ"));
}

#[test]
fn undecodable_images_compare_as_nothing_alike() {
    let locator = NeuralLocator::new();
    let result = locator.compare(&VisionCompareRequest {
        image_a_base64: "???".to_string(),
        image_b_base64: tiny_png_base64(),
    });
    assert_eq!(result.similarity_score_micro, 0);
    assert!(result.diff_reason.is_some());
}

#[test]
fn pixel_similarity_counts_channel_differences() {
    let a = vec![0u8, 0, 0];
    let b = vec![255u8, 255, 255];
    assert_eq!(pixel_similarity_micro(&a, &b), 0);
    let c = vec![10u8, 20, 30];
    assert_eq!(pixel_similarity_micro(&c, &c), 1_000_000);
}

#[test]
fn the_bottom_perception_layer_reports_nothing() {
    let layer = VisionTransformerLayer {};
    assert!(layer.analyze_screen(&[1, 2, 3]).is_empty());
    assert!(layer.find_element_by_intent("anything").is_none());
}
