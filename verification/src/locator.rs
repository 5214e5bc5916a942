use vstd::prelude::*;
use vstd::arithmetic::div_mod::{lemma_div_is_ordered, lemma_div_multiples_vanish, lemma_div_pos_is_pos};
use base64::Engine;
use crate::embedding::SIMILARITY_SCALE;
use crate::neural_map::{NeuralMap, NeuralMapEntry};
use crate::perception::{BoundingBox, Candidate, PerceptionBackend, VisionTransformer};
use crate::strutil::{copy_i32_vec, u64_to_string};

verus! {

/// A locate request: an encoded screen capture and the intent naming
/// what to find in it.
#[derive(Debug)]
pub struct VisionRequest {
    pub image_base64: String,
    pub intent: String,
}

/// The locator's answer: whether a primary candidate was found, where
/// it is, every candidate considered, the confidence in thousandths,
/// the primary candidate's embedding, and a short account of how the
/// answer was reached.
#[derive(Debug)]
pub struct VisionResult {
    pub found: bool,
    pub location: Option<BoundingBox>,
    pub candidates: Vec<Candidate>,
    pub confidence_milli: u32,
    pub semantic_embedding: Vec<i32>,
    pub reasoning: String,
}

/// A request to compare two encoded screen captures.
#[derive(Debug)]
pub struct VisionCompareRequest {
    pub image_a_base64: String,
    pub image_b_base64: String,
}

/// How alike two captures are, scaled by `SIMILARITY_SCALE`, with a
/// reason when they differ.
#[derive(Debug)]
pub struct VisionCompareResult {
    pub similarity_score_micro: i64,
    pub diff_reason: Option<String>,
}

/// What the standard base64 alphabet decodes a string to, or nothing
/// when the string is not valid base64.
pub uninterp spec fn base64_decode_of(s: Seq<char>) -> Option<Seq<u8>>;

/// Whether these bytes parse as an image in a supported format.
pub uninterp spec fn image_parses(bytes: Seq<u8>) -> bool;

/// The flattened RGB grid of the image these bytes hold.
pub uninterp spec fn rgb_pixels_of(bytes: Seq<u8>) -> Seq<u8>;

/// The width and height of the image these bytes hold.
pub uninterp spec fn rgb_dims_of(bytes: Seq<u8>) -> (u32, u32);

/// Relies on base64's `Engine::decode` with the standard alphabet:
/// decoding succeeds exactly on valid base64 and is a function of the
/// input string alone.
#[verifier::external_body]
pub(crate) fn base64_decode(s: &str) -> (r: Result<Vec<u8>, ()>)
    ensures
        (r is Ok) == (base64_decode_of(s@) is Some),
        r is Ok ==> r.unwrap()@ == base64_decode_of(s@).unwrap(),
{
    match base64::engine::general_purpose::STANDARD.decode(s) {
        Ok(v) => Ok(v),
        Err(_) => Err(()),
    }
}

/// Relies on image's `load_from_memory`: guessing the format and
/// decoding succeed exactly when the bytes hold a supported image,
/// as a function of the bytes alone.
#[verifier::external_body]
pub(crate) fn image_from_bytes(bytes: &Vec<u8>) -> (r: Result<image::DynamicImage, ()>)
    ensures
        (r is Ok) == image_parses(bytes@),
{
    match image::load_from_memory(bytes.as_slice()) {
        Ok(img) => Ok(img),
        Err(_) => Err(()),
    }
}

/// Relies on image's `load_from_memory` followed by
/// `DynamicImage::to_rgb8`: decoding succeeds exactly when the bytes
/// hold a supported image, and the flattened RGB grid and its
/// dimensions are then functions of the bytes alone, three bytes per
/// pixel.
#[verifier::external_body]
fn decode_rgb(bytes: &Vec<u8>) -> (r: Result<(Vec<u8>, u32, u32), ()>)
    ensures
        (r is Ok) == image_parses(bytes@),
        r matches Ok(t) ==> {
            &&& t.0@ == rgb_pixels_of(bytes@)
            &&& (t.1, t.2) == rgb_dims_of(bytes@)
            &&& t.0@.len() == 3 * (t.1 as int) * (t.2 as int)
        },
{
    match image::load_from_memory(bytes.as_slice()) {
        Ok(img) => {
            let buf = img.to_rgb8();
            let w = buf.width();
            let h = buf.height();
            Ok((buf.into_raw(), w, h))
        },
        Err(_) => Err(()),
    }
}

/// The first candidate beats the second: higher confidence, or equal
/// confidence and a larger bounding box.
pub open spec fn beats(a: Candidate, b: Candidate) -> bool {
    ||| a.confidence_milli > b.confidence_milli
    ||| (a.confidence_milli == b.confidence_milli && a.bbox.spec_area() > b.bbox.spec_area())
}

/// Index of the primary candidate: the highest confidence, ties
/// broken by larger area, earlier candidates winning remaining ties.
pub open spec fn select_primary_idx(c: Seq<Candidate>) -> int
    recommends
        c.len() > 0,
    decreases c.len(),
{
    if c.len() <= 1 {
        0
    } else {
        let p = select_primary_idx(c.drop_last());
        if beats(c.last(), c[p]) {
            c.len() - 1
        } else {
            p
        }
    }
}

/// The primary selection index is in range.
pub proof fn lemma_select_primary_in_range(c: Seq<Candidate>)
    requires
        c.len() > 0,
    ensures
        0 <= select_primary_idx(c) < c.len(),
    decreases c.len(),
{
    if c.len() > 1 {
        lemma_select_primary_in_range(c.drop_last());
    }
}

/// Picks the primary candidate: highest confidence, ties broken by
/// larger area, the earliest such candidate. Returns its index, or
/// nothing from an empty list.
pub fn select_primary(cands: &Vec<Candidate>) -> (r: Option<usize>)
    ensures
        (r is Some) == (cands@.len() > 0),
        r is Some ==> r.unwrap() == select_primary_idx(cands@),
        r is Some ==> r.unwrap() < cands@.len(),
{
    if cands.len() == 0 {
        return None;
    }
    let mut best: usize = 0;
    let mut i: usize = 1;
    proof {
        assert(cands@.take(1).len() == 1);
        assert(select_primary_idx(cands@.take(1)) == 0);
    }
    while i < cands.len()
        invariant
            1 <= i <= cands@.len(),
            best < i,
            best == select_primary_idx(cands@.take(i as int)),
        decreases cands@.len() - i,
    {
        proof {
            lemma_select_primary_in_range(cands@.take(i as int));
        }
        let challenger_conf = cands[i].confidence_milli;
        let champion_conf = cands[best].confidence_milli;
        let is_better: bool = if challenger_conf > champion_conf {
            true
        } else if challenger_conf == champion_conf {
            cands[i].bbox.area() > cands[best].bbox.area()
        } else {
            false
        };
        proof {
            let t = cands@.take(i + 1);
            assert(t.drop_last() =~= cands@.take(i as int));
            assert(t.last() == cands@[i as int]);
            assert(is_better == beats(cands@[i as int], cands@[select_primary_idx(t.drop_last())]));
        }
        if is_better {
            best = i;
        }
        i = i + 1;
    }
    proof {
        assert(cands@.take(cands@.len() as int) =~= cands@);
    }
    Some(best)
}

/// The second map is the first with exactly one entry created or
/// superseded: the given intent now maps to the given location and
/// embedding, and every other intent is untouched.
pub open spec fn map_upserted(
    old_map: NeuralMap,
    new_map: NeuralMap,
    intent: Seq<char>,
    location: BoundingBox,
    embedding: Seq<i32>,
) -> bool {
    &&& new_map.wf()
    &&& new_map.spec_contains(intent)
    &&& new_map.spec_get(intent).location == location
    &&& new_map.spec_get(intent).embedding@ == embedding
    &&& forall|k: Seq<char>| k != intent ==> new_map.spec_contains(k) == old_map.spec_contains(k)
    &&& forall|k: Seq<char>|
        k != intent && old_map.spec_contains(k) ==> new_map.spec_get(k) == old_map.spec_get(k)
}

/// A resolution's confidence must exceed this threshold, in
/// thousandths, before the neural map is written.
pub const WRITE_THRESHOLD_MILLI: u32 = 900;

/// The confidence reported for an answer served from the neural map,
/// in thousandths.
pub const CACHE_HIT_CONFIDENCE_MILLI: u32 = 980;

/// Resolves intents to screen locations: consults the neural map
/// first, otherwise decodes the capture, runs the perception backend,
/// selects the primary candidate, and remembers high-confidence
/// resolutions.
pub struct NeuralLocator<B: PerceptionBackend> {
    pub vit: B,
    pub neural_map: NeuralMap,
}

impl NeuralLocator<VisionTransformer> {
    /// A locator over the stand-in vision backend, with an empty map.
    pub fn new() -> (r: NeuralLocator<VisionTransformer>)
        ensures
            r.wf(),
            forall|k: Seq<char>| !r.map_contains(k),
    {
        NeuralLocator { vit: VisionTransformer::new(), neural_map: NeuralMap::new() }
    }
}

impl<B: PerceptionBackend> NeuralLocator<B> {
    /// The locator's neural map.
    pub open spec fn spec_map(self) -> NeuralMap {
        self.neural_map
    }

    /// The locator's neural map is well formed.
    pub open spec fn wf(self) -> bool {
        self.spec_map().wf()
    }

    /// The neural map holds an entry for this intent.
    pub open spec fn map_contains(self, intent: Seq<char>) -> bool {
        self.spec_map().spec_contains(intent)
    }

    /// The neural map's entry for this intent.
    pub open spec fn map_entry(self, intent: Seq<char>) -> NeuralMapEntry {
        self.spec_map().spec_get(intent)
    }

    /// A locator over a given backend, with an empty map.
    pub fn with_backend(backend: B) -> (r: NeuralLocator<B>)
        ensures
            r.wf(),
            forall|k: Seq<char>| !r.map_contains(k),
    {
        NeuralLocator { vit: backend, neural_map: NeuralMap::new() }
    }

    /// Reads the map entry last stored for an intent.
    pub fn cached_entry(&self, intent: &str) -> (r: Option<&NeuralMapEntry>)
        requires
            self.wf(),
        ensures
            (r is Some) == self.map_contains(intent@),
            r is Some ==> *r.unwrap() == self.map_entry(intent@),
    {
        self.neural_map.get(intent)
    }

    /// Stores a resolution in the neural map directly (used by the
    /// healer after a successful recovery).
    pub fn update_map(&mut self, intent: &str, location: BoundingBox, embedding: Vec<i32>)
        requires
            old(self).wf(),
        ensures
            final(self).wf(),
            map_upserted(
                old(self).spec_map(),
                final(self).spec_map(),
                intent@,
                location,
                embedding@,
            ),
            final(self).map_contains(intent@),
    {
        self.neural_map.update(intent, embedding, location);
    }

    /// Resolves an intent against a captured image.
    ///
    /// A cached intent is answered from the neural map without
    /// consulting the backend; otherwise the capture is decoded, the
    /// backend's candidates are ranked, and a resolution whose
    /// confidence exceeds the write threshold is remembered. An
    /// undecodable capture reports failure and leaves the map alone; an
    /// intent matching nothing is a legitimate negative answer, not an
    /// error.
    pub fn analyze(&mut self, request: &VisionRequest) -> (r: VisionResult)
        requires
            old(self).wf(),
        ensures
            final(self).wf(),
            old(self).map_contains(request.intent@) ==> {
                &&& *final(self) == *old(self)
                &&& r.found
                &&& r.location == Some(old(self).map_entry(request.intent@).location)
                &&& r.semantic_embedding@ == old(self).map_entry(request.intent@).embedding@
                &&& r.confidence_milli == CACHE_HIT_CONFIDENCE_MILLI
                &&& r.reasoning@ == "retrieved from memory"@
                &&& r.candidates@.len() == 0
            },
            !old(self).map_contains(request.intent@) && base64_decode_of(request.image_base64@)
                is None ==> {
                &&& *final(self) == *old(self)
                &&& !r.found
                &&& r.location is None
                &&& r.candidates@.len() == 0
                &&& r.confidence_milli == 0
                &&& r.reasoning@ == "Failed to decode Base64 image data."@
            },
            !old(self).map_contains(request.intent@) && (base64_decode_of(request.image_base64@)
                matches Some(bytes) && !image_parses(bytes)) ==> {
                &&& *final(self) == *old(self)
                &&& !r.found
                &&& r.location is None
                &&& r.candidates@.len() == 0
                &&& r.confidence_milli == 0
                &&& r.reasoning@ == "Failed to decode image data."@
            },
            !old(self).map_contains(request.intent@) && (base64_decode_of(request.image_base64@)
                matches Some(bytes) && image_parses(bytes)) ==> {
                &&& (forall|i: int| 0 <= i < r.candidates@.len() ==> (#[trigger] r.candidates@[i]).wf())
                &&& r.found == (r.candidates@.len() > 0)
                &&& !r.found ==> {
                    &&& *final(self) == *old(self)
                    &&& r.location is None
                    &&& r.reasoning@ == "no candidate matched the intent"@
                }
                &&& r.found ==> {
                    let p = r.candidates@[select_primary_idx(r.candidates@)];
                    &&& r.location == Some(p.bbox)
                    &&& r.confidence_milli == p.confidence_milli
                    &&& r.semantic_embedding@ == p.embedding@
                    &&& r.reasoning@ == "primary candidate selected by confidence"@
                    &&& p.confidence_milli > WRITE_THRESHOLD_MILLI ==> {
                        &&& final(self).vit == old(self).vit
                        &&& map_upserted(
                            old(self).spec_map(),
                            final(self).spec_map(),
                            request.intent@,
                            p.bbox,
                            p.embedding@,
                        )
                    }
                    &&& p.confidence_milli <= WRITE_THRESHOLD_MILLI ==> *final(self) == *old(self)
                }
            },
    {
        // 1. Warm cache: a known intent is answered from memory.
        let cached = self.neural_map.get(&request.intent);
        match cached {
            Some(entry) => {
                let location = entry.location;
                let embedding = copy_i32_vec(&entry.embedding);
                return VisionResult {
                    found: true,
                    location: Some(location),
                    candidates: Vec::new(),
                    confidence_milli: CACHE_HIT_CONFIDENCE_MILLI,
                    semantic_embedding: embedding,
                    reasoning: String::from_str("retrieved from memory"),
                };
            },
            None => {},
        }
        // 2. Decode the capture.
        let bytes = match base64_decode(request.image_base64.as_str()) {
            Ok(b) => b,
            Err(_) => {
                return VisionResult {
                    found: false,
                    location: None,
                    candidates: Vec::new(),
                    confidence_milli: 0,
                    semantic_embedding: Vec::new(),
                    reasoning: String::from_str("Failed to decode Base64 image data."),
                };
            },
        };
        let img = match image_from_bytes(&bytes) {
            Ok(i) => i,
            Err(_) => {
                return VisionResult {
                    found: false,
                    location: None,
                    candidates: Vec::new(),
                    confidence_milli: 0,
                    semantic_embedding: Vec::new(),
                    reasoning: String::from_str("Failed to decode image data."),
                };
            },
        };
        // 3. Perception, then primary selection.
        let candidates = self.vit.detect(&img, request.intent.as_str());
        let primary_idx = match select_primary(&candidates) {
            Some(i) => i,
            None => {
                return VisionResult {
                    found: false,
                    location: None,
                    candidates,
                    confidence_milli: 0,
                    semantic_embedding: Vec::new(),
                    reasoning: String::from_str("no candidate matched the intent"),
                };
            },
        };
        let location = candidates[primary_idx].bbox;
        let confidence_milli = candidates[primary_idx].confidence_milli;
        let embedding = copy_i32_vec(&candidates[primary_idx].embedding);
        // 4. Remember a high-confidence resolution.
        if confidence_milli > WRITE_THRESHOLD_MILLI {
            let map_embedding = copy_i32_vec(&embedding);
            self.neural_map.update(&request.intent, map_embedding, location);
        }
        VisionResult {
            found: true,
            location: Some(location),
            candidates,
            confidence_milli,
            semantic_embedding: embedding,
            reasoning: String::from_str("primary candidate selected by confidence"),
        }
    }

    /// Compares two captures pixel by pixel.
    ///
    /// An undecodable capture scores 0 with a reason, as do captures
    /// of different sizes; captures of equal size score exactly the
    /// pixel-level similarity of their RGB grids, so identical
    /// captures score 1 with no reason given.
    pub fn compare(&self, request: &VisionCompareRequest) -> (r: VisionCompareResult)
        ensures
            0 <= r.similarity_score_micro <= SIMILARITY_SCALE,
            base64_decode_of(request.image_a_base64@) is None || base64_decode_of(
                request.image_b_base64@,
            ) is None ==> r.similarity_score_micro == 0 && r.diff_reason is Some,
            base64_decode_of(request.image_a_base64@) matches Some(ba) ==> base64_decode_of(
                request.image_b_base64@,
            ) matches Some(bb) ==> {
                &&& (!image_parses(ba) || !image_parses(bb)) ==> r.similarity_score_micro == 0
                    && r.diff_reason is Some
                &&& image_parses(ba) && image_parses(bb) && rgb_dims_of(ba) != rgb_dims_of(bb)
                    ==> r.similarity_score_micro == 0 && r.diff_reason is Some
                &&& image_parses(ba) && image_parses(bb) && rgb_dims_of(ba) == rgb_dims_of(bb)
                    ==> {
                    &&& r.similarity_score_micro == pixel_similarity_spec(
                        rgb_pixels_of(ba),
                        rgb_pixels_of(bb),
                    )
                    &&& (rgb_pixels_of(ba) == rgb_pixels_of(bb) ==> r.similarity_score_micro
                        == SIMILARITY_SCALE)
                    &&& (r.diff_reason is None) == (r.similarity_score_micro == SIMILARITY_SCALE)
                }
            },
    {
        let bytes_a = match base64_decode(request.image_a_base64.as_str()) {
            Ok(b) => b,
            Err(_) => {
                return VisionCompareResult {
                    similarity_score_micro: 0,
                    diff_reason: Some(String::from_str("first image is not decodable")),
                };
            },
        };
        let bytes_b = match base64_decode(request.image_b_base64.as_str()) {
            Ok(b) => b,
            Err(_) => {
                return VisionCompareResult {
                    similarity_score_micro: 0,
                    diff_reason: Some(String::from_str("second image is not decodable")),
                };
            },
        };
        let (raw_a, wa, ha) = match decode_rgb(&bytes_a) {
            Ok(t) => t,
            Err(_) => {
                return VisionCompareResult {
                    similarity_score_micro: 0,
                    diff_reason: Some(String::from_str("first image is not decodable")),
                };
            },
        };
        let (raw_b, wb, hb) = match decode_rgb(&bytes_b) {
            Ok(t) => t,
            Err(_) => {
                return VisionCompareResult {
                    similarity_score_micro: 0,
                    diff_reason: Some(String::from_str("second image is not decodable")),
                };
            },
        };
        if wa != wb || ha != hb {
            return VisionCompareResult {
                similarity_score_micro: 0,
                diff_reason: Some(String::from_str("image dimensions differ")),
            };
        }
        let score = pixel_similarity_micro(&raw_a, &raw_b);
        proof {
            if rgb_pixels_of(bytes_a@) == rgb_pixels_of(bytes_b@) {
                lemma_pixel_similarity_self(raw_a@, raw_b@);
            }
        }
        if score < SIMILARITY_SCALE {
            let mut reason = String::from_str("similarity percent: ");
            let percent = (score / 10_000) as u64;
            let digits = u64_to_string(percent);
            reason.append(digits.as_str());
            VisionCompareResult { similarity_score_micro: score, diff_reason: Some(reason) }
        } else {
            VisionCompareResult { similarity_score_micro: score, diff_reason: None }
        }
    }
}

/// Sum of absolute channel differences over two equal RGB buffers.
pub open spec fn pixel_diff_sum(a: Seq<u8>, b: Seq<u8>) -> int
    recommends
        a.len() == b.len(),
    decreases a.len(),
{
    if a.len() == 0 {
        0
    } else {
        let d = if a.last() >= b.last() {
            a.last() - b.last()
        } else {
            b.last() - a.last()
        };
        pixel_diff_sum(a.drop_last(), b.drop_last()) + d
    }
}

/// How alike two equal-size raw RGB buffers are, scaled by
/// `SIMILARITY_SCALE`: 1 minus the total channel difference over the
/// largest possible difference; empty buffers count as identical.
pub open spec fn pixel_similarity_spec(a: Seq<u8>, b: Seq<u8>) -> int {
    if a.len() == 0 {
        SIMILARITY_SCALE as int
    } else {
        SIMILARITY_SCALE - (SIMILARITY_SCALE * pixel_diff_sum(a, b)) / (255 * a.len() as int)
    }
}

/// Identical buffers have no channel difference, so they score 1.
pub proof fn lemma_pixel_similarity_self(a: Seq<u8>, b: Seq<u8>)
    requires
        a == b,
    ensures
        pixel_similarity_spec(a, b) == SIMILARITY_SCALE as int,
{
    lemma_pixel_diff_zero(a, b);
    if a.len() > 0 {
        let m = 255 * (a.len() as int);
        vstd::arithmetic::div_mod::lemma_div_of0(m);
        assert(SIMILARITY_SCALE * 0 == 0) by (nonlinear_arith);
    }
}

/// Equal buffers accumulate a zero difference sum.
proof fn lemma_pixel_diff_zero(a: Seq<u8>, b: Seq<u8>)
    requires
        a == b,
    ensures
        pixel_diff_sum(a, b) == 0,
    decreases a.len(),
{
    if a.len() > 0 {
        lemma_pixel_diff_zero(a.drop_last(), b.drop_last());
    }
}

/// The channel difference sum is between 0 and 255 per byte.
pub proof fn lemma_pixel_diff_sum_bounds(a: Seq<u8>, b: Seq<u8>)
    ensures
        0 <= pixel_diff_sum(a, b) <= 255 * a.len(),
    decreases a.len(),
{
    if a.len() > 0 {
        lemma_pixel_diff_sum_bounds(a.drop_last(), b.drop_last());
    }
}

/// Pixel-level similarity of two equal-size raw RGB buffers, scaled
/// by `SIMILARITY_SCALE`: exactly `pixel_similarity_spec`.
pub fn pixel_similarity_micro(a: &Vec<u8>, b: &Vec<u8>) -> (r: i64)
    requires
        a@.len() == b@.len(),
    ensures
        r == pixel_similarity_spec(a@, b@),
        0 <= r <= SIMILARITY_SCALE,
{
    let n: usize = a.len();
    if n == 0 {
        return SIMILARITY_SCALE;
    }
    let mut sum: u128 = 0;
    let mut i: usize = 0;
    while i < n
        invariant
            n == a@.len(),
            n == b@.len(),
            i <= n,
            sum == pixel_diff_sum(a@.take(i as int), b@.take(i as int)),
            sum <= 255 * (i as int),
        decreases n - i,
    {
        let x = a[i];
        let y = b[i];
        let d: u8 = if x >= y { x - y } else { y - x };
        proof {
            assert(a@.take(i + 1).drop_last() =~= a@.take(i as int));
            assert(b@.take(i + 1).drop_last() =~= b@.take(i as int));
        }
        sum = sum + d as u128;
        i = i + 1;
    }
    proof {
        assert(a@.take(n as int) =~= a@);
        assert(b@.take(n as int) =~= b@);
        lemma_pixel_diff_sum_bounds(a@, b@);
        let s = pixel_diff_sum(a@, b@);
        let m = 255 * (n as int);
        lemma_div_pos_is_pos(SIMILARITY_SCALE * s, m);
        assert(SIMILARITY_SCALE * s <= SIMILARITY_SCALE * m) by (nonlinear_arith)
            requires 0 <= s <= m;
        lemma_div_is_ordered(SIMILARITY_SCALE * s, SIMILARITY_SCALE * m, m);
        lemma_div_multiples_vanish(SIMILARITY_SCALE as int, m);
        assert(SIMILARITY_SCALE * m == m * (SIMILARITY_SCALE as int)) by (nonlinear_arith);
    }
    let denom: u128 = 255u128 * (n as u128);
    let scaled: u128 = (1_000_000u128 * sum) / denom;
    1_000_000i64 - (scaled as i64)
}

} // verus!
