use vstd::prelude::*;
use crate::embedding::EMBEDDING_DIM;

verus! {

/// A rectangle in the pixel space of the captured image; immutable
/// once constructed.
#[derive(Clone, Copy, Debug, PartialEq, Eq, Structural)]
pub struct BoundingBox {
    pub x: i32,
    pub y: i32,
    pub width: u32,
    pub height: u32,
}

impl BoundingBox {
    /// Area of the box in pixels.
    pub open spec fn spec_area(self) -> int {
        self.width * self.height
    }

    /// Area of the box in pixels.
    pub fn area(&self) -> (r: u64)
        ensures
            r == self.spec_area(),
    {
        proof {
            assert((self.width as u64) * (self.height as u64) <= 0xffff_ffff_ffff_ffffu64)
                by (nonlinear_arith)
                requires self.width <= 0xffff_ffffu32, self.height <= 0xffff_ffffu32;
        }
        (self.width as u64) * (self.height as u64)
    }
}

/// One candidate region reported by the perception backend: where it
/// is, what it may be labelled, how confident the backend is (in
/// thousandths), and its semantic embedding.
#[derive(Clone, Debug)]
pub struct Candidate {
    pub bbox: BoundingBox,
    pub label: Option<String>,
    pub confidence_milli: u32,
    pub embedding: Vec<i32>,
}

/// The longest label a perception backend may attach to a candidate.
pub const LABEL_LEN_MAX: usize = 4096;

impl Candidate {
    /// A well-formed candidate: confidence within [0, 1], an embedding
    /// of the fixed dimension, and a label of bounded length.
    pub open spec fn wf(self) -> bool {
        &&& self.confidence_milli <= 1000
        &&& self.embedding@.len() == EMBEDDING_DIM
        &&& match self.label {
            Some(l) => l@.len() <= LABEL_LEN_MAX,
            None => true,
        }
    }
}

#[verifier::external_type_specification]
#[verifier::external_body]
pub struct ExDynamicImage(image::DynamicImage);

/// The contract a vision backend must satisfy: given a decoded image
/// and a natural-language intent, report zero or more well-formed
/// candidate regions. Implementations are replaceable black boxes.
pub trait PerceptionBackend {
    fn detect(&self, image: &image::DynamicImage, intent: &str) -> (r: Vec<Candidate>)
        ensures
            forall|i: int| 0 <= i < r@.len() ==> (#[trigger] r@[i]).wf(),
    ;
}

/// One fixed-point component of a deterministic stand-in embedding,
/// in [-1000, 1000].
pub open spec fn mock_component(seed: nat, i: nat) -> i32 {
    ((((seed % 65536) + i) * 2654435761) % 2001 - 1000) as i32
}

/// The deterministic stand-in embedding derived from a seed.
pub open spec fn mock_embedding(seed: nat) -> Seq<i32> {
    Seq::new(EMBEDDING_DIM as nat, |i: int| mock_component(seed, i as nat))
}

/// A stand-in for a trained vision model: it derives embeddings and
/// candidate regions deterministically from the intent text so that
/// the orchestration around it can be exercised without a model.
pub struct VisionTransformer {
}

impl VisionTransformer {
    pub fn new() -> VisionTransformer {
        VisionTransformer {  }
    }

    /// Deterministic stand-in for a text encoder: a fixed-dimension
    /// embedding seeded by the text length.
    pub fn encode_text(&self, text: &str) -> (r: Vec<i32>)
        ensures
            r@ == mock_embedding(text@.len()),
            r@.len() == EMBEDDING_DIM,
    {
        let len: usize = text.unicode_len();
        mock_embedding_from_seed(len as u64)
    }
}

/// Computes the deterministic stand-in embedding for a seed.
pub fn mock_embedding_from_seed(seed: u64) -> (r: Vec<i32>)
    ensures
        r@ == mock_embedding(seed as nat),
        r@.len() == EMBEDDING_DIM,
{
    let s: u64 = seed % 65536;
    let mut r: Vec<i32> = Vec::new();
    let mut i: usize = 0;
    while i < EMBEDDING_DIM
        invariant
            i <= EMBEDDING_DIM,
            s == (seed as nat) % 65536,
            r@.len() == i,
            forall|k: int| 0 <= k < i ==> r@[k] == mock_component(seed as nat, k as nat),
        decreases EMBEDDING_DIM - i,
    {
        let v: u64 = ((s + i as u64) * 2654435761) % 2001;
        let c: i32 = (v as i32) - 1000;
        proof {
            assert(c == mock_component(seed as nat, i as nat));
        }
        r.push(c);
        i = i + 1;
    }
    proof {
        assert(r@ =~= mock_embedding(seed as nat));
    }
    r
}

impl PerceptionBackend for VisionTransformer {
    /// Stand-in object detection: a fixed set of plausible UI regions
    /// with embeddings seeded by their descriptions. The image is
    /// accepted so a real backend can be substituted, but this
    /// stand-in does not read it.
    fn detect(&self, image: &image::DynamicImage, intent: &str) -> (r: Vec<Candidate>)
        ensures
            r@.len() == 4,
            r@[0].bbox == (BoundingBox { x: 800, y: 600, width: 150, height: 50 }),
            r@[0].label matches Some(l) && l@ == "Primary Action"@,
            r@[0].confidence_milli == 950,
            r@[0].embedding@ == mock_embedding("buy checkout submit"@.len()),
            r@[1].bbox == (BoundingBox { x: 400, y: 300, width: 200, height: 40 }),
            r@[1].label matches Some(l) && l@ == "Auth Trigger"@,
            r@[1].confidence_milli == 920,
            r@[1].embedding@ == mock_embedding("login username user"@.len()),
            r@[2].bbox == (BoundingBox { x: 400, y: 400, width: 200, height: 40 }),
            r@[2].label matches Some(l) && l@ == "Input Field"@,
            r@[2].confidence_milli == 880,
            r@[2].embedding@ == mock_embedding("discount coupon code"@.len()),
            r@[3].bbox == (BoundingBox { x: 10, y: 10, width: 50, height: 50 }),
            r@[3].label matches Some(l) && l@ == "Generic Element"@,
            r@[3].confidence_milli == 500,
            r@[3].embedding@ == mock_embedding(intent@.len()),
    {
        let mut r: Vec<Candidate> = Vec::new();
        r.push(Candidate {
            bbox: BoundingBox { x: 800, y: 600, width: 150, height: 50 },
            label: Some(String::from_str("Primary Action")),
            confidence_milli: 950,
            embedding: self.encode_text("buy checkout submit"),
        });
        r.push(Candidate {
            bbox: BoundingBox { x: 400, y: 300, width: 200, height: 40 },
            label: Some(String::from_str("Auth Trigger")),
            confidence_milli: 920,
            embedding: self.encode_text("login username user"),
        });
        r.push(Candidate {
            bbox: BoundingBox { x: 400, y: 400, width: 200, height: 40 },
            label: Some(String::from_str("Input Field")),
            confidence_milli: 880,
            embedding: self.encode_text("discount coupon code"),
        });
        r.push(Candidate {
            bbox: BoundingBox { x: 10, y: 10, width: 50, height: 50 },
            label: Some(String::from_str("Generic Element")),
            confidence_milli: 500,
            embedding: self.encode_text(intent),
        });
        proof {
            reveal_strlit("Primary Action");
            reveal_strlit("Auth Trigger");
            reveal_strlit("Input Field");
            reveal_strlit("Generic Element");
        }
        r
    }
}

/// A perception layer that reports nothing: the conservative bottom
/// implementation of the backend contract.
pub struct VisionTransformerLayer {
}

impl VisionTransformerLayer {
    /// Scans a raw screenshot buffer; this layer never reports a region.
    pub fn analyze_screen(&self, screenshot: &[u8]) -> (r: Vec<Candidate>)
        ensures
            r@.len() == 0,
    {
        Vec::new()
    }

    /// Looks for an element by intent; this layer never finds one.
    pub fn find_element_by_intent(&self, intent: &str) -> (r: Option<Candidate>)
        ensures
            r is None,
    {
        None
    }
}

} // verus!
