use vstd::prelude::*;
use vstd::utf8::encode_utf8;
use crate::clock::unix_now_secs;
use crate::crypto::{hmac_sha256_hex, hmac_sha256_hex_of};
use crate::strutil::{dec_chars, str_eq, u64_to_string};

verus! {

/// A signed proof that a module was alive at a moment in time.
#[derive(Debug)]
pub struct LivenessToken {
    pub module_id: String,
    pub timestamp: u64,
    pub status: String,
    pub signature: String,
}

/// The bytes that are signed for a token: module id, decimal
/// timestamp and status, joined by colons.
pub open spec fn token_payload(module_id: Seq<char>, timestamp: u64, status: Seq<char>) -> Seq<
    u8,
> {
    encode_utf8(module_id) + seq![58u8] + encode_utf8(dec_chars(timestamp as nat)) + seq![58u8]
        + encode_utf8(status)
}

/// A token timestamp is fresh against a clock reading: at most 300
/// seconds old and at most 60 seconds ahead.
pub open spec fn token_fresh_spec(timestamp: u64, now: u64) -> bool {
    timestamp <= now + 60 && now <= timestamp + 300
}

/// Issues and checks liveness tokens under a private key, so that a
/// stalled or replaced module is detected.
pub struct ApoptosisModule {
    pub private_key: Vec<u8>,
}

/// Builds the signed payload for a token.
fn payload_bytes(module_id: &str, timestamp: u64, status: &str) -> (r: Vec<u8>)
    ensures
        r@ == token_payload(module_id@, timestamp, status@),
{
    let mut data = module_id.as_bytes_vec();
    data.push(58);
    let ts = u64_to_string(timestamp);
    let ts_bytes = ts.as_str().as_bytes_vec();
    let mut i: usize = 0;
    while i < ts_bytes.len()
        invariant
            i <= ts_bytes@.len(),
            data@ == encode_utf8(module_id@) + seq![58u8] + ts_bytes@.take(i as int),
        decreases ts_bytes@.len() - i,
    {
        data.push(ts_bytes[i]);
        i = i + 1;
        proof {
            assert(data@ =~= encode_utf8(module_id@) + seq![58u8] + ts_bytes@.take(i as int));
        }
    }
    proof {
        assert(ts_bytes@.take(ts_bytes@.len() as int) =~= ts_bytes@);
    }
    data.push(58);
    let st_bytes = status.as_bytes_vec();
    let mut j: usize = 0;
    while j < st_bytes.len()
        invariant
            j <= st_bytes@.len(),
            data@ == encode_utf8(module_id@) + seq![58u8] + encode_utf8(dec_chars(timestamp as nat))
                + seq![58u8] + st_bytes@.take(j as int),
        decreases st_bytes@.len() - j,
    {
        data.push(st_bytes[j]);
        j = j + 1;
        proof {
            assert(data@ =~= encode_utf8(module_id@) + seq![58u8] + encode_utf8(
                dec_chars(timestamp as nat),
            ) + seq![58u8] + st_bytes@.take(j as int));
        }
    }
    proof {
        assert(st_bytes@.take(st_bytes@.len() as int) =~= st_bytes@);
        assert(data@ =~= token_payload(module_id@, timestamp, status@));
    }
    data
}

impl ApoptosisModule {
    /// The full verdict on a token against a clock reading: right
    /// module, fresh timestamp, genuine signature.
    pub open spec fn vitality_verdict(
        self,
        token: LivenessToken,
        expected_module: Seq<char>,
        now: u64,
    ) -> bool {
        &&& token.module_id@ == expected_module
        &&& token_fresh_spec(token.timestamp, now)
        &&& token.signature@ == hmac_sha256_hex_of(
            self.private_key@,
            token_payload(token.module_id@, token.timestamp, token.status@),
        )
    }

    /// A module guard keyed by the UTF-8 bytes of the key string.
    pub fn new(key: &str) -> (r: ApoptosisModule)
        ensures
            r.private_key@ == encode_utf8(key@),
    {
        ApoptosisModule { private_key: key.as_bytes_vec() }
    }

    /// Issues a liveness token: the current clock reading and an
    /// HMAC-SHA-256 tag over id, timestamp and status under the
    /// private key.
    pub fn generate_token(&self, module_id: &str, status: &str) -> (r: LivenessToken)
        ensures
            r.module_id@ == module_id@,
            r.status@ == status@,
            r.signature@ == hmac_sha256_hex_of(
                self.private_key@,
                token_payload(module_id@, r.timestamp, status@),
            ),
    {
        let timestamp = unix_now_secs();
        let payload = payload_bytes(module_id, timestamp, status);
        let signature = hmac_sha256_hex(&self.private_key, &payload);
        LivenessToken {
            module_id: String::from_str(module_id),
            timestamp,
            status: String::from_str(status),
            signature,
        }
    }

    /// Checks a token against a given clock reading: it passes exactly
    /// when the module id matches, the timestamp is fresh (at most
    /// 300 s old, at most 60 s ahead of `now`), and the signature is
    /// the HMAC tag of the token's own fields under the private key.
    pub fn verify_vitality_at(
        &self,
        token: &LivenessToken,
        expected_module: &str,
        now: u64,
    ) -> (r: bool)
        ensures
            r == self.vitality_verdict(*token, expected_module@, now),
    {
        if !str_eq(token.module_id.as_str(), expected_module) {
            return false;
        }
        if now >= token.timestamp {
            if now - token.timestamp > 300 {
                return false;
            }
        } else {
            if token.timestamp - now > 60 {
                return false;
            }
        }
        let payload = payload_bytes(token.module_id.as_str(), token.timestamp, token.status.as_str());
        let expected_sig = hmac_sha256_hex(&self.private_key, &payload);
        str_eq(token.signature.as_str(), expected_sig.as_str())
    }

    /// Checks a token against the wall clock: the windowing verdict
    /// of `verify_vitality_at` for whatever the clock read. A passing
    /// token always carries the right id and a genuine signature,
    /// whatever that reading was.
    pub fn verify_vitality(&self, token: &LivenessToken, expected_module: &str) -> (r: bool)
        ensures
            exists|now: u64| r == #[trigger] self.vitality_verdict(*token, expected_module@, now),
            r ==> token.module_id@ == expected_module@,
            r ==> token.signature@ == hmac_sha256_hex_of(
                self.private_key@,
                token_payload(token.module_id@, token.timestamp, token.status@),
            ),
            token.module_id@ != expected_module@ ==> !r,
            token.signature@ != hmac_sha256_hex_of(
                self.private_key@,
                token_payload(token.module_id@, token.timestamp, token.status@),
            ) ==> !r,
    {
        let now = unix_now_secs();
        let r = self.verify_vitality_at(token, expected_module, now);
        proof {
            assert(r == self.vitality_verdict(*token, expected_module@, now));
        }
        r
    }
}

} // verus!
