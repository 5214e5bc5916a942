use vstd::prelude::*;
use vstd::utf8::encode_utf8;
use crate::clock::unix_now_secs;
use crate::crypto::{sha512_hex, sha512_hex_of};
use crate::strutil::str_eq;

verus! {

/// One message of the context memory.
#[derive(Debug)]
pub struct NeuralMessage {
    pub role: String,
    pub content: String,
    pub timestamp: u64,
}

/// A sealed snapshot of the context at decision time.
#[derive(Debug)]
pub struct AkashicRecord {
    pub context_seal: String,
    pub message_count: usize,
    pub decision_index_milli: u64,
    pub veritas_approved: bool,
    pub timestamp: u64,
}

/// The big-endian bytes of a 64-bit number.
pub open spec fn be_bytes(t: u64) -> Seq<u8> {
    seq![
        (t >> 56) as u8,
        (t >> 48) as u8,
        (t >> 40) as u8,
        (t >> 32) as u8,
        (t >> 24) as u8,
        (t >> 16) as u8,
        (t >> 8) as u8,
        t as u8,
    ]
}

/// The bytes one message contributes to the seal: role, content and
/// big-endian timestamp, separated by `|` and closed by a newline.
pub open spec fn message_bytes(m: NeuralMessage) -> Seq<u8> {
    encode_utf8(m.role@) + seq![124u8] + encode_utf8(m.content@) + seq![124u8] + be_bytes(
        m.timestamp,
    ) + seq![10u8]
}

/// The bytes the whole context contributes to the seal, in order.
pub open spec fn seal_bytes(msgs: Seq<NeuralMessage>) -> Seq<u8>
    decreases msgs.len(),
{
    if msgs.len() == 0 {
        Seq::empty()
    } else {
        seal_bytes(msgs.drop_last()) + message_bytes(msgs.last())
    }
}

/// Appends the bytes of one vector to another.
fn push_bytes(dst: &mut Vec<u8>, src: &Vec<u8>)
    ensures
        final(dst)@ == old(dst)@ + src@,
{
    let mut i: usize = 0;
    while i < src.len()
        invariant
            i <= src@.len(),
            dst@ == old(dst)@ + src@.take(i as int),
        decreases src@.len() - i,
    {
        dst.push(src[i]);
        i = i + 1;
        proof {
            assert(dst@ =~= old(dst)@ + src@.take(i as int));
        }
    }
    proof {
        assert(dst@ =~= old(dst)@ + src@);
    }
}

/// Links context memory to the ledger by sealing it
/// cryptographically.
pub struct AkashicLink {
}

impl AkashicLink {
    /// The SHA-512 seal of the whole context: the digest of every
    /// message's role, content and timestamp in order, as 128
    /// hexadecimal characters. Deterministic in the messages.
    pub fn compute_context_seal(messages: &Vec<NeuralMessage>) -> (r: String)
        ensures
            r@ == sha512_hex_of(seal_bytes(messages@)),
            r@.len() == 128,
    {
        let mut data: Vec<u8> = Vec::new();
        let mut i: usize = 0;
        while i < messages.len()
            invariant
                i <= messages@.len(),
                data@ == seal_bytes(messages@.take(i as int)),
            decreases messages@.len() - i,
        {
            let role_bytes = messages[i].role.as_str().as_bytes_vec();
            push_bytes(&mut data, &role_bytes);
            data.push(124);
            let content_bytes = messages[i].content.as_str().as_bytes_vec();
            push_bytes(&mut data, &content_bytes);
            data.push(124);
            let t = messages[i].timestamp;
            data.push((t >> 56) as u8);
            data.push((t >> 48) as u8);
            data.push((t >> 40) as u8);
            data.push((t >> 32) as u8);
            data.push((t >> 24) as u8);
            data.push((t >> 16) as u8);
            data.push((t >> 8) as u8);
            data.push(t as u8);
            data.push(10);
            i = i + 1;
            proof {
                assert(messages@.take(i as int).drop_last() =~= messages@.take(i - 1));
                assert(data@ =~= seal_bytes(messages@.take(i as int)));
            }
        }
        proof {
            assert(messages@.take(messages@.len() as int) =~= messages@);
        }
        sha512_hex(&data)
    }

    /// Seals the context and stamps the record with the clock.
    pub fn create_record(
        messages: &Vec<NeuralMessage>,
        decision_index_milli: u64,
        veritas_approved: bool,
    ) -> (r: AkashicRecord)
        ensures
            r.context_seal@ == sha512_hex_of(seal_bytes(messages@)),
            r.context_seal@.len() == 128,
            r.message_count == messages@.len(),
            r.decision_index_milli == decision_index_milli,
            r.veritas_approved == veritas_approved,
    {
        let seal = AkashicLink::compute_context_seal(messages);
        AkashicRecord {
            context_seal: seal,
            message_count: messages.len(),
            decision_index_milli,
            veritas_approved,
            timestamp: unix_now_secs(),
        }
    }

    /// Chain continuity: time must flow forward, the seals must
    /// differ, and both records must carry approval.
    pub fn verify_chain_continuity(current: &AkashicRecord, previous: &AkashicRecord) -> (r: bool)
        ensures
            r == (current.timestamp > previous.timestamp && current.context_seal@
                != previous.context_seal@ && current.veritas_approved
                && previous.veritas_approved),
    {
        if current.timestamp <= previous.timestamp {
            return false;
        }
        if str_eq(current.context_seal.as_str(), previous.context_seal.as_str()) {
            return false;
        }
        if !current.veritas_approved || !previous.veritas_approved {
            return false;
        }
        true
    }

    /// Renders a record for the human-readable ledger: the first 16
    /// characters of the seal, the message count, the decision index,
    /// the verdict and the timestamp.
    pub fn format_for_ledger(record: &AkashicRecord) -> (r: String)
        requires
            record.context_seal@.len() >= 16,
        ensures
            r@ == "AKASHIC_SEAL: "@ + record.context_seal@.take(16) + " | MESSAGES: "@
                + crate::strutil::dec_chars(record.message_count as nat) + " | INDEX_MILLI: "@
                + crate::strutil::dec_chars(record.decision_index_milli as nat) + " | VERITAS: "@
                + (if record.veritas_approved { "PASS"@ } else { "FAIL"@ }) + " | TS: "@
                + crate::strutil::dec_chars(record.timestamp as nat),
    {
        let mut r = String::from_str("AKASHIC_SEAL: ");
        r.append(record.context_seal.as_str().substring_char(0, 16));
        r.append(" | MESSAGES: ");
        r.append(crate::strutil::u64_to_string(record.message_count as u64).as_str());
        r.append(" | INDEX_MILLI: ");
        r.append(crate::strutil::u64_to_string(record.decision_index_milli).as_str());
        r.append(" | VERITAS: ");
        r.append(if record.veritas_approved { "PASS" } else { "FAIL" });
        r.append(" | TS: ");
        r.append(crate::strutil::u64_to_string(record.timestamp).as_str());
        proof {
            assert(record.context_seal@.subrange(0, 16) =~= record.context_seal@.take(16));
        }
        r
    }
}

} // verus!
