use sha2::Digest;

use veritas_core::akashic::{AkashicLink, AkashicRecord, NeuralMessage};
use veritas_core::apoptosis::ApoptosisModule;
use veritas_core::clock::{DateTime, Utc};
use veritas_core::exchange::BinanceConnector;
use veritas_core::fortress::{FortressError, FortressProtocol};
use veritas_core::hexutil::{decode_hex, encode, u32_to_hex};
use veritas_core::identity::IdentityValidator;
use veritas_core::ledger::verify_ledger_lines;
use veritas_core::noetic::{load_aeterna_soul, NoeticBridge, NoeticOpcode, NoeticVM};
use veritas_core::vortex::VortexAI;

fn sha512_hex_string(data: &str) -> String {
    let mut hasher = sha2::Sha512::new();
    hasher.update(data.as_bytes());
    format!("{:x}", hasher.finalize())
}

#[test]
fn test_ledger_verification() {
    let data1 = "genesis block data";
    let hash1 = sha512_hex_string(data1);
    let data2 = format!("follows {} with more data", &hash1[..16]);
    let hash2 = sha512_hex_string(&data2);
    let lines = vec![
        "# sovereign ledger".to_string(),
        "".to_string(),
        format!("1700000000 | {} | {}", hash1, data1),
        format!("1700000001 | {} | {}", hash2, data2),
    ];
    assert!(verify_ledger_lines(&lines));
}

#[test]
fn ledger_verification_detects_a_tampered_entry() {
    let data1 = "genesis block data";
    let hash1 = sha512_hex_string(data1);
    let lines = vec![format!("1700000000 | {} | {}", hash1, "tampered data")];
    assert!(!verify_ledger_lines(&lines));
}

#[test]
fn ledger_verification_detects_a_broken_chain() {
    let data1 = "genesis block data";
    let hash1 = sha512_hex_string(data1);
    let data2 = "no reference to the previous hash";
    let hash2 = sha512_hex_string(data2);
    let lines = vec![
        format!("1 | {} | {}", hash1, data1),
        format!("2 | {} | {}", hash2, data2),
    ];
    assert!(!verify_ledger_lines(&lines));
}

#[test]
fn ledger_verification_rejects_a_malformed_line() {
    let lines = vec!["no separators at all".to_string()];
    assert!(!verify_ledger_lines(&lines));
    let empty: Vec<String> = Vec::new();
    assert!(verify_ledger_lines(&empty));
}

#[test]
fn test_context_seal_deterministic() {
    let messages = vec![
        NeuralMessage {
            role: "user".into(),
            content: "Analyze BTC volatility".into(),
            timestamp: 1705300000,
        },
        NeuralMessage {
            role: "assistant".into(),
            content: "Volatility is low, market stable".into(),
            timestamp: 1705300010,
        },
    ];
    let seal1 = AkashicLink::compute_context_seal(&messages);
    let seal2 = AkashicLink::compute_context_seal(&messages);
    assert_eq!(seal1, seal2);
    assert_eq!(seal1.len(), 128);
}

#[test]
fn test_record_creation() {
    let messages = vec![NeuralMessage {
        role: "user".into(),
        content: "Test".into(),
        timestamp: 1705300000,
    }];
    let record = AkashicLink::create_record(&messages, 950, true);
    assert_eq!(record.message_count, 1);
    assert!(record.veritas_approved);
    assert!(record.decision_index_milli > 0);
}

#[test]
fn chain_continuity_requires_time_fresh_seals_and_approval() {
    let approved = |seal: &str, ts: u64| AkashicRecord {
        context_seal: seal.to_string(),
        message_count: 1,
        decision_index_milli: 900,
        veritas_approved: true,
        timestamp: ts,
    };
    let a = approved("seal-a", 100);
    let b = approved("seal-b", 200);
    assert!(AkashicLink::verify_chain_continuity(&b, &a));
    // time flowing backwards breaks the chain
    assert!(!AkashicLink::verify_chain_continuity(&a, &b));
    // a stale seal breaks the chain
    let stale = approved("seal-a", 300);
    assert!(!AkashicLink::verify_chain_continuity(&stale, &a));
}

#[test]
fn ledger_line_of_a_record_carries_its_fields() {
    let record = AkashicRecord {
        context_seal: "abcdef0123456789abcdef0123456789".to_string(),
        message_count: 7,
        decision_index_milli: 950,
        veritas_approved: true,
        timestamp: 1705300000,
    };
    let line = AkashicLink::format_for_ledger(&record);
    assert!(line.starts_with("AKASHIC_SEAL: abcdef0123456789"));
    assert!(line.contains("MESSAGES: 7"));
    assert!(line.contains("INDEX_MILLI: 950"));
    assert!(line.contains("VERITAS: PASS"));
    assert!(line.contains("TS: 1705300000"));
}

#[test]
fn liveness_tokens_verify_and_resist_tampering() {
    let module = ApoptosisModule::new("secret key material");
    let token = module.generate_token("scribe", "HEALTHY");
    assert_eq!(token.signature.len(), 64);
    assert!(module.verify_vitality(&token, "scribe"));
    // a spoofed module id fails
    assert!(!module.verify_vitality(&token, "other-module"));
    // a tampered signature fails
    let mut forged = module.generate_token("scribe", "HEALTHY");
    forged.signature = "00".repeat(32);
    assert!(!module.verify_vitality(&forged, "scribe"));
    // a different key signs differently
    let other = ApoptosisModule::new("another key");
    assert!(!other.verify_vitality(&token, "scribe"));
}

#[test]
fn freshness_window_is_exact_against_a_given_clock() {
    let module = ApoptosisModule::new("secret key material");
    let token = module.generate_token("scribe", "HEALTHY");
    // fresh at its own moment and across the allowed window
    assert!(module.verify_vitality_at(&token, "scribe", token.timestamp));
    assert!(module.verify_vitality_at(&token, "scribe", token.timestamp + 300));
    assert!(module.verify_vitality_at(&token, "scribe", token.timestamp - 60));
    // one second outside the window on either side fails
    assert!(!module.verify_vitality_at(&token, "scribe", token.timestamp + 301));
    assert!(!module.verify_vitality_at(&token, "scribe", token.timestamp - 61));
}

#[test]
fn test_verify_resonance_success() {
    assert!(IdentityValidator::verify_resonance("AETERNA_LOGOS_DIMITAR_PRODROMOV!").is_ok());
}

#[test]
fn resonance_rejects_any_other_signature() {
    assert!(IdentityValidator::verify_resonance("not the architect").is_err());
}

#[test]
fn hex_rendering_and_parsing_round_trip() {
    assert_eq!(encode(&[0xde, 0xad, 0xbe, 0xef]), "deadbeef");
    assert_eq!(encode(&[]), "");
    assert_eq!(u32_to_hex(0xDEADBEEF), "deadbeef");
    assert_eq!(u32_to_hex(0), "0");
    let bytes = decode_hex("deadBEEF").unwrap();
    assert_eq!(bytes, vec![0xde, 0xad, 0xbe, 0xef]);
    assert!(decode_hex("abc").is_none());
    assert!(decode_hex("zz").is_none());
}

#[test]
fn fortress_round_trips_under_the_right_password() {
    let fortress = FortressProtocol::new();
    let sealed = fortress.encrypt("the vault holds", "hunter2").unwrap();
    let opened = fortress.decrypt(&sealed, "hunter2").unwrap();
    assert_eq!(opened, "the vault holds");
}

#[test]
fn fortress_refuses_a_wrong_password_or_garbage() {
    let fortress = FortressProtocol::new();
    let sealed = fortress.encrypt("the vault holds", "hunter2").unwrap();
    assert_eq!(fortress.decrypt(&sealed, "wrong"), Err(FortressError::DecryptionError));
    assert_eq!(
        fortress.decrypt("not base64 at all!!!", "hunter2"),
        Err(FortressError::DecryptionError)
    );
    assert_eq!(fortress.decrypt("AAAA", "hunter2"), Err(FortressError::DecryptionError));
}

#[test]
fn derived_keys_are_deterministic_and_salted() {
    let fortress = FortressProtocol::new();
    let salt_a = vec![1u8; 32];
    let salt_b = vec![2u8; 32];
    let k1 = fortress.derive_key("password", &salt_a);
    let k2 = fortress.derive_key("password", &salt_a);
    let k3 = fortress.derive_key("password", &salt_b);
    assert_eq!(k1.len(), 32);
    assert_eq!(k1, k2);
    assert_ne!(k1, k3);
}

#[test]
fn the_vm_adds_and_prints() {
    let program = vec![
        NoeticOpcode::LOAD(2),
        NoeticOpcode::LOAD(3),
        NoeticOpcode::ADD,
        NoeticOpcode::PRINT,
        NoeticOpcode::HALT,
    ];
    let mut vm = NoeticVM::new(program);
    vm.run();
    assert_eq!(vm.stack, vec![5]);
    assert_eq!(vm.output, vec!["VM Output: 5".to_string()]);
}

#[test]
fn the_vm_stores_subtracts_and_branches() {
    let program = vec![
        NoeticOpcode::LOAD(10),
        NoeticOpcode::LOAD(4),
        NoeticOpcode::SUB,
        NoeticOpcode::STORE(3),
        NoeticOpcode::LOAD(0),
        NoeticOpcode::JUMP_IF(0),
        NoeticOpcode::LOAD(99),
    ];
    let mut vm = NoeticVM::new(program);
    vm.run();
    assert_eq!(vm.memory[3], 6);
    assert_eq!(vm.stack, vec![99]);
}

#[test]
fn resonance_gates_the_bridge_opcode() {
    let program = vec![
        NoeticOpcode::NOETIC_BRIDGE,
        NoeticOpcode::RESONATE(0x4121),
        NoeticOpcode::NOETIC_BRIDGE,
        NoeticOpcode::HALT,
    ];
    let mut vm = NoeticVM::new(program);
    vm.run();
    assert!(vm.resonance_active);
    assert_eq!(
        vm.output,
        vec![
            "[ERROR]: resonance not established".to_string(),
            "[RESONANCE]: frequency verified".to_string(),
            "[BRIDGE]: noetic bridge open".to_string(),
        ]
    );
}

#[test]
fn the_loader_compiles_script_lines_in_order() {
    let script = "/// a comment line\n\
                  \n\
                  resonate RESONANCE(0x4121)\n\
                  resonate RESONANCE(16673)\n\
                  collapse ENTROPY(0.0000)\n\
                  [LOGOS: MANIFESTED]\n\
                  unrelated chatter";
    let program = load_aeterna_soul(script);
    assert_eq!(
        program,
        vec![
            NoeticOpcode::RESONATE(0x4121),
            NoeticOpcode::RESONATE(16673),
            NoeticOpcode::NOETIC_BRIDGE,
            NoeticOpcode::INFUSE_ANIMA,
            NoeticOpcode::HALT,
        ]
    );
}

#[test]
fn the_bridge_opens_only_on_its_seed() {
    let mut bridge = NoeticBridge::new(0x4121);
    assert!(!bridge.is_active());
    assert!(bridge.open_bridge(7).is_err());
    assert!(!bridge.is_active());
    let ok = bridge.open_bridge(0x4121).unwrap();
    assert_eq!(ok, "SUCCESS: BRIDGE_STABLE");
    assert!(bridge.is_active());
}

#[test]
fn the_vortex_engine_starts_counts_and_stops() {
    let mut engine = VortexAI::new();
    assert_eq!(engine.get_status(), "Vortex AI Status: STOPPED | Cycles: 0");
    engine.start();
    assert!(engine.tick());
    assert!(engine.tick());
    assert_eq!(engine.get_status(), "Vortex AI Status: RUNNING | Cycles: 2");
    assert_eq!(engine.biology.status, "ONLINE");
    engine.stop();
    assert!(!engine.tick());
    assert_eq!(engine.get_status(), "Vortex AI Status: STOPPED | Cycles: 2");
}

#[test]
fn the_exchange_stub_reports_the_fixed_balance() {
    let connector = BinanceConnector::new("test-api-key".to_string());
    let balance = connector.get_balance("BTC");
    assert_eq!(balance.asset, "BTC");
    assert_eq!(balance.free, 100);
    assert_eq!(balance.locked, 0);
    assert_eq!(balance.total, 100);
}

#[test]
fn the_clock_reports_a_nonnegative_timestamp() {
    let now: DateTime = Utc::now();
    assert!(now.timestamp() >= 0);
}
