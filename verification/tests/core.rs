use aletheia::chain::{compute_event_hash, HashChain};
use aletheia::error::AletheiaError;
use aletheia::event::{Event, EventContext, EventKind};
use aletheia::json::Json;
use aletheia::merkle::compute_merkle_root;
use aletheia::pack::{iso_arithmetic_fits, parse_iso8601_secs, EvidencePack};
use aletheia::event::epoch_millis;
use aletheia::signing::{generate_keypair, sign, verdict_outcome, verify};
use ed25519_dalek::Signer;
use aletheia::verify::verify_pack;
use sha2::{Digest, Sha256};

/// 2026-01-01T00:00:00Z in Unix epoch milliseconds.
const NEW_YEAR_2026_MS: u64 = 1767225600000;

fn object(members: Vec<(&str, Json)>) -> Json {
    Json::Object(members.into_iter().map(|(k, v)| (k.to_string(), v)).collect())
}

fn text(s: &str) -> Json {
    Json::Str(s.to_string())
}

fn chain_event(id: &str, source: &str) -> Event {
    Event {
        id: id.to_string(),
        timestamp: NEW_YEAR_2026_MS,
        kind: EventKind::ToolUse,
        source: source.to_string(),
        context: EventContext::new("sess-test"),
        payload: object(vec![("cmd", text("ls"))]),
    }
}

// ---- chain ----

#[test]
fn empty_chain() {
    let chain = HashChain::new();
    assert_eq!(chain.len(), 0);
    assert_eq!(chain.head(), [0u8; 32]);
    assert!(chain.is_empty());
}

#[test]
fn single_event_chain() {
    let mut chain = HashChain::new();
    let event = chain_event("id-1", "agent");
    let receipt = chain.append(event).unwrap();

    assert_eq!(receipt.sequence, 0);
    assert_eq!(receipt.prev_hash, [0u8; 32]);
    assert_ne!(receipt.hash, [0u8; 32]);
    assert_eq!(chain.len(), 1);
}

#[test]
fn chain_links_prev_hash() {
    let mut chain = HashChain::new();
    let r0 = chain.append(chain_event("id-1", "agent")).unwrap();
    let r1 = chain.append(chain_event("id-2", "agent")).unwrap();

    assert_eq!(r1.prev_hash, r0.hash);
}

#[test]
fn hash_is_deterministic() {
    let event = chain_event("fixed-id", "agent");
    let h1 = compute_event_hash(&event).unwrap();
    let h2 = compute_event_hash(&event).unwrap();
    assert_eq!(h1, h2);
}

#[test]
fn different_events_different_hashes() {
    let e1 = chain_event("id-a", "agent");
    let e2 = chain_event("id-b", "agent");
    assert_ne!(compute_event_hash(&e1).unwrap(), compute_event_hash(&e2).unwrap());
}

#[test]
fn event_hash_is_sha256_of_canonical_json() {
    let event = chain_event("id-1", "agent");
    let expected = "{\"id\":\"id-1\",\"timestamp\":1767225600000,\"kind\":\"tool_use\",\"source\":\"agent\",\"context\":{\"session_id\":\"sess-test\"},\"payload\":{\"cmd\":\"ls\"}}";
    assert_eq!(String::from_utf8(event.canonical_json()).unwrap(), expected);
    let digest: [u8; 32] = Sha256::digest(expected.as_bytes()).into();
    assert_eq!(compute_event_hash(&event).unwrap(), digest);
}

#[test]
fn chain_head_follows_last_receipt() {
    let mut chain = HashChain::new();
    let r0 = chain.append(chain_event("id-1", "agent")).unwrap();
    assert_eq!(chain.head(), r0.hash);
    let r1 = chain.append(chain_event("id-2", "agent")).unwrap();
    assert_eq!(chain.head(), r1.hash);
    assert_eq!(r1.sequence, 1);
    assert_eq!(r1.signature, None);
    let receipts = chain.receipts();
    assert_eq!(receipts.len(), 2);
    assert_eq!(receipts[0].hash, r0.hash);
    assert_eq!(receipts[1].prev_hash, receipts[0].hash);
    assert_eq!(receipts[1].event, chain_event("id-2", "agent"));
}

// ---- merkle ----

fn sha256(data: &[u8]) -> [u8; 32] {
    Sha256::digest(data).into()
}

fn hash_pair(a: [u8; 32], b: [u8; 32]) -> [u8; 32] {
    let mut hasher = Sha256::new();
    hasher.update(a);
    hasher.update(b);
    hasher.finalize().into()
}

#[test]
fn empty_leaves_returns_zero() {
    assert_eq!(compute_merkle_root(&[]), [0u8; 32]);
}

#[test]
fn single_leaf() {
    let leaf = sha256(b"hello");
    let expected = hash_pair(leaf, leaf);
    assert_eq!(compute_merkle_root(&[leaf]), expected);
}

#[test]
fn two_leaves() {
    let a = sha256(b"alpha");
    let b = sha256(b"beta");
    let expected = hash_pair(a, b);
    assert_eq!(compute_merkle_root(&[a, b]), expected);
}

#[test]
fn deterministic() {
    let leaves: Vec<[u8; 32]> = (0u8..4).map(|i| sha256(&[i])).collect();
    let r1 = compute_merkle_root(&leaves);
    let r2 = compute_merkle_root(&leaves);
    assert_eq!(r1, r2);
}

#[test]
fn modification_changes_root() {
    let mut leaves: Vec<[u8; 32]> = (0u8..4).map(|i| sha256(&[i])).collect();
    let untouched = compute_merkle_root(&leaves);
    leaves[2] = sha256(b"tampered");
    let tampered = compute_merkle_root(&leaves);
    assert_ne!(untouched, tampered);
}

#[test]
fn odd_leaf_count() {
    let leaves: Vec<[u8; 32]> = (0u8..3).map(|i| sha256(&[i])).collect();
    let r1 = compute_merkle_root(&leaves);
    let r2 = compute_merkle_root(&leaves);
    assert_eq!(r1, r2);
    assert_ne!(r1, [0u8; 32]);
}

#[test]
fn three_leaves_duplicate_the_last() {
    let l: Vec<[u8; 32]> = (0u8..3).map(|i| sha256(&[i])).collect();
    let expected = hash_pair(hash_pair(l[0], l[1]), hash_pair(l[2], l[2]));
    assert_eq!(compute_merkle_root(&l), expected);
}

#[test]
fn five_leaves_pad_every_odd_level() {
    let l: Vec<[u8; 32]> = (0u8..5).map(|i| sha256(&[i])).collect();
    let a = hash_pair(l[0], l[1]);
    let b = hash_pair(l[2], l[3]);
    let c = hash_pair(l[4], l[4]);
    let expected = hash_pair(hash_pair(a, b), hash_pair(c, c));
    assert_eq!(compute_merkle_root(&l), expected);
}

// ---- signing ----

#[test]
fn keygen_produces_valid_pair() {
    let (sk, vk) = generate_keypair();
    assert_eq!(sk.len(), 32);
    assert_eq!(vk.len(), 32);
}

#[test]
fn keygen_derives_the_verifying_key() {
    let (sk, vk) = generate_keypair();
    let derived = ed25519_dalek::SigningKey::from_bytes(&sk).verifying_key().to_bytes();
    assert_eq!(vk, derived);
    assert_ne!(sk, vk);
}

#[test]
fn sign_and_verify_roundtrip() {
    let (sk, vk) = generate_keypair();
    let message = [0x42u8; 32];
    let sig = sign(&sk, &message).expect("sign");
    verify(&vk, &message, &sig).expect("verify");
}

#[test]
fn sign_matches_ed25519() {
    let sk = [7u8; 32];
    let message = [0x42u8; 32];
    let sig = sign(&sk, &message).expect("sign");
    let expected = ed25519_dalek::SigningKey::from_bytes(&sk).sign(&message).to_bytes();
    assert_eq!(sig, expected);
}

#[test]
fn tampered_message_fails() {
    let (sk, vk) = generate_keypair();
    let message = [0x42u8; 32];
    let sig = sign(&sk, &message).expect("sign");

    let mut tampered = message;
    tampered[0] ^= 0xff;
    assert!(verify(&vk, &tampered, &sig).is_err());
}

#[test]
fn tampered_signature_fails() {
    let (sk, vk) = generate_keypair();
    let message = [0x42u8; 32];
    let mut sig = sign(&sk, &message).expect("sign");

    sig[0] ^= 0x01;
    assert!(verify(&vk, &message, &sig).is_err());
}

#[test]
fn wrong_key_fails() {
    let (sk, _vk) = generate_keypair();
    let (_sk2, vk2) = generate_keypair();
    let message = [0x42u8; 32];
    let sig = sign(&sk, &message).expect("sign");

    assert!(verify(&vk2, &message, &sig).is_err());
}

#[test]
fn rejected_signature_names_the_key() {
    let (sk, _vk) = generate_keypair();
    let (_sk2, vk2) = generate_keypair();
    let message = [0x42u8; 32];
    let sig = sign(&sk, &message).expect("sign");
    match verify(&vk2, &message, &sig) {
        Err(AletheiaError::InvalidSignature { signer }) => assert_eq!(signer, hex::encode(vk2)),
        other => panic!("unexpected {:?}", other),
    }
}

#[test]
fn key_that_is_no_curve_point_is_an_invalid_signature() {
    // y = 2 has no x on the curve: the bytes are no verifying key.
    let mut vk = [0u8; 32];
    vk[0] = 2;
    let sig = [0u8; 64];
    match verify(&vk, &[0u8; 32], &sig) {
        Err(AletheiaError::InvalidSignature { signer }) => assert_eq!(signer, hex::encode(vk)),
        other => panic!("unexpected {:?}", other),
    }
}

#[test]
fn verdict_outcomes() {
    let key = [0xabu8; 32];
    assert!(verdict_outcome(Ok(true), &key).is_ok());
    match verdict_outcome(Ok(false), &key) {
        Err(AletheiaError::InvalidSignature { signer }) => assert_eq!(signer, "ab".repeat(32)),
        other => panic!("unexpected {:?}", other),
    }
    match verdict_outcome(Err("bad key".to_string()), &key) {
        Err(AletheiaError::InvalidSignature { signer }) => assert_eq!(signer, "ab".repeat(32)),
        other => panic!("unexpected {:?}", other),
    }
}

// ---- pack ----

fn pack_event(id: &str) -> Event {
    Event {
        id: id.to_string(),
        timestamp: NEW_YEAR_2026_MS,
        kind: EventKind::ToolUse,
        source: "agent".to_string(),
        context: EventContext::new("sess-pack"),
        payload: object(vec![("x", text(id))]),
    }
}

fn build_chain(n: usize) -> HashChain {
    let mut chain = HashChain::new();
    for i in 0..n {
        chain.append(pack_event(&format!("id-{i}"))).unwrap();
    }
    chain
}

#[test]
fn pack_from_chain_unsigned() {
    let chain = build_chain(3);
    let pack = EvidencePack::from_chain(chain, None);

    assert_eq!(pack.version, "1.0");
    assert_eq!(pack.receipts.len(), 3);
    assert_ne!(pack.merkle_root, [0u8; 32]);
    assert!(pack.signatures.is_empty());
}

#[test]
fn pack_from_chain_signed() {
    let (sk, _vk) = generate_keypair();
    let chain = build_chain(3);
    let pack = EvidencePack::from_chain(chain, Some(&sk));

    assert_eq!(pack.signatures.len(), 1);
    assert_eq!(pack.signatures[0].signer.len(), 64);
    assert_eq!(pack.signatures[0].signature.len(), 128);
}

#[test]
fn pack_metadata_correct() {
    let chain = build_chain(5);
    let pack = EvidencePack::from_chain(chain, None);

    assert_eq!(pack.metadata.event_count, 5);
    assert_eq!(pack.session_id, "sess-pack");
}

#[test]
fn pack_fields_from_chain() {
    let (sk, vk) = generate_keypair();
    let mut chain = HashChain::new();
    let mut first = pack_event("id-0");
    first.context.repo = Some("acme/repo".to_string());
    first.context.branch = Some("main".to_string());
    first.context.pr_number = Some(7);
    chain.append(first).unwrap();
    chain.append(pack_event("id-1")).unwrap();
    let head = chain.head();
    let hashes: Vec<[u8; 32]> = chain.receipts().iter().map(|r| r.hash).collect();
    let pack = EvidencePack::from_chain_at(chain, Some(&sk), 1234);

    assert_eq!(pack.sealed_at, 1234);
    assert_eq!(pack.created_at, NEW_YEAR_2026_MS);
    assert_eq!(pack.chain_head, head);
    assert_eq!(pack.merkle_root, compute_merkle_root(&hashes));
    assert_eq!(pack.metadata.repo, Some("acme/repo".to_string()));
    assert_eq!(pack.metadata.branch, Some("main".to_string()));
    assert_eq!(pack.metadata.pr_number, Some(7));
    assert_eq!(pack.metadata.agent_source, Some("agent".to_string()));
    assert_eq!(pack.signatures[0].signer, hex::encode(vk));
    assert_eq!(pack.signatures[0].signed_at, 1234);
    let sig = sign(&sk, &pack.merkle_root).unwrap();
    assert_eq!(pack.signatures[0].signature, hex::encode(sig));
}

#[test]
fn empty_pack_fields() {
    let pack = EvidencePack::from_chain_at(HashChain::new(), None, 99);
    assert_eq!(pack.session_id, "");
    assert_eq!(pack.created_at, 0);
    assert_eq!(pack.merkle_root, [0u8; 32]);
    assert_eq!(pack.chain_head, [0u8; 32]);
    assert_eq!(pack.metadata.event_count, 0);
    assert_eq!(pack.metadata.agent_source, None);
    let result = verify_pack(&pack, None).unwrap();
    assert_eq!(result.receipt_count, 0);
}

// ---- verify ----

fn verify_event(id: &str) -> Event {
    Event {
        id: id.to_string(),
        timestamp: 1735689600000,
        kind: EventKind::ToolUse,
        source: "agent".to_string(),
        context: EventContext::new("sess-verify"),
        payload: object(vec![("x", text(id))]),
    }
}

fn build_pack(n: usize, signing_key: Option<&[u8; 32]>) -> EvidencePack {
    let mut chain = HashChain::new();
    for i in 0..n {
        chain.append(verify_event(&format!("id-{i}"))).expect("append");
    }
    EvidencePack::from_chain(chain, signing_key)
}

#[test]
fn valid_pack_verifies() {
    let (sk, vk) = generate_keypair();
    let pack = build_pack(3, Some(&sk));

    let result = verify_pack(&pack, Some(&vk)).expect("verification should succeed");
    assert_eq!(result.receipt_count, 3);
    assert!(result.chain_ok);
    assert!(result.merkle_ok);
    assert!(result.chain_head_ok);
    assert_eq!(result.signatures_valid, 1);
    assert_eq!(result.signatures_total, 1);
}

#[test]
fn unsigned_pack_verifies_without_key() {
    let pack = build_pack(3, None);

    let result = verify_pack(&pack, None).expect("verification should succeed");
    assert_eq!(result.receipt_count, 3);
    assert!(result.chain_ok);
    assert!(result.merkle_ok);
    assert!(result.chain_head_ok);
    assert_eq!(result.signatures_valid, 0);
    assert_eq!(result.signatures_total, 0);
}

#[test]
fn tampered_event_fails() {
    let mut pack = build_pack(3, None);
    pack.receipts[1].event.payload = object(vec![("tampered", Json::Bool(true))]);

    let err = verify_pack(&pack, None).expect_err("should fail");
    assert!(matches!(err, AletheiaError::EventHashMismatch { index: 1, .. }));
}

#[test]
fn tampered_chain_fails() {
    let mut pack = build_pack(3, None);
    pack.receipts[1].prev_hash = [0u8; 32];

    let err = verify_pack(&pack, None).expect_err("should fail");
    assert!(matches!(err, AletheiaError::BrokenChain { index: 1, .. }));
}

#[test]
fn tampered_merkle_root_fails() {
    let mut pack = build_pack(3, None);
    pack.merkle_root = [99u8; 32];

    let err = verify_pack(&pack, None).expect_err("should fail");
    assert!(matches!(err, AletheiaError::MerkleRootMismatch { .. }));
}

#[test]
fn mismatch_errors_carry_hex() {
    let mut pack = build_pack(3, None);
    let stored = pack.receipts[2].hash;
    pack.receipts[2].event.source = "other".to_string();
    let recomputed = compute_event_hash(&pack.receipts[2].event).unwrap();
    match verify_pack(&pack, None) {
        Err(AletheiaError::EventHashMismatch { index, expected, actual }) => {
            assert_eq!(index, 2);
            assert_eq!(expected, hex::encode(recomputed));
            assert_eq!(actual, hex::encode(stored));
        }
        other => panic!("unexpected {:?}", other),
    }

    let mut pack = build_pack(3, None);
    let real_root = pack.merkle_root;
    pack.merkle_root = [99u8; 32];
    match verify_pack(&pack, None) {
        Err(AletheiaError::MerkleRootMismatch { expected, actual }) => {
            assert_eq!(expected, hex::encode(real_root));
            assert_eq!(actual, hex::encode([99u8; 32]));
        }
        other => panic!("unexpected {:?}", other),
    }
}

#[test]
fn first_link_must_be_zero() {
    let mut pack = build_pack(2, None);
    pack.receipts[0].prev_hash = [1u8; 32];
    match verify_pack(&pack, None) {
        Err(AletheiaError::BrokenChain { index, expected, actual }) => {
            assert_eq!(index, 0);
            assert_eq!(expected, "0".repeat(64));
            assert_eq!(actual, "01".repeat(32));
        }
        other => panic!("unexpected {:?}", other),
    }
}

#[test]
fn tampered_head_fails() {
    let mut pack = build_pack(3, None);
    let last = pack.receipts[2].hash;
    pack.chain_head = [5u8; 32];
    match verify_pack(&pack, None) {
        Err(AletheiaError::ChainHeadMismatch { expected, actual }) => {
            assert_eq!(expected, hex::encode(last));
            assert_eq!(actual, "05".repeat(32));
        }
        other => panic!("unexpected {:?}", other),
    }
}

#[test]
fn signature_checked_only_with_a_key() {
    let (sk, _vk) = generate_keypair();
    let (_sk2, vk2) = generate_keypair();
    let pack = build_pack(2, Some(&sk));
    let result = verify_pack(&pack, None).unwrap();
    assert_eq!(result.signatures_valid, 0);
    assert_eq!(result.signatures_total, 1);
    match verify_pack(&pack, Some(&vk2)) {
        Err(AletheiaError::InvalidSignature { signer }) => assert_eq!(signer, hex::encode(vk2)),
        other => panic!("unexpected {:?}", other),
    }
}

#[test]
fn unreadable_signature_texts() {
    let (sk, vk) = generate_keypair();
    let mut pack = build_pack(1, Some(&sk));
    pack.signatures[0].signature = "abc".to_string();
    match verify_pack(&pack, Some(&vk)) {
        Err(AletheiaError::SigningError(m)) => assert_eq!(m, "Odd number of digits"),
        other => panic!("unexpected {:?}", other),
    }
    pack.signatures[0].signature = "zz".to_string();
    match verify_pack(&pack, Some(&vk)) {
        Err(AletheiaError::SigningError(m)) => assert_eq!(m, "Invalid character 'z' at position 0"),
        other => panic!("unexpected {:?}", other),
    }
    pack.signatures[0].signature = "abcd".to_string();
    match verify_pack(&pack, Some(&vk)) {
        Err(AletheiaError::SigningError(m)) => assert_eq!(m, "signature not 64 bytes"),
        other => panic!("unexpected {:?}", other),
    }
}

// ---- event ----

#[test]
fn event_serialization_roundtrip() {
    let ctx = EventContext::new("sess-abc");
    let payload = object(vec![("tool", text("bash")), ("cmd", text("ls"))]);
    let event = Event::new(EventKind::ToolUse, "agent", ctx, payload.duplicate());

    let json = event.canonical_json();
    let restored: serde_json::Value = serde_json::from_slice(&json).expect("deserialize");

    assert_eq!(restored["id"], event.id.as_str());
    assert_eq!(restored["kind"], "tool_use");
    assert_eq!(restored["source"], event.source.as_str());
    assert_eq!(restored["context"]["session_id"], event.context.session_id.as_str());
    assert_eq!(restored["payload"]["tool"], "bash");
    assert_eq!(restored["payload"]["cmd"], "ls");
    assert_eq!(restored["timestamp"], event.timestamp);
}

#[test]
fn event_from_json_line_valid() {
    let line = r#"{"kind":"tool_use","source":"bash","payload":{"cmd":"ls"}}"#;
    let event = Event::from_json_line(line, "sess-1").expect("parse");

    assert_eq!(event.kind, EventKind::ToolUse);
    assert_eq!(event.source, "bash");
    assert_eq!(event.context.session_id, "sess-1");
    assert_eq!(event.payload, object(vec![("cmd", text("ls"))]));
    assert!(event.timestamp > 0);
}

#[test]
fn event_from_json_line_minimal() {
    let line = r#"{"payload":{"msg":"hello"}}"#;
    let event = Event::from_json_line(line, "sess-2").expect("parse");

    assert_eq!(event.kind, EventKind::Custom);
    assert_eq!(event.source, "jsonl");
    assert_eq!(event.payload, object(vec![("msg", text("hello"))]));
}

#[test]
fn event_from_json_line_with_timestamp() {
    let line = r#"{"payload":{"msg":"hello"},"timestamp":1700000000000}"#;
    let event = Event::from_json_line(line, "sess-ts").expect("parse");

    assert_eq!(event.timestamp, 1700000000000u64);
}

#[test]
fn event_from_plain_text() {
    let event = Event::from_plain_text("hello world", "sess-3");

    assert_eq!(event.kind, EventKind::Custom);
    assert_eq!(event.source, "plain_text");
    assert_eq!(event.context.session_id, "sess-3");
    assert_eq!(event.payload, object(vec![("text", text("hello world"))]));
}

fn context_json(ctx: &EventContext) -> serde_json::Value {
    let mut out = Vec::new();
    ctx.write_to(&mut out);
    serde_json::from_slice(&out).expect("serialize")
}

#[test]
fn event_context_with_all_fields() {
    let ctx = EventContext {
        session_id: "sess-4".to_string(),
        repo: Some("acme/repo".to_string()),
        branch: Some("main".to_string()),
        pr_number: Some(42),
        tool: Some("bash".to_string()),
        policy: Some("strict".to_string()),
        result: Some("ok".to_string()),
    };

    let json = context_json(&ctx);
    assert_eq!(json["session_id"], "sess-4");
    assert_eq!(json["repo"], "acme/repo");
    assert_eq!(json["branch"], "main");
    assert_eq!(json["pr_number"], 42);
    assert_eq!(json["tool"], "bash");
    assert_eq!(json["policy"], "strict");
    assert_eq!(json["result"], "ok");
}

#[test]
fn event_context_skips_none_fields() {
    let ctx = EventContext::new("sess-5");
    let json = context_json(&ctx);

    assert_eq!(json["session_id"], "sess-5");
    assert!(json.get("repo").is_none());
    assert!(json.get("branch").is_none());
    assert!(json.get("pr_number").is_none());
    assert!(json.get("tool").is_none());
    assert!(json.get("policy").is_none());
    assert!(json.get("result").is_none());
}

#[test]
fn json_line_kinds_and_fallbacks() {
    let e = Event::from_json_line(r#"{"kind":"file_edit","source":7,"x":1}"#, "s").unwrap();
    assert_eq!(e.kind, EventKind::FileEdit);
    assert_eq!(e.source, "jsonl");
    assert_eq!(
        e.payload,
        Event::from_json_line(r#"{"kind":"file_edit","source":7,"x":1}"#, "s").unwrap().payload
    );
    let e = Event::from_json_line(r#"{"kind":"nonsense","payload":null}"#, "s").unwrap();
    assert_eq!(e.kind, EventKind::Custom);
    assert_eq!(e.payload, Json::Null);
    let e = Event::from_json_line("{\"kind\":\"shell_exec\"}\r\r", "s").unwrap();
    assert_eq!(e.kind, EventKind::ShellExec);
    let e = Event::from_json_line(r#"{"timestamp":-5}"#, "s").unwrap();
    assert!(e.timestamp > 1_700_000_000_000);
}

#[test]
fn json_line_parse_error() {
    let err = Event::from_json_line("{not json", "s").unwrap_err();
    let serde_msg = serde_json::from_str::<serde_json::Value>("{not json").unwrap_err().to_string();
    assert_eq!(err, format!("JSON parse error: {serde_msg}"));
}

#[test]
fn fresh_ids_are_uuid_v7() {
    let e = Event::from_plain_text("x", "s");
    let id = uuid::Uuid::parse_str(&e.id).unwrap();
    assert_eq!(id.get_version_num(), 7);
    assert_eq!(e.id, id.hyphenated().to_string());
}

#[test]
fn kind_names() {
    let kinds = [
        (EventKind::ToolUse, "tool_use"),
        (EventKind::FileEdit, "file_edit"),
        (EventKind::ShellExec, "shell_exec"),
        (EventKind::PrAction, "pr_action"),
        (EventKind::TestRun, "test_run"),
        (EventKind::Custom, "custom"),
    ];
    for (k, name) in kinds {
        assert_eq!(k.name(), name);
        assert_eq!(EventKind::from_name(name), Some(k));
    }
    assert_eq!(EventKind::from_name("ToolUse"), None);
}

#[test]
fn canonical_json_matches_serde_json() {
    let payload_text = r#"{"a":"quote \" back \\ nl \n tab \t ctl \u0001 é 漢","b":[1,-2,3.5,true,null,{"c":{}}],"d":18446744073709551615}"#;
    let line = format!(r#"{{"payload":{payload_text},"source":"s"}}"#);
    let event = Event::from_json_line(&line, "sess").unwrap();
    let value: serde_json::Value = serde_json::from_str(payload_text).unwrap();
    assert_eq!(event.payload.to_json_bytes(), serde_json::to_vec(&value).unwrap());
}

#[test]
fn iso_timestamps_to_seconds() {
    assert_eq!(parse_iso8601_secs("1970-01-01T00:00:00Z"), Some(0));
    assert_eq!(parse_iso8601_secs("2026-01-01T00:00:00Z"), Some(1767225600));
    assert_eq!(parse_iso8601_secs("2024-03-01T12:34:56Z"), Some(1709296496));
    assert_eq!(parse_iso8601_secs("2024-02-29T12:34:56ZZ"), Some(1709210096));
    assert_eq!(parse_iso8601_secs("+2024-2-29T12:34:+56"), Some(1709210096));
    assert_eq!(parse_iso8601_secs("9999-12-31T23:59:59Z"), Some(253402300799));
    assert_eq!(parse_iso8601_secs("1969-12-31T23:59:59Z"), None);
    assert_eq!(parse_iso8601_secs("2024-03-01"), None);
    assert_eq!(parse_iso8601_secs("2024-03-01T01:02"), None);
    assert_eq!(parse_iso8601_secs("2024-03T01:02:03"), None);
    assert_eq!(parse_iso8601_secs("x024-03-01T01:02:03"), None);
    assert_eq!(parse_iso8601_secs("2024-03-01T01:02:-3"), None);
    assert_eq!(parse_iso8601_secs(""), None);
}

#[test]
fn iso_seconds_match_the_calendar() {
    // Days from 1970-01-01 counted one by one against the formula.
    let month_days = |y: u64, m: u64| match m {
        2 if (y % 4 == 0 && y % 100 != 0) || y % 400 == 0 => 29,
        2 => 28,
        4 | 6 | 9 | 11 => 30,
        _ => 31,
    };
    let mut days: u64 = 0;
    for y in 1970..2101u64 {
        for m in 1..=12u64 {
            for d in 1..=month_days(y, m) {
                let ts = format!("{y:04}-{m:02}-{d:02}T01:02:03Z");
                assert_eq!(parse_iso8601_secs(&ts), Some(days * 86400 + 3723), "{ts}");
                days += 1;
            }
        }
    }
}

#[test]
fn object_members_are_written_sorted_and_unique() {
    let payload = object(vec![
        ("tool", text("bash")),
        ("cmd", text("ls")),
        ("b", Json::Array(vec![object(vec![("z", Json::Null), ("a", Json::Bool(false))])])),
        ("cmd", text("pwd")),
        ("", Json::Number(aletheia::json::JsonNumber::PosInt(1))),
        ("é", Json::Null),
        ("e", Json::Null),
    ]);
    let mut expected = serde_json::Map::new();
    expected.insert("tool".to_string(), serde_json::Value::from("bash"));
    expected.insert("cmd".to_string(), serde_json::Value::from("ls"));
    let mut inner = serde_json::Map::new();
    inner.insert("z".to_string(), serde_json::Value::Null);
    inner.insert("a".to_string(), serde_json::Value::Bool(false));
    expected.insert("b".to_string(), serde_json::Value::Array(vec![serde_json::Value::Object(inner)]));
    expected.insert("cmd".to_string(), serde_json::Value::from("pwd"));
    expected.insert("".to_string(), serde_json::Value::from(1u64));
    expected.insert("é".to_string(), serde_json::Value::Null);
    expected.insert("e".to_string(), serde_json::Value::Null);
    let expected = serde_json::Value::Object(expected);
    assert_eq!(payload.to_json_bytes(), serde_json::to_vec(&expected).unwrap());
    assert_eq!(
        String::from_utf8(payload.to_json_bytes()).unwrap(),
        r#"{"":1,"b":[{"a":false,"z":null}],"cmd":"pwd","e":null,"tool":"bash","é":null}"#
    );

    let event = Event {
        id: "id-1".to_string(),
        timestamp: NEW_YEAR_2026_MS,
        kind: EventKind::ToolUse,
        source: "agent".to_string(),
        context: EventContext::new("sess-test"),
        payload,
    };
    let whole = format!(
        "{{\"id\":\"id-1\",\"timestamp\":{},\"kind\":\"tool_use\",\"source\":\"agent\",\"context\":{{\"session_id\":\"sess-test\"}},\"payload\":{}}}",
        NEW_YEAR_2026_MS,
        serde_json::to_string(&expected).unwrap()
    );
    assert_eq!(event.canonical_json(), whole.as_bytes());
    assert_eq!(compute_event_hash(&event).unwrap(), sha256(whole.as_bytes()));
}

#[test]
fn iso_arithmetic_bounds() {
    assert!(iso_arithmetic_fits("2026-01-01T00:00:00Z"));
    assert!(iso_arithmetic_fits("not a timestamp"));
    assert!(iso_arithmetic_fits("-9000000000000000-01-01T00:00:00Z"));
    assert!(!iso_arithmetic_fits("9223372036854775807-01-01T00:00:00Z"));
    assert!(!iso_arithmetic_fits("2026-01-01T18446744073709551615:00:00Z"));
    assert!(iso_arithmetic_fits("2026-01-01T5124095575000000:00:00Z"));
    assert_eq!(parse_iso8601_secs("2026-01-01T5124095575000000:00:00Z"), Some(18446744071767225600));
    assert!(!iso_arithmetic_fits("2026-01-01T5124095576030431:00:00Z"));
}

#[test]
fn epoch_millis_truncates() {
    assert_eq!(epoch_millis(None), 0);
    assert_eq!(epoch_millis(Some(1_767_225_600_000)), 1_767_225_600_000);
    assert_eq!(epoch_millis(Some((1u128 << 64) + 5)), 5);
}

#[test]
fn copies_and_defaults() {
    let mut chain = HashChain::default();
    assert!(chain.is_empty());
    assert_eq!(chain.head(), [0u8; 32]);
    let r = chain.append(chain_event("id-1", "agent")).unwrap();
    assert_eq!(r.clone(), r);
    assert_eq!(r.event.clone(), chain_event("id-1", "agent"));
    let pack = EvidencePack::from_chain(chain, None);
    let copy = pack.clone();
    assert_eq!(copy.merkle_root, pack.merkle_root);
    assert_eq!(copy.receipts, pack.receipts);
    let j = object(vec![("a", Json::Array(vec![Json::Null, text("x")]))]);
    assert_eq!(j.clone(), j);
}
