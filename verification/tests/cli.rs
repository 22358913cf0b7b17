use aletheia::capture::{capture_line, parse_context, session_metadata};
use aletheia::numbers::{parse_signed, parse_unsigned};
use aletheia::chain::{compute_event_hash, HashChain, Receipt};
use aletheia::error::{exit_code, AletheiaError};
use aletheia::event::{Event, EventContext, EventKind};
use aletheia::json::{Json, JsonNumber};
use aletheia::hexfields::{hash_from_hex, hash_to_hex, signature_from_hex, signature_to_hex};
use aletheia::keyfile::{key_from_hex, key_to_hex};
use aletheia::pack::EvidencePack;
use aletheia::paths::{config_dir, config_dir_from, join_path, keys_dir, session_dir, sessions_dir};
use aletheia::seal::{check_session_name, rebuild_chain};
use aletheia::signing::generate_keypair;
use aletheia::text::{contains_text, decimal_text, trim_text};
use aletheia::verify::{failed_report, verified_report, verify_pack, VerificationResult};

fn some(s: &str) -> Option<String> {
    Some(s.to_string())
}

// ---- --context ----

#[test]
fn context_all_fields() {
    assert_eq!(parse_context("repo=acme/app,branch=main,pr=42"), (some("acme/app"), some("main"), Some(42)));
}

#[test]
fn context_trims_and_ignores_unknown_keys() {
    assert_eq!(parse_context(" repo = x ,  foo=bar, branch=\tdev\n"), (some("x"), some("dev"), None));
}

#[test]
fn context_later_pairs_win() {
    assert_eq!(parse_context("repo=a,repo=b,pr=1,pr=2"), (some("b"), None, Some(2)));
    assert_eq!(parse_context("pr=5,pr=oops"), (None, None, None));
}

#[test]
fn context_value_keeps_later_equals_signs() {
    assert_eq!(parse_context("branch=a=b"), (None, some("a=b"), None));
    assert_eq!(parse_context("repo"), (some(""), None, None));
    assert_eq!(parse_context(""), (None, None, None));
    assert_eq!(parse_context(",,"), (None, None, None));
}

#[test]
fn context_pr_numbers() {
    assert_eq!(parse_context("pr=+7").2, Some(7));
    assert_eq!(parse_context("pr=18446744073709551615").2, Some(u64::MAX));
    assert_eq!(parse_context("pr=18446744073709551616").2, None);
    assert_eq!(parse_context("pr=-1").2, None);
    assert_eq!(parse_context("pr=+").2, None);
    assert_eq!(parse_context("pr=").2, None);
    assert_eq!(parse_context("pr=1 2").2, None);
}

#[test]
fn unsigned_parse_agrees_with_std() {
    for s in ["0", "007", "+0", "+", "", "12a", "99999999999999999999", "18446744073709551615", "-3", "٣"] {
        let chars: Vec<char> = s.chars().collect();
        assert_eq!(parse_unsigned(&chars), s.parse::<u64>().ok(), "{s}");
    }
}

// ---- text helpers ----

#[test]
fn trim_agrees_with_std() {
    for s in ["", "  ", " a b ", "\u{3000}x\u{85}", "\r\n{\"a\":1}\r\n", "\u{200b}y"] {
        assert_eq!(trim_text(s), s.trim(), "{s:?}");
    }
}

#[test]
fn contains_and_decimal() {
    assert!(contains_text("merkle root mismatch", "mismatch"));
    assert!(contains_text("abc", ""));
    assert!(!contains_text("mis", "mismatch"));
    assert_eq!(decimal_text(0), "0");
    assert_eq!(decimal_text(1234567890), "1234567890");
    assert_eq!(decimal_text(u64::MAX), u64::MAX.to_string());
}

// ---- capture ----

#[test]
fn blank_lines_capture_nothing() {
    assert!(capture_line("", "s", "manual", &None, &None, None).is_none());
    assert!(capture_line(" \t\r", "s", "manual", &None, &None, None).is_none());
}

#[test]
fn plain_line_capture() {
    let repo = some("acme/app");
    let ev = capture_line("  tool_call: read file \r", "sess", "manual", &repo, &None, Some(3)).unwrap();
    assert_eq!(ev.kind, EventKind::Custom);
    assert_eq!(ev.source, "manual");
    assert_eq!(ev.payload, Json::Object(vec![("text".to_string(), Json::Str("tool_call: read file".to_string()))]));
    assert_eq!(
        ev.context,
        EventContext {
            session_id: "sess".to_string(),
            repo: some("acme/app"),
            branch: None,
            pr_number: Some(3),
            tool: None,
            policy: None,
            result: None,
        }
    );
}

#[test]
fn json_line_capture() {
    let ev = capture_line(
        r#" {"kind":"test_run","source":"ci","payload":{"ok":true},"timestamp":5} "#,
        "sess",
        "agent",
        &None,
        &some("main"),
        None,
    )
    .unwrap();
    assert_eq!(ev.kind, EventKind::TestRun);
    assert_eq!(ev.source, "agent");
    assert_eq!(ev.timestamp, 5);
    assert_eq!(ev.payload, Json::Object(vec![("ok".to_string(), Json::Bool(true))]));
    assert_eq!(ev.context.branch, some("main"));
    assert_eq!(ev.context.session_id, "sess");
}

#[test]
fn broken_json_line_is_plain_text() {
    let ev = capture_line("{oops", "sess", "manual", &None, &None, None).unwrap();
    assert_eq!(ev.kind, EventKind::Custom);
    assert_eq!(ev.payload, Json::Object(vec![("text".to_string(), Json::Str("{oops".to_string()))]));
}

#[test]
fn metadata_of_session() {
    let m = session_metadata("s1", "manual", &some("r"), &None, Some(9));
    assert_eq!(
        m,
        Json::Object(vec![
            ("session_id".to_string(), Json::Str("s1".to_string())),
            ("source".to_string(), Json::Str("manual".to_string())),
            ("repo".to_string(), Json::Str("r".to_string())),
            ("branch".to_string(), Json::Null),
            ("pr_number".to_string(), Json::Number(JsonNumber::PosInt(9))),
        ])
    );
}

// ---- paths ----

#[test]
fn path_joining() {
    assert_eq!(join_path(b"/home/u/.config", "aletheia"), b"/home/u/.config/aletheia".to_vec());
    assert_eq!(join_path(b"/home/u/.config/", "aletheia"), b"/home/u/.config/aletheia".to_vec());
    assert_eq!(join_path(b"", "keys"), b"keys".to_vec());
    assert_eq!(join_path(b"/a", "/b"), b"/b".to_vec());
    assert_eq!(join_path(b"/a", ""), b"/a/".to_vec());
    for (b, p) in [("x/y", "z"), ("/", "q"), ("a", "b/c"), ("a//", "c"), ("caf\u{e9}", "\u{2603}")] {
        assert_eq!(
            join_path(b.as_bytes(), p),
            std::path::Path::new(b).join(p).as_os_str().as_encoded_bytes().to_vec(),
            "{b} {p}"
        );
    }
    // Bytes that are not UTF-8 are kept as they are.
    assert_eq!(join_path(&[0x2f, 0xff, 0xfe], "k"), vec![0x2f, 0xff, 0xfe, b'/', b'k']);
}

#[test]
fn config_directories() {
    assert_eq!(config_dir_from(Some(b"/home/u/.config".to_vec())), b"/home/u/.config/aletheia".to_vec());
    assert_eq!(config_dir_from(Some(vec![0x2f, 0xc3])), vec![0x2f, 0xc3, b'/', b'a', b'l', b'e', b't', b'h', b'e', b'i', b'a']);
    assert_eq!(config_dir_from(None), b"./aletheia".to_vec());
    let config = config_dir();
    assert!(config.ends_with(b"/aletheia"));
    let with = |tail: &[u8]| {
        let mut v = config.clone();
        v.extend_from_slice(tail);
        v
    };
    assert_eq!(keys_dir(), with(b"/keys"));
    assert_eq!(sessions_dir(), with(b"/sessions"));
    assert_eq!(session_dir("demo"), with(b"/sessions/demo"));
}

// ---- key files ----

#[test]
fn hex_roundtrip() {
    let (sk, vk) = generate_keypair();
    let sk_hex = key_to_hex(&sk);
    let vk_hex = key_to_hex(&vk);

    let sk_decoded: [u8; 32] = key_from_hex(&sk_hex).expect("decode sk");
    let vk_decoded: [u8; 32] = key_from_hex(&vk_hex).expect("decode vk");

    assert_eq!(sk, sk_decoded);
    assert_eq!(vk, vk_decoded);
}

#[test]
fn key_file_text() {
    let key = [0x0fu8; 32];
    assert_eq!(key_to_hex(&key), "0f".repeat(32));
    assert_eq!(key_from_hex(&format!("  {}\n", "0F".repeat(32))), Ok(key));
    assert_eq!(
        key_from_hex("abcd"),
        Err("key file must be exactly 32 bytes (64 hex chars)".to_string())
    );
    assert_eq!(key_from_hex("abc"), Err("key file is not valid hex: Odd number of digits".to_string()));
    assert_eq!(
        key_from_hex("zz"),
        Err("key file is not valid hex: Invalid character 'z' at position 0".to_string())
    );
}

// ---- sealing ----

fn stored_receipt(id: &str, sequence: u64) -> Receipt {
    Receipt {
        event: Event::from_plain_text(id, "sess-seal"),
        hash: [9u8; 32],
        prev_hash: [8u8; 32],
        sequence,
        signature: None,
    }
}

#[test]
fn session_names() {
    assert_eq!(check_session_name(""), Err("session name must not be empty".to_string()));
    assert_eq!(check_session_name("s"), Ok(()));
}

#[test]
fn rebuilt_chain_recomputes_links() {
    let stored = vec![stored_receipt("a", 7), stored_receipt("b", 3)];
    let e0 = stored[0].event.duplicate();
    let e1 = stored[1].event.duplicate();
    let chain = rebuild_chain(stored).unwrap();
    let receipts = chain.receipts();
    assert_eq!(receipts.len(), 2);
    assert_eq!(receipts[0].event, e0);
    assert_eq!(receipts[1].event, e1);
    assert_eq!(receipts[0].sequence, 0);
    assert_eq!(receipts[0].prev_hash, [0u8; 32]);
    assert_eq!(receipts[0].hash, compute_event_hash(&e0).unwrap());
    assert_eq!(receipts[1].prev_hash, receipts[0].hash);
    let pack = EvidencePack::from_chain(chain, None);
    assert!(verify_pack(&pack, None).is_ok());
}

#[test]
fn nothing_to_seal() {
    assert_eq!(rebuild_chain(Vec::new()).err(), Some("session has no events to seal".to_string()));
}

#[test]
fn sealed_and_signed_pack_verifies() {
    let (sk, vk) = generate_keypair();
    let mut chain = HashChain::new();
    for line in ["tool_call: read file", "tool_call: write file"] {
        chain.append(capture_line(line, "e2e", "manual", &None, &None, None).unwrap()).unwrap();
    }
    let pack = EvidencePack::from_chain(chain, Some(&key_from_hex(&key_to_hex(&sk)).unwrap()));
    let result = verify_pack(&pack, Some(&vk)).unwrap();
    assert_eq!(result.signatures_valid, 1);
    assert_eq!(result.receipt_count, 2);
}

// ---- messages and reports ----

#[test]
fn error_messages() {
    let cases = [
        (
            AletheiaError::BrokenChain { index: 3, expected: "aa".into(), actual: "bb".into() },
            "hash chain broken at receipt 3: expected aa, got bb",
        ),
        (
            AletheiaError::MerkleRootMismatch { expected: "aa".into(), actual: "bb".into() },
            "merkle root mismatch: expected aa, got bb",
        ),
        (
            AletheiaError::ChainHeadMismatch { expected: "aa".into(), actual: "bb".into() },
            "chain head mismatch: expected aa, got bb",
        ),
        (
            AletheiaError::EventHashMismatch { index: 12, expected: "aa".into(), actual: "bb".into() },
            "event hash mismatch at receipt 12: expected aa, got bb",
        ),
        (AletheiaError::InvalidSignature { signer: "cc".into() }, "invalid signature from signer cc"),
        (AletheiaError::SigningError("boom".into()), "signing error: boom"),
        (AletheiaError::SerializationError("eof".into()), "serialization error: eof"),
        (AletheiaError::EmptyPack, "empty evidence pack"),
    ];
    for (e, m) in cases {
        assert_eq!(e.message(), m);
    }
}

#[test]
fn exit_codes() {
    assert_eq!(exit_code("merkle root mismatch: expected a, got b"), 1);
    assert_eq!(exit_code("invalid signature from signer x"), 1);
    assert_eq!(exit_code("integrity lost"), 1);
    assert_eq!(exit_code("session has no events to seal"), 3);
    assert_eq!(exit_code(""), 3);
}

#[test]
fn verification_reports() {
    let r = VerificationResult {
        receipt_count: 3,
        chain_ok: true,
        merkle_ok: true,
        chain_head_ok: true,
        signatures_valid: 1,
        signatures_total: 1,
    };
    let mut out = Vec::new();
    verified_report(&r).write_to(&mut out);
    assert_eq!(
        String::from_utf8(out).unwrap(),
        r#"{"chain_head_ok":true,"chain_ok":true,"merkle_ok":true,"receipt_count":3,"signatures_total":1,"signatures_valid":1,"status":"verified"}"#
    );
    let mut out = Vec::new();
    failed_report(&AletheiaError::EmptyPack).write_to(&mut out);
    assert_eq!(String::from_utf8(out).unwrap(), r#"{"error":"empty evidence pack","status":"failed"}"#);
}

#[test]
fn signed_parse_agrees_with_std() {
    for s in ["0", "-0", "+5", "-", "+", "", "-9223372036854775808", "-9223372036854775809", "9223372036854775807", "9223372036854775808", "-+1", "1-"] {
        let chars: Vec<char> = s.chars().collect();
        assert_eq!(parse_signed(&chars), s.parse::<i64>().ok(), "{s}");
    }
}

#[test]
fn hash_and_signature_hex_fields() {
    let hash = [0xa5u8; 32];
    assert_eq!(hash_to_hex(&hash), "a5".repeat(32));
    assert_eq!(hash_from_hex(&"A5".repeat(32)), Ok(hash));
    assert_eq!(hash_from_hex("abcd"), Err("expected 32-byte hex string".to_string()));
    assert_eq!(hash_from_hex("abc"), Err("Odd number of digits".to_string()));
    assert_eq!(hash_from_hex("g0"), Err("Invalid character 'g' at position 0".to_string()));

    let sig = [0x3cu8; 64];
    assert_eq!(signature_to_hex(&sig), "3c".repeat(64));
    assert_eq!(signature_from_hex(Some(&"3c".repeat(64))), Ok(Some(sig)));
    assert_eq!(signature_from_hex(None), Ok(None));
    assert_eq!(signature_from_hex(Some(&"3c".repeat(32))), Err("expected 64-byte hex string".to_string()));
    assert_eq!(signature_from_hex(Some(" 3")), Err("Invalid character ' ' at position 0".to_string()));
    assert_eq!(signature_from_hex(Some("abc")), Err("Odd number of digits".to_string()));
}
