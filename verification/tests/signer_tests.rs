use horology_kernel::json::JsonValue;
use horology_kernel::signer::{hmac_sha256_bytes, EventSigner, TimerEvent};
use horology_kernel::status::TimerStatus;
use horology_kernel::strutil::{hex_of_bytes, uuid_hyphenated};
use horology_kernel::timer::TimerInstance;

fn sample_timer() -> TimerInstance {
    TimerInstance {
        id: 0,
        tenant_id: "tenant".into(),
        requested_by: "tester".into(),
        name: "sample".into(),
        duration_ms: 1000,
        created_at: 0,
        fire_at: 1000,
        status: TimerStatus::Scheduled,
        metadata: None,
        labels: Vec::new(),
        action_bundle: None,
        agent_binding: None,
        fired_at: None,
        cancelled_at: None,
        cancel_reason: None,
        cancelled_by: None,
        settled_at: None,
        failure_reason: None,
        state_version: 0,
    }
}

#[test]
fn encode_envelope_produces_canonical_json() {
    let timer = sample_timer();
    let signer = EventSigner::insecure_dev();
    let envelope = signer
        .sign_event(TimerEvent::Scheduled(timer))
        .expect("sign envelope");

    let bytes = horology_kernel::signer::encode_envelope(&envelope);
    let decoded: serde_json::Value = serde_json::from_slice(&bytes).expect("valid json");
    assert_eq!(decoded["tenant_id"], "tenant");
    assert_eq!(decoded["signature_version"], "v1-hmac-sha256");
    assert_eq!(
        decoded["event"]["type"],
        serde_json::Value::String("Scheduled".into())
    );
}

#[test]
fn signed_envelope_verifies() {
    let signer = EventSigner::insecure_dev();
    let envelope = signer.sign_event_at(TimerEvent::Scheduled(sample_timer()), 7, 1234, None);
    assert!(signer.verify(&envelope));
    assert_eq!(
        envelope.dedupe_key,
        "timer:tenant:00000000-0000-0000-0000-000000000000:0"
    );
    assert_eq!(
        envelope.envelope_id,
        "00000000-0000-0000-0000-000000000007"
    );
    assert_eq!(envelope.signature.len(), 64);
}

#[test]
fn verification_is_keyed() {
    let signer = EventSigner::insecure_dev();
    let other = EventSigner::new(b"another-secret".to_vec()).expect("signer");
    let envelope = signer.sign_event_at(TimerEvent::Scheduled(sample_timer()), 7, 1234, None);
    assert!(!other.verify(&envelope));
}

#[test]
fn tampered_occurred_at_fails_verification() {
    let signer = EventSigner::insecure_dev();
    let mut envelope =
        signer.sign_event_at(TimerEvent::Fired(sample_timer()), 9, 99999, None);
    assert!(signer.verify(&envelope));

    // flip one byte of occurred_at_iso
    let mut bytes = envelope.occurred_at_iso.clone().into_bytes();
    bytes[0] = bytes[0] ^ 0x01;
    envelope.occurred_at_iso = String::from_utf8(bytes).expect("still utf-8");
    assert!(!signer.verify(&envelope));
}

#[test]
fn tampered_tenant_fails_verification() {
    let signer = EventSigner::insecure_dev();
    let mut envelope =
        signer.sign_event_at(TimerEvent::Settled(sample_timer()), 11, 5555, None);
    envelope.tenant_id = "tenanu".into();
    assert!(!signer.verify(&envelope));
}

#[test]
fn tampered_signature_fails_verification() {
    let signer = EventSigner::insecure_dev();
    let mut envelope =
        signer.sign_event_at(TimerEvent::Scheduled(sample_timer()), 12, 5555, None);
    let mut sig = envelope.signature.clone().into_bytes();
    sig[10] = if sig[10] == b'0' { b'1' } else { b'0' };
    envelope.signature = String::from_utf8(sig).expect("hex");
    assert!(!signer.verify(&envelope));
}

#[test]
fn hmac_sha256_matches_known_vector() {
    // RFC 4231, test case 2.
    let tag = hmac_sha256_bytes(b"Jefe", b"what do ya want for nothing?");
    assert_eq!(
        hex_of_bytes(&tag),
        "5bdcc146bf60754e6a042426089575c75a003f089d2739839dec58b964ec3843"
    );
}

#[test]
fn sha256_matches_known_vector() {
    let digest = horology_kernel::outside::sha256(b"abc");
    assert_eq!(
        hex_of_bytes(&digest),
        "ba7816bf8f01cfea414140de5dae2223b00361a396177a9cb410ff61f20015ad"
    );
}

#[test]
fn uuid_rendering_is_hyphenated_lower_hex() {
    assert_eq!(
        uuid_hyphenated(0x0123456789abcdef0123456789abcdefu128),
        "01234567-89ab-cdef-0123-456789abcdef"
    );
    assert_eq!(uuid_hyphenated(0), "00000000-0000-0000-0000-000000000000");
}

#[test]
fn canonical_json_sorts_and_escapes() {
    let value = JsonValue::Obj(vec![
        ("a".to_string(), JsonValue::Str("x\"y\\z".to_string())),
        ("b".to_string(), JsonValue::Arr(vec![
            JsonValue::Int(-5),
            JsonValue::Bool(true),
            JsonValue::Null,
        ])),
        ("c".to_string(), JsonValue::Str("tab\tend".to_string())),
    ]);
    let mut out = String::new();
    horology_kernel::json::write_canon(&value, &mut out);
    assert_eq!(
        out,
        "{\"a\":\"x\\\"y\\\\z\",\"b\":[-5,true,null],\"c\":\"tab\\u0009end\"}"
    );
    let decoded: serde_json::Value = serde_json::from_str(&out).expect("valid json");
    assert_eq!(decoded["c"], "tab\tend");
}

#[test]
fn signing_payload_covers_the_event() {
    // Two envelopes differing only in the carried event verify under their
    // own signatures and not under each other's.
    let signer = EventSigner::insecure_dev();
    let scheduled = signer.sign_event_at(TimerEvent::Scheduled(sample_timer()), 3, 777, None);
    let fired = signer.sign_event_at(TimerEvent::Fired(sample_timer()), 3, 777, None);
    assert_ne!(scheduled.signature, fired.signature);
}

#[test]
fn occurred_at_is_rfc3339_millis_utc() {
    let signer = EventSigner::insecure_dev();
    let envelope = signer.sign_event_at(TimerEvent::Scheduled(sample_timer()), 1, 0, None);
    assert_eq!(envelope.occurred_at_iso, "1970-01-01T00:00:00.000Z");

    let later = signer.sign_event_at(
        TimerEvent::Scheduled(sample_timer()),
        1,
        1_700_000_000_123,
        None,
    );
    assert_eq!(later.occurred_at_iso, "2023-11-14T22:13:20.123Z");
}

#[test]
fn empty_secret_is_refused_at_construction() {
    let err = EventSigner::new(Vec::new()).expect_err("empty secret");
    assert!(matches!(
        err,
        horology_kernel::timer::KernelError::Persistence(_)
    ));
}

#[test]
fn trace_id_is_signed_too() {
    let signer = EventSigner::insecure_dev();
    let with_trace = signer.sign_event_at(
        TimerEvent::Scheduled(sample_timer()),
        1,
        10,
        Some("trace-1".to_string()),
    );
    assert!(signer.verify(&with_trace));
    let mut stripped = with_trace.clone();
    stripped.trace_id = None;
    assert!(!signer.verify(&stripped));
}
