use horology_kernel::auth::{
    compute_signature, enforce_stream_scope, enforce_tenant_scope, extract_context, AuthError,
    RequestContext,
};

fn signed_inputs(principal: &str, tenant: &str) -> (Option<String>, Option<String>, Option<String>) {
    let signature = compute_signature(principal, tenant);
    (
        Some(tenant.to_string()),
        Some(principal.to_string()),
        Some(signature),
    )
}

#[test]
fn extract_context_succeeds_with_valid_signature() {
    let (tenant, principal, signature) = signed_inputs("principal-a", "tenant-123");
    let context = extract_context(tenant, principal, signature, Some("trace-abc".to_string()))
        .expect("context should parse");
    assert_eq!(context.tenant_id, "tenant-123");
    assert_eq!(context.principal_id, "principal-a");
    assert_eq!(context.trace_id.as_deref(), Some("trace-abc"));
}

#[test]
fn extract_context_rejects_invalid_signature() {
    let error = extract_context(
        Some("tenant-123".to_string()),
        Some("principal-a".to_string()),
        Some("invalid".to_string()),
        None,
    )
    .expect_err("signature mismatch should error");
    assert!(matches!(error, AuthError::InvalidSignature));
}

#[test]
fn extract_context_requires_metadata() {
    let error = extract_context(None, Some("principal-a".to_string()), None, None)
        .expect_err("missing metadata should error");
    assert!(matches!(error, AuthError::MissingMetadata));

    let error = extract_context(
        Some(String::new()),
        Some("principal-a".to_string()),
        Some("sig".to_string()),
        None,
    )
    .expect_err("empty tenant should error");
    assert!(matches!(error, AuthError::MissingMetadata));
}

#[test]
fn extract_context_drops_empty_trace() {
    let (tenant, principal, signature) = signed_inputs("principal-a", "tenant-123");
    let context = extract_context(tenant, principal, signature, Some(String::new()))
        .expect("context should parse");
    assert!(context.trace_id.is_none());
}

#[test]
fn tenant_scope_defaults_to_context_when_missing() {
    let context = RequestContext {
        tenant_id: "tenant-123".into(),
        principal_id: "principal".into(),
        trace_id: None,
    };

    assert_eq!(
        enforce_tenant_scope("", &context).unwrap(),
        "tenant-123"
    );
    assert_eq!(
        enforce_tenant_scope("tenant-123", &context).unwrap(),
        "tenant-123"
    );
    assert!(enforce_tenant_scope("tenant-other", &context).is_none());
}

#[test]
fn stream_scope_allows_all_only_for_all_tenant_context() {
    let tenant_context = RequestContext {
        tenant_id: "tenant-123".into(),
        principal_id: "principal".into(),
        trace_id: None,
    };
    let control_context = RequestContext {
        tenant_id: "__all__".into(),
        principal_id: "control".into(),
        trace_id: None,
    };

    assert!(enforce_stream_scope("__all__", &tenant_context).is_none());
    assert_eq!(
        enforce_stream_scope("__all__", &control_context).unwrap(),
        "__all__"
    );
}

#[test]
fn compute_signature_is_sha256_of_principal_and_tenant() {
    // SHA-256 of the exact bytes "principal-a:tenant-123", rendered in hex.
    let joined = "principal-a:tenant-123";
    let digest = horology_kernel::outside::sha256(joined.as_bytes());
    let expected = horology_kernel::strutil::hex_of_bytes(&digest);
    assert_eq!(compute_signature("principal-a", "tenant-123"), expected);
    assert_eq!(expected.len(), 64);
}
