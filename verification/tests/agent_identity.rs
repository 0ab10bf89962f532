use base64::engine::general_purpose::{STANDARD as BASE64_STANDARD, URL_SAFE_NO_PAD};
use base64::Engine as _;
use codexmanager::agent_identity::{
    authorization_header_for_agent_identity, authorization_header_for_agent_identity_at,
    format_upstream_authorization, required_value, signed_payload, signing_key_from_pkcs8_base64,
    validate_agent_identity, AccountAgentIdentity,
};
use codexmanager::crypto::now_ts;
use ed25519_dalek::pkcs8::EncodePrivateKey;
use ed25519_dalek::{Signature, SigningKey, Verifier as _};

fn identity() -> (AccountAgentIdentity, SigningKey) {
    let signing_key = SigningKey::from_bytes(&[7_u8; 32]);
    let private_key = signing_key.to_pkcs8_der().expect("encode private key");
    let now = now_ts();
    (
        AccountAgentIdentity {
            account_id: "account-1".to_string(),
            agent_runtime_id: "agent-runtime-1".to_string(),
            agent_private_key: BASE64_STANDARD.encode(private_key.as_bytes()),
            task_id: "task-1".to_string(),
            chatgpt_user_id: "user-1".to_string(),
            chatgpt_account_is_fedramp: false,
            auth_mode: "agentIdentity".to_string(),
            workspace_id: Some("workspace-1".to_string()),
            created_at: now,
            updated_at: now,
        },
        signing_key,
    )
}

#[test]
fn agent_assertion_matches_codex_agent_identity_wire_format() {
    let (identity, signing_key) = identity();
    let timestamp = "2026-07-21T12:00:00Z";
    let header = authorization_header_for_agent_identity_at(&identity, timestamp)
        .expect("build agent assertion");
    let encoded = header
        .strip_prefix("AgentAssertion ")
        .expect("agent assertion scheme");
    let envelope: serde_json::Value =
        serde_json::from_slice(&URL_SAFE_NO_PAD.decode(encoded).expect("decode assertion"))
            .expect("parse assertion");

    assert_eq!(envelope["agent_runtime_id"], "agent-runtime-1");
    assert_eq!(envelope["task_id"], "task-1");
    assert_eq!(envelope["timestamp"], timestamp);
    let signature_bytes = BASE64_STANDARD
        .decode(envelope["signature"].as_str().expect("signature"))
        .expect("decode signature");
    let signature = Signature::from_slice(&signature_bytes).expect("parse signature");
    signing_key
        .verifying_key()
        .verify(
            format!("agent-runtime-1:task-1:{timestamp}").as_bytes(),
            &signature,
        )
        .expect("verify signature");
}

#[test]
fn upstream_authorization_preserves_agent_assertion_and_wraps_bearer() {
    assert_eq!(
        format_upstream_authorization("AgentAssertion encoded"),
        "AgentAssertion encoded"
    );
    assert_eq!(
        format_upstream_authorization("access-token"),
        "Bearer access-token"
    );
}

#[test]
fn upstream_authorization_trims_the_token() {
    assert_eq!(format_upstream_authorization("  tok \n"), "Bearer tok");
    assert_eq!(
        format_upstream_authorization("  AgentAssertion abc  "),
        "AgentAssertion abc"
    );
    assert_eq!(format_upstream_authorization("AgentAssertion"), "Bearer AgentAssertion");
    assert_eq!(format_upstream_authorization(""), "Bearer ");
}

#[test]
fn built_assertion_header_is_forwarded_unchanged() {
    let (identity, _) = identity();
    let header = authorization_header_for_agent_identity_at(&identity, "2026-01-01T00:00:00Z")
        .expect("build agent assertion");
    assert_eq!(format_upstream_authorization(&header), header);
}

#[test]
fn envelope_keys_are_sorted_and_fields_trimmed() {
    let (mut identity, _) = identity();
    identity.agent_runtime_id = "  agent-runtime-1 ".to_string();
    identity.task_id = "\ttask-1".to_string();
    let header = authorization_header_for_agent_identity_at(&identity, "t0").unwrap();
    let bytes = URL_SAFE_NO_PAD
        .decode(header.strip_prefix("AgentAssertion ").unwrap())
        .unwrap();
    let text = String::from_utf8(bytes).unwrap();
    assert!(text.starts_with("{\"agent_runtime_id\":\"agent-runtime-1\",\"signature\":\""));
    assert!(text.ends_with("\",\"task_id\":\"task-1\",\"timestamp\":\"t0\"}"));
}

#[test]
fn current_time_header_is_an_assertion() {
    let (identity, _) = identity();
    let header = authorization_header_for_agent_identity(&identity).unwrap();
    assert!(header.starts_with("AgentAssertion "));
}

#[test]
fn blank_identity_fields_are_reported_in_order() {
    let (mut identity, _) = identity();
    identity.agent_runtime_id = "   ".to_string();
    identity.task_id = String::new();
    assert_eq!(
        authorization_header_for_agent_identity_at(&identity, "t"),
        Err("agent identity agent_runtime_id is empty".to_string())
    );
    assert_eq!(
        validate_agent_identity(&identity),
        Err("agent identity agent_runtime_id is empty".to_string())
    );
    identity.agent_runtime_id = "rt".to_string();
    assert_eq!(
        validate_agent_identity(&identity),
        Err("agent identity task_id is empty".to_string())
    );
}

#[test]
fn required_value_trims_or_names_the_field() {
    assert_eq!(required_value("  x  ", "f"), Ok("x".to_string()));
    assert_eq!(
        required_value(" \t", "field"),
        Err("agent identity field is empty".to_string())
    );
}

#[test]
fn unreadable_private_keys_are_rejected() {
    let (mut identity, _) = identity();
    identity.agent_private_key = "not base64!".to_string();
    let err = validate_agent_identity(&identity).unwrap_err();
    assert!(err.starts_with("agent identity private key is not valid base64: "));
    identity.agent_private_key = BASE64_STANDARD.encode(b"not a key");
    let err = validate_agent_identity(&identity).unwrap_err();
    assert!(err.starts_with("agent identity private key is not valid PKCS#8: "));
    let err = authorization_header_for_agent_identity_at(&identity, "t").unwrap_err();
    assert!(err.starts_with("agent identity private key is not valid PKCS#8: "));
}

#[test]
fn private_key_yields_its_secret() {
    let (identity, signing_key) = identity();
    assert_eq!(validate_agent_identity(&identity), Ok(()));
    let secret = signing_key_from_pkcs8_base64(&format!(" {} ", identity.agent_private_key)).unwrap();
    assert_eq!(secret, signing_key.to_bytes().to_vec());
}

#[test]
fn signed_payload_joins_with_colons() {
    assert_eq!(signed_payload("a", "b", "c"), "a:b:c");
}

#[test]
fn validation_agrees_with_header_building() {
    let (good, _) = identity();
    assert_eq!(validate_agent_identity(&good).is_ok(), authorization_header_for_agent_identity_at(&good, "t").is_ok());
    let (mut blank, _) = identity();
    blank.task_id = " ".to_string();
    assert_eq!(
        validate_agent_identity(&blank).err(),
        authorization_header_for_agent_identity_at(&blank, "t").err()
    );
    let (mut bad_key, _) = identity();
    bad_key.agent_private_key = "%%%".to_string();
    assert!(validate_agent_identity(&bad_key).is_err());
    assert!(authorization_header_for_agent_identity_at(&bad_key, "t").is_err());
}
