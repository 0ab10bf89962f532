use codexmanager::gateway::{resolve_direct_upstream_model_for_log, should_skip_codex_v1_alt_for_responses};

#[test]
fn api_client_responses_request_skips_codex_v1_alt_retry() {
    assert!(should_skip_codex_v1_alt_for_responses(
        "https://chatgpt.com/backend-api/codex/v1/responses"
    ));
}

#[test]
fn native_codex_responses_request_skips_codex_v1_alt_retry() {
    assert!(should_skip_codex_v1_alt_for_responses(
        "https://chatgpt.com/backend-api/codex/v1/responses"
    ));
}

#[test]
fn non_responses_request_keeps_alternate_path_available() {
    assert!(!should_skip_codex_v1_alt_for_responses(
        "https://chatgpt.com/backend-api/codex/v1/chat/completions"
    ));
}

#[test]
fn compact_responses_mapped_to_chat_completions_keeps_alternate_path_available() {
    assert!(!should_skip_codex_v1_alt_for_responses(
        "https://chatgpt.com/backend-api/codex/v1/chat/completions"
    ));
}

#[test]
fn responses_path_with_query_string_still_skips() {
    assert!(should_skip_codex_v1_alt_for_responses(
        "https://chatgpt.com/backend-api/codex/v1/responses?stream=true"
    ));
    assert!(!should_skip_codex_v1_alt_for_responses(
        "https://chatgpt.com/backend-api/codex/responses"
    ));
    assert!(!should_skip_codex_v1_alt_for_responses(""));
}

#[test]
fn direct_upstream_model_is_logged_for_override() {
    assert_eq!(
        resolve_direct_upstream_model_for_log(Some("gpt-5"), Some("gpt-5.4-openai-compact"),).as_deref(),
        Some("gpt-5.4-openai-compact")
    );
}

#[test]
fn direct_upstream_model_is_ignored_when_same_as_platform_model() {
    assert_eq!(
        resolve_direct_upstream_model_for_log(Some("gpt-5"), Some("gpt-5")),
        None
    );
}

#[test]
fn direct_upstream_model_is_trimmed_and_blank_is_ignored() {
    assert_eq!(
        resolve_direct_upstream_model_for_log(None, Some("  gpt-5  ")).as_deref(),
        Some("gpt-5")
    );
    assert_eq!(resolve_direct_upstream_model_for_log(Some("gpt-5"), Some("   ")), None);
    assert_eq!(resolve_direct_upstream_model_for_log(Some(" gpt-5"), Some("gpt-5 ")), None);
    assert_eq!(resolve_direct_upstream_model_for_log(Some("x"), None), None);
}
