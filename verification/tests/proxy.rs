use openclaudia::json::{self, Json};
use openclaudia::proxy::auth::{
    determine_provider, extract_api_key, extract_device_submit_fields, resolve_anthropic_auth,
    resolve_provider, session_from_cookies, AnthropicAuth, ApiKey, ProviderConfig,
};
use openclaudia::proxy::context::{
    ContextAction, ContextAnswer, HookReply, PluginCommand, Preparation, ToolVerdict,
};
use openclaudia::proxy::extensions::{
    collect_extensions, compile_extension_pattern, extract_extensions_from_messages,
    EXTENSION_PATTERN_SOURCE,
};
use openclaudia::proxy::mcp::{
    connection_plan, handle_mcp_tool_call, tool_call_failed, tool_server, ConnectWarning,
    Connection, DeclaredServer,
};
use openclaudia::proxy::message::{add_tools, last_user_prompt};
use openclaudia::proxy::models::{
    static_model_list_json_for_provider, upstream_model_list_json, ListingTarget, ModelInfo,
    ModelSource,
};
use openclaudia::proxy::reply::{
    adapter_headers, clean_error, clean_reply, inject_stream_options_if_needed, keeps_header,
    passthrough_headers, read_failed, reply_body, transform_failed, usage_of_reply, BodyBuffer,
    ReplyBody,
};
use openclaudia::proxy::request::{
    completion_model, endpoint_url, hook_extensions, is_stream, parse_request,
};
use openclaudia::proxy::review::{
    apply_vdd_review, begin_review, vdd_result_hook_plan, FindingStatus, HookEvent, ReviewStart,
    VddAdvisoryResult, VddBlockingResult, VddResult, VddSession,
};
use openclaudia::proxy::stats::{
    auth_status, health, session_stats, sign_in_started, signed_in, tool_error_payload,
};
use openclaudia::proxy::turn::{
    actual_token_hint, compaction_notice, ends_session, enforce_model_policy,
    enforce_token_policy, loop_handoff, percent, token_parts, turn_steps, utilization_pct_x10,
    Compaction, Turn, TurnStep,
};
use openclaudia::proxy::{
    extract_usage_from_sse_event, normalize_base_url, ChatMessage, ContentPart, LoopControl,
    MessageContent, ProxyError, SSE_STREAM_TIMEOUT_SECS,
};
use openclaudia::services::policy::EnterprisePolicy;
use openclaudia::session::{Session, TokenUsage};
use openclaudia::string_map::StringMap;

fn j(text: &str) -> Json {
    json::parse(text).expect("test JSON must parse")
}

fn at<'a>(value: &'a Json, path: &[&str]) -> &'a Json {
    let mut here = value;
    for key in path {
        here = here.get(key).expect("member must be there");
    }
    here
}

fn message(role: &str, content: MessageContent) -> ChatMessage {
    ChatMessage {
        role: role.to_string(),
        content,
        name: None,
        tool_calls: None,
        tool_call_id: None,
        extra: StringMap::new(),
    }
}

fn text_message(role: &str, text: &str) -> ChatMessage {
    message(role, MessageContent::Text(text.to_string()))
}

fn model_ids(response: &Json) -> Vec<String> {
    response
        .get("data")
        .expect("model list data")
        .as_array()
        .expect("model list data must be an array")
        .iter()
        .map(|item| {
            item.get_str("id")
                .expect("model list entries must have string ids")
                .to_string()
        })
        .collect()
}

// ── Models ──────────────────────────────────────────────────────────────

#[test]
fn static_model_list_for_provider_returns_only_that_catalog() {
    let catalog = vec!["qwen3-coder-flash".to_string(), "qwen-long".to_string()];
    let response = static_model_list_json_for_provider("qwen", &catalog);
    let ids = model_ids(&response);

    assert!(
        ids.contains(&"qwen3-coder-flash".to_string()),
        "Qwen fallback list must include current Qwen coder flash"
    );
    assert!(
        !ids.contains(&"gpt-5.5".to_string()),
        "provider-specific fallback must not mix in OpenAI models"
    );
    assert!(response
        .get("data")
        .unwrap()
        .as_array()
        .expect("model list data")
        .iter()
        .all(|item| item.get_str("owned_by") == Some("qwen")));
    assert_eq!(response.get_str("object"), Some("list"));
}

#[test]
fn model_list_uses_live_provider_listing_when_available() {
    let target = ListingTarget {
        adapter: Some("openai".to_string()),
        adapter_catalog: Some("openai".to_string()),
        target_catalog: "openai".to_string(),
        supports_listing: true,
        configured: true,
    };
    assert!(matches!(target.source(), ModelSource::Upstream));
    let models = vec![
        ModelInfo {
            id: "live-openai-a".to_string(),
            owned_by: Some("upstream".to_string()),
            created: Some(1),
        },
        ModelInfo {
            id: "live-openai-b".to_string(),
            owned_by: None,
            created: None,
        },
    ];
    let response = target.model_list(Some(models), &vec!["gpt-5.5".to_string()]);

    assert_eq!(
        model_ids(&response),
        vec!["live-openai-a", "live-openai-b"]
    );
    let data = response.get("data").unwrap().as_array().unwrap();
    assert_eq!(data[0].get_str("owned_by"), Some("upstream"));
    assert_eq!(data[0].get_u64("created"), Some(1));
    assert_eq!(data[1].get_str("owned_by"), Some("openai"));
    assert!(data[1].get("created").is_none());
}

#[test]
fn model_list_falls_back_to_active_static_catalog_when_listing_unsupported() {
    let target = ListingTarget {
        adapter: Some("anthropic".to_string()),
        adapter_catalog: Some("anthropic".to_string()),
        target_catalog: "anthropic".to_string(),
        supports_listing: false,
        configured: true,
    };
    match target.source() {
        ModelSource::Catalog(name) => assert_eq!(name, "anthropic"),
        other => panic!("expected the catalog, got {other:?}"),
    }
    let response = target.model_list(None, &vec!["opus-4-7".to_string()]);
    let ids = model_ids(&response);

    assert!(
        ids.contains(&"opus-4-7".to_string()),
        "Anthropic fallback list must include Opus 4.7"
    );
    assert!(
        !ids.contains(&"gpt-5.5".to_string()),
        "active-provider fallback must not return a cross-provider list"
    );
    assert!(response
        .get("data")
        .unwrap()
        .as_array()
        .expect("model list data")
        .iter()
        .all(|item| item.get_str("owned_by") == Some("anthropic")));
}

#[test]
fn an_answer_without_models_counts_as_none() {
    let target = ListingTarget {
        adapter: Some("openai".to_string()),
        adapter_catalog: None,
        target_catalog: "compatible".to_string(),
        supports_listing: true,
        configured: true,
    };
    let response = target.model_list(Some(Vec::new()), &vec!["m".to_string()]);
    let data = response.get("data").unwrap().as_array().unwrap();
    assert_eq!(data.len(), 1);
    assert_eq!(data[0].get_str("owned_by"), Some("compatible"));
    let upstream = upstream_model_list_json("openai", &Vec::new());
    assert_eq!(model_ids(&upstream).len(), 0);
}

// ── Extensions ──────────────────────────────────────────────────────────

#[test]
fn invalid_extension_pattern_is_skipped() {
    assert!(compile_extension_pattern("[").is_none());
}

#[test]
fn extract_extensions_from_messages_finds_text_paths() {
    let regex = compile_extension_pattern(EXTENSION_PATTERN_SOURCE).expect("source regex compiles");
    assert!(
        regex.is_match("inspect src/main.rs and docs/README.md"),
        "source regex must match file paths in text"
    );

    let mut extensions = extract_extensions_from_messages(&vec![text_message(
        "user",
        "inspect src/main.rs and docs/README.md",
    )]);
    extensions.sort();

    assert_eq!(extensions, vec!["md", "rs"]);
}

#[test]
fn extensions_are_lowered_distinct_and_capped() {
    let messages = vec![message(
        "user",
        MessageContent::Parts(vec![
            ContentPart {
                content_type: "text".to_string(),
                text: Some("A.RS b.rs".to_string()),
                image_url: None,
            },
            ContentPart {
                content_type: "image_url".to_string(),
                text: None,
                image_url: Some(Json::Null),
            },
            ContentPart {
                content_type: "text".to_string(),
                text: Some("c.toml".to_string()),
                image_url: None,
            },
        ]),
    )];
    assert_eq!(
        extract_extensions_from_messages(&messages),
        vec!["rs", "toml"]
    );

    let many: Vec<String> = (0..100).map(|i| format!("f.e{i}")).collect();
    let found = extract_extensions_from_messages(&vec![text_message("user", &many.join(" "))]);
    assert_eq!(found.len(), 32);
    assert_eq!(found[0], "e0");
    assert_eq!(found[31], "e31");
}

#[test]
fn text_past_the_budget_is_not_scanned() {
    let mut long = "x ".repeat(32 * 1024);
    assert_eq!(long.len(), 64 * 1024);
    long.push_str("late.rs");
    assert!(extract_extensions_from_messages(&vec![text_message("user", &long)]).is_empty());

    let mut found = vec!["md".to_string()];
    collect_extensions(
        &mut found,
        &vec![Some("RS".to_string()), None, Some("md".to_string())],
    );
    assert_eq!(found, vec!["md", "rs"]);
}

// ── Device flow ─────────────────────────────────────────────────────────

#[test]
fn extract_device_submit_fields_accepts_separate_code_and_state() {
    let payload = j(r#"{"code": "auth_code_123", "state": "state_abc"}"#);

    let (code, state) = extract_device_submit_fields(&payload).expect("valid payload should parse");

    assert_eq!(code, "auth_code_123");
    assert_eq!(state, "state_abc");
}

#[test]
fn extract_device_submit_fields_accepts_combined_code_and_state() {
    let payload = j(r##"{"code": "auth_code_123#state_abc"}"##);

    let (code, state) =
        extract_device_submit_fields(&payload).expect("combined payload should parse");

    assert_eq!(code, "auth_code_123");
    assert_eq!(state, "state_abc");
}

#[test]
fn extract_device_submit_fields_prefers_combined_state_over_payload_state() {
    let payload =
        j(r##"{"code": "auth_code_123#state_from_code", "state": "state_from_payload"}"##);

    let (code, state) =
        extract_device_submit_fields(&payload).expect("combined payload should parse");

    assert_eq!(code, "auth_code_123");
    assert_eq!(state, "state_from_code");
}

#[test]
fn extract_device_submit_fields_rejects_missing_or_malformed_code() {
    for payload in [
        j(r#"{"state": "state_abc"}"#),
        j(r#"{"code": "", "state": "state_abc"}"#),
        j(r#"{"code": "   ", "state": "state_abc"}"#),
        j(r#"{"code": 123, "state": "state_abc"}"#),
        j(r##"{"code": "#state_abc"}"##),
    ] {
        let err =
            extract_device_submit_fields(&payload).expect_err("missing or malformed code must fail");
        match err {
            ProxyError::InvalidBody(msg) => assert!(msg.contains("'code'"), "{msg}"),
            other => panic!("expected InvalidBody, got {other:?}"),
        }
    }
}

#[test]
fn extract_device_submit_fields_rejects_missing_or_malformed_state() {
    for payload in [
        j(r#"{"code": "auth_code_123"}"#),
        j(r#"{"code": "auth_code_123", "state": ""}"#),
        j(r#"{"code": "auth_code_123", "state": "   "}"#),
        j(r#"{"code": "auth_code_123", "state": 123}"#),
        j(r##"{"code": "auth_code_123#"}"##),
    ] {
        let err = extract_device_submit_fields(&payload)
            .expect_err("missing or malformed state must fail");
        match err {
            ProxyError::InvalidBody(msg) => assert!(msg.contains("'state'"), "{msg}"),
            other => panic!("expected InvalidBody, got {other:?}"),
        }
    }
}

#[test]
fn missing_field_message_is_exact() {
    let err = extract_device_submit_fields(&j("{}")).unwrap_err();
    assert_eq!(
        err.message(),
        "Invalid request body: Missing non-empty string field 'code'"
    );
}

// ── URLs and providers ──────────────────────────────────────────────────

#[test]
fn normalize_base_url_strips_v1_and_slash() {
    assert_eq!(
        normalize_base_url("https://api.anthropic.com/v1/"),
        "https://api.anthropic.com"
    );
    assert_eq!(
        normalize_base_url("https://api.anthropic.com/v1"),
        "https://api.anthropic.com"
    );
    assert_eq!(
        normalize_base_url("https://api.openai.com/"),
        "https://api.openai.com"
    );
    assert_eq!(
        normalize_base_url("https://api.openai.com"),
        "https://api.openai.com"
    );
    // URL with no /v1 and no trailing slash is unchanged
    assert_eq!(
        normalize_base_url("http://localhost:8080"),
        "http://localhost:8080"
    );
}

#[test]
fn normalize_base_url_edge_cases() {
    assert_eq!(normalize_base_url(""), "");
    assert_eq!(normalize_base_url("///"), "");
    assert_eq!(normalize_base_url("http://h/v1/v1//"), "http://h");
    assert_eq!(normalize_base_url("http://h//v1"), "http://h");
    // One version ahead of slashes in front of another stays.
    assert_eq!(normalize_base_url("http://h/v1//v1"), "http://h/v1");
}

#[test]
fn determine_provider_unknown_model_uses_target() {
    assert_eq!(determine_provider(false, None, "deepseek"), "deepseek");
}

#[test]
fn determine_provider_preserves_openai_compatible_aggregator_targets() {
    assert_eq!(
        determine_provider(true, Some("anthropic"), "openrouter"),
        "openrouter"
    );
    assert_eq!(
        determine_provider(true, Some("openai"), "openrouter"),
        "openrouter"
    );
    assert_eq!(
        determine_provider(true, Some("qwen"), "opencode"),
        "opencode"
    );
    assert_eq!(determine_provider(true, None, "opencode"), "opencode");
}

#[test]
fn determine_provider_follows_the_model() {
    assert_eq!(
        determine_provider(false, Some("openai"), "anthropic"),
        "openai"
    );
}

// ── Usage ───────────────────────────────────────────────────────────────

#[test]
fn extract_usage_message_start_anthropic() {
    let event = j(
        r#"{"type": "message_start", "message": {"usage": {"input_tokens": 42,
            "cache_read_input_tokens": 10, "cache_creation_input_tokens": 5}}}"#,
    );
    let usage = extract_usage_from_sse_event(&event).expect("must extract usage");
    assert_eq!(usage.input_tokens, 42);
    assert_eq!(usage.cache_read_tokens, 10);
    assert_eq!(usage.cache_write_tokens, 5);
    assert_eq!(usage.output_tokens, 0);
}

#[test]
fn extract_usage_message_delta_anthropic() {
    let event = j(r#"{"type": "message_delta", "usage": {"output_tokens": 75}}"#);
    let usage = extract_usage_from_sse_event(&event).expect("must extract output usage");
    assert_eq!(usage.output_tokens, 75);
    assert_eq!(usage.input_tokens, 0);
}

#[test]
fn extract_usage_openai_final_chunk() {
    let event =
        j(r#"{"usage": {"prompt_tokens": 100, "completion_tokens": 50}, "choices": []}"#);
    let usage = extract_usage_from_sse_event(&event).expect("must extract OpenAI usage");
    assert_eq!(usage.input_tokens, 100);
    assert_eq!(usage.output_tokens, 50);
}

#[test]
fn extract_usage_returns_none_for_non_usage_events() {
    let event = j(r#"{"type": "content_block_start", "content_block": {"type": "text"}}"#);
    assert!(
        extract_usage_from_sse_event(&event).is_none(),
        "non-usage events must return None"
    );
}

#[test]
fn extract_usage_returns_none_for_all_zero_counts() {
    let event = j(r#"{"usage": {"prompt_tokens": 0, "completion_tokens": 0}}"#);
    // OpenAI zero-usage chunk must not produce Some(zero)
    assert!(
        extract_usage_from_sse_event(&event).is_none(),
        "all-zero usage must return None"
    );
}

#[test]
fn cached_tokens_are_read_in_either_shape() {
    let raw = j(r#"{"usage": {"prompt_tokens": 7, "completion_tokens": 3,
        "prompt_tokens_details": {"cached_tokens": 4}}}"#);
    let usage = usage_of_reply(None, &raw).expect("usage");
    assert_eq!(usage.cache_read_tokens, 4);
    assert_eq!(usage.cache_write_tokens, 0);
    let known = TokenUsage {
        input_tokens: 1,
        output_tokens: 0,
        cache_read_tokens: 0,
        cache_write_tokens: 0,
    };
    assert_eq!(usage_of_reply(Some(known), &raw), Some(known));
    assert_eq!(usage_of_reply(None, &j("{}")), None);
}

#[test]
fn sse_stream_timeout_constant_pinned_at_5_minutes() {
    assert_eq!(
        SSE_STREAM_TIMEOUT_SECS, 300,
        "SSE_STREAM_TIMEOUT_SECS must stay at 5 minutes unless timeout UX is revalidated"
    );
}

// ── Errors ──────────────────────────────────────────────────────────────

#[test]
fn proxy_error_hook_blocked_is_403() {
    let err = ProxyError::HookBlocked("dangerous tool".to_string());
    let (status, body) = err.into_response();
    assert_eq!(status, 403);
    assert_eq!(
        at(&body, &["error", "message"]).as_str(),
        Some("Hook blocked request: dangerous tool")
    );
    assert_eq!(at(&body, &["error", "type"]).as_str(), Some("proxy_error"));
}

#[test]
fn proxy_error_policy_denied_is_403() {
    let err = ProxyError::PolicyDenied("model denied".to_string());
    assert_eq!(err.into_response().0, 403);
}

#[test]
fn proxy_error_no_api_key_is_401() {
    let err = ProxyError::NoApiKey("anthropic".to_string());
    assert_eq!(err.into_response().0, 401);
}

#[test]
fn other_proxy_errors_have_their_statuses() {
    let cases = [
        (
            ProxyError::ProviderNotConfigured("x".to_string()),
            400,
            "Provider not configured: x",
        ),
        (
            ProxyError::NoApiKey("x".to_string()),
            401,
            "No API key configured for provider: x",
        ),
        (
            ProxyError::RequestError("x".to_string()),
            502,
            "Request error: x",
        ),
        (
            ProxyError::InvalidBody("x".to_string()),
            400,
            "Invalid request body: x",
        ),
        (
            ProxyError::JsonError("x".to_string()),
            400,
            "JSON error: x",
        ),
        (
            ProxyError::PolicyDenied("x".to_string()),
            403,
            "Policy denied request: x",
        ),
    ];
    for (err, status, message) in cases {
        assert_eq!(err.status(), status);
        assert_eq!(err.message(), message);
    }
}

// ── Policy ──────────────────────────────────────────────────────────────

#[test]
fn enforce_model_policy_rejects_unlisted_model() {
    let mut policy = EnterprisePolicy::default();
    policy.model_allowlist.insert("opus-4-7".to_string());

    let err = enforce_model_policy(&policy, "not-allowed").expect_err("model must be denied");

    assert!(matches!(err, ProxyError::PolicyDenied(_)));
    assert!(
        err.message().contains("not-allowed"),
        "denial should name the rejected model"
    );
}

#[test]
fn enforce_token_policy_rejects_request_cap() {
    let mut policy = EnterprisePolicy::default();
    policy.max_request_tokens = Some(10);

    let err = enforce_token_policy(&policy, "opus-4-7", 11, Some(64), 4096, None)
        .expect_err("request estimate over cap must be denied");

    assert!(matches!(err, ProxyError::PolicyDenied(_)));
    assert!(
        err.message().contains("per-request"),
        "denial should identify the request cap"
    );
}

fn used_fifty() -> TokenUsage {
    TokenUsage {
        input_tokens: 40,
        output_tokens: 10,
        cache_read_tokens: 0,
        cache_write_tokens: 0,
    }
}

#[test]
fn enforce_token_policy_rejects_projected_session_cap() {
    let mut policy = EnterprisePolicy::default();
    policy.max_session_tokens = Some(100);

    let err = enforce_token_policy(
        &policy,
        "opus-4-7",
        26,
        Some(25),
        4096,
        Some(&used_fifty()),
    )
    .expect_err("projected session total over cap must be denied");

    assert!(matches!(err, ProxyError::PolicyDenied(_)));
    assert!(
        err.message().contains("per-session"),
        "denial should identify the session cap"
    );
}

#[test]
fn enforce_token_policy_allows_projected_session_exactly_at_cap() {
    let mut policy = EnterprisePolicy::default();
    policy.max_session_tokens = Some(100);

    enforce_token_policy(
        &policy,
        "opus-4-7",
        25,
        Some(25),
        4096,
        Some(&used_fifty()),
    )
    .expect("exact session cap boundary must be allowed");
}

// ── Review ──────────────────────────────────────────────────────────────

#[test]
fn vdd_advisory_hook_plan_reports_conflict_for_genuine_findings() {
    let result = VddResult::Advisory(VddAdvisoryResult {
        findings: vec![FindingStatus::Genuine, FindingStatus::FalsePositive],
        context_injection: "review context".to_string(),
        static_analysis: 0,
    });

    let plan = vdd_result_hook_plan(&result);
    let events: Vec<HookEvent> = plan.iter().map(|(event, _)| *event).collect();

    assert_eq!(events[0], HookEvent::PostAdversaryReview);
    assert!(events.contains(&HookEvent::VddConflict));
    assert!(!events.contains(&HookEvent::VddConverged));
    assert_eq!(plan[0].1.get_u64("genuine_findings"), Some(1));
    assert_eq!(plan[0].1.get_u64("context_injection_bytes"), Some(14));
}

fn blocking_result() -> VddResult {
    VddResult::Blocking(VddBlockingResult {
        final_response: j(r#"{"ok": true}"#),
        session: VddSession {
            iterations: 0,
            total_findings: 3,
            total_genuine: 1,
            total_false_positives: 2,
            converged: true,
            termination_reason: Some("clean pass".to_string()),
        },
        crosslink_issues: 1,
    })
}

#[test]
fn vdd_blocking_hook_plan_reports_conflict_and_convergence() {
    let plan = vdd_result_hook_plan(&blocking_result());
    let events: Vec<HookEvent> = plan.iter().map(|(event, _)| *event).collect();

    assert_eq!(events[0], HookEvent::PostAdversaryReview);
    assert!(events.contains(&HookEvent::VddConflict));
    assert!(events.contains(&HookEvent::VddConverged));
    assert_eq!(plan[2].1.get_str("termination_reason"), Some("clean pass"));
}

#[test]
fn vdd_skipped_hook_plan_reports_post_review_only() {
    let result = VddResult::Skipped("Response too short".to_string());
    let plan = vdd_result_hook_plan(&result);

    assert_eq!(plan.len(), 1);
    assert_eq!(plan[0].0, HookEvent::PostAdversaryReview);
    assert_eq!(plan[0].1.get_str("result"), Some("skipped"));
    assert_eq!(plan[0].1.get_str("reason"), Some("Response too short"));
}

#[test]
fn review_outcomes_choose_the_body() {
    let replaced = apply_vdd_review(Ok(blocking_result()));
    assert_eq!(replaced.replacement, Some(j(r#"{"ok": true}"#)));
    assert!(replaced.advisory.is_none());

    let advised = apply_vdd_review(Ok(VddResult::Advisory(VddAdvisoryResult {
        findings: vec![],
        context_injection: "look again".to_string(),
        static_analysis: 2,
    })));
    assert_eq!(advised.advisory.as_deref(), Some("look again"));
    assert!(advised.replacement.is_none());

    let silent = apply_vdd_review(Ok(VddResult::Advisory(VddAdvisoryResult {
        findings: vec![],
        context_injection: String::new(),
        static_analysis: 0,
    })));
    assert!(silent.advisory.is_none());

    let failed = apply_vdd_review(Err("engine down".to_string()));
    assert_eq!(failed.events.len(), 1);
    assert_eq!(failed.events[0].1.get_str("error"), Some("engine down"));
    assert!(failed.replacement.is_none());
}

#[test]
fn reviews_begin_with_json_only() {
    assert!(matches!(begin_review("advisory", None), ReviewStart::Empty));
    assert!(matches!(
        begin_review("advisory", Some(b"<html>")),
        ReviewStart::AsIs
    ));
    match begin_review("blocking", Some(b"{\"a\": 1}")) {
        ReviewStart::Review { reply, payload } => {
            assert_eq!(reply.get_u64("a"), Some(1));
            assert_eq!(payload.get_str("mode"), Some("blocking"));
            assert_eq!(payload.get_u64("response_bytes"), Some(8));
        }
        other => panic!("expected a review, got {other:?}"),
    }
}

// ── Bodies ──────────────────────────────────────────────────────────────

#[test]
fn read_body_capped_rejects_oversize_body() {
    let mut body = BodyBuffer::new(4);
    let err = body.push(b"hello!").unwrap_err();

    match err {
        ProxyError::InvalidBody(msg) => {
            assert!(
                msg.contains("exceeded") || msg.contains("limit"),
                "error message must describe the size limit, got: {msg}"
            );
            assert_eq!(msg, "upstream response exceeded 4-byte limit");
        }
        other => panic!("expected InvalidBody, got: {other:?}"),
    }
    assert!(body.into_bytes().is_empty());
}

#[test]
fn read_body_capped_surfaces_stream_error() {
    let err = read_failed("connection reset");
    assert!(matches!(&err, ProxyError::InvalidBody(_)));
    assert_eq!(
        err.message(),
        "Invalid request body: upstream body read error: connection reset"
    );
}

#[test]
fn bodies_are_read_whole_up_to_the_limit() {
    let mut body = BodyBuffer::new(6);
    body.push(b"hel").unwrap();
    body.push(b"").unwrap();
    body.push(b"lo!").unwrap();
    assert!(body.push(b"x").is_err());
    assert_eq!(body.into_bytes(), b"hello!");
}

#[test]
fn replies_are_transformed_or_handed_on() {
    assert!(matches!(reply_body(503, b"down"), Ok(ReplyBody::AsIs)));
    match reply_body(200, b"{\"id\": \"x\"}") {
        Ok(ReplyBody::Transform(body)) => assert_eq!(body.get_str("id"), Some("x")),
        other => panic!("expected a transformed reply, got {other:?}"),
    }
    match reply_body(200, b"not json") {
        Err(ProxyError::InvalidBody(msg)) => {
            assert!(msg.starts_with("Failed to parse provider response JSON: "), "{msg}");
        }
        other => panic!("expected InvalidBody, got {other:?}"),
    }
}

#[test]
fn pages_are_told_from_their_bytes() {
    let error = clean_reply(502, "502 Bad Gateway", b" \n<html>").expect("a page");
    assert_eq!(
        error.get("error").and_then(|e| e.get_str("type")),
        Some("upstream_error")
    );
    // Bytes that are no text are read round.
    assert!(clean_reply(502, "502 Bad Gateway", b"\xff <!DOCTYPE html>").is_some());
    assert!(clean_reply(502, "502 Bad Gateway", b"\xff<html>").is_none());
    assert!(clean_reply(502, "502 Bad Gateway", b"\xe2\x82").is_none());
    assert!(clean_reply(200, "200 OK", b"<html>").is_none());
}

#[test]
fn pages_are_replaced_by_errors() {
    let error = clean_error(502, "502 Bad Gateway", "  <html></html>").expect("a page");
    assert_eq!(
        at(&error, &["error", "message"]).as_str(),
        Some("Provider returned HTTP 502 Bad Gateway with HTML error page")
    );
    assert_eq!(at(&error, &["error", "status"]).as_u64(), Some(502));
    assert!(clean_error(500, "500 Internal Server Error", "x <!DOCTYPE html>").is_some());
    assert!(clean_error(500, "500 Internal Server Error", "{\"error\": 1}").is_none());
    assert!(clean_error(200, "200 OK", "<html>").is_none());
}

#[test]
fn headers_are_filtered() {
    assert!(!keeps_header("transfer-encoding", false));
    assert!(!keeps_header("content-length", false));
    assert!(keeps_header("content-type", false));
    assert!(!keeps_header("content-type", true));
    assert!(keeps_header("x-request-id", true));

    let passed = passthrough_headers(&vec![
        ("Accept".to_string(), Some("a".to_string())),
        ("authorization".to_string(), Some("Bearer x".to_string())),
        ("user-agent".to_string(), None),
        ("content-type".to_string(), Some("t".to_string())),
    ]);
    assert_eq!(
        passed,
        vec![
            ("Accept".to_string(), "a".to_string()),
            ("content-type".to_string(), "t".to_string())
        ]
    );
    assert_eq!(
        adapter_headers(None),
        vec![("content-type".to_string(), "application/json".to_string())]
    );
    let own = vec![("x-api-key".to_string(), "k".to_string())];
    assert_eq!(adapter_headers(Some(own.clone())), own);
}

#[test]
fn stream_options_are_injected_where_needed() {
    let request = || j(r#"{"model": "m"}"#);
    let with = inject_stream_options_if_needed(request(), true, "openai");
    assert_eq!(
        at(&with, &["stream_options", "include_usage"]),
        &Json::Bool(true)
    );
    assert_eq!(
        inject_stream_options_if_needed(with.clone(), true, "openai"),
        with
    );
    assert_eq!(
        inject_stream_options_if_needed(request(), false, "openai"),
        request()
    );
    assert_eq!(
        inject_stream_options_if_needed(request(), true, "my-anthropic-proxy"),
        request()
    );
    let own = j(r#"{"stream_options": {}}"#);
    assert_eq!(
        inject_stream_options_if_needed(own.clone(), true, "openai"),
        own
    );
    assert_eq!(
        inject_stream_options_if_needed(Json::Null, true, "openai"),
        Json::Null
    );
}

// ── Estimate ────────────────────────────────────────────────────────────

#[test]
fn utilization_ppm_matches_expected_percentage() {
    // Simulate a 128 k-token context window with 64 k tokens used (50 %).
    let context_window: usize = 128_000;
    let estimated_input: usize = 64_000;

    let utilization_ppm = estimated_input
        .saturating_mul(1_000_000)
        .checked_div(context_window)
        .unwrap_or(0);

    // 50.0 % → 500_000 ppm
    assert_eq!(utilization_ppm, 500_000, "50 % must be 500_000 ppm");

    // Rendered string must be "50.0%"
    let rendered = format!(
        "{}.{}%",
        utilization_ppm / 10_000,
        (utilization_ppm % 10_000) / 1_000
    );
    assert_eq!(rendered, "50.0%");
    assert_eq!(
        percent(utilization_pct_x10(estimated_input, context_window) as u32),
        "50.0%"
    );

    // No truncation: a large context window (>= 2^32) must still work on
    // 64-bit targets without wrapping.
    let large_window: usize = 1_000_000_000; // 1 billion tokens
    let large_input: usize = 750_000_000; // 75 %
    let ppm_large = large_input
        .saturating_mul(1_000_000)
        .checked_div(large_window)
        .unwrap_or(0);
    assert_eq!(
        ppm_large, 750_000,
        "75 % of 1B-token window must be 750_000 ppm"
    );
    assert_eq!(utilization_pct_x10(large_input, large_window), 750);
    assert_eq!(utilization_pct_x10(5, 0), 0);
    assert_eq!(utilization_pct_x10(usize::MAX, 1000), usize::MAX / 1000);
}

#[test]
fn token_parts_add_up() {
    let messages = vec![
        text_message("system", "a"),
        text_message("user", "b"),
        text_message("system", "c"),
    ];
    let parts = token_parts(&messages, &vec![10, 20, 30], &vec![5, 6]);
    assert_eq!(parts.system_prompt, 40);
    assert_eq!(parts.tool_defs, 11);
    assert_eq!(parts.injected, 51);
}

#[test]
fn token_hint_is_the_last_billed_input() {
    assert_eq!(actual_token_hint(None), None);
    let mut session = Session::new_initializer();
    assert_eq!(actual_token_hint(Some(&session)), None);
    session.record_turn_estimate(100, 0, 0, 0);
    assert_eq!(actual_token_hint(Some(&session)), None);
    session.record_actual_usage(used_fifty());
    assert_eq!(actual_token_hint(Some(&session)), Some(40));
}

#[test]
fn compactions_are_notified() {
    assert!(compaction_notice(&None).is_none());
    assert!(compaction_notice(&Some(Compaction {
        compacted: false,
        summary: None
    }))
    .is_none());
    let notice = compaction_notice(&Some(Compaction {
        compacted: true,
        summary: Some("für".to_string()),
    }))
    .unwrap();
    assert_eq!(notice.get_u64("summary_length"), Some(4));
}

// ── Turns ───────────────────────────────────────────────────────────────

#[test]
fn turns_check_before_they_forward() {
    let steps = turn_steps(true, false);
    assert_eq!(
        steps,
        vec![
            TurnStep::CheckModel,
            TurnStep::Resolve,
            TurnStep::CountRequest,
            TurnStep::Prepare,
            TurnStep::Compact,
            TurnStep::CheckTokens,
            TurnStep::RecordEstimate,
            TurnStep::Forward,
            TurnStep::Transform,
            TurnStep::RecordUsage,
            TurnStep::Review,
            TurnStep::CompleteIteration,
        ]
    );
    let stream = turn_steps(false, true);
    assert!(stream.contains(&TurnStep::HandOn));
    assert!(!stream.contains(&TurnStep::Review));
    assert!(!stream.contains(&TurnStep::RecordEstimate));
}

#[test]
fn loop_control_counts_to_its_limit() {
    let mut control = LoopControl::new(2);
    assert_eq!(control.limit_text(), "2");
    let first = control.mark_completed_iteration();
    assert_eq!(first, 1);
    assert!(!control.shuts_down(first, true));
    assert!(control.shuts_down(first, false));
    let second = control.mark_completed_iteration();
    assert!(control.reached_limit(second));
    assert!(control.shuts_down(second, true));
    assert_eq!(control.completed_iterations(), 2);

    let unlimited = LoopControl::new(0);
    assert!(!unlimited.reached_limit(u32::MAX));
    assert_eq!(unlimited.limit_text(), "unlimited");
    assert_eq!(
        loop_handoff(3),
        "Loop mode completed after 3 iteration(s).\nSession ended after 3 iteration(s)."
    );
    assert!(ends_session(Some("a"), "a"));
    assert!(!ends_session(Some("b"), "a"));
    assert!(!ends_session(None, "a"));
}

// ── Authentication ──────────────────────────────────────────────────────

#[test]
fn keys_come_from_headers_in_order() {
    let key = |r: Result<Option<ApiKey>, ProxyError>| {
        r.expect("no error").map(|k| k.as_str().to_string())
    };
    assert_eq!(
        key(extract_api_key(Some("Bearer abc"), Some("def"))),
        Some("abc".to_string())
    );
    assert_eq!(
        key(extract_api_key(None, Some("def"))),
        Some("def".to_string())
    );
    assert_eq!(key(extract_api_key(None, None)), None);
    // A key that cannot be one is passed over.
    assert_eq!(key(extract_api_key(None, Some(""))), None);
    assert_eq!(key(extract_api_key(None, Some("a\nb"))), None);
    assert_eq!(key(extract_api_key(Some("Bearer schlüssel"), None)), None);
    let Err(err) = extract_api_key(Some("abc"), Some("def")) else {
        panic!("a bare key must be refused");
    };
    assert_eq!(
        err.message(),
        "Invalid request body: Authorization header must use 'Bearer <key>' format"
    );
}

fn provider(key: Option<&str>) -> ProviderConfig {
    ProviderConfig {
        api_key: key.and_then(|k| ApiKey::try_from_string(k.to_string())),
        base_url: "http://h".to_string(),
        model: None,
        headers: StringMap::new(),
    }
}

#[test]
fn providers_are_resolved_with_a_key() {
    let mut providers = StringMap::new();
    providers.insert("openai".to_string(), provider(Some("configured")));
    providers.insert("ollama".to_string(), provider(None));

    let (config, key) = match resolve_provider(&providers, "openai", false, None, None) {
        Ok(found) => found,
        Err(e) => panic!("{}", e.message()),
    };
    assert_eq!(config.base_url, "http://h");
    assert_eq!(key.unwrap().as_str(), "configured");

    let Ok((_, key)) = resolve_provider(&providers, "openai", false, None, Some("own")) else {
        panic!("the request has a key");
    };
    assert_eq!(key.unwrap().as_str(), "own");

    assert!(matches!(
        resolve_provider(&providers, "ollama", true, None, None),
        Ok((_, None))
    ));
    assert!(matches!(
        resolve_provider(&providers, "ollama", false, None, None),
        Err(ProxyError::NoApiKey(_))
    ));
    assert!(matches!(
        resolve_provider(&providers, "nowhere", false, None, None),
        Err(ProxyError::ProviderNotConfigured(_))
    ));
}

#[test]
fn sessions_come_from_cookies() {
    assert_eq!(
        session_from_cookies(Some("a=b; anthropic_session=s-1 ; anthropic_session=s-2")),
        Some("s-1".to_string())
    );
    assert_eq!(session_from_cookies(Some("anthropic_sessions=x")), None);
    assert_eq!(session_from_cookies(Some("")), None);
    assert_eq!(session_from_cookies(None), None);
}

#[test]
fn sessions_are_preferred_to_keys() {
    assert!(matches!(
        resolve_anthropic_auth(Some("session"), Some("bare"), None, &None),
        Ok(AnthropicAuth::Oauth("session"))
    ));
    assert!(matches!(
        resolve_anthropic_auth::<&str>(None, Some("Bearer k"), None, &None),
        Ok(AnthropicAuth::ApiKey(_))
    ));
    match resolve_anthropic_auth::<&str>(None, None, None, &None) {
        Err(ProxyError::NoApiKey(name)) => assert_eq!(name, "anthropic"),
        _ => panic!("expected NoApiKey"),
    }
}

// ── Tool servers ────────────────────────────────────────────────────────

#[test]
fn tools_name_their_servers() {
    assert_eq!(tool_server("mcp__files__read"), Some("files".to_string()));
    assert_eq!(
        tool_server("mcp__files__read__all"),
        Some("files".to_string())
    );
    assert_eq!(tool_server("mcp__files"), None);
    assert_eq!(tool_server("bash"), None);
    assert_eq!(tool_server("x__files__read"), None);
    assert!(handle_mcp_tool_call("mcp__files__read", true).is_ok());
    assert!(handle_mcp_tool_call("bash", false).is_ok());
    assert_eq!(
        handle_mcp_tool_call("mcp__files__read", false)
            .unwrap_err()
            .message(),
        "Invalid request body: MCP server 'files' is not connected"
    );
    assert_eq!(
        tool_call_failed("boom").message(),
        "Invalid request body: MCP tool call failed: boom"
    );
}

fn declared(transport: &str) -> DeclaredServer {
    DeclaredServer {
        name: "files".to_string(),
        transport: transport.to_string(),
        command: Some("run".to_string()),
        args: vec!["-x".to_string()],
        env: StringMap::new(),
        url: Some("http://h".to_string()),
        headers: StringMap::new(),
        headers_helper: None,
        timeout: Some(1500),
        always_load: None,
    }
}

#[test]
fn declared_servers_are_connected_by_their_transport() {
    let mut server = declared("stdio");
    server.always_load = Some(true);
    server.headers_helper = Some("helper".to_string());
    let (warnings, connection) = connection_plan(&server);
    assert_eq!(
        warnings,
        vec![
            ConnectWarning::AlwaysLoadIgnored,
            ConnectWarning::HeadersIgnored
        ]
    );
    match connection {
        Some(Connection::Stdio {
            command,
            args,
            timeout,
            ..
        }) => {
            assert_eq!(command, "run");
            assert_eq!(args, vec!["-x"]);
            assert_eq!(timeout, Some(1500));
        }
        other => panic!("expected stdio, got {other:?}"),
    }

    let (warnings, connection) = connection_plan(&declared("http"));
    assert!(warnings.is_empty());
    assert!(matches!(connection, Some(Connection::Http { .. })));

    let mut without = declared("http");
    without.url = None;
    without.always_load = Some(false);
    let (warnings, connection) = connection_plan(&without);
    assert!(warnings.is_empty());
    assert!(connection.is_none());

    let (warnings, connection) = connection_plan(&declared("carrier-pigeon"));
    assert_eq!(warnings, vec![ConnectWarning::UnknownTransport]);
    assert!(connection.is_none());
}

// ── Preparation ─────────────────────────────────────────────────────────

#[test]
fn the_last_prompt_is_that_of_the_user() {
    let messages = vec![
        text_message("user", "first"),
        message(
            "user",
            MessageContent::Parts(vec![
                ContentPart {
                    content_type: "text".to_string(),
                    text: Some("one".to_string()),
                    image_url: None,
                },
                ContentPart {
                    content_type: "text".to_string(),
                    text: Some("two".to_string()),
                    image_url: None,
                },
            ]),
        ),
        text_message("assistant", "reply"),
    ];
    assert_eq!(last_user_prompt(&messages), "one\ntwo");
    assert_eq!(last_user_prompt(&Vec::new()), "");
}

#[test]
fn tools_are_added_behind_those_of_the_request() {
    assert!(add_tools(None, Vec::new()).is_none());
    let all = add_tools(Some(vec![Json::number(1)]), vec![Json::number(2)]).unwrap();
    assert_eq!(all, vec![Json::number(1), Json::number(2)]);
    assert_eq!(add_tools(None, vec![Json::Null]), Some(vec![Json::Null]));
}

#[test]
fn a_preparation_runs_through_its_phases() {
    let mut call = text_message("assistant", "calling");
    call.tool_calls = Some(vec![
        j(r#"{"function": {"name": "bash", "arguments": "{}"}}"#),
        j(r#"{"function": {"name": "unnamed"}}"#),
    ]);
    let messages = vec![text_message("user", "look at src/main.rs"), call];
    let mut p = Preparation::new();

    let actions = p.next(ContextAnswer::Done, &messages).unwrap();
    assert!(matches!(&actions[..], [ContextAction::RunPromptHook(s)] if s == "look at src/main.rs"));

    let actions = p
        .next(
            ContextAnswer::PromptHook(HookReply {
                allowed: true,
                reason: None,
            }),
            &messages,
        )
        .unwrap();
    assert!(matches!(&actions[..], [ContextAction::ApplyHook]));

    let actions = p.next(ContextAnswer::Done, &messages).unwrap();
    assert!(matches!(&actions[..], [ContextAction::CombineRules(list)] if list[..] == ["rs"]));

    let actions = p
        .next(ContextAnswer::Rules("be careful".to_string()), &messages)
        .unwrap();
    assert!(matches!(
        &actions[..],
        [ContextAction::InjectPrefix(s), ContextAction::ListTools] if s == "be careful"
    ));

    let actions = p
        .next(ContextAnswer::Tools(vec![Json::Null]), &messages)
        .unwrap();
    assert!(matches!(
        &actions[..],
        [ContextAction::AddTools(_), ContextAction::ListCommands]
    ));

    let actions = p
        .next(
            ContextAnswer::Commands(vec![PluginCommand {
                plugin: "git".to_string(),
                command: "log".to_string(),
            }]),
            &messages,
        )
        .unwrap();
    assert!(matches!(
        &actions[..],
        [ContextAction::InjectSuffix(s), ContextAction::ReadSession]
            if s == "Available plugin commands: /git:log (from git)"
    ));

    let actions = p
        .next(ContextAnswer::Session(Some("ctx".to_string())), &messages)
        .unwrap();
    assert!(matches!(
        &actions[..],
        [ContextAction::InjectContext(s), ContextAction::TakeAdvisory] if s == "ctx"
    ));

    let actions = p
        .next(ContextAnswer::Advisory(Some(String::new())), &messages)
        .unwrap();
    assert!(matches!(&actions[..], [ContextAction::LookAtCalls]));

    let actions = p.next(ContextAnswer::Done, &messages).unwrap();
    assert!(matches!(&actions[..], [ContextAction::RunToolHook(c)] if c.name == "bash"));

    let actions = p
        .next(ContextAnswer::ToolHook(ToolVerdict::Allowed), &messages)
        .unwrap();
    assert!(matches!(&actions[..], [ContextAction::Finish]));
}

#[test]
fn a_blocking_hook_ends_a_preparation() {
    let messages = vec![text_message("user", "hello")];
    let mut p = Preparation::new();
    p.next(ContextAnswer::Done, &messages).unwrap();
    let err = p
        .next(
            ContextAnswer::PromptHook(HookReply {
                allowed: false,
                reason: None,
            }),
            &messages,
        )
        .unwrap_err();
    assert_eq!(
        err.message(),
        "Hook blocked request: Request blocked by hook"
    );
}

#[test]
fn a_blocked_tool_call_ends_a_preparation() {
    let mut call = text_message("assistant", "calling");
    call.tool_calls = Some(vec![j(r#"{"function": {"name": "bash", "arguments": {}}}"#)]);
    let messages = vec![call];
    let reach_tool_hook = || {
        let mut p = Preparation::new();
        p.next(ContextAnswer::Done, &messages).unwrap();
        p.next(
            ContextAnswer::PromptHook(HookReply {
                allowed: true,
                reason: None,
            }),
            &messages,
        )
        .unwrap();
        p.next(ContextAnswer::Done, &messages).unwrap();
        p.next(ContextAnswer::Tools(Vec::new()), &messages).unwrap();
        p.next(ContextAnswer::Commands(Vec::new()), &messages)
            .unwrap();
        p.next(ContextAnswer::Session(None), &messages).unwrap();
        p.next(ContextAnswer::Advisory(None), &messages).unwrap();
        p.next(ContextAnswer::Done, &messages).unwrap();
        p
    };
    let err = reach_tool_hook()
        .next(
            ContextAnswer::ToolHook(ToolVerdict::Blocked("no shell".to_string())),
            &messages,
        )
        .unwrap_err();
    assert_eq!(
        err.message(),
        "Hook blocked request: Tool 'bash' blocked: no shell"
    );
    let err = reach_tool_hook()
        .next(ContextAnswer::ToolHook(ToolVerdict::Failed), &messages)
        .unwrap_err();
    assert_eq!(
        err.message(),
        "Hook blocked request: Tool 'bash' blocked: PreToolUse hook blocked"
    );
}

// ── Stats ───────────────────────────────────────────────────────────────

#[test]
fn stats_tell_of_the_session() {
    assert_eq!(
        session_stats(None).get_str("error"),
        Some("No active session")
    );
    let mut session = Session::new_initializer();
    let stats = session_stats(Some(&session));
    assert_eq!(stats.get_str("mode"), Some("initializer"));
    assert_eq!(stats.get("last_turn"), Some(&Json::Null));
    session.record_turn_estimate(100, 7, 5, 2);
    session.record_actual_usage(used_fifty());
    let stats = session_stats(Some(&session));
    assert_eq!(stats.get_str("session_id"), Some(session.id.as_str()));
    assert_eq!(
        at(&stats, &["cumulative_usage", "total_tokens"]).as_u64(),
        Some(50)
    );
    assert_eq!(
        at(&stats, &["last_turn", "actual_usage", "input_tokens"]).as_u64(),
        Some(40)
    );
    assert_eq!(auth_status(None).get("session_id"), Some(&Json::Null));
    assert_eq!(
        auth_status(Some("s")).get("authenticated"),
        Some(&Json::Bool(true))
    );
    assert_eq!(tool_error_payload("bash", "no").get_str("error"), Some("no"));
}

#[test]
fn health_tells_of_the_service() {
    let health = health("1.2.3");
    assert_eq!(health.get_str("status"), Some("ok"));
    assert_eq!(health.get_str("service"), Some("openclaudia"));
    assert_eq!(health.get_str("version"), Some("1.2.3"));
}

// ── Requests ────────────────────────────────────────────────────────────

#[test]
fn requests_are_read_or_refused() {
    let request = parse_request(r#"{"model":"gpt-4o","stream":true}"#).unwrap();
    assert_eq!(completion_model(&request), "gpt-4o");
    assert!(is_stream(&request));
    let bare = parse_request("{}").unwrap();
    assert_eq!(completion_model(&bare), "gpt-3.5-turbo-instruct");
    assert!(!is_stream(&bare));
    assert!(!is_stream(&j(r#"{"stream":"yes"}"#)));
    let err = parse_request("{").unwrap_err();
    assert!(matches!(err, ProxyError::InvalidBody(_)));
    assert_eq!(err.status(), 400);
}

#[test]
fn endpoints_follow_the_normalized_base() {
    assert_eq!(
        endpoint_url("https://api.openai.com/v1/", "/v1/completions"),
        "https://api.openai.com/v1/completions"
    );
}

#[test]
fn tool_hooks_learn_of_extensions() {
    let extra = hook_extensions("Edit", &j(r#"{"file_path":"src/main.rs"}"#)).unwrap();
    assert_eq!(extra, j(r#"["rs"]"#));
    assert!(hook_extensions("Edit", &j("{}")).is_none());
    assert!(hook_extensions("bash", &j(r#"{"file_path":"a.rs"}"#)).is_none());
}

// ── Turns ───────────────────────────────────────────────────────────────

#[test]
fn a_turn_takes_its_steps_in_order() {
    let mut turn = Turn::start(true, false);
    let mut taken = Vec::new();
    let mut step = turn.step();
    while let Some(now) = step {
        taken.push(now);
        step = turn.advance(Ok(())).unwrap();
    }
    assert_eq!(taken, turn_steps(true, false));
    assert_eq!(turn.step(), None);
}

#[test]
fn a_failed_step_ends_the_turn() {
    let mut turn = Turn::start(false, true);
    assert_eq!(turn.step(), Some(TurnStep::CheckModel));
    assert_eq!(turn.advance(Ok(())).unwrap(), Some(TurnStep::Resolve));
    let err = turn
        .advance(Err(ProxyError::NoApiKey("openai".to_string())))
        .unwrap_err();
    assert_eq!(err.status(), 401);
    assert_eq!(turn.step(), None);
    assert_eq!(turn.advance(Ok(())).unwrap(), None);
}

#[test]
fn sign_ins_are_reported() {
    assert_eq!(
        sign_in_started("https://a/b", "s1"),
        j(r#"{"auth_url":"https://a/b","state":"s1"}"#)
    );
    let reply = signed_in("id1");
    assert_eq!(reply.get("success"), Some(&Json::Bool(true)));
    assert_eq!(reply.get_str("message"), Some("Authentication successful"));
    assert_eq!(reply.get_str("session_id"), Some("id1"));
    assert_eq!(
        transform_failed("no choices").message(),
        "Invalid request body: Provider response transform failed: no choices"
    );
}
