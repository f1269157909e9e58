use std::sync::{Arc, Mutex};

use openclaudia::json::{self, Json};
use openclaudia::speculation::{
    after_turn, build_engine, build_hint_from_messages, turn_outcome, ActualOutcome,
    MessageSummary, NoOpSpeculationEngine, PredictionId, PredictionOutcome, SpeculationConfig,
    SpeculationEngine, SpeculationHint, SpeculationPrediction,
};

fn j(text: &str) -> Json {
    json::parse(text).expect("test JSON must parse")
}

#[test]
fn noop_predict_always_returns_none() {
    let engine = NoOpSpeculationEngine;
    let hint = SpeculationHint {
        recent_messages: vec![MessageSummary {
            role: "user".into(),
            content_prefix: "read this file".into(),
            tool_name: None,
        }],
        pending_tool_names: vec!["read_file".into()],
    };
    assert!(
        engine.predict(&hint).is_none(),
        "NoOp engine must never predict a tool call"
    );
}

#[test]
fn noop_has_pending_always_false() {
    let engine = NoOpSpeculationEngine;
    assert!(
        !engine.has_pending(),
        "NoOp engine must never report pending speculations"
    );
}

#[test]
fn noop_hit_rate_returns_none() {
    let engine = NoOpSpeculationEngine;
    assert!(
        engine.hit_rate().is_none(),
        "NoOp engine has no statistics to report"
    );
}

#[test]
fn noop_submit_result_does_not_panic() {
    let engine = NoOpSpeculationEngine;
    for outcome in &[
        PredictionOutcome::Hit,
        PredictionOutcome::PartialMiss,
        PredictionOutcome::Miss,
        PredictionOutcome::NoToolCall,
    ] {
        engine.submit_result(&ActualOutcome {
            prediction_id: PredictionId::new("test-id".to_string()),
            outcome: *outcome,
            actual_tool_name: Some("bash".into()),
        });
    }
}

#[test]
fn noop_name_is_static_str() {
    let engine = NoOpSpeculationEngine;
    assert_eq!(engine.name(), "no-op");
}

#[test]
fn build_engine_disabled_returns_noop() {
    let cfg = SpeculationConfig {
        enabled: false,
        ..Default::default()
    };
    let engine = build_engine(&cfg);
    let hint = SpeculationHint {
        recent_messages: vec![],
        pending_tool_names: vec![],
    };
    assert!(engine.predict(&hint).is_none());
}

#[test]
fn build_engine_enabled_falls_back_to_noop_in_phase1() {
    let cfg = SpeculationConfig {
        enabled: true,
        ..Default::default()
    };
    let engine = build_engine(&cfg);
    assert!(!engine.has_pending(), "the engine must have no pending");
}

#[test]
fn config_default_is_disabled() {
    let cfg = SpeculationConfig::default();
    assert!(!cfg.enabled, "Speculation must be disabled by default");
}

#[test]
fn config_default_confidence_threshold_is_reasonable() {
    let cfg = SpeculationConfig::default();
    // In thousandths.
    assert!(
        (0..=1000).contains(&cfg.confidence_threshold),
        "confidence_threshold must be in [0.0, 1.0]"
    );
    assert!(
        cfg.confidence_threshold >= 500,
        "default threshold should be at least 0.5 to avoid noisy speculation"
    );
}

#[test]
fn config_default_context_depth_nonzero() {
    let cfg = SpeculationConfig::default();
    assert!(cfg.context_depth > 0, "context_depth must be > 0");
}

#[test]
fn hint_depth_caps_message_count() {
    let messages: Vec<Json> = (0..20)
        .map(|i| j(&format!(r#"{{"role": "user", "content": "msg {i}"}}"#)))
        .collect();
    let hint = build_hint_from_messages(&messages, 6);
    assert_eq!(
        hint.recent_messages.len(),
        6,
        "hint must contain exactly `depth` messages"
    );
    assert_eq!(hint.recent_messages[0].content_prefix, "msg 14");
}

#[test]
fn hint_fewer_messages_than_depth() {
    let messages = vec![
        j(r#"{"role": "user", "content": "hello"}"#),
        j(r#"{"role": "assistant", "content": "hi"}"#),
    ];
    let hint = build_hint_from_messages(&messages, 6);
    assert_eq!(
        hint.recent_messages.len(),
        2,
        "hint must not fabricate messages when fewer than depth exist"
    );
}

#[test]
fn hint_content_prefix_caps_at_256_bytes() {
    // 300 ASCII 'x' characters — should be trimmed to 256.
    let long_str = "x".repeat(300);
    let messages = vec![j(&format!(
        r#"{{"role": "user", "content": "{long_str}"}}"#
    ))];
    let hint = build_hint_from_messages(&messages, 4);
    let prefix = &hint.recent_messages[0].content_prefix;
    assert!(
        prefix.len() <= 256,
        "content_prefix must be at most 256 bytes, got {}",
        prefix.len()
    );
    // Must still be non-empty
    assert!(
        !prefix.is_empty(),
        "non-empty content must produce non-empty prefix"
    );
    assert_eq!(prefix.len(), 256);
}

#[test]
fn prefixes_end_between_characters() {
    let long_str = "ü€".repeat(100);
    let messages = vec![j(&format!(
        r#"{{"role": "user", "content": "{long_str}"}}"#
    ))];
    let hint = build_hint_from_messages(&messages, 4);
    let prefix = &hint.recent_messages[0].content_prefix;
    assert!(long_str.starts_with(prefix.as_str()));
    assert!(prefix.len() > 252 && prefix.len() <= 256);
}

#[test]
fn hint_empty_messages_produces_empty_hint() {
    let hint = build_hint_from_messages(&Vec::new(), 6);
    assert!(hint.recent_messages.is_empty());
    assert!(hint.pending_tool_names.is_empty());
}

#[test]
fn hint_tool_name_extracted_from_tool_calls() {
    let messages = vec![j(r#"{
        "role": "assistant",
        "content": "",
        "tool_calls": [
            {
                "id": "call_1",
                "type": "function",
                "function": { "name": "read_file", "arguments": "{}" }
            }
        ]
    }"#)];
    let hint = build_hint_from_messages(&messages, 4);
    assert_eq!(
        hint.recent_messages[0].tool_name.as_deref(),
        Some("read_file"),
        "tool_name must be extracted from tool_calls[0].function.name"
    );
}

#[test]
fn hint_role_preserved() {
    let messages = vec![
        j(r#"{"role": "system", "content": "You are helpful."}"#),
        j(r#"{"role": "user", "content": "do something"}"#),
        j(r#"{"role": "assistant", "content": "ok"}"#),
    ];
    let hint = build_hint_from_messages(&messages, 10);
    let roles: Vec<&str> = hint
        .recent_messages
        .iter()
        .map(|m| m.role.as_str())
        .collect();
    assert_eq!(roles, vec!["system", "user", "assistant"]);
}

#[test]
fn after_turn_disabled_is_noop() {
    let engine = NoOpSpeculationEngine;
    let cfg = SpeculationConfig {
        enabled: false,
        ..Default::default()
    };
    let messages = vec![j(r#"{"role": "user", "content": "test"}"#)];
    assert!(after_turn(&engine, &messages, &Vec::new(), &cfg).is_none());
}

#[test]
fn after_turn_enabled_with_no_tool_calls() {
    let engine = NoOpSpeculationEngine;
    let cfg = SpeculationConfig {
        enabled: true,
        ..Default::default()
    };
    let messages = vec![j(r#"{"role": "user", "content": "test"}"#)];
    let told = after_turn(&engine, &messages, &Vec::new(), &cfg).unwrap();
    assert_eq!(told.outcome, PredictionOutcome::NoToolCall);
    assert!(told.actual_tool_name.is_none());
}

#[test]
fn after_turn_enabled_with_tool_calls() {
    let engine = NoOpSpeculationEngine;
    let cfg = SpeculationConfig {
        enabled: true,
        ..Default::default()
    };
    let messages = vec![j(r#"{"role": "user", "content": "list files"}"#)];
    let tool_names = vec!["list_files".to_string()];
    let told = after_turn(&engine, &messages, &tool_names, &cfg).unwrap();
    assert_eq!(told.actual_tool_name.as_deref(), Some("list_files"));
    assert_eq!(told.prediction_id.as_str(), "__no_prediction__");
}

/// Predicts `bash`, and keeps what it is told.
struct Guessing {
    told: Mutex<Vec<PredictionOutcome>>,
}

fn guess() -> SpeculationPrediction {
    SpeculationPrediction {
        id: PredictionId::new("p-1".to_string()),
        tool_name: "bash".to_string(),
        predicted_args: Json::Null,
        confidence: 900,
    }
}

impl SpeculationEngine for Guessing {
    fn predict(&self, _hint: &SpeculationHint) -> Option<SpeculationPrediction> {
        Some(guess())
    }

    fn submit_result(&self, outcome: &ActualOutcome) {
        self.told.lock().unwrap().push(outcome.outcome);
    }

    fn has_pending(&self) -> bool {
        false
    }

    fn name(&self) -> &'static str {
        "guessing"
    }

    fn hit_rate(&self) -> Option<u32> {
        None
    }
}

#[test]
fn engines_are_told_of_every_turn() {
    let engine = Guessing {
        told: Mutex::new(Vec::new()),
    };
    let cfg = SpeculationConfig {
        enabled: true,
        ..Default::default()
    };
    let none = Vec::new();
    let hit = vec!["read".to_string(), "bash".to_string()];
    let miss = vec!["read".to_string()];
    for called in [&none, &hit, &miss] {
        after_turn(&engine, &Vec::new(), called, &cfg);
    }
    assert_eq!(
        *engine.told.lock().unwrap(),
        vec![
            PredictionOutcome::NoToolCall,
            PredictionOutcome::Hit,
            PredictionOutcome::Miss
        ]
    );
    let outcome = turn_outcome(&Some(guess()), &hit);
    assert_eq!(outcome.prediction_id.as_str(), "p-1");
    assert_eq!(outcome.actual_tool_name.as_deref(), Some("read"));
}

#[test]
fn prediction_id_display_matches_inner() {
    let id = PredictionId::new("abc-123".to_string());
    assert_eq!(id.to_string(), "abc-123");
    assert_eq!(id.as_str(), "abc-123");
}

#[test]
fn prediction_id_equality() {
    let a = PredictionId::new("x".to_string());
    let b = PredictionId::new("x".to_string());
    let c = PredictionId::new("y".to_string());
    assert_eq!(a, b);
    assert_ne!(a, c);
}

#[test]
fn engine_is_object_safe_via_arc() {
    // If this compiles, the trait is object-safe and Arc-compatible.
    let engine: Arc<dyn SpeculationEngine> = Arc::new(NoOpSpeculationEngine);
    assert_eq!(engine.name(), "no-op");
    assert!(!engine.has_pending());
}

#[test]
fn engine_arc_send_sync() {
    fn assert_send_sync<T: Send + Sync>() {}
    assert_send_sync::<Arc<dyn SpeculationEngine>>();
}
