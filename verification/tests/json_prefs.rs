use app_shell::json::JsonValue;
use app_shell::mcp_service::{
    read_enabled_preference_from, write_enabled_preference_text, McpLifecycle, McpServerStatus,
    MCP_DEFAULT_PORT,
};
use app_shell::pane_prefs::{
    load_generation_endpoint_from, load_pane_visibility_from, load_whisper_model_path_from,
    save_generation_endpoint_text, save_pane_sizes_text, save_pane_visibility_text, save_whisper_model_path_text,
    PersistedPaneVisibility, GENERATION_TOKEN_KEY, GENERATION_URL_KEY, PANE_VISIBILITY_KEY,
    WHISPER_MODEL_PATH_KEY,
};

fn parse(text: &str) -> serde_json::Value {
    serde_json::from_str(text).unwrap()
}

#[test]
fn load_corrupt_json_returns_none() {
    assert_eq!(load_pane_visibility_from("{not json"), None);
}

#[test]
fn load_without_pane_key_returns_none() {
    assert_eq!(load_pane_visibility_from(r#"{"mcpServerEnabled": true}"#), None);
}

#[test]
fn load_with_malformed_pane_key_returns_none() {
    assert_eq!(
        load_pane_visibility_from(
            r#"{"paneVisibility": {"media": "yes", "inspector": true, "agent": true}}"#
        ),
        None
    );
}

#[test]
fn save_then_load_round_trips() {
    let saved = PersistedPaneVisibility {
        media: false,
        inspector: true,
        agent: false,
    };
    let text = save_pane_visibility_text(None, saved);
    assert!(text.ends_with('\n'));
    assert_eq!(load_pane_visibility_from(&text), Some(saved));
}

#[test]
fn save_preserves_other_keys() {
    let text = save_pane_visibility_text(
        Some(r#"{"mcpServerEnabled": false}"#),
        PersistedPaneVisibility {
            media: true,
            inspector: false,
            agent: true,
        },
    );
    let value = parse(&text);
    assert_eq!(
        value.get("mcpServerEnabled"),
        Some(&serde_json::Value::Bool(false)),
        "existing keys must survive a pane save"
    );
    assert!(value.get(PANE_VISIBILITY_KEY).is_some());
}

#[test]
fn save_over_corrupt_file_rebuilds() {
    let saved = PersistedPaneVisibility {
        media: true,
        inspector: true,
        agent: false,
    };
    let text = save_pane_visibility_text(Some("{broken"), saved);
    assert_eq!(load_pane_visibility_from(&text), Some(saved));
    let over_array = save_pane_visibility_text(Some("[1, 2]"), saved);
    assert_eq!(load_pane_visibility_from(&over_array), Some(saved));
}

#[test]
fn generation_endpoint_round_trips_and_trims() {
    let text = save_generation_endpoint_text(None, "  http://127.0.0.1:8787  ", "  tok-abc  ");
    assert_eq!(
        load_generation_endpoint_from(&text),
        Some(("http://127.0.0.1:8787".to_string(), "tok-abc".to_string()))
    );
}

#[test]
fn generation_endpoint_needs_both_url_and_token() {
    let url_only = save_generation_endpoint_text(None, "http://gw", "");
    assert_eq!(load_generation_endpoint_from(&url_only), None);
    let token_only = save_generation_endpoint_text(None, "", "tok");
    assert_eq!(load_generation_endpoint_from(&token_only), None);
}

#[test]
fn generation_endpoint_blank_save_removes_keys_and_preserves_others() {
    let first = save_generation_endpoint_text(Some(r#"{"mcpServerEnabled": true}"#), "http://gw", "tok");
    let second = save_generation_endpoint_text(Some(&first), "  ", "  ");
    assert_eq!(load_generation_endpoint_from(&second), None);
    let value = parse(&second);
    assert!(value.get(GENERATION_URL_KEY).is_none());
    assert!(value.get(GENERATION_TOKEN_KEY).is_none());
    assert_eq!(value.get("mcpServerEnabled"), Some(&serde_json::Value::Bool(true)));
}

#[test]
fn generation_endpoint_load_missing_or_malformed_returns_none() {
    assert_eq!(load_generation_endpoint_from("{not json"), None);
    assert_eq!(load_generation_endpoint_from(r#"{"generationEndpointUrl": 1, "generationEndpointToken": "t"}"#), None);
}

#[test]
fn whisper_model_path_round_trips_and_trims() {
    let text = save_whisper_model_path_text(None, "  /models/ggml-base.bin  ");
    assert_eq!(
        load_whisper_model_path_from(&text),
        Some("/models/ggml-base.bin".to_string())
    );
}

#[test]
fn whisper_model_blank_save_removes_the_key() {
    let first = save_whisper_model_path_text(None, "/models/a.bin");
    let second = save_whisper_model_path_text(Some(&first), "   ");
    assert_eq!(load_whisper_model_path_from(&second), None);
    let value = parse(&second);
    assert!(
        value.get(WHISPER_MODEL_PATH_KEY).is_none(),
        "blank save must remove the key, not store an empty string"
    );
}

#[test]
fn whisper_model_save_preserves_other_keys() {
    let text = save_whisper_model_path_text(
        Some(r#"{"mcpServerEnabled": true, "paneVisibility": {"media": true, "inspector": true, "agent": false}}"#),
        "/models/base.gguf",
    );
    let value = parse(&text);
    assert_eq!(value.get("mcpServerEnabled"), Some(&serde_json::Value::Bool(true)));
    assert!(value.get(PANE_VISIBILITY_KEY).is_some());
    assert_eq!(load_whisper_model_path_from(&text), Some("/models/base.gguf".to_string()));
    assert_eq!(
        load_pane_visibility_from(&text),
        Some(PersistedPaneVisibility { media: true, inspector: true, agent: false })
    );
}

#[test]
fn whisper_model_load_missing_malformed_or_empty_returns_none() {
    assert_eq!(load_whisper_model_path_from("{not json"), None);
    assert_eq!(load_whisper_model_path_from(r#"{"whisperModelPath": 7}"#), None);
    assert_eq!(load_whisper_model_path_from(r#"{"whisperModelPath": "  "}"#), None);
}

#[test]
fn whisper_model_save_over_corrupt_file_rebuilds() {
    let text = save_whisper_model_path_text(Some("{broken"), "/models/base.bin");
    assert_eq!(load_whisper_model_path_from(&text), Some("/models/base.bin".to_string()));
}

#[test]
fn numbers_and_nested_values_survive_a_save() {
    let text = save_whisper_model_path_text(
        Some(r#"{"paneSizes": {"media": 500.0, "timelineHeight": 240}, "list": [1, -2, "x", null]}"#),
        "/m.bin",
    );
    let value = parse(&text);
    assert_eq!(value["paneSizes"]["media"].as_f64(), Some(500.0));
    assert_eq!(value["paneSizes"]["timelineHeight"].as_i64(), Some(240));
    assert_eq!(value["list"], parse(r#"[1, -2, "x", null]"#));
}

#[test]
fn preference_absent_means_enabled() {
    assert!(read_enabled_preference_from(None));
    assert!(read_enabled_preference_from(Some("{}")));
    assert!(read_enabled_preference_from(Some("{not json")));
    assert!(read_enabled_preference_from(Some(r#"{"mcpServerEnabled": "no"}"#)));
}

#[test]
fn preference_roundtrip() {
    let off = write_enabled_preference_text(None, false);
    assert!(!read_enabled_preference_from(Some(&off)));
    let on = write_enabled_preference_text(Some(&off), true);
    assert!(read_enabled_preference_from(Some(&on)));
    assert!(!on.ends_with('\n'));
}

#[test]
fn start_if_enabled_respects_disabled_preference() {
    let mut l = McpLifecycle::new(MCP_DEFAULT_PORT);
    assert_eq!(l.start_if_enabled(false), None);
    assert_eq!(l.status, McpServerStatus::Stopped);
}

#[test]
fn start_transitions_to_running_and_stop_to_stopped() {
    let mut l = McpLifecycle::new(0);
    assert_eq!(l.begin_start(), Some(0));
    assert_eq!(l.status, McpServerStatus::Starting);
    l.finish_start(Ok(40123));
    assert_eq!(l.status, McpServerStatus::Running { port: 40123 });
    assert_eq!(l.begin_start(), None, "already running: no second spawn");
    assert!(l.stop());
    assert_eq!(l.status, McpServerStatus::Stopped);
    assert!(!l.stop(), "stop is idempotent");
    assert_eq!(l.status, McpServerStatus::Stopped);
}

#[test]
fn bind_conflict_becomes_failed_with_message() {
    let mut l = McpLifecycle::new(MCP_DEFAULT_PORT);
    assert_eq!(l.start_if_enabled(true), Some(MCP_DEFAULT_PORT));
    l.finish_start(Err("Failed to bind 127.0.0.1:19789".to_string()));
    match &l.status {
        McpServerStatus::Failed(reason) => assert!(reason.contains("Failed to bind")),
        other => panic!("expected Failed, got {other:?}"),
    }
    assert!(!l.has_handle);
}

#[test]
fn json_tree_reads_members_and_items() {
    let v = JsonValue::Object(vec![
        ("a".to_string(), JsonValue::Bool(true)),
        ("b".to_string(), JsonValue::Array(vec![JsonValue::Str("x".to_string())])),
    ]);
    assert_eq!(v.get("a").and_then(|x| x.as_bool()), Some(true));
    assert_eq!(v.get("b").and_then(|x| x.at(0)).and_then(|x| x.as_str()), Some("x"));
    assert!(v.get("c").is_none());
    assert!(v.get("b").unwrap().at(1).is_none());
    assert!(JsonValue::Null.get("a").is_none());
}

fn num(text: &str) -> Option<JsonValue> {
    Some(JsonValue::Number(text.to_string()))
}

#[test]
fn save_pane_sizes_merges_unresolved_fields() {
    let text = save_pane_sizes_text(
        Some(r#"{"paneSizes": {"media": 500.0, "timelineHeight": 240.0}}"#),
        num("300.0"),
        None,
        num("260.0"),
        None,
    );
    let v = parse(&text);
    assert_eq!(v["paneSizes"]["agent"], 300.0);
    assert_eq!(v["paneSizes"]["media"], 500.0);
    assert_eq!(v["paneSizes"]["inspector"], 260.0);
    assert_eq!(v["paneSizes"]["timelineHeight"], 240.0);
    assert!(text.ends_with('\n'));
}

#[test]
fn sizes_and_visibility_coexist_and_preserve_other_keys() {
    let vis = PersistedPaneVisibility { media: false, inspector: true, agent: true };
    let first = save_pane_visibility_text(Some(r#"{"mcpServerEnabled": true}"#), vis);
    let second = save_pane_sizes_text(Some(&first), num("300.0"), num("420.0"), num("260.0"), num("300.0"));
    assert_eq!(load_pane_visibility_from(&second), Some(vis));
    let v = parse(&second);
    assert_eq!(v["paneSizes"]["media"], 420.0);
    assert_eq!(v["paneSizes"]["timelineHeight"], 300.0);
    assert_eq!(v.get("mcpServerEnabled"), Some(&serde_json::Value::Bool(true)), "unrelated keys must survive both saves");
}

#[test]
fn sizes_over_a_broken_file_start_fresh() {
    let text = save_pane_sizes_text(Some("{broken"), None, num("500.0"), None, None);
    let v = parse(&text);
    assert_eq!(v["paneSizes"].as_object().unwrap().len(), 1);
    assert_eq!(v["paneSizes"]["media"], 500.0);
}
