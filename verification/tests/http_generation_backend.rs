use app_shell::http_generation_backend::{
    build_submit_body,
    is_success, kind_token, resolve_config, GenerationBackendConfig, ModelKind,
    DEFAULT_TIMEOUT_SECS,
};
use app_shell::json::JsonValue;

#[test]
fn resolve_config_needs_both_url_and_token() {
    assert!(resolve_config(None, Some("t".into())).is_none());
    assert!(resolve_config(Some("https://gen".into()), None).is_none());
    assert!(resolve_config(None, None).is_none());
    let cfg = resolve_config(Some("https://gen".into()), Some("t".into())).unwrap();
    assert_eq!(cfg.base_url, "https://gen");
    assert_eq!(cfg.token, "t");
}

#[test]
fn resolve_config_rejects_blank_and_trims() {
    assert!(resolve_config(Some("   ".into()), Some("t".into())).is_none());
    assert!(resolve_config(Some("https://gen".into()), Some("  ".into())).is_none());
    let cfg = resolve_config(Some("  https://gen  ".into()), Some("  tok  ".into())).unwrap();
    assert_eq!(cfg.base_url, "https://gen");
    assert_eq!(cfg.token, "tok");
}

#[test]
fn endpoints_tolerate_trailing_slash() {
    let cfg = GenerationBackendConfig::new("http://localhost:8080/", "tok");
    assert_eq!(cfg.generate_url(), "http://localhost:8080/v1/generate");
    assert_eq!(cfg.job_url("abc"), "http://localhost:8080/v1/jobs/abc");
}

#[test]
fn kind_tokens_are_lowercase() {
    assert_eq!(kind_token(&ModelKind::Video), "video");
    assert_eq!(kind_token(&ModelKind::Image), "image");
    assert_eq!(kind_token(&ModelKind::Audio), "audio");
    assert_eq!(kind_token(&ModelKind::Upscale), "upscale");
}

#[test]
fn config_defaults_to_two_minute_timeout() {
    let cfg = GenerationBackendConfig::new("https://gen.example", "tok");
    assert_eq!(cfg.timeout_secs, DEFAULT_TIMEOUT_SECS);
    assert_eq!(cfg.timeout_secs, 120);
}

#[test]
fn endpoints_strip_every_trailing_slash_and_keep_bare_urls() {
    let cfg = GenerationBackendConfig::new("http://h///", "tok");
    assert_eq!(cfg.generate_url(), "http://h/v1/generate");
    let bare = GenerationBackendConfig::new("http://h", "tok");
    assert_eq!(bare.job_url("j-1"), "http://h/v1/jobs/j-1");
}

#[test]
fn resolve_config_trims_unicode_white_space() {
    let cfg = resolve_config(Some("\u{3000}https://gen\t\n".into()), Some("\u{a0}tok ".into())).unwrap();
    assert_eq!(cfg.base_url, "https://gen");
    assert_eq!(cfg.token, "tok");
}

#[test]
fn success_range_is_2xx() {
    assert!(!is_success(199));
    assert!(is_success(200));
    assert!(is_success(299));
    assert!(!is_success(300));
    assert!(!is_success(500));
}

fn text(v: &str) -> JsonValue {
    JsonValue::Str(v.to_string())
}

#[test]
fn submit_body_includes_all_present_fields() {
    let params = JsonValue::Object(vec![("aspectRatio".to_string(), text("16:9"))]);
    let body = build_submit_body(
        &ModelKind::Video,
        "veo-3",
        "a cat surfing",
        Some(JsonValue::Number("5.0".to_string())),
        Some("https://cdn/in.png"),
        Some("en"),
        params,
    );
    assert_eq!(body.get("kind"), Some(&text("video")));
    assert_eq!(body.get("model"), Some(&text("veo-3")));
    assert_eq!(body.get("prompt"), Some(&text("a cat surfing")));
    assert_eq!(body.get("durationSeconds"), Some(&JsonValue::Number("5.0".to_string())));
    assert_eq!(body.get("sourceUrl"), Some(&text("https://cdn/in.png")));
    assert_eq!(body.get("targetLanguage"), Some(&text("en")));
    assert_eq!(body.get("params").and_then(|p| p.get("aspectRatio")), Some(&text("16:9")));
}

#[test]
fn submit_body_omits_absent_optionals_and_null_params() {
    let body = build_submit_body(&ModelKind::Image, "flux", "a logo", None, None, None, JsonValue::Null);
    assert_eq!(body.get("kind"), Some(&text("image")));
    assert!(body.get("durationSeconds").is_none());
    assert!(body.get("sourceUrl").is_none());
    assert!(body.get("targetLanguage").is_none());
    assert!(body.get("params").is_none());
}
