use app_shell::generation_panel::{
    caption_generate_note, interpret_submission, music_generate_note, SubmitOutcome,
};
use app_shell::http_generation_backend::{
    parse_poll_response, parse_submit_response, GenerationOutcome,
};
use app_shell::json::JsonValue;

fn s(x: &str) -> JsonValue {
    JsonValue::Str(x.to_string())
}

fn obj(members: Vec<(&str, JsonValue)>) -> JsonValue {
    JsonValue::Object(members.into_iter().map(|(k, v)| (k.to_string(), v)).collect())
}

#[test]
fn submit_2xx_yields_submission() {
    let body = obj(vec![("jobId", s("job-123")), ("status", s("queued"))]);
    let sub = parse_submit_response(200, &body).unwrap();
    assert_eq!(sub.backend_job_id, "job-123");
}

#[test]
fn submit_4xx_is_error_with_status_and_message() {
    let body = obj(vec![("error", s("unknown model"))]);
    let err = parse_submit_response(400, &body).unwrap_err();
    assert!(err.contains("400"), "{err}");
    assert!(err.contains("unknown model"), "{err}");
    assert_eq!(err, "generation backend error 400: unknown model");
}

#[test]
fn submit_2xx_bad_body_is_error() {
    let missing = obj(vec![("status", s("queued"))]);
    assert!(parse_submit_response(200, &missing).is_err());
    let empty_id = obj(vec![("jobId", s(""))]);
    assert!(parse_submit_response(200, &empty_id).is_err());
    let wrong_type = obj(vec![("jobId", JsonValue::Number("7".to_string()))]);
    let err = parse_submit_response(200, &wrong_type).unwrap_err();
    assert_eq!(err, "generation submit: response missing jobId: {\"jobId\":7}");
}

#[test]
fn poll_succeeded_maps_to_success_with_urls() {
    let body = obj(vec![
        ("status", s("succeeded")),
        ("resultUrls", JsonValue::Array(vec![s("https://cdn/a.mp4"), s("https://cdn/b.mp4")])),
    ]);
    assert_eq!(
        parse_poll_response(200, &body).unwrap(),
        GenerationOutcome::Success {
            result_urls: vec!["https://cdn/a.mp4".to_string(), "https://cdn/b.mp4".to_string()]
        }
    );
}

#[test]
fn poll_failed_maps_to_failure_with_reason() {
    let body = obj(vec![("status", s("failed")), ("error", s("content policy"))]);
    assert_eq!(
        parse_poll_response(200, &body).unwrap(),
        GenerationOutcome::Failure {
            reason: "content policy".to_string()
        }
    );
    let bare = obj(vec![("status", s("failed"))]);
    assert_eq!(
        parse_poll_response(200, &bare).unwrap(),
        GenerationOutcome::Failure { reason: "generation failed".to_string() }
    );
}

#[test]
fn poll_queued_and_running_stay_pending_as_err() {
    let queued = obj(vec![("status", s("queued"))]);
    assert_eq!(parse_poll_response(200, &queued).unwrap_err(), "still queued");
    let running = obj(vec![("status", s("running"))]);
    assert_eq!(parse_poll_response(200, &running).unwrap_err(), "still running");
}

#[test]
fn poll_bad_body_and_non_2xx_are_err() {
    let no_status = obj(vec![("resultUrls", JsonValue::Array(vec![]))]);
    assert!(parse_poll_response(200, &no_status).is_err());
    let server_err = obj(vec![("error", s("boom"))]);
    let err = parse_poll_response(500, &server_err).unwrap_err();
    assert!(err.contains("500"), "{err}");
    assert!(err.contains("boom"), "{err}");
}

#[test]
fn poll_succeeded_without_urls_is_a_failure_not_empty_success() {
    for body in [
        obj(vec![("status", s("succeeded"))]),
        obj(vec![("status", s("succeeded")), ("resultUrls", JsonValue::Array(vec![]))]),
        obj(vec![("status", s("succeeded")), ("resultUrls", JsonValue::Array(vec![JsonValue::Null]))]),
    ] {
        match parse_poll_response(200, &body).unwrap() {
            GenerationOutcome::Failure { reason } => {
                assert!(reason.contains("no result URLs"), "{reason}");
            }
            other => panic!("expected Failure, got {other:?}"),
        }
    }
}

#[test]
fn error_without_message_falls_back_to_raw_body() {
    let body = obj(vec![("detail", s("x"))]);
    let err = parse_poll_response(503, &body).unwrap_err();
    assert_eq!(err, "generation backend error 503: {\"detail\":\"x\"}");
    let with_message = obj(vec![("message", s("try later"))]);
    assert_eq!(
        parse_submit_response(429, &with_message).unwrap_err(),
        "generation backend error 429: try later"
    );
}

fn tool_result(text: &str, is_error: bool) -> Result<JsonValue, String> {
    Ok(obj(vec![
        ("content", JsonValue::Array(vec![obj(vec![("type", s("text")), ("text", s(text))])])),
        ("isError", JsonValue::Bool(is_error)),
    ]))
}

#[test]
fn interpret_submission_maps_outcomes() {
    assert_eq!(
        interpret_submission(&tool_result("queued job-1", false)),
        SubmitOutcome::Queued("queued job-1".to_string())
    );
    assert_eq!(
        interpret_submission(&tool_result("generate_video requires a remote API key", true)),
        SubmitOutcome::Unavailable
    );
    assert_eq!(
        interpret_submission(&tool_result("bad prompt", true)),
        SubmitOutcome::Failed("bad prompt".to_string())
    );
    assert_eq!(
        interpret_submission(&Err("executor busy".to_string())),
        SubmitOutcome::Failed("executor busy".to_string())
    );
    assert_eq!(
        interpret_submission(&Ok(obj(vec![]))),
        SubmitOutcome::Queued(String::new())
    );
}

#[test]
fn generate_notes_explain_unavailable_and_failures() {
    assert_eq!(caption_generate_note(&tool_result("ok", false)), None);
    assert_eq!(
        caption_generate_note(&tool_result("add_captions requires a remote API", true)),
        Some("Transcription unavailable — no speech engine is connected.".to_string())
    );
    assert_eq!(
        music_generate_note(&tool_result("generate_audio requires a remote API", true)),
        Some("Generation unavailable — no backend is connected.".to_string())
    );
    assert_eq!(music_generate_note(&Err("boom".to_string())), Some("boom".to_string()));
}
