//! Generation panel logic: what a generate-tool result means for the
//! panel.
use crate::json::{as_bool_spec, as_str_spec, at_spec, get_spec, json_of, Json, JsonValue};
use crate::text::{contains_seq, str_contains};
use vstd::prelude::*;

verus! {

/// What a generate tool result means for the panel.
#[derive(Debug, Clone, PartialEq)]
pub enum SubmitOutcome {
    /// The job was accepted; the manifest holds a placeholder entry.
    Queued(String),
    /// No generation backend is connected.
    Unavailable,
    Failed(String),
}

pub enum SubmitOutcomeView {
    Queued(Seq<char>),
    Unavailable,
    Failed(Seq<char>),
}

pub open spec fn submit_outcome_view(o: SubmitOutcome) -> SubmitOutcomeView {
    match o {
        SubmitOutcome::Queued(t) => SubmitOutcomeView::Queued(t@),
        SubmitOutcome::Unavailable => SubmitOutcomeView::Unavailable,
        SubmitOutcome::Failed(t) => SubmitOutcomeView::Failed(t@),
    }
}

/// `value["content"][0]["text"]` as a string, empty when absent.
pub open spec fn content_text(v: Json) -> Seq<char> {
    let first = match get_spec(v, "content"@) {
        Some(c) => at_spec(c, 0),
        None => None,
    };
    let text = match first {
        Some(f) => as_str_spec(get_spec(f, "text"@)),
        None => None,
    };
    match text {
        Some(t) => t,
        None => Seq::empty(),
    }
}

/// Whether the result is flagged `isError: true`.
pub open spec fn is_error_result(v: Json) -> bool {
    as_bool_spec(get_spec(v, "isError"@)) == Some(true)
}

/// Meaning of a tool result: an error that mentions a missing remote API
/// is "unavailable", any other error "failed", otherwise the job queued.
pub open spec fn interpret_spec(result: Result<Json, Seq<char>>) -> SubmitOutcomeView {
    match result {
        Err(reason) => SubmitOutcomeView::Failed(reason),
        Ok(v) => if is_error_result(v) && contains_seq(content_text(v), "requires a remote API"@) {
            SubmitOutcomeView::Unavailable
        } else if is_error_result(v) {
            SubmitOutcomeView::Failed(content_text(v))
        } else {
            SubmitOutcomeView::Queued(content_text(v))
        },
    }
}

pub open spec fn result_view(r: Result<JsonValue, String>) -> Result<Json, Seq<char>> {
    match r {
        Ok(v) => Ok(json_of(v)),
        Err(e) => Err(e@),
    }
}

pub fn interpret_submission(result: &Result<JsonValue, String>) -> (o: SubmitOutcome)
    ensures
        submit_outcome_view(o) == interpret_spec(result_view(*result)),
{
    match result {
        Err(reason) => SubmitOutcome::Failed(reason.clone()),
        Ok(value) => {
            let text: &str = match value.get("content") {
                Some(c) => match c.at(0) {
                    Some(f) => match f.get("text") {
                        Some(t) => match t.as_str() {
                            Some(s) => s,
                            None => "",
                        },
                        None => "",
                    },
                    None => "",
                },
                None => "",
            };
            proof {
                reveal_strlit("");
            }
            let is_error = match value.get("isError") {
                Some(b) => match b.as_bool() {
                    Some(x) => x,
                    None => false,
                },
                None => false,
            };
            assert(text@ == content_text(json_of(*value)));
            assert(is_error == is_error_result(json_of(*value)));
            assert(result_view(*result) == Ok::<Json, Seq<char>>(json_of(*value)));
            if is_error && str_contains(text, "requires a remote API") {
                SubmitOutcome::Unavailable
            } else if is_error {
                SubmitOutcome::Failed(String::from_str(text))
            } else {
                SubmitOutcome::Queued(String::from_str(text))
            }
        },
    }
}

/// Note shown after a caption Generate; `None` when a real run queued.
pub open spec fn caption_note_spec(o: SubmitOutcomeView) -> Option<Seq<char>> {
    match o {
        SubmitOutcomeView::Queued(_) => None,
        SubmitOutcomeView::Unavailable => Some("Transcription unavailable — no speech engine is connected."@),
        SubmitOutcomeView::Failed(reason) => Some(reason),
    }
}

/// Note shown after a music Generate; `None` when a real job queued.
pub open spec fn music_note_spec(o: SubmitOutcomeView) -> Option<Seq<char>> {
    match o {
        SubmitOutcomeView::Queued(_) => None,
        SubmitOutcomeView::Unavailable => Some("Generation unavailable — no backend is connected."@),
        SubmitOutcomeView::Failed(reason) => Some(reason),
    }
}

pub open spec fn opt_string_view(o: Option<String>) -> Option<Seq<char>> {
    match o {
        Some(s) => Some(s@),
        None => None,
    }
}

/// Note for a caption Generate result.
pub fn caption_generate_note(result: &Result<JsonValue, String>) -> (n: Option<String>)
    ensures
        opt_string_view(n) == caption_note_spec(interpret_spec(result_view(*result))),
{
    match interpret_submission(result) {
        SubmitOutcome::Queued(_) => None,
        SubmitOutcome::Unavailable => Some(String::from_str("Transcription unavailable — no speech engine is connected.")),
        SubmitOutcome::Failed(reason) => Some(reason),
    }
}

/// Note for a music Generate result.
pub fn music_generate_note(result: &Result<JsonValue, String>) -> (n: Option<String>)
    ensures
        opt_string_view(n) == music_note_spec(interpret_spec(result_view(*result))),
{
    match interpret_submission(result) {
        SubmitOutcome::Queued(_) => None,
        SubmitOutcome::Unavailable => Some(String::from_str("Generation unavailable — no backend is connected.")),
        SubmitOutcome::Failed(reason) => Some(reason),
    }
}

/// A tool call that failed outright is a failure with its reason; a
/// result not flagged as an error queued a job; an error result that
/// mentions a missing remote API means no backend, any other error result
/// is a failure with its text. Panel notes are shown for everything but a
/// queued job, and a failure's note is its reason.
pub proof fn lemma_submission_outcomes(result: Result<Json, Seq<char>>)
    ensures
        result matches Err(r) ==> interpret_spec(result) == SubmitOutcomeView::Failed(r),
        result matches Ok(v) ==> (!is_error_result(v) ==> interpret_spec(result) == SubmitOutcomeView::Queued(content_text(v))),
        result matches Ok(v) ==> (is_error_result(v) && contains_seq(content_text(v), "requires a remote API"@)
            ==> interpret_spec(result) == SubmitOutcomeView::Unavailable),
        result matches Ok(v) ==> (is_error_result(v) && !contains_seq(content_text(v), "requires a remote API"@)
            ==> interpret_spec(result) == SubmitOutcomeView::Failed(content_text(v))),
        caption_note_spec(interpret_spec(result)) is None <==> (interpret_spec(result) is Queued),
        music_note_spec(interpret_spec(result)) is None <==> (interpret_spec(result) is Queued),
        interpret_spec(result) matches SubmitOutcomeView::Failed(r) ==> caption_note_spec(interpret_spec(result)) == Some(r)
            && music_note_spec(interpret_spec(result)) == Some(r),
{
}

} // verus!
