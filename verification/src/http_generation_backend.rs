//! Configuration and protocol tokens of the HTTP generation backend
//! (Generation Protocol v1): endpoint resolution, URL building, the
//! request body and the parsing of responses.
use crate::json::{
    as_str_spec, get_spec, json_of, member, json_text_of, jsons_of, lemma_jsons_len_index, members_of, push_member,
    render_json, Json, JsonValue,
};
use crate::text::{append_decimal, decimal, lemma_trim_end_char_prefix, trim, trim_end_char, trim_spec};
use vstd::prelude::*;

verus! {

/// Seconds an HTTP round-trip may take before it is abandoned.
pub const DEFAULT_TIMEOUT_SECS: u64 = 120;

/// Endpoint and credential configuration of a generation service.
#[derive(Debug, Clone)]
pub struct GenerationBackendConfig {
    pub base_url: String,
    pub token: String,
    /// Request timeout, in seconds.
    pub timeout_secs: u64,
}

/// `s` without its trailing `'/'` characters.
pub open spec fn trim_end_slashes(s: Seq<char>) -> Seq<char> {
    trim_end_char(s, '/')
}

/// `base` without trailing slashes, as an owned string.
fn without_trailing_slashes(base: &str) -> (r: String)
    ensures
        r@ == trim_end_slashes(base@),
{
    let n = base.unicode_len();
    let mut k = n;
    while k > 0 && base.get_char(k - 1) == '/'
        invariant
            n == base@.len(),
            0 <= k <= n,
            forall|j: int| k <= j < n ==> base@[j] == '/',
        decreases k,
    {
        k -= 1;
    }
    proof {
        lemma_trim_end_char_prefix(base@, '/', k as int);
    }
    String::from_str(base.substring_char(0, k))
}

/// The submit endpoint of a base URL.
pub open spec fn generate_url_spec(base_url: Seq<char>) -> Seq<char> {
    trim_end_slashes(base_url) + "/v1/generate"@
}

/// The poll endpoint of a job under a base URL.
pub open spec fn job_url_spec(base_url: Seq<char>, job_id: Seq<char>) -> Seq<char> {
    trim_end_slashes(base_url) + "/v1/jobs/"@ + job_id
}

impl GenerationBackendConfig {
    pub fn new(base_url: &str, token: &str) -> (c: Self)
        ensures
            c.base_url@ == base_url@,
            c.token@ == token@,
            c.timeout_secs == DEFAULT_TIMEOUT_SECS,
    {
        Self { base_url: base_url.to_owned(), token: token.to_owned(), timeout_secs: DEFAULT_TIMEOUT_SECS }
    }

    /// The submit endpoint for this config; a trailing slash is tolerated.
    pub fn generate_url(&self) -> (u: String)
        ensures
            u@ == generate_url_spec(self.base_url@),
    {
        let mut u = without_trailing_slashes(self.base_url.as_str());
        u.append("/v1/generate");
        u
    }

    /// The poll endpoint for a job; a trailing slash is tolerated.
    pub fn job_url(&self, job_id: &str) -> (u: String)
        ensures
            u@ == job_url_spec(self.base_url@, job_id@),
    {
        let mut u = without_trailing_slashes(self.base_url.as_str());
        u.append("/v1/jobs/");
        u.append(job_id);
        u
    }
}

/// The trimmed value, when present and not blank.
pub open spec fn non_blank_spec(value: Option<Seq<char>>) -> Option<Seq<char>> {
    match value {
        Some(v) => if trim_spec(v).len() > 0 {
            Some(trim_spec(v))
        } else {
            None
        },
        None => None,
    }
}

pub open spec fn opt_view(o: Option<String>) -> Option<Seq<char>> {
    match o {
        Some(s) => Some(s@),
        None => None,
    }
}

fn non_blank(value: Option<String>) -> (r: Option<String>)
    ensures
        opt_view(r) == non_blank_spec(opt_view(value)),
{
    match value {
        Some(v) => {
            let t = trim(v.as_str());
            if t.unicode_len() > 0 {
                Some(String::from_str(t))
            } else {
                None
            }
        },
        None => None,
    }
}

/// Config resolution from the two configured values: both must be
/// present and non-blank; they are stored trimmed.
pub fn resolve_config(url: Option<String>, token: Option<String>) -> (r: Option<GenerationBackendConfig>)
    ensures
        match r {
            Some(c) => non_blank_spec(opt_view(url)) == Some(c.base_url@) && non_blank_spec(
                opt_view(token),
            ) == Some(c.token@) && c.timeout_secs == DEFAULT_TIMEOUT_SECS,
            None => non_blank_spec(opt_view(url)) is None || non_blank_spec(opt_view(token)) is None,
        },
{
    let base_url = match non_blank(url) {
        Some(u) => u,
        None => return None,
    };
    let token = match non_blank(token) {
        Some(t) => t,
        None => return None,
    };
    Some(GenerationBackendConfig::new(base_url.as_str(), token.as_str()))
}

/// HTTP status in the 2xx range.
pub fn is_success(status: u16) -> (b: bool)
    ensures
        b == (200 <= status < 300),
{
    200 <= status && status < 300
}

/// Kind of generation model.
#[derive(Debug, Clone, Copy, PartialEq, Eq, Structural)]
pub enum ModelKind {
    Video,
    Image,
    Audio,
    Upscale,
}

pub open spec fn kind_token_spec(kind: ModelKind) -> Seq<char> {
    match kind {
        ModelKind::Video => "video"@,
        ModelKind::Image => "image"@,
        ModelKind::Audio => "audio"@,
        ModelKind::Upscale => "upscale"@,
    }
}

/// Lowercase protocol token for a model kind.
pub fn kind_token(kind: &ModelKind) -> (s: &'static str)
    ensures
        s@ == kind_token_spec(*kind),
{
    match kind {
        ModelKind::Video => "video",
        ModelKind::Image => "image",
        ModelKind::Audio => "audio",
        ModelKind::Upscale => "upscale",
    }
}

/// A member `(key, Str(value))` when `value` is present.
pub open spec fn opt_text_member(key: Seq<char>, value: Option<Seq<char>>) -> Seq<(Seq<char>, Json)> {
    match value {
        Some(v) => seq![(key, Json::Str(v))],
        None => Seq::empty(),
    }
}

/// The `/v1/generate` request body: kind token, model and prompt, then the
/// duration, source URL and target language when present, and `params`
/// unless it is null. `duration` is the JSON form of the duration.
pub open spec fn submit_body_spec(
    kind: ModelKind,
    model: Seq<char>,
    prompt: Seq<char>,
    duration: Option<Json>,
    source_url: Option<Seq<char>>,
    target_language: Option<Seq<char>>,
    params: Json,
) -> Json {
    Json::Object(
        seq![("kind"@, Json::Str(kind_token_spec(kind))), ("model"@, Json::Str(model)), ("prompt"@, Json::Str(prompt))]
            + match duration {
            Some(d) => seq![("durationSeconds"@, d)],
            None => Seq::empty(),
        } + opt_text_member("sourceUrl"@, source_url) + opt_text_member("targetLanguage"@, target_language) + if params is Null {
            Seq::empty()
        } else {
            seq![("params"@, params)]
        },
    )
}

pub open spec fn opt_ref_text(o: Option<&str>) -> Option<Seq<char>> {
    match o {
        Some(s) => Some(s@),
        None => None,
    }
}

pub open spec fn opt_json_of(o: Option<JsonValue>) -> Option<Json> {
    match o {
        Some(v) => Some(json_of(v)),
        None => None,
    }
}

fn push_opt_text(entries: &mut Vec<(String, JsonValue)>, key: &str, value: Option<&str>)
    ensures
        members_of(final(entries)@) == members_of(old(entries)@) + opt_text_member(key@, opt_ref_text(value)),
{
    if let Some(v) = value {
        push_member(entries, key, JsonValue::Str(String::from_str(v)));
    }
    assert(members_of(final(entries)@) =~= members_of(old(entries)@) + opt_text_member(key@, opt_ref_text(value)));
}

/// The `/v1/generate` request body; see `submit_body_spec`.
pub fn build_submit_body(
    kind: &ModelKind,
    model: &str,
    prompt: &str,
    duration: Option<JsonValue>,
    source_url: Option<&str>,
    target_language: Option<&str>,
    params: JsonValue,
) -> (v: JsonValue)
    ensures
        json_of(v) == submit_body_spec(
            *kind,
            model@,
            prompt@,
            opt_json_of(duration),
            opt_ref_text(source_url),
            opt_ref_text(target_language),
            json_of(params),
        ),
{
    let mut m: Vec<(String, JsonValue)> = Vec::new();
    assert(members_of(m@) =~= Seq::<(Seq<char>, Json)>::empty());
    push_member(&mut m, "kind", JsonValue::Str(String::from_str(kind_token(kind))));
    push_member(&mut m, "model", JsonValue::Str(String::from_str(model)));
    push_member(&mut m, "prompt", JsonValue::Str(String::from_str(prompt)));
    let ghost s0 = members_of(m@);
    assert(s0 =~= seq![("kind"@, Json::Str(kind_token_spec(*kind))), ("model"@, Json::Str(model@)), ("prompt"@, Json::Str(prompt@))]);
    match duration {
        Some(d) => {
            push_member(&mut m, "durationSeconds", d);
        },
        None => {},
    }
    let ghost s1 = members_of(m@);
    assert(s1 =~= s0 + match opt_json_of(duration) {
        Some(d) => seq![("durationSeconds"@, d)],
        None => Seq::empty(),
    });
    push_opt_text(&mut m, "sourceUrl", source_url);
    push_opt_text(&mut m, "targetLanguage", target_language);
    let ghost s2 = members_of(m@);
    let is_null = match &params {
        JsonValue::Null => true,
        _ => false,
    };
    let ghost jp = json_of(params);
    if !is_null {
        push_member(&mut m, "params", params);
    }
    assert(members_of(m@) =~= s2 + if jp is Null {
        Seq::<(Seq<char>, Json)>::empty()
    } else {
        seq![("params"@, jp)]
    });
    assert(json_of(JsonValue::Object(m)) == Json::Object(members_of(m@)));
    assert(members_of(m@) =~= match submit_body_spec(
        *kind,
        model@,
        prompt@,
        opt_json_of(duration),
        opt_ref_text(source_url),
        opt_ref_text(target_language),
        jp,
    ) {
        Json::Object(e) => e,
        _ => Seq::empty(),
    });
    JsonValue::Object(m)
}

/// A job the generation service accepted.
#[derive(Debug, Clone, PartialEq)]
pub struct GenerationSubmission {
    pub backend_job_id: String,
}

/// Terminal verdict of a generation job.
#[derive(Debug, Clone, PartialEq)]
pub enum GenerationOutcome {
    Success { result_urls: Vec<String> },
    Failure { reason: String },
}

/// The mathematical form of an outcome.
pub enum OutcomeView {
    Success(Seq<Seq<char>>),
    Failure(Seq<char>),
}

pub open spec fn outcome_view(o: GenerationOutcome) -> OutcomeView {
    match o {
        GenerationOutcome::Success { result_urls } => OutcomeView::Success(result_urls@.map_values(|u: String| u@)),
        GenerationOutcome::Failure { reason } => OutcomeView::Failure(reason@),
    }
}

/// The server's message in an error body: `error`, else `message`, else
/// empty.
pub open spec fn server_message(body: Json) -> Seq<char> {
    match as_str_spec(get_spec(body, "error"@)) {
        Some(m) => m,
        None => match as_str_spec(get_spec(body, "message"@)) {
            Some(m) => m,
            None => Seq::empty(),
        },
    }
}

/// Human-readable message for an error response, falling back to the raw
/// JSON when the body carries no message.
pub open spec fn error_message_spec(status: u16, body: Json) -> Seq<char> {
    if server_message(body).len() == 0 {
        "generation backend error "@ + decimal(status as nat) + ": "@ + json_text_of(body)
    } else {
        "generation backend error "@ + decimal(status as nat) + ": "@ + server_message(body)
    }
}

fn error_message(status: u16, body: &JsonValue) -> (m: String)
    ensures
        m@ == error_message_spec(status, json_of(*body)),
{
    let msg: &str = match body.get("error") {
        Some(x) => match x.as_str() {
            Some(m) => m,
            None => match body.get("message") {
                Some(y) => match y.as_str() {
                    Some(m) => m,
                    None => "",
                },
                None => "",
            },
        },
        None => match body.get("message") {
            Some(y) => match y.as_str() {
                Some(m) => m,
                None => "",
            },
            None => "",
        },
    };
    proof {
        reveal_strlit("");
    }
    let mut m = String::from_str("generation backend error ");
    append_decimal(&mut m, status as u128);
    m.append(": ");
    if msg.unicode_len() == 0 {
        let text = render_json(body);
        m.append(text.as_str());
    } else {
        m.append(msg);
    }
    m
}

/// Outcome of a submit response: the job id of a 2xx response carrying a
/// non-empty string `jobId`, else an error message.
pub open spec fn submit_result_spec(status: u16, body: Json) -> Result<Seq<char>, Seq<char>> {
    if !(200 <= status < 300) {
        Err(error_message_spec(status, body))
    } else {
        match as_str_spec(get_spec(body, "jobId"@)) {
            Some(id) => if id.len() > 0 {
                Ok(id)
            } else {
                Err("generation submit: response missing jobId: "@ + json_text_of(body))
            },
            None => Err("generation submit: response missing jobId: "@ + json_text_of(body)),
        }
    }
}

/// Parse a `/v1/generate` response.
pub fn parse_submit_response(status: u16, body: &JsonValue) -> (r: Result<GenerationSubmission, String>)
    ensures
        match r {
            Ok(sub) => submit_result_spec(status, json_of(*body)) == Ok::<Seq<char>, Seq<char>>(sub.backend_job_id@),
            Err(e) => submit_result_spec(status, json_of(*body)) == Err::<Seq<char>, Seq<char>>(e@),
        },
{
    if !is_success(status) {
        return Err(error_message(status, body));
    }
    let job_id = match body.get("jobId") {
        Some(x) => match x.as_str() {
            Some(id) => id,
            None => "",
        },
        None => "",
    };
    proof {
        reveal_strlit("");
    }
    if job_id.unicode_len() == 0 {
        let mut e = String::from_str("generation submit: response missing jobId: ");
        let text = render_json(body);
        e.append(text.as_str());
        return Err(e);
    }
    Ok(GenerationSubmission { backend_job_id: String::from_str(job_id) })
}

/// The string items of a JSON array, in order.
pub open spec fn string_items(a: Seq<Json>) -> Seq<Seq<char>>
    decreases a.len(),
{
    if a.len() == 0 {
        Seq::empty()
    } else {
        match a.last() {
            Json::Str(u) => string_items(a.drop_last()).push(u),
            _ => string_items(a.drop_last()),
        }
    }
}

/// The string items of `body.resultUrls`, empty when it is not an array.
pub open spec fn result_urls_of(body: Json) -> Seq<Seq<char>> {
    match get_spec(body, "resultUrls"@) {
        Some(Json::Array(a)) => string_items(a),
        _ => Seq::empty(),
    }
}

/// Outcome of a poll response: `succeeded` with URLs is a success,
/// `succeeded` without any and `failed` are failures; other statuses, a
/// missing status, or a non-2xx response leave the job pending (`Err`).
pub open spec fn poll_result_spec(status: u16, body: Json) -> Result<OutcomeView, Seq<char>> {
    if !(200 <= status < 300) {
        Err(error_message_spec(status, body))
    } else {
        match as_str_spec(get_spec(body, "status"@)) {
            Some(s) => if s == "succeeded"@ {
                if result_urls_of(body).len() == 0 {
                    Ok(OutcomeView::Failure("generation reported success but returned no result URLs"@))
                } else {
                    Ok(OutcomeView::Success(result_urls_of(body)))
                }
            } else if s == "failed"@ {
                match as_str_spec(get_spec(body, "error"@)) {
                    Some(reason) => Ok(OutcomeView::Failure(reason)),
                    None => Ok(OutcomeView::Failure("generation failed"@)),
                }
            } else {
                Err("still "@ + s)
            },
            None => Err("generation poll: response missing status: "@ + json_text_of(body)),
        }
    }
}

fn result_urls(body: &JsonValue) -> (r: Vec<String>)
    ensures
        r@.map_values(|u: String| u@) == result_urls_of(json_of(*body)),
{
    let mut out: Vec<String> = Vec::new();
    match body.get("resultUrls") {
        Some(JsonValue::Array(items)) => {
            proof {
                lemma_jsons_len_index(items@);
            }
            let ghost a = jsons_of(items@);
            let mut i: usize = 0;
            while i < items.len()
                invariant
                    a == jsons_of(items@),
                    a.len() == items@.len(),
                    forall|j: int| 0 <= j < items@.len() ==> #[trigger] a[j] == json_of(items@[j]),
                    0 <= i <= items.len(),
                    out@.map_values(|u: String| u@) == string_items(a.subrange(0, i as int)),
                decreases items.len() - i,
            {
                assert(a.subrange(0, i + 1).drop_last() =~= a.subrange(0, i as int));
                assert(a.subrange(0, i + 1).last() == json_of(items@[i as int]));
                match &items[i] {
                    JsonValue::Str(u) => {
                        out.push(u.clone());
                    },
                    _ => {},
                }
                assert(out@.map_values(|u: String| u@) =~= string_items(a.subrange(0, i + 1)));
                i += 1;
            }
            assert(a.subrange(0, items.len() as int) =~= a);
        },
        _ => {
            assert(out@.map_values(|u: String| u@) =~= Seq::<Seq<char>>::empty());
        },
    }
    out
}

/// Map a `/v1/jobs/{id}` response to an outcome.
pub fn parse_poll_response(status: u16, body: &JsonValue) -> (r: Result<GenerationOutcome, String>)
    ensures
        match r {
            Ok(o) => poll_result_spec(status, json_of(*body)) == Ok::<OutcomeView, Seq<char>>(outcome_view(o)),
            Err(e) => poll_result_spec(status, json_of(*body)) == Err::<OutcomeView, Seq<char>>(e@),
        },
{
    if !is_success(status) {
        return Err(error_message(status, body));
    }
    let job_status = match body.get("status") {
        Some(x) => match x.as_str() {
            Some(s) => String::from_str(s),
            None => {
                let mut e = String::from_str("generation poll: response missing status: ");
                let text = render_json(body);
                e.append(text.as_str());
                return Err(e);
            },
        },
        None => {
            let mut e = String::from_str("generation poll: response missing status: ");
            let text = render_json(body);
            e.append(text.as_str());
            return Err(e);
        },
    };
    if job_status == String::from_str("succeeded") {
        let urls = result_urls(body);
        if urls.len() == 0 {
            let reason = String::from_str("generation reported success but returned no result URLs");
            return Ok(GenerationOutcome::Failure { reason });
        }
        let o = GenerationOutcome::Success { result_urls: urls };
        assert(outcome_view(o) == OutcomeView::Success(result_urls_of(json_of(*body))));
        return Ok(o);
    }
    if job_status == String::from_str("failed") {
        let reason = match body.get("error") {
            Some(x) => match x.as_str() {
                Some(m) => String::from_str(m),
                None => String::from_str("generation failed"),
            },
            None => String::from_str("generation failed"),
        };
        return Ok(GenerationOutcome::Failure { reason });
    }
    let mut e = String::from_str("still ");
    e.append(job_status.as_str());
    Err(e)
}

/// Endpoints tolerate trailing slashes on the base URL: one more slash
/// changes neither endpoint, and a base without one is used as written.
pub proof fn lemma_endpoints_ignore_trailing_slash(base_url: Seq<char>, job_id: Seq<char>)
    ensures
        generate_url_spec(base_url.push('/')) == generate_url_spec(base_url),
        job_url_spec(base_url.push('/'), job_id) == job_url_spec(base_url, job_id),
        base_url.len() == 0 || base_url.last() != '/' ==> generate_url_spec(base_url) == base_url + "/v1/generate"@,
        base_url.len() == 0 || base_url.last() != '/' ==> job_url_spec(base_url, job_id) == base_url + "/v1/jobs/"@ + job_id,
{
    assert(base_url.push('/').drop_last() =~= base_url);
}

/// A submit response gives a job id exactly when it is a 2xx response
/// whose `jobId` is a non-empty string, and then that string; an error
/// response reports its status and the server's `error` (else
/// `message`) text.
pub proof fn lemma_submit_outcomes(status: u16, body: Json)
    ensures
        (submit_result_spec(status, body) is Ok) <==> (200 <= status < 300 && as_str_spec(get_spec(body, "jobId"@)) is Some
            && as_str_spec(get_spec(body, "jobId"@))->0.len() > 0),
        submit_result_spec(status, body) matches Ok(id) ==> as_str_spec(get_spec(body, "jobId"@)) == Some(id),
        !(200 <= status < 300) ==> (as_str_spec(get_spec(body, "error"@)) matches Some(m) ==> (m.len() > 0 ==> submit_result_spec(
            status,
            body,
        ) == Err::<Seq<char>, Seq<char>>("generation backend error "@ + decimal(status as nat) + ": "@ + m))),
        !(200 <= status < 300) && (as_str_spec(get_spec(body, "error"@)) is None) ==> (as_str_spec(get_spec(body, "message"@)) matches Some(m)
            ==> (m.len() > 0 ==> submit_result_spec(status, body) == Err::<Seq<char>, Seq<char>>(
            "generation backend error "@ + decimal(status as nat) + ": "@ + m,
        ))),
{
}

/// A poll response of a 2xx status: `succeeded` with result URLs is a
/// success with those URLs, `succeeded` without any is a failure,
/// `failed` is a failure with the server's `error` text (else a generic
/// one), and any other status leaves the job pending; a response of any
/// other status is an error.
pub proof fn lemma_poll_outcomes(status: u16, body: Json)
    ensures
        !(200 <= status < 300) ==> poll_result_spec(status, body) is Err,
        poll_result_spec(status, body) is Ok ==> 200 <= status < 300 && (as_str_spec(get_spec(body, "status"@)) == Some("succeeded"@)
            || as_str_spec(get_spec(body, "status"@)) == Some("failed"@)),
        (200 <= status < 300 && as_str_spec(get_spec(body, "status"@)) == Some("succeeded"@) && result_urls_of(body).len() > 0)
            ==> poll_result_spec(status, body) == Ok::<OutcomeView, Seq<char>>(OutcomeView::Success(result_urls_of(body))),
        (200 <= status < 300 && as_str_spec(get_spec(body, "status"@)) == Some("succeeded"@) && result_urls_of(body).len() == 0)
            ==> poll_result_spec(status, body) matches Ok(OutcomeView::Failure(_)),
        (200 <= status < 300 && as_str_spec(get_spec(body, "status"@)) == Some("failed"@)) ==> (as_str_spec(get_spec(body, "error"@)) matches Some(r)
            ==> poll_result_spec(status, body) == Ok::<OutcomeView, Seq<char>>(OutcomeView::Failure(r))),
        (200 <= status < 300 && as_str_spec(get_spec(body, "status"@)) == Some("failed"@)) ==> poll_result_spec(status, body) matches Ok(OutcomeView::Failure(_)),
        200 <= status < 300 ==> (as_str_spec(get_spec(body, "status"@)) matches Some(st) ==> (st != "succeeded"@ && st != "failed"@
            ==> poll_result_spec(status, body) == Err::<OutcomeView, Seq<char>>("still "@ + st))),
{
    reveal_strlit("succeeded");
    reveal_strlit("failed");
    assert("failed"@.len() != "succeeded"@.len());
}

/// The result URLs of an array that holds only strings are all of them,
/// in order; in any case each one is a string of the array.
pub proof fn lemma_string_items(a: Seq<Json>)
    ensures
        string_items(a).len() <= a.len(),
        forall|k: int| 0 <= k < string_items(a).len() ==> exists|j: int| 0 <= j < a.len() && a[j] == Json::Str(#[trigger] string_items(a)[k]),
        (forall|j: int| 0 <= j < a.len() ==> (#[trigger] a[j]) is Str) ==> {
            &&& string_items(a).len() == a.len()
            &&& forall|j: int| 0 <= j < a.len() ==> a[j] == Json::Str(#[trigger] string_items(a)[j])
        },
    decreases a.len(),
{
    if a.len() > 0 {
        let b = a.drop_last();
        lemma_string_items(b);
        assert(forall|j: int| 0 <= j < b.len() ==> b[j] == #[trigger] a[j]);
        let r = string_items(a);
        let rb = string_items(b);
        assert forall|k: int| 0 <= k < r.len() implies exists|j: int| 0 <= j < a.len() && a[j] == Json::Str(#[trigger] r[k]) by {
            if k < rb.len() {
                assert(r[k] == rb[k]);
                let j = choose|j: int| 0 <= j < b.len() && b[j] == Json::Str(rb[k]);
                assert(a[j] == Json::Str(r[k]));
            } else {
                assert(a[a.len() - 1] == Json::Str(r[k]));
            }
        }
        if forall|j: int| 0 <= j < a.len() ==> (#[trigger] a[j]) is Str {
            assert(forall|j: int| 0 <= j < b.len() ==> (#[trigger] b[j]) is Str);
            assert(a[a.len() - 1] is Str);
            assert forall|j: int| 0 <= j < a.len() implies a[j] == Json::Str(#[trigger] r[j]) by {
                if j < b.len() {
                    assert(r[j] == rb[j]);
                }
            }
        }
    }
}

/// Looking a key up in two member lists one after the other finds it in
/// the first where it is there, else in the second.
proof fn lemma_member_concat(a: Seq<(Seq<char>, Json)>, b: Seq<(Seq<char>, Json)>)
    ensures
        forall|key: Seq<char>| #[trigger] member(a + b, key) == match member(a, key) {
            Some(v) => Some(v),
            None => member(b, key),
        },
    decreases a.len(),
{
    if a.len() == 0 {
        assert(a + b =~= b);
    } else {
        lemma_member_concat(a.drop_first(), b);
        assert((a + b).drop_first() =~= a.drop_first() + b);
        assert((a + b)[0] == a[0]);
        assert forall|key: Seq<char>| #[trigger] member(a + b, key) == match member(a, key) {
            Some(v) => Some(v),
            None => member(b, key),
        } by {
            assert(member(a.drop_first() + b, key) == match member(a.drop_first(), key) {
                Some(v) => Some(v),
                None => member(b, key),
            });
        }
    }
}

/// The request body carries the kind's token, the model and the prompt;
/// the duration, source URL and target language exactly when given; and
/// the parameters exactly when they are not null.
pub proof fn lemma_submit_body_members(
    kind: ModelKind,
    model: Seq<char>,
    prompt: Seq<char>,
    duration: Option<Json>,
    source_url: Option<Seq<char>>,
    target_language: Option<Seq<char>>,
    params: Json,
)
    ensures
        ({
            let b = submit_body_spec(kind, model, prompt, duration, source_url, target_language, params);
            &&& get_spec(b, "kind"@) == Some(Json::Str(kind_token_spec(kind)))
            &&& get_spec(b, "model"@) == Some(Json::Str(model))
            &&& get_spec(b, "prompt"@) == Some(Json::Str(prompt))
            &&& get_spec(b, "durationSeconds"@) == duration
            &&& get_spec(b, "sourceUrl"@) == match source_url {
                Some(u) => Some(Json::Str(u)),
                None => None::<Json>,
            }
            &&& get_spec(b, "targetLanguage"@) == match target_language {
                Some(t) => Some(Json::Str(t)),
                None => None::<Json>,
            }
            &&& get_spec(b, "params"@) == if params is Null { None::<Json> } else { Some(params) }
        }),
{
    reveal_strlit("kind");
    reveal_strlit("model");
    reveal_strlit("prompt");
    reveal_strlit("durationSeconds");
    reveal_strlit("sourceUrl");
    reveal_strlit("targetLanguage");
    reveal_strlit("params");
    reveal_with_fuel(member, 4);
    let s3 = seq![("kind"@, Json::Str(kind_token_spec(kind))), ("model"@, Json::Str(model)), ("prompt"@, Json::Str(prompt))];
    let d = match duration {
        Some(x) => seq![("durationSeconds"@, x)],
        None => Seq::<(Seq<char>, Json)>::empty(),
    };
    let su = opt_text_member("sourceUrl"@, source_url);
    let tl = opt_text_member("targetLanguage"@, target_language);
    let pr = if params is Null {
        Seq::<(Seq<char>, Json)>::empty()
    } else {
        seq![("params"@, params)]
    };
    lemma_member_concat(s3, d);
    lemma_member_concat(s3 + d, su);
    lemma_member_concat(s3 + d + su, tl);
    lemma_member_concat(s3 + d + su + tl, pr);
    assert("params"@ != "prompt"@) by {
        assert("params"@[1] != "prompt"@[1]);
    }
    let all = s3 + d + su + tl + pr;
    assert(submit_body_spec(kind, model, prompt, duration, source_url, target_language, params) == Json::Object(all));
    assert("kind"@.len() == 4 && "model"@.len() == 5 && "prompt"@.len() == 6 && "durationSeconds"@.len() == 15);
    assert("sourceUrl"@.len() == 9 && "targetLanguage"@.len() == 14 && "params"@.len() == 6);
    assert("kind"@ != "model"@);
    assert("kind"@ != "prompt"@);
    assert("kind"@ != "durationSeconds"@);
    assert("kind"@ != "sourceUrl"@);
    assert("kind"@ != "targetLanguage"@);
    assert("kind"@ != "params"@);
    assert("model"@ != "prompt"@);
    assert("model"@ != "durationSeconds"@);
    assert("model"@ != "sourceUrl"@);
    assert("model"@ != "targetLanguage"@);
    assert("model"@ != "params"@);
    assert("prompt"@ != "durationSeconds"@);
    assert("prompt"@ != "sourceUrl"@);
    assert("prompt"@ != "targetLanguage"@);
    assert("durationSeconds"@ != "sourceUrl"@);
    assert("durationSeconds"@ != "targetLanguage"@);
    assert("durationSeconds"@ != "params"@);
    assert("sourceUrl"@ != "targetLanguage"@);
    assert("sourceUrl"@ != "params"@);
    assert("targetLanguage"@ != "params"@);
    assert(s3.drop_first() =~= seq![("model"@, Json::Str(model)), ("prompt"@, Json::Str(prompt))]);
    assert(s3.drop_first().drop_first() =~= seq![("prompt"@, Json::Str(prompt))]);
    assert(s3.drop_first().drop_first().drop_first() =~= Seq::<(Seq<char>, Json)>::empty());
    assert(member(s3, "kind"@) == Some(Json::Str(kind_token_spec(kind))));
    assert(member(s3, "model"@) == Some(Json::Str(model)));
    assert(member(s3, "prompt"@) == Some(Json::Str(prompt)));
    assert(member(s3, "durationSeconds"@) is None);
    assert(member(s3, "sourceUrl"@) is None);
    assert(member(s3, "targetLanguage"@) is None);
    assert(member(s3, "params"@) is None);
    assert(member(d, "durationSeconds"@) == duration);
    assert(member(d, "sourceUrl"@) is None);
    assert(member(d, "targetLanguage"@) is None);
    assert(member(d, "params"@) is None);
    assert(member(su, "targetLanguage"@) is None);
    assert(member(su, "params"@) is None);
    assert(member(tl, "params"@) is None);
}

} // verus!
