//! Pane persistence: the media, inspector and agent flags and the divider
//! positions are stored in the preferences file; timeline and preview
//! visibility are session-only.
use crate::json::{
    as_bool_spec, as_str_spec, get_spec, json_of, lemma_members_len_index, json_parse_of, json_pretty_of, lemma_remove_member_get,
    lemma_set_member_get, member, members_of, parse_json, remove_member, remove_member_exec, render_json_pretty,
    opt_json, set_member, set_member_exec, take_member, unique_keys, lemma_set_member_unique, lemma_remove_member_unique, Json,
    JsonValue,
};
use crate::pane::PaneVisibility;
use crate::paths::{path_join, path_join_of};
use crate::text::{lemma_trim_idempotent, trim, trim_spec};
use vstd::prelude::*;

verus! {

pub const PANE_VISIBILITY_KEY: &'static str = "paneVisibility";
pub const PANE_SIZES_KEY: &'static str = "paneSizes";
pub const PREFS_FILE_NAME: &'static str = "preferences.json";

/// The preferences file inside the configuration directory `config_dir`.
pub fn default_prefs_path(config_dir: &str) -> (p: String)
    ensures
        p@ == path_join_of(config_dir@, PREFS_FILE_NAME@),
{
    path_join(config_dir, PREFS_FILE_NAME)
}

/// The three persisted pane flags.
#[derive(Debug, Clone, Copy, PartialEq, Eq, Structural)]
pub struct PersistedPaneVisibility {
    pub media: bool,
    pub inspector: bool,
    pub agent: bool,
}

/// The persisted part of a visibility.
pub open spec fn persisted_of(v: PaneVisibility) -> PersistedPaneVisibility {
    PersistedPaneVisibility { media: v.media, inspector: v.inspector, agent: v.agent }
}

/// `v` with the persisted flags of `p` applied.
pub open spec fn applied(p: PersistedPaneVisibility, v: PaneVisibility) -> PaneVisibility {
    PaneVisibility { media: p.media, inspector: p.inspector, agent: p.agent, ..v }
}

impl PersistedPaneVisibility {
    pub fn from_layout(visibility: &PaneVisibility) -> (p: Self)
        ensures
            p == persisted_of(*visibility),
    {
        Self { media: visibility.media, inspector: visibility.inspector, agent: visibility.agent }
    }

    /// Apply the persisted flags; other panes keep their current state.
    pub fn apply_to(&self, visibility: &mut PaneVisibility)
        ensures
            *final(visibility) == applied(*self, *old(visibility)),
    {
        visibility.media = self.media;
        visibility.inspector = self.inspector;
        visibility.agent = self.agent;
    }
}

/// Saving a visibility and applying it to any layout restores the three
/// persisted flags and keeps the layout's timeline and preview flags;
/// reading back what was applied gives the same persisted flags.
pub proof fn lemma_persist_round_trip(saved: PaneVisibility, fresh: PaneVisibility)
    ensures
        applied(persisted_of(saved), fresh).media == saved.media,
        applied(persisted_of(saved), fresh).inspector == saved.inspector,
        applied(persisted_of(saved), fresh).agent == saved.agent,
        applied(persisted_of(saved), fresh).timeline == fresh.timeline,
        applied(persisted_of(saved), fresh).preview == fresh.preview,
        persisted_of(applied(persisted_of(saved), fresh)) == persisted_of(saved),
{
}

pub const WHISPER_MODEL_PATH_KEY: &'static str = "whisperModelPath";
pub const GENERATION_URL_KEY: &'static str = "generationEndpointUrl";
pub const GENERATION_TOKEN_KEY: &'static str = "generationEndpointToken";

/// The view of an optional text.
pub open spec fn opt_text(t: Option<&str>) -> Option<Seq<char>> {
    match t {
        Some(s) => Some(s@),
        None => None,
    }
}

/// Members of the preferences root read from the file's text: a missing
/// file, text that is not JSON, or a root that is not an object all give
/// an empty object.
pub open spec fn prefs_root_spec(existing: Option<Seq<char>>) -> Seq<(Seq<char>, Json)> {
    match existing {
        Some(t) => match json_parse_of(t) {
            Some(Json::Object(m)) => m,
            _ => Seq::empty(),
        },
        None => Seq::empty(),
    }
}

/// The members of the preferences root held in `existing`.
pub fn prefs_root_members(existing: Option<&str>) -> (r: Vec<(String, JsonValue)>)
    ensures
        members_of(r@) == prefs_root_spec(opt_text(existing)),
        unique_keys(members_of(r@)),
{
    let none: Vec<(String, JsonValue)> = Vec::new();
    assert(members_of(none@) =~= Seq::<(Seq<char>, Json)>::empty());
    match existing {
        Some(t) => match parse_json(t) {
            Some(v) => match v.into_members() {
                Some(m) => m,
                None => none,
            },
            None => none,
        },
        None => none,
    }
}

/// The text written for a preferences root: pretty JSON and a newline.
pub open spec fn prefs_file_text(root: Seq<(Seq<char>, Json)>) -> Seq<char> {
    json_pretty_of(Json::Object(root)) + "\n"@
}

fn prefs_text(root: Vec<(String, JsonValue)>) -> (r: String)
    ensures
        r@ == prefs_file_text(members_of(root@)),
{
    let v = JsonValue::Object(root);
    let mut t = render_json_pretty(&v);
    t.append("\n");
    t
}

/// The persisted flags in a parsed preferences root, when the
/// `paneVisibility` object holds all three as booleans.
pub open spec fn visibility_in(root: Option<Json>) -> Option<PersistedPaneVisibility> {
    match root {
        Some(r) => match get_spec(r, PANE_VISIBILITY_KEY@) {
            Some(pane) => match (
                as_bool_spec(get_spec(pane, "media"@)),
                as_bool_spec(get_spec(pane, "inspector"@)),
                as_bool_spec(get_spec(pane, "agent"@)),
            ) {
                (Some(media), Some(inspector), Some(agent)) => Some(
                    PersistedPaneVisibility { media, inspector, agent },
                ),
                _ => None,
            },
            None => None,
        },
        None => None,
    }
}

/// The persisted pane flags held in the preferences text; `None` when the
/// text is not JSON or the `paneVisibility` object is missing or malformed.
pub fn load_pane_visibility_from(text: &str) -> (r: Option<PersistedPaneVisibility>)
    ensures
        r == visibility_in(json_parse_of(text@)),
{
    let value = match parse_json(text) {
        Some(v) => v,
        None => return None,
    };
    let pane = match value.get(PANE_VISIBILITY_KEY) {
        Some(p) => p,
        None => return None,
    };
    let media = match pane.get("media") {
        Some(x) => match x.as_bool() {
            Some(b) => b,
            None => return None,
        },
        None => return None,
    };
    let inspector = match pane.get("inspector") {
        Some(x) => match x.as_bool() {
            Some(b) => b,
            None => return None,
        },
        None => return None,
    };
    let agent = match pane.get("agent") {
        Some(x) => match x.as_bool() {
            Some(b) => b,
            None => return None,
        },
        None => return None,
    };
    Some(PersistedPaneVisibility { media, inspector, agent })
}

/// The `paneVisibility` object written for a set of flags.
pub open spec fn visibility_json(v: PersistedPaneVisibility) -> Json {
    Json::Object(seq![("media"@, Json::Bool(v.media)), ("inspector"@, Json::Bool(v.inspector)), ("agent"@, Json::Bool(v.agent))])
}

/// The preferences root after saving `v`: only `paneVisibility` changes.
pub open spec fn with_visibility(root: Seq<(Seq<char>, Json)>, v: PersistedPaneVisibility) -> Seq<(Seq<char>, Json)> {
    set_member(root, PANE_VISIBILITY_KEY@, visibility_json(v))
}

/// New preferences text after saving the pane flags over `existing` (the
/// current file text, if any); every other key is kept.
pub fn save_pane_visibility_text(existing: Option<&str>, visibility: PersistedPaneVisibility) -> (r: String)
    ensures
        r@ == prefs_file_text(with_visibility(prefs_root_spec(opt_text(existing)), visibility)),
{
    let mut root = prefs_root_members(existing);
    let mut pane: Vec<(String, JsonValue)> = Vec::new();
    pane.push((String::from_str("media"), JsonValue::Bool(visibility.media)));
    pane.push((String::from_str("inspector"), JsonValue::Bool(visibility.inspector)));
    pane.push((String::from_str("agent"), JsonValue::Bool(visibility.agent)));
    proof {
        reveal_strlit("media");
        reveal_strlit("inspector");
        reveal_strlit("agent");
        lemma_members_len_index(pane@);
        assert(members_of(pane@) =~= seq![("media"@, Json::Bool(visibility.media)), ("inspector"@, Json::Bool(visibility.inspector)), ("agent"@, Json::Bool(visibility.agent))]);
    }
    set_member_exec(&mut root, PANE_VISIBILITY_KEY, JsonValue::Object(pane));
    prefs_text(root)
}

/// The divider positions stored in a preferences root: the members of its
/// `paneSizes` object, none when it has no such object.
pub open spec fn stored_sizes(root: Seq<(Seq<char>, Json)>) -> Seq<(Seq<char>, Json)> {
    match member(root, PANE_SIZES_KEY@) {
        Some(Json::Object(m)) => m,
        _ => Seq::empty(),
    }
}

/// `m` with `key` set to `value` when there is one.
pub open spec fn set_if_some(m: Seq<(Seq<char>, Json)>, key: Seq<char>, value: Option<Json>) -> Seq<(Seq<char>, Json)> {
    match value {
        Some(v) => set_member(m, key, v),
        None => m,
    }
}

/// The stored positions with each given one set; a missing one keeps
/// what was stored.
pub open spec fn merged_sizes(
    root: Seq<(Seq<char>, Json)>,
    agent: Option<Json>,
    media: Option<Json>,
    inspector: Option<Json>,
    timeline_height: Option<Json>,
) -> Seq<(Seq<char>, Json)> {
    set_if_some(
        set_if_some(set_if_some(set_if_some(stored_sizes(root), "agent"@, agent), "media"@, media), "inspector"@, inspector),
        "timelineHeight"@,
        timeline_height,
    )
}

/// The preferences root after saving divider positions: `paneSizes`
/// holds the merged positions; every other key is kept.
pub open spec fn with_sizes(
    root: Seq<(Seq<char>, Json)>,
    agent: Option<Json>,
    media: Option<Json>,
    inspector: Option<Json>,
    timeline_height: Option<Json>,
) -> Seq<(Seq<char>, Json)> {
    set_member(
        remove_member(root, PANE_SIZES_KEY@),
        PANE_SIZES_KEY@,
        Json::Object(merged_sizes(root, agent, media, inspector, timeline_height)),
    )
}

fn set_if_some_exec(m: &mut Vec<(String, JsonValue)>, key: &str, value: Option<JsonValue>)
    ensures
        members_of(final(m)@) == set_if_some(members_of(old(m)@), key@, opt_json(value)),
{
    if let Some(v) = value {
        set_member_exec(m, key, v);
    }
}

/// New preferences text after saving divider positions over `existing`.
/// Each position is given as its JSON number, only when it is usable
/// (finite and positive); a missing one never erases a stored one.
pub fn save_pane_sizes_text(
    existing: Option<&str>,
    agent: Option<JsonValue>,
    media: Option<JsonValue>,
    inspector: Option<JsonValue>,
    timeline_height: Option<JsonValue>,
) -> (r: String)
    ensures
        r@ == prefs_file_text(
            with_sizes(
                prefs_root_spec(opt_text(existing)),
                opt_json(agent),
                opt_json(media),
                opt_json(inspector),
                opt_json(timeline_height),
            ),
        ),
{
    let mut root = prefs_root_members(existing);
    let ghost r0 = members_of(root@);
    let stored = take_member(&mut root, PANE_SIZES_KEY);
    let mut sizes: Vec<(String, JsonValue)> = match stored {
        Some(JsonValue::Object(m)) => m,
        _ => Vec::new(),
    };
    assert(members_of(sizes@) == stored_sizes(r0)) by {
        if !(stored matches Some(JsonValue::Object(_))) {
            assert(members_of(sizes@) =~= Seq::<(Seq<char>, Json)>::empty());
        }
    }
    set_if_some_exec(&mut sizes, "agent", agent);
    set_if_some_exec(&mut sizes, "media", media);
    set_if_some_exec(&mut sizes, "inspector", inspector);
    set_if_some_exec(&mut sizes, "timelineHeight", timeline_height);
    set_member_exec(&mut root, PANE_SIZES_KEY, JsonValue::Object(sizes));
    prefs_text(root)
}

/// Saving divider positions and reading the tree back gives each given
/// position under `paneSizes`, keeps each stored position that was not
/// given, and keeps every other preference key.
pub proof fn lemma_sizes_save_then_read(
    root: Seq<(Seq<char>, Json)>,
    agent: Option<Json>,
    media: Option<Json>,
    inspector: Option<Json>,
    timeline_height: Option<Json>,
    other: Seq<char>,
)
    ensures
        get_spec(Json::Object(with_sizes(root, agent, media, inspector, timeline_height)), PANE_SIZES_KEY@) == Some(
            Json::Object(merged_sizes(root, agent, media, inspector, timeline_height)),
        ),
        agent matches Some(a) ==> member(merged_sizes(root, agent, media, inspector, timeline_height), "agent"@) == Some(a),
        media matches Some(a) ==> member(merged_sizes(root, agent, media, inspector, timeline_height), "media"@) == Some(a),
        inspector matches Some(a) ==> member(merged_sizes(root, agent, media, inspector, timeline_height), "inspector"@)
            == Some(a),
        timeline_height matches Some(a) ==> member(
            merged_sizes(root, agent, media, inspector, timeline_height),
            "timelineHeight"@,
        ) == Some(a),
        other != "agent"@ && other != "media"@ && other != "inspector"@ && other != "timelineHeight"@ ==> member(
            merged_sizes(root, agent, media, inspector, timeline_height),
            other,
        ) == member(stored_sizes(root), other),
        other != PANE_SIZES_KEY@ ==> get_spec(Json::Object(with_sizes(root, agent, media, inspector, timeline_height)), other)
            == get_spec(Json::Object(root), other),
{
    reveal_strlit("agent");
    reveal_strlit("media");
    reveal_strlit("inspector");
    reveal_strlit("timelineHeight");
    let s0 = stored_sizes(root);
    let s1 = set_if_some(s0, "agent"@, agent);
    let s2 = set_if_some(s1, "media"@, media);
    let s3 = set_if_some(s2, "inspector"@, inspector);
    let s4 = set_if_some(s3, "timelineHeight"@, timeline_height);
    assert("agent"@[0] != "media"@[0]);
    assert("agent"@[0] != "inspector"@[0]);
    assert("agent"@[0] != "timelineHeight"@[0]);
    assert("media"@[0] != "inspector"@[0]);
    assert("media"@[0] != "timelineHeight"@[0]);
    assert("inspector"@[0] != "timelineHeight"@[0]);
    if let Some(a) = agent {
        lemma_set_member_get(s0, "agent"@, a, other);
    }
    if let Some(a) = media {
        lemma_set_member_get(s1, "media"@, a, other);
        lemma_set_member_get(s1, "media"@, a, "agent"@);
    }
    if let Some(a) = inspector {
        lemma_set_member_get(s2, "inspector"@, a, other);
        lemma_set_member_get(s2, "inspector"@, a, "agent"@);
        lemma_set_member_get(s2, "inspector"@, a, "media"@);
    }
    if let Some(a) = timeline_height {
        lemma_set_member_get(s3, "timelineHeight"@, a, other);
        lemma_set_member_get(s3, "timelineHeight"@, a, "agent"@);
        lemma_set_member_get(s3, "timelineHeight"@, a, "media"@);
        lemma_set_member_get(s3, "timelineHeight"@, a, "inspector"@);
    }
    let removed = remove_member(root, PANE_SIZES_KEY@);
    lemma_set_member_get(removed, PANE_SIZES_KEY@, Json::Object(s4), other);
    lemma_remove_member_get(root, PANE_SIZES_KEY@, other);
}

/// Saving the pane flags and reading them back from the saved tree gives
/// the same flags, and every other preference key keeps its value.
pub proof fn lemma_visibility_save_then_load(root: Seq<(Seq<char>, Json)>, v: PersistedPaneVisibility, other: Seq<char>)
    ensures
        visibility_in(Some(Json::Object(with_visibility(root, v)))) == Some(v),
        other != PANE_VISIBILITY_KEY@ ==> get_spec(Json::Object(with_visibility(root, v)), other) == get_spec(Json::Object(root), other),
{
    lemma_set_member_get(root, PANE_VISIBILITY_KEY@, visibility_json(v), other);
    reveal_strlit("media");
    reveal_strlit("inspector");
    reveal_strlit("agent");
    let m = seq![("media"@, Json::Bool(v.media)), ("inspector"@, Json::Bool(v.inspector)), ("agent"@, Json::Bool(v.agent))];
    assert(m.drop_first() =~= seq![("inspector"@, Json::Bool(v.inspector)), ("agent"@, Json::Bool(v.agent))]);
    assert(m.drop_first().drop_first() =~= seq![("agent"@, Json::Bool(v.agent))]);
    assert("media"@.len() != "inspector"@.len());
    assert("media"@[0] != "agent"@[0]);
    assert("inspector"@.len() != "agent"@.len());
    assert(member(m, "media"@) == Some(Json::Bool(v.media)));
    assert(member(m.drop_first(), "inspector"@) == Some(Json::Bool(v.inspector)));
    assert(member(m, "inspector"@) == Some(Json::Bool(v.inspector)));
    assert(member(m.drop_first().drop_first(), "agent"@) == Some(Json::Bool(v.agent)));
    assert(member(m.drop_first(), "agent"@) == Some(Json::Bool(v.agent)));
    assert(member(m, "agent"@) == Some(Json::Bool(v.agent)));
}

/// A non-blank trimmed path stored under `whisperModelPath`.
pub open spec fn whisper_in(root: Option<Json>) -> Option<Seq<char>> {
    match root {
        Some(r) => match as_str_spec(get_spec(r, WHISPER_MODEL_PATH_KEY@)) {
            Some(s) => if trim_spec(s).len() > 0 {
                Some(trim_spec(s))
            } else {
                None
            },
            None => None,
        },
        None => None,
    }
}

/// The whisper model path held in the preferences text: the trimmed
/// string under `whisperModelPath`; `None` when the text is not JSON or
/// the value is missing, not a string, or blank.
pub fn load_whisper_model_path_from(text: &str) -> (r: Option<String>)
    ensures
        match r {
            Some(p) => whisper_in(json_parse_of(text@)) == Some(p@),
            None => whisper_in(json_parse_of(text@)) is None,
        },
{
    let value = match parse_json(text) {
        Some(v) => v,
        None => return None,
    };
    let raw = match value.get(WHISPER_MODEL_PATH_KEY) {
        Some(x) => match x.as_str() {
            Some(s) => trim(s),
            None => return None,
        },
        None => return None,
    };
    if raw.unicode_len() == 0 {
        None
    } else {
        Some(String::from_str(raw))
    }
}

/// `key` set to the trimmed `raw`, or removed when `raw` is blank.
pub open spec fn with_text_pref(root: Seq<(Seq<char>, Json)>, key: Seq<char>, raw: Seq<char>) -> Seq<(Seq<char>, Json)> {
    if trim_spec(raw).len() == 0 {
        remove_member(root, key)
    } else {
        set_member(root, key, Json::Str(trim_spec(raw)))
    }
}

fn set_text_pref(root: &mut Vec<(String, JsonValue)>, key: &str, raw: &str)
    ensures
        members_of(final(root)@) == with_text_pref(members_of(old(root)@), key@, raw@),
{
    let trimmed = trim(raw);
    if trimmed.unicode_len() == 0 {
        remove_member_exec(root, key);
    } else {
        set_member_exec(root, key, JsonValue::Str(String::from_str(trimmed)));
    }
}

/// New preferences text after saving the whisper model path: a blank
/// input removes the key, anything else stores the trimmed path; every
/// other key is kept.
pub fn save_whisper_model_path_text(existing: Option<&str>, raw: &str) -> (r: String)
    ensures
        r@ == prefs_file_text(
            with_text_pref(prefs_root_spec(opt_text(existing)), WHISPER_MODEL_PATH_KEY@, raw@),
        ),
{
    let mut root = prefs_root_members(existing);
    set_text_pref(&mut root, WHISPER_MODEL_PATH_KEY, raw);
    prefs_text(root)
}

/// The generation endpoint (URL, token) in a parsed root: both present,
/// strings and non-blank, trimmed.
pub open spec fn endpoint_in(root: Option<Json>) -> Option<(Seq<char>, Seq<char>)> {
    match root {
        Some(r) => match (
            as_str_spec(get_spec(r, GENERATION_URL_KEY@)),
            as_str_spec(get_spec(r, GENERATION_TOKEN_KEY@)),
        ) {
            (Some(u), Some(t)) => if trim_spec(u).len() > 0 && trim_spec(t).len() > 0 {
                Some((trim_spec(u), trim_spec(t)))
            } else {
                None
            },
            _ => None,
        },
        None => None,
    }
}

/// The generation endpoint held in the preferences text; `None` unless
/// both URL and token are present and non-blank.
pub fn load_generation_endpoint_from(text: &str) -> (r: Option<(String, String)>)
    ensures
        match r {
            Some((u, t)) => endpoint_in(json_parse_of(text@)) == Some((u@, t@)),
            None => endpoint_in(json_parse_of(text@)) is None,
        },
{
    let value = match parse_json(text) {
        Some(v) => v,
        None => return None,
    };
    let url = match value.get(GENERATION_URL_KEY) {
        Some(x) => match x.as_str() {
            Some(s) => trim(s),
            None => return None,
        },
        None => return None,
    };
    let token = match value.get(GENERATION_TOKEN_KEY) {
        Some(x) => match x.as_str() {
            Some(s) => trim(s),
            None => return None,
        },
        None => return None,
    };
    if url.unicode_len() > 0 && token.unicode_len() > 0 {
        Some((String::from_str(url), String::from_str(token)))
    } else {
        None
    }
}

/// New preferences text after saving the generation endpoint: each blank
/// field removes its key, otherwise the trimmed value is stored.
pub fn save_generation_endpoint_text(existing: Option<&str>, url: &str, token: &str) -> (r: String)
    ensures
        r@ == prefs_file_text(
            with_text_pref(
                with_text_pref(prefs_root_spec(opt_text(existing)), GENERATION_URL_KEY@, url@),
                GENERATION_TOKEN_KEY@,
                token@,
            ),
        ),
{
    let mut root = prefs_root_members(existing);
    set_text_pref(&mut root, GENERATION_URL_KEY, url);
    set_text_pref(&mut root, GENERATION_TOKEN_KEY, token);
    prefs_text(root)
}

/// Saving a text preference and reading it back from the saved tree
/// gives the trimmed text, or nothing when it was blank; other keys keep
/// their values.
pub proof fn lemma_text_pref_save_then_read(root: Seq<(Seq<char>, Json)>, key: Seq<char>, raw: Seq<char>, other: Seq<char>)
    requires
        unique_keys(root),
    ensures
        get_spec(Json::Object(with_text_pref(root, key, raw)), key) == if trim_spec(raw).len() > 0 {
            Some(Json::Str(trim_spec(raw)))
        } else {
            None
        },
        other != key ==> get_spec(Json::Object(with_text_pref(root, key, raw)), other) == get_spec(Json::Object(root), other),
        unique_keys(with_text_pref(root, key, raw)),
{
    if trim_spec(raw).len() == 0 {
        lemma_remove_member_get(root, key, other);
        lemma_remove_member_unique(root, key);
    } else {
        lemma_set_member_get(root, key, Json::Str(trim_spec(raw)), other);
        lemma_set_member_unique(root, key, Json::Str(trim_spec(raw)));
    }
}

/// The whisper model path reads back as saved: trimmed, or absent when
/// the input was blank.
pub proof fn lemma_whisper_save_then_load(root: Seq<(Seq<char>, Json)>, raw: Seq<char>)
    requires
        unique_keys(root),
    ensures
        whisper_in(Some(Json::Object(with_text_pref(root, WHISPER_MODEL_PATH_KEY@, raw)))) == if trim_spec(raw).len() > 0 {
            Some(trim_spec(raw))
        } else {
            None
        },
{
    lemma_text_pref_save_then_read(root, WHISPER_MODEL_PATH_KEY@, raw, WHISPER_MODEL_PATH_KEY@);
    lemma_trim_idempotent(raw);
}

/// The generation endpoint reads back as saved when both fields are
/// non-blank, and reads back as absent when either is blank.
pub proof fn lemma_endpoint_save_then_load(root: Seq<(Seq<char>, Json)>, url: Seq<char>, token: Seq<char>)
    requires
        unique_keys(root),
    ensures
        endpoint_in(Some(Json::Object(with_text_pref(with_text_pref(root, GENERATION_URL_KEY@, url), GENERATION_TOKEN_KEY@, token))))
            == if trim_spec(url).len() > 0 && trim_spec(token).len() > 0 {
            Some((trim_spec(url), trim_spec(token)))
        } else {
            None
        },
{
    reveal_strlit("generationEndpointUrl");
    reveal_strlit("generationEndpointToken");
    assert(GENERATION_URL_KEY@.len() != GENERATION_TOKEN_KEY@.len());
    lemma_text_pref_save_then_read(root, GENERATION_URL_KEY@, url, GENERATION_TOKEN_KEY@);
    let r1 = with_text_pref(root, GENERATION_URL_KEY@, url);
    lemma_text_pref_save_then_read(r1, GENERATION_TOKEN_KEY@, token, GENERATION_URL_KEY@);
    lemma_trim_idempotent(url);
    lemma_trim_idempotent(token);
}

} // verus!
