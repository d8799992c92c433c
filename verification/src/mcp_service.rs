//! MCP server lifecycle decisions and the enabled preference. The shell
//! spawns and stops the server; this module decides when, and what the
//! reported status is.
use crate::json::{
    as_bool_spec, get_spec, json_parse_of, json_pretty_of, lemma_set_member_get, members_of, parse_json,
    render_json_pretty, set_member, set_member_exec, Json, JsonValue,
};
use crate::pane_prefs::{opt_text, prefs_root_members, prefs_root_spec};
use vstd::prelude::*;

verus! {

/// Preference key of the MCP server switch.
pub const MCP_ENABLED_KEY: &'static str = "mcpServerEnabled";
/// The server runs when the preference is absent.
pub const MCP_DEFAULT_ENABLED: bool = true;
/// Port the server binds by default.
pub const MCP_DEFAULT_PORT: u16 = 19789;

/// Whether the preferences text enables the server: the boolean under
/// `mcpServerEnabled`, else the default (missing file, text that is not
/// JSON, or a missing or non-boolean value).
pub open spec fn enabled_in(existing: Option<Seq<char>>) -> bool {
    match existing {
        Some(t) => match json_parse_of(t) {
            Some(v) => match as_bool_spec(get_spec(v, MCP_ENABLED_KEY@)) {
                Some(b) => b,
                None => MCP_DEFAULT_ENABLED,
            },
            None => MCP_DEFAULT_ENABLED,
        },
        None => MCP_DEFAULT_ENABLED,
    }
}

pub fn read_enabled_preference_from(existing: Option<&str>) -> (b: bool)
    ensures
        b == enabled_in(opt_text(existing)),
{
    let text = match existing {
        Some(t) => t,
        None => return MCP_DEFAULT_ENABLED,
    };
    let value = match parse_json(text) {
        Some(v) => v,
        None => return MCP_DEFAULT_ENABLED,
    };
    match value.get(MCP_ENABLED_KEY) {
        Some(x) => match x.as_bool() {
            Some(b) => b,
            None => MCP_DEFAULT_ENABLED,
        },
        None => MCP_DEFAULT_ENABLED,
    }
}

/// The preferences root after storing the switch; other keys are kept.
pub open spec fn with_enabled(root: Seq<(Seq<char>, Json)>, enabled: bool) -> Seq<(Seq<char>, Json)> {
    set_member(root, MCP_ENABLED_KEY@, Json::Bool(enabled))
}

/// New preferences text (pretty JSON) with the switch stored.
pub fn write_enabled_preference_text(existing: Option<&str>, enabled: bool) -> (r: String)
    ensures
        r@ == json_pretty_of(Json::Object(with_enabled(prefs_root_spec(opt_text(existing)), enabled))),
{
    let mut root = prefs_root_members(existing);
    set_member_exec(&mut root, MCP_ENABLED_KEY, JsonValue::Bool(enabled));
    render_json_pretty(&JsonValue::Object(root))
}

/// The stored switch reads back as written, and other keys keep their
/// values.
pub proof fn lemma_enabled_write_then_read(root: Seq<(Seq<char>, Json)>, enabled: bool, other: Seq<char>)
    ensures
        as_bool_spec(get_spec(Json::Object(with_enabled(root, enabled)), MCP_ENABLED_KEY@)) == Some(enabled),
        other != MCP_ENABLED_KEY@ ==> get_spec(Json::Object(with_enabled(root, enabled)), other) == get_spec(
            Json::Object(root),
            other,
        ),
{
    lemma_set_member_get(root, MCP_ENABLED_KEY@, Json::Bool(enabled), other);
}

/// Reported state of the MCP server.
#[derive(Debug, Clone, PartialEq)]
pub enum McpServerStatus {
    Stopped,
    Starting,
    Running { port: u16 },
    Failed(String),
}

/// Lifecycle bookkeeping of the one MCP server of the process.
#[derive(Debug)]
pub struct McpLifecycle {
    /// A server handle is held (the server was spawned and not stopped).
    pub has_handle: bool,
    pub status: McpServerStatus,
    /// Port requested when starting.
    pub port: u16,
}

impl McpLifecycle {
    pub fn new(port: u16) -> (l: Self)
        ensures
            !l.has_handle,
            l.status == McpServerStatus::Stopped,
            l.port == port,
    {
        McpLifecycle { has_handle: false, status: McpServerStatus::Stopped, port }
    }

    /// Start request: `Some(port)` when the server must be spawned on that
    /// port (status becomes `Starting`); `None` when one already runs.
    pub fn begin_start(&mut self) -> (spawn: Option<u16>)
        ensures
            old(self).has_handle ==> spawn is None && final(self).status == old(self).status,
            !old(self).has_handle ==> spawn == Some(old(self).port) && final(self).status == McpServerStatus::Starting,
            final(self).has_handle == old(self).has_handle,
            final(self).port == old(self).port,
    {
        if self.has_handle {
            return None;
        }
        self.status = McpServerStatus::Starting;
        Some(self.port)
    }

    /// Outcome of a spawn: the bound port, or the bind failure's reason.
    pub fn finish_start(&mut self, outcome: Result<u16, String>)
        ensures
            match outcome {
                Ok(p) => final(self).has_handle && final(self).status == McpServerStatus::Running { port: p },
                Err(reason) => !final(self).has_handle && final(self).status == McpServerStatus::Failed(reason),
            },
            final(self).port == old(self).port,
    {
        match outcome {
            Ok(p) => {
                self.status = McpServerStatus::Running { port: p };
                self.has_handle = true;
            },
            Err(reason) => {
                self.status = McpServerStatus::Failed(reason);
                self.has_handle = false;
            },
        }
    }

    /// Stop request: `true` when a held server must be stopped. Idempotent.
    pub fn stop(&mut self) -> (stop_handle: bool)
        ensures
            stop_handle == old(self).has_handle,
            !final(self).has_handle,
            final(self).status == McpServerStatus::Stopped,
            final(self).port == old(self).port,
    {
        let had = self.has_handle;
        self.has_handle = false;
        self.status = McpServerStatus::Stopped;
        had
    }

    /// Boot path: start when the preference allows it, else report stopped.
    pub fn start_if_enabled(&mut self, enabled: bool) -> (spawn: Option<u16>)
        ensures
            enabled && !old(self).has_handle ==> spawn == Some(old(self).port) && final(self).status
                == McpServerStatus::Starting,
            enabled && old(self).has_handle ==> spawn is None && final(self).status == old(self).status,
            !enabled ==> spawn is None && final(self).status == McpServerStatus::Stopped,
            final(self).has_handle == old(self).has_handle,
            final(self).port == old(self).port,
    {
        if enabled {
            self.begin_start()
        } else {
            self.status = McpServerStatus::Stopped;
            None
        }
    }
}

} // verus!
