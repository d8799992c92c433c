//! Text of the help window: the command and configuration file that
//! connect coding agents to the editor's MCP server, and the keyboard
//! shortcut reference.
use vstd::prelude::*;

verus! {

/// Name under which the editor's MCP server is registered with agents.
pub const MCP_SERVER_ALIAS: &'static str = "fronda";

/// The Codex command that registers the server at `endpoint`.
pub fn codex_command(endpoint: &str) -> (s: String)
    ensures
        s@ == "codex mcp add "@ + MCP_SERVER_ALIAS@ + " --url "@ + endpoint@,
{
    let mut s = String::from_str("codex mcp add ");
    s.append(MCP_SERVER_ALIAS);
    s.append(" --url ");
    s.append(endpoint);
    s
}

/// Cursor's `mcp.json` entry for the server at `endpoint` (HTTP transport).
pub fn cursor_json_config(endpoint: &str) -> (s: String)
    ensures
        s@ == "{\n  \"mcpServers\": {\n    \""@ + MCP_SERVER_ALIAS@
            + "\": {\n      \"type\": \"http\",\n      \"url\": \""@ + endpoint@ + "\"\n    }\n  }\n}"@,
{
    let mut s = String::from_str("{\n  \"mcpServers\": {\n    \"");
    s.append(MCP_SERVER_ALIAS);
    s.append("\": {\n      \"type\": \"http\",\n      \"url\": \"");
    s.append(endpoint);
    s.append("\"\n    }\n  }\n}");
    s
}

/// The desktop assistant's configuration entry for the server at
/// `endpoint`: it launches the `mcp-remote` bridge through `npx` over
/// HTTP.
pub fn claude_desktop_json_config(endpoint: &str) -> (s: String)
    ensures
        s@ == "{\n  \"mcpServers\": {\n    \""@ + MCP_SERVER_ALIAS@
            + "\": {\n      \"command\": \"npx\",\n      \"args\": [\n        \"-y\",\n        \"mcp-remote\",\n        \""@
            + endpoint@ + "\",\n        \"--allow-http\",\n        \"--transport\",\n        \"http-only\"\n      ]\n    }\n  }\n}"@,
{
    let mut s = String::from_str("{\n  \"mcpServers\": {\n    \"");
    s.append(MCP_SERVER_ALIAS);
    s.append("\": {\n      \"command\": \"npx\",\n      \"args\": [\n        \"-y\",\n        \"mcp-remote\",\n        \"");
    s.append(endpoint);
    s.append("\",\n        \"--allow-http\",\n        \"--transport\",\n        \"http-only\"\n      ]\n    }\n  }\n}");
    s
}

/// Shortcut groups in the left column; the rest go to the right.
pub const SHORTCUT_LEFT_COLUMN_GROUPS: usize = 4;

/// The shortcut reference: group titles, each with (keys, action) rows.
pub open spec fn shortcut_groups_spec() -> Seq<(Seq<char>, Seq<(Seq<char>, Seq<char>)>)> {
    seq![
        ("Playback"@, seq![("Space"@, "Play / Pause"@), ("←"@, "Step Backward"@), ("→"@, "Step Forward"@), ("Shift + ←"@, "Skip Backward"@), ("Shift + →"@, "Skip Forward"@)]),
        ("Tools"@, seq![("V"@, "Selection Tool"@), ("C"@, "Razor Tool"@)]),
        ("Editing"@, seq![("Cmd + K"@, "Split at Playhead"@), ("[ or Q"@, "Trim Start to Playhead"@), ("] or W"@, "Trim End to Playhead"@), ("Backspace"@, "Delete"@), ("Shift + Backspace"@, "Ripple Delete"@), ("Opt + Drag"@, "Duplicate Clip"@)]),
        ("Timeline"@, seq![("Shift + Drag Ruler"@, "Select Range"@), ("Drag Range Edge"@, "Adjust Range"@), ("I"@, "Mark Range Start"@), ("O"@, "Mark Range End"@), ("Opt + Scroll"@, "Zoom to Cursor"@), ("Pinch"@, "Zoom to Cursor"@), ("Cmd + Scroll"@, "Scroll Horizontally"@)]),
        ("File"@, seq![("Cmd + N"@, "New"@), ("Cmd + O"@, "Open"@), ("Cmd + S"@, "Save"@), ("Cmd + Shift + S"@, "Save As"@), ("Cmd + I"@, "Import Media"@), ("Cmd + Shift + I"@, "Import Timeline (XML/FCPXML)"@), ("Cmd + E"@, "Export"@)]),
        ("Edit"@, seq![("Cmd + Z"@, "Undo"@), ("Cmd + Shift + Z"@, "Redo"@), ("Cmd + X"@, "Cut"@), ("Cmd + C"@, "Copy"@), ("Cmd + V"@, "Paste"@), ("Cmd + A"@, "Select All"@)]),
        ("View"@, seq![("Cmd + F"@, "Full Screen"@), ("`"@, "Maximize Focused Panel"@), ("Cmd + Scroll"@, "Zoom Preview to Cursor"@), ("Esc"@, "Deselect & Reset Tool"@)]),
    ]
}

pub open spec fn rows_view(rows: Seq<(&str, &str)>) -> Seq<(Seq<char>, Seq<char>)> {
    rows.map_values(|r: (&str, &str)| (r.0@, r.1@))
}

pub open spec fn groups_view(g: Seq<(&str, Vec<(&str, &str)>)>) -> Seq<(Seq<char>, Seq<(Seq<char>, Seq<char>)>)> {
    g.map_values(|x: (&str, Vec<(&str, &str)>)| (x.0@, rows_view(x.1@)))
}

/// The shortcut reference, group by group.
pub fn shortcut_groups() -> (r: Vec<(&'static str, Vec<(&'static str, &'static str)>)>)
    ensures
        groups_view(r@) == shortcut_groups_spec(),
{
    let mut groups: Vec<(&'static str, Vec<(&'static str, &'static str)>)> = Vec::new();
    let mut rows0: Vec<(&'static str, &'static str)> = Vec::new();
    rows0.push(("Space", "Play / Pause"));
    rows0.push(("←", "Step Backward"));
    rows0.push(("→", "Step Forward"));
    rows0.push(("Shift + ←", "Skip Backward"));
    rows0.push(("Shift + →", "Skip Forward"));
    assert(rows_view(rows0@) =~= shortcut_groups_spec()[0].1);
    groups.push(("Playback", rows0));
    let mut rows1: Vec<(&'static str, &'static str)> = Vec::new();
    rows1.push(("V", "Selection Tool"));
    rows1.push(("C", "Razor Tool"));
    assert(rows_view(rows1@) =~= shortcut_groups_spec()[1].1);
    groups.push(("Tools", rows1));
    let mut rows2: Vec<(&'static str, &'static str)> = Vec::new();
    rows2.push(("Cmd + K", "Split at Playhead"));
    rows2.push(("[ or Q", "Trim Start to Playhead"));
    rows2.push(("] or W", "Trim End to Playhead"));
    rows2.push(("Backspace", "Delete"));
    rows2.push(("Shift + Backspace", "Ripple Delete"));
    rows2.push(("Opt + Drag", "Duplicate Clip"));
    assert(rows_view(rows2@) =~= shortcut_groups_spec()[2].1);
    groups.push(("Editing", rows2));
    let mut rows3: Vec<(&'static str, &'static str)> = Vec::new();
    rows3.push(("Shift + Drag Ruler", "Select Range"));
    rows3.push(("Drag Range Edge", "Adjust Range"));
    rows3.push(("I", "Mark Range Start"));
    rows3.push(("O", "Mark Range End"));
    rows3.push(("Opt + Scroll", "Zoom to Cursor"));
    rows3.push(("Pinch", "Zoom to Cursor"));
    rows3.push(("Cmd + Scroll", "Scroll Horizontally"));
    assert(rows_view(rows3@) =~= shortcut_groups_spec()[3].1);
    groups.push(("Timeline", rows3));
    let mut rows4: Vec<(&'static str, &'static str)> = Vec::new();
    rows4.push(("Cmd + N", "New"));
    rows4.push(("Cmd + O", "Open"));
    rows4.push(("Cmd + S", "Save"));
    rows4.push(("Cmd + Shift + S", "Save As"));
    rows4.push(("Cmd + I", "Import Media"));
    rows4.push(("Cmd + Shift + I", "Import Timeline (XML/FCPXML)"));
    rows4.push(("Cmd + E", "Export"));
    assert(rows_view(rows4@) =~= shortcut_groups_spec()[4].1);
    groups.push(("File", rows4));
    let mut rows5: Vec<(&'static str, &'static str)> = Vec::new();
    rows5.push(("Cmd + Z", "Undo"));
    rows5.push(("Cmd + Shift + Z", "Redo"));
    rows5.push(("Cmd + X", "Cut"));
    rows5.push(("Cmd + C", "Copy"));
    rows5.push(("Cmd + V", "Paste"));
    rows5.push(("Cmd + A", "Select All"));
    assert(rows_view(rows5@) =~= shortcut_groups_spec()[5].1);
    groups.push(("Edit", rows5));
    let mut rows6: Vec<(&'static str, &'static str)> = Vec::new();
    rows6.push(("Cmd + F", "Full Screen"));
    rows6.push(("`", "Maximize Focused Panel"));
    rows6.push(("Cmd + Scroll", "Zoom Preview to Cursor"));
    rows6.push(("Esc", "Deselect & Reset Tool"));
    assert(rows_view(rows6@) =~= shortcut_groups_spec()[6].1);
    groups.push(("View", rows6));
    assert(groups_view(groups@) =~= shortcut_groups_spec());
    groups
}

} // verus!
