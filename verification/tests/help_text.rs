use app_shell::help_text::{
    claude_desktop_json_config, codex_command, cursor_json_config, shortcut_groups, MCP_SERVER_ALIAS,
    SHORTCUT_LEFT_COLUMN_GROUPS,
};

#[test]
fn shortcut_groups_mirror_swift_titles_and_split() {
    let groups = shortcut_groups();
    let titles: Vec<&str> = groups.iter().map(|(t, _)| *t).collect();
    assert_eq!(titles, ["Playback", "Tools", "Editing", "Timeline", "File", "Edit", "View"]);
    assert_eq!(SHORTCUT_LEFT_COLUMN_GROUPS, 4);
    assert_eq!(groups.len() - SHORTCUT_LEFT_COLUMN_GROUPS, 3);
}

#[test]
fn shortcut_rows_keep_their_keys() {
    let groups = shortcut_groups();
    assert_eq!(groups[0].1[0], ("Space", "Play / Pause"));
    assert_eq!(groups[4].1[5], ("Cmd + Shift + I", "Import Timeline (XML/FCPXML)"));
    assert_eq!(groups[6].1.len(), 4);
}

#[test]
fn codex_command_embeds_alias_and_endpoint() {
    let endpoint = "http://127.0.0.1:19789/mcp";
    assert_eq!(MCP_SERVER_ALIAS, "fronda");
    let codex = codex_command(endpoint);
    assert_eq!(codex, "codex mcp add fronda --url http://127.0.0.1:19789/mcp");
}

#[test]
fn agent_json_configs_are_valid_json() {
    let endpoint = "http://127.0.0.1:19789/mcp";
    let cursor: serde_json::Value =
        serde_json::from_str(&cursor_json_config(endpoint)).expect("cursor config parses");
    assert_eq!(cursor.pointer("/mcpServers/fronda/url").and_then(|v| v.as_str()), Some(endpoint));
    assert_eq!(cursor.pointer("/mcpServers/fronda/type").and_then(|v| v.as_str()), Some("http"));

    let desktop: serde_json::Value =
        serde_json::from_str(&claude_desktop_json_config(endpoint)).expect("desktop config parses");
    assert_eq!(desktop.pointer("/mcpServers/fronda/command").and_then(|v| v.as_str()), Some("npx"));
    let args = desktop.pointer("/mcpServers/fronda/args").and_then(|v| v.as_array()).expect("args array");
    assert!(args.iter().any(|a| a.as_str() == Some("mcp-remote")));
    assert!(args.iter().any(|a| a.as_str() == Some(endpoint)));
}
