use app_shell::json::JsonValue;
use app_shell::library_actions::{
    asset_menu_entries, create_folder_args, delete_folder_args, delete_media_args, delete_targets,
    folder_menu_entries, handle_asset_click, keep_if_present, key_down_action, ordered_visible_ids,
    prune_library_state, refresh_after_project_change, rename_folder_args, rename_media_args, EscapeAction, LibraryMenuEntry,
};
use app_shell::media_library::{LibraryEntry, LibraryFolder, LibraryManifest, LibraryState, LibraryViewMode};
use app_shell::media_panel_model::ClipType;

fn entry_ids(entries: &[LibraryMenuEntry]) -> Vec<&'static str> {
    entries
        .iter()
        .filter_map(|e| match e {
            LibraryMenuEntry::Item { id, .. } => Some(*id),
            LibraryMenuEntry::Separator => None,
        })
        .collect()
}

#[test]
fn asset_menu_lists_rename_reveal_delete() {
    assert_eq!(entry_ids(&asset_menu_entries(true)), vec!["rename", "reveal", "delete"]);
}

#[test]
fn asset_menu_drops_reveal_without_local_file() {
    assert_eq!(entry_ids(&asset_menu_entries(false)), vec!["rename", "delete"]);
}

#[test]
fn folder_menu_lists_open_rename_delete() {
    assert_eq!(entry_ids(&folder_menu_entries()), vec!["open", "rename", "delete"]);
}

#[test]
fn asset_delete_is_destructive_and_separated() {
    let entries = asset_menu_entries(true);
    assert_eq!(entries[2], LibraryMenuEntry::Separator);
    assert_eq!(entries[3], LibraryMenuEntry::Item { id: "delete", label: "Delete", destructive: true });
    assert_eq!(entries[1], LibraryMenuEntry::Item { id: "reveal", label: "Reveal in File Manager", destructive: false });
}

#[test]
fn asset_delete_is_plain_destructive_not_confirm() {
    // The library menu has no arm-then-confirm step: delete is a plain
    // destructive item.
    let mut seen = false;
    for entry in asset_menu_entries(true) {
        if let LibraryMenuEntry::Item { id, destructive, .. } = entry {
            if id == "delete" {
                assert!(destructive);
                seen = true;
            }
        }
    }
    assert!(seen);
}

fn entry(id: &str, name: &str, folder: Option<&str>) -> LibraryEntry {
    LibraryEntry {
        id: id.into(),
        name: name.into(),
        kind: ClipType::Video,
        folder_id: folder.map(|f| f.to_string()),
        generated: false,
        duration_rank: 1,
    }
}

fn manifest() -> LibraryManifest {
    LibraryManifest {
        entries: vec![entry("r1", "root", None), entry("f1a", "in f1", Some("f1")), entry("r2", "root 2", None)],
        folders: vec![LibraryFolder { id: "f1".into(), name: "Shoot".into(), parent_folder_id: None }],
    }
}

#[test]
fn ordered_ids_follow_sections_in_grouped_view() {
    let m = manifest();
    let mut s = LibraryState::default();
    assert_eq!(ordered_visible_ids(&m, &s), ["r1", "r2"], "folders view: root bucket");
    s.view_mode = LibraryViewMode::Grouped;
    assert_eq!(ordered_visible_ids(&m, &s), ["r1", "r2", "f1a"], "root section, then the folder");
    s.view_mode = LibraryViewMode::Flat;
    assert_eq!(ordered_visible_ids(&m, &s), ["r1", "f1a", "r2"]);
}

#[test]
fn click_modifiers_pick_the_selection_rule() {
    let m = manifest();
    let mut s = LibraryState::default();
    s.view_mode = LibraryViewMode::Grouped;
    handle_asset_click(&mut s, &m, "r1", false, false);
    assert_eq!(s.selection, ["r1"]);
    handle_asset_click(&mut s, &m, "f1a", true, false);
    assert_eq!(s.selection, ["r1", "r2", "f1a"], "range runs over the grouped display order");
    handle_asset_click(&mut s, &m, "r2", false, true);
    assert_eq!(s.selection, ["r1", "f1a"]);
    assert_eq!(s.selection_anchor.as_deref(), Some("r2"));
}

#[test]
fn escape_cancels_in_order() {
    assert_eq!(key_down_action("a", true, true, true, true, true), EscapeAction::Ignore);
    assert_eq!(key_down_action("escape", true, true, false, false, true), EscapeAction::CloseContextMenu);
    assert_eq!(key_down_action("escape", false, true, true, true, true), EscapeAction::CancelFolderRename);
    assert_eq!(key_down_action("escape", false, false, true, true, true), EscapeAction::CancelAssetRename);
    assert_eq!(key_down_action("escape", false, false, false, true, true), EscapeAction::CloseToolbarMenu);
    assert_eq!(key_down_action("escape", false, false, false, false, true), EscapeAction::ClearSelection);
    assert_eq!(key_down_action("escape", false, false, false, false, false), EscapeAction::Ignore);
}

#[test]
fn menu_delete_targets_the_selection_it_belongs_to() {
    let sel = vec!["a".to_string(), "b".to_string()];
    assert_eq!(delete_targets(&sel, "b"), ["a", "b"]);
    assert_eq!(delete_targets(&sel, "c"), ["c"]);
}

fn obj(members: Vec<(&str, &str)>) -> JsonValue {
    JsonValue::Object(members.into_iter().map(|(k, v)| (k.to_string(), JsonValue::Str(v.to_string()))).collect())
}

#[test]
fn tool_arguments() {
    assert_eq!(delete_media_args("m1"), obj(vec![("mediaId", "m1")]));
    assert_eq!(delete_folder_args("f1"), obj(vec![("folderId", "f1")]));
    assert_eq!(create_folder_args(None), obj(vec![("name", "New Folder")]));
    assert_eq!(create_folder_args(Some("f1")), obj(vec![("name", "New Folder"), ("parentFolderId", "f1")]));
    assert_eq!(rename_media_args("m1", "  Intro  "), Some(obj(vec![("mediaId", "m1"), ("name", "Intro")])));
    assert_eq!(rename_folder_args("f1", "   "), None, "a blank name cancels");
    assert_eq!(rename_folder_args("f1", "B"), Some(obj(vec![("folderId", "f1"), ("name", "B")])));
}

fn ids(v: &[&str]) -> Vec<String> {
    v.iter().map(|s| s.to_string()).collect()
}

#[test]
fn pruning_drops_gone_folder_and_selection_entries() {
    let mut st = LibraryState::default();
    st.current_folder = Some("f9".into());
    st.selection = ids(&["a", "gone", "b"]);
    prune_library_state(&mut st, &ids(&["a", "b", "c"]), &ids(&["f1"]));
    assert_eq!(st.current_folder, None);
    assert_eq!(st.selection, ids(&["a", "b"]));
    st.current_folder = Some("f1".into());
    prune_library_state(&mut st, &ids(&["a", "b", "c"]), &ids(&["f1"]));
    assert_eq!(st.current_folder.as_deref(), Some("f1"), "existing folder kept");
    assert_eq!(st.selection, ids(&["a", "b"]), "pruning twice changes nothing");
}

#[test]
fn keep_if_present_checks_membership() {
    assert_eq!(keep_if_present(Some("x".into()), &ids(&["x"])), Some("x".to_string()));
    assert_eq!(keep_if_present(Some("y".into()), &ids(&["x"])), None);
    assert_eq!(keep_if_present(None, &ids(&["x"])), None);
}

#[test]
fn project_change_refreshes_panel_references() {
    let mut language = None;
    let mut track = Some("t-gone".to_string());
    let mut generating = true;
    let mut lib = LibraryState::default();
    lib.selection = ids(&["a", "b"]);
    refresh_after_project_change(
        &mut language,
        false,
        &mut track,
        &mut generating,
        &mut lib,
        Some("en".into()),
        &ids(&["t1"]),
        &[Some("none".to_string())],
        &ids(&["b"]),
        &[],
    );
    assert_eq!(language.as_deref(), Some("en"));
    assert_eq!(track, None);
    assert!(!generating);
    assert_eq!(lib.selection, ids(&["b"]));
}
