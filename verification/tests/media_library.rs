use app_shell::media_library::{
    folder_child_count, folder_path, grouped_sections, visible_entries, visible_entries_in,
    visible_folders, LibraryEntry, LibraryFolder, LibraryManifest, LibrarySortKey, LibraryState,
    LibraryViewMode,
};
use app_shell::media_panel_model::ClipType;

fn entry(id: &str, name: &str, kind: ClipType, secs: u64, folder: Option<&str>, generated: bool) -> LibraryEntry {
    LibraryEntry {
        id: id.into(),
        name: name.into(),
        kind,
        folder_id: folder.map(|f| f.to_string()),
        generated,
        duration_rank: secs,
    }
}

fn folder(id: &str, name: &str, parent: Option<&str>) -> LibraryFolder {
    LibraryFolder { id: id.into(), name: name.into(), parent_folder_id: parent.map(|p| p.to_string()) }
}

/// Library fixture: root has A-roll.mp4 + music.wav; folder f1 "Shoot"
/// holds B-roll.mp4 + Sunset.png (generated); f2 "Nested" is inside f1
/// and holds take.mov.
fn manifest() -> LibraryManifest {
    LibraryManifest {
        entries: vec![
            entry("m1", "A-roll.mp4", ClipType::Video, 5, None, false),
            entry("m2", "music.wav", ClipType::Audio, 30, None, false),
            entry("m3", "B-roll.mp4", ClipType::Video, 9, Some("f1"), false),
            entry("m4", "Sunset.png", ClipType::Image, 0, Some("f1"), true),
            entry("m5", "take.mov", ClipType::Video, 2, Some("f2"), false),
        ],
        folders: vec![folder("f1", "Shoot", None), folder("f2", "Nested", Some("f1"))],
    }
}

fn ids(entries: &[&LibraryEntry]) -> Vec<String> {
    entries.iter().map(|e| e.id.clone()).collect()
}

fn state() -> LibraryState {
    LibraryState::default()
}

#[test]
fn search_filters_by_name_substring_and_clear_restores() {
    let m = manifest();
    let mut s = state();
    s.search_query = "roll".into();
    assert_eq!(ids(&visible_entries(&m, &s)), ["m1", "m3"]);
    s.search_query.clear();
    assert_eq!(ids(&visible_entries(&m, &s)), ["m1", "m2"]);
}

#[test]
fn search_is_case_insensitive_and_trims() {
    let m = manifest();
    let mut s = state();
    s.search_query = "  B-ROLL  ".into();
    assert_eq!(ids(&visible_entries(&m, &s)), ["m3"]);
    s.search_query = "   ".into();
    assert!(!s.search_active(), "whitespace-only query is not a search");
    assert_eq!(s.trimmed_query(), "");
}

#[test]
fn search_spans_all_folders_even_inside_one() {
    let m = manifest();
    let mut s = state();
    s.current_folder = Some("f1".into());
    s.search_query = "a".into();
    let got = ids(&visible_entries(&m, &s));
    assert!(got.contains(&"m1".to_string()), "root asset found from inside f1");
    assert!(got.contains(&"m5".to_string()), "nested asset found too");
}

#[test]
fn type_filter_restricts_and_toggle_roundtrips() {
    let m = manifest();
    let mut s = state();
    s.view_mode = LibraryViewMode::Flat;
    s.toggle_type_filter(ClipType::Audio);
    assert_eq!(ids(&visible_entries(&m, &s)), ["m2"]);
    s.toggle_type_filter(ClipType::Video);
    assert_eq!(ids(&visible_entries(&m, &s)), ["m1", "m2", "m3", "m5"]);
    s.toggle_type_filter(ClipType::Audio);
    s.toggle_type_filter(ClipType::Video);
    assert!(!s.has_active_filters(), "toggling off clears the filter");
    assert_eq!(visible_entries(&m, &s).len(), 5);
}

#[test]
fn ai_filter_keeps_generated_only() {
    let m = manifest();
    let mut s = state();
    s.view_mode = LibraryViewMode::Flat;
    s.filter_ai = true;
    assert_eq!(ids(&visible_entries(&m, &s)), ["m4"]);
    assert!(s.has_active_filters());
}

#[test]
fn filters_and_search_combine_with_and() {
    let m = manifest();
    let mut s = state();
    s.view_mode = LibraryViewMode::Flat;
    s.type_filter = vec![ClipType::Video];
    s.search_query = "roll".into();
    assert_eq!(ids(&visible_entries(&m, &s)), ["m1", "m3"]);
    s.filter_ai = true;
    assert!(visible_entries(&m, &s).is_empty());
}

#[test]
fn clear_filters_resets_types_and_ai() {
    let mut s = state();
    s.type_filter = vec![ClipType::Audio];
    s.filter_ai = true;
    s.clear_filters();
    assert!(!s.has_active_filters());
    assert!(s.type_filter.is_empty());
    assert!(!s.filter_ai);
}

#[test]
fn folders_mode_scopes_to_current_folder() {
    let m = manifest();
    let mut s = state();
    assert_eq!(ids(&visible_entries(&m, &s)), ["m1", "m2"], "root bucket");
    s.current_folder = Some("f1".into());
    assert_eq!(ids(&visible_entries(&m, &s)), ["m3", "m4"]);
    s.current_folder = Some("f2".into());
    assert_eq!(ids(&visible_entries(&m, &s)), ["m5"]);
}

#[test]
fn flat_mode_spans_library_and_hides_folders() {
    let m = manifest();
    let mut s = state();
    s.view_mode = LibraryViewMode::Flat;
    s.current_folder = Some("f1".into());
    assert_eq!(visible_entries(&m, &s).len(), 5, "folder scope ignored");
    assert!(visible_folders(&m, &s).is_empty(), "no folder tiles in flat");
}

#[test]
fn visible_folders_lists_current_subfolders_only() {
    let m = manifest();
    let mut s = state();
    let root: Vec<&str> = visible_folders(&m, &s).iter().map(|f| f.id.as_str()).collect();
    assert_eq!(root, ["f1"]);
    s.current_folder = Some("f1".into());
    let inner: Vec<&str> = visible_folders(&m, &s).iter().map(|f| f.id.as_str()).collect();
    assert_eq!(inner, ["f2"]);
    s.search_query = "Shoot".into();
    assert!(visible_folders(&m, &s).is_empty(), "search view has no folder tiles");
}

#[test]
fn sort_name_is_case_insensitive() {
    let m = manifest();
    let mut s = state();
    s.view_mode = LibraryViewMode::Flat;
    s.sort_key = LibrarySortKey::Name;
    assert_eq!(ids(&visible_entries(&m, &s)), ["m1", "m3", "m2", "m4", "m5"]);
}

#[test]
fn sort_date_added_keeps_manifest_order() {
    let m = manifest();
    let mut s = state();
    s.view_mode = LibraryViewMode::Flat;
    s.sort_key = LibrarySortKey::DateAdded;
    assert_eq!(ids(&visible_entries(&m, &s)), ["m1", "m2", "m3", "m4", "m5"]);
}

#[test]
fn sort_duration_is_descending() {
    let m = manifest();
    let mut s = state();
    s.view_mode = LibraryViewMode::Flat;
    s.sort_key = LibrarySortKey::Duration;
    assert_eq!(ids(&visible_entries(&m, &s)), ["m2", "m3", "m1", "m5", "m4"]);
}

#[test]
fn sort_type_groups_by_kind() {
    let m = manifest();
    let mut s = state();
    s.view_mode = LibraryViewMode::Flat;
    s.sort_key = LibrarySortKey::Type;
    assert_eq!(ids(&visible_entries(&m, &s)), ["m2", "m4", "m1", "m3", "m5"]);
}

#[test]
fn sort_is_stable_for_ties() {
    let m = LibraryManifest {
        entries: vec![
            entry("x1", "same", ClipType::Video, 3, None, false),
            entry("x2", "Same", ClipType::Video, 3, None, false),
            entry("x3", "same", ClipType::Video, 3, None, false),
        ],
        folders: vec![],
    };
    let mut s = state();
    for key in LibrarySortKey::all() {
        s.sort_key = key;
        assert_eq!(ids(&visible_entries(&m, &s)), ["x1", "x2", "x3"], "{key:?}");
    }
}

#[test]
fn grouped_sections_cover_root_and_folders_by_path() {
    let m = manifest();
    let mut s = state();
    s.view_mode = LibraryViewMode::Grouped;
    let sections = grouped_sections(&m, &s);
    let titles: Vec<&str> = sections.iter().map(|(_, t, _)| t.as_str()).collect();
    assert_eq!(titles, ["Library", "Shoot", "Shoot / Nested"]);
    assert_eq!(ids(&sections[0].2), ["m1", "m2"]);
    assert_eq!(ids(&sections[1].2), ["m3", "m4"]);
    assert_eq!(ids(&sections[2].2), ["m5"]);
    assert_eq!(sections[0].0, None);
    assert_eq!(sections[2].0, Some("f2"));
}

#[test]
fn grouped_sections_skip_empty_root_and_filter_buckets() {
    let m = manifest();
    let mut s = state();
    s.view_mode = LibraryViewMode::Grouped;
    s.type_filter = vec![ClipType::Image];
    let sections = grouped_sections(&m, &s);
    let titles: Vec<&str> = sections.iter().map(|(_, t, _)| t.as_str()).collect();
    assert_eq!(titles, ["Shoot", "Shoot / Nested"], "empty root section skipped");
    assert_eq!(ids(&sections[0].2), ["m4"]);
    assert!(sections[1].2.is_empty(), "empty folder sections stay visible");
}

#[test]
fn grouped_sections_order_folders_by_lowercase_path() {
    let m = LibraryManifest {
        entries: vec![],
        folders: vec![folder("b", "beta", None), folder("a", "Alpha", None), folder("c", "alpha", None)],
    };
    let sections = grouped_sections(&m, &state());
    let ids: Vec<Option<&str>> = sections.iter().map(|(id, _, _)| *id).collect();
    assert_eq!(ids, [Some("a"), Some("c"), Some("b")]);
}

#[test]
fn folder_path_walks_to_root_and_survives_cycles() {
    let m = manifest();
    let path: Vec<&str> = folder_path(&m, Some("f2")).iter().map(|f| f.id.as_str()).collect();
    assert_eq!(path, ["f1", "f2"]);
    assert!(folder_path(&m, None).is_empty());
    assert!(folder_path(&m, Some("ghost")).is_empty());

    let cyclic = LibraryManifest {
        entries: vec![],
        folders: vec![folder("a", "A", Some("b")), folder("b", "B", Some("a"))],
    };
    let path: Vec<&str> = folder_path(&cyclic, Some("a")).iter().map(|f| f.id.as_str()).collect();
    assert_eq!(path, ["b", "a"]);
}

#[test]
fn folder_child_count_sums_subfolders_and_assets() {
    let m = manifest();
    assert_eq!(folder_child_count(&m, "f1"), 3, "f2 + m3 + m4");
    assert_eq!(folder_child_count(&m, "f2"), 1);
    assert_eq!(folder_child_count(&m, "ghost"), 0);
}

#[test]
fn bucket_of_a_folder_ignores_view_mode() {
    let m = manifest();
    let mut s = state();
    s.view_mode = LibraryViewMode::Flat;
    assert_eq!(ids(&visible_entries_in(&m, &s, Some("f1"))), ["m3", "m4"]);
    assert_eq!(ids(&visible_entries_in(&m, &s, None)), ["m1", "m2"]);
}

fn ordered() -> Vec<String> {
    ["m1", "m2", "m3", "m4", "m5"].iter().map(|s| s.to_string()).collect()
}

#[test]
fn click_replaces_selection_and_sets_anchor() {
    let mut s = state();
    s.selection = vec!["m1".into(), "m2".into()];
    s.select_click("m3");
    assert_eq!(s.selection, ["m3"]);
    assert_eq!(s.selection_anchor.as_deref(), Some("m3"));
}

#[test]
fn toggle_adds_and_removes() {
    let mut s = state();
    s.select_toggle("m1");
    s.select_toggle("m3");
    assert_eq!(s.selection, ["m1", "m3"]);
    s.select_toggle("m1");
    assert_eq!(s.selection, ["m3"]);
    assert_eq!(s.selection_anchor.as_deref(), Some("m1"), "toggle moves the anchor");
}

#[test]
fn range_selects_inclusive_span_in_order() {
    let mut s = state();
    s.select_click("m2");
    s.select_range(&ordered(), "m5");
    assert_eq!(s.selection, ["m2", "m3", "m4", "m5"]);
}

#[test]
fn range_works_backwards() {
    let mut s = state();
    s.select_click("m4");
    s.select_range(&ordered(), "m1");
    assert_eq!(s.selection, ["m1", "m2", "m3", "m4"]);
}

#[test]
fn range_reextends_from_same_anchor() {
    let mut s = state();
    s.select_click("m2");
    s.select_range(&ordered(), "m5");
    s.select_range(&ordered(), "m3");
    assert_eq!(s.selection, ["m2", "m3"], "second shift-click re-extends from anchor");
    assert_eq!(s.selection_anchor.as_deref(), Some("m2"));
}

#[test]
fn range_without_anchor_falls_back_to_click() {
    let mut s = state();
    s.select_range(&ordered(), "m3");
    assert_eq!(s.selection, ["m3"]);
    assert_eq!(s.selection_anchor.as_deref(), Some("m3"));
}

#[test]
fn range_with_vanished_anchor_falls_back_to_click() {
    let mut s = state();
    s.select_click("ghost");
    s.select_range(&ordered(), "m2");
    assert_eq!(s.selection, ["m2"]);
    assert_eq!(s.selection_anchor.as_deref(), Some("m2"));
}

#[test]
fn clear_selection_resets_ids_and_anchor() {
    let mut s = state();
    s.select_click("m1");
    s.clear_selection();
    assert!(s.selection.is_empty());
    assert!(s.selection_anchor.is_none());
}

#[test]
fn view_mode_and_sort_titles() {
    assert_eq!(
        LibraryViewMode::all().map(|m| m.title()),
        ["Folders", "Flat", "Grouped"]
    );
    assert_eq!(
        LibrarySortKey::all().map(|k| k.title()),
        ["Name", "Date Added", "Duration", "Type"]
    );
    assert_eq!(LibraryViewMode::default(), LibraryViewMode::Folders);
    assert_eq!(LibrarySortKey::default(), LibrarySortKey::DateAdded);
}
