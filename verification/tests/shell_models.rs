use app_shell::global_shortcuts::RunMenuAction;
use app_shell::home_model::{HomeAction, HomeLayout, ProjectCard};
use app_shell::inspector_model::{
    clip_local_frame, clip_type_label, tab_selection, CropAspect, InspectorState, InspectorTab, SelectionShape,
};
use app_shell::mention_model::{MentionFilterTab, MentionPopoverState};
use app_shell::media_panel_model::{
    source_candidate, tile_icon, ClipType, MediaItem, MediaPanelState, MediaPanelTab, MediaSource,
};
use app_shell::menu::MenuAction;
use app_shell::pane_resize::{grows_with_pointer, ResizeTarget};
use app_shell::{launch_status_lines, APP_NAME, SHELL_HEADLINE, SHELL_STATUS};

#[test]
fn launch_status_lines_begin_with_product_name() {
    let lines = launch_status_lines();
    assert_eq!(lines[0], APP_NAME);
    assert_eq!(lines[1], SHELL_HEADLINE);
    assert_eq!(lines[2], SHELL_STATUS);
}

#[test]
fn shell_headline_is_not_future_tense_scaffolding_copy() {
    assert!(!SHELL_HEADLINE.contains("rewrite"));
    assert!(!SHELL_HEADLINE.contains("scaffold"));
}

#[test]
fn project_card_struct() {
    let card = ProjectCard {
        name: "Test Project".into(),
        path: "/tmp/test.palmier".into(),
        last_opened_label: "Today".into(),
    };
    assert_eq!(card.name, "Test Project");
    assert_eq!(card.path, "/tmp/test.palmier");
    assert_eq!(card.last_opened_label, "Today");
}

#[test]
fn home_action_variants() {
    match HomeAction::NewProject {
        HomeAction::NewProject => {}
        _ => panic!("expected NewProject"),
    }
    match HomeAction::OpenProject {
        HomeAction::OpenProject => {}
        _ => panic!("expected OpenProject"),
    }
    match HomeAction::OpenProjectAt(3) {
        HomeAction::OpenProjectAt(idx) => assert_eq!(idx, 3),
        _ => panic!("expected OpenProjectAt"),
    }
}

#[test]
fn default_tab_is_video() {
    let s = InspectorState::new();
    assert_eq!(s.active_tab, InspectorTab::Video);
}

#[test]
fn select_tab_changes_active() {
    let mut s = InspectorState::new();
    s.select_tab(InspectorTab::Audio);
    assert_eq!(s.active_tab, InspectorTab::Audio);
    s.select_tab(InspectorTab::AiEdit);
    assert_eq!(s.active_tab, InspectorTab::AiEdit);
}

#[test]
fn toggle_transform_expands_and_collapses() {
    let mut s = InspectorState::new();
    let initial = s.transform_expanded;
    s.toggle_transform();
    assert_eq!(s.transform_expanded, !initial);
    s.toggle_transform();
    assert_eq!(s.transform_expanded, initial);
}

#[test]
fn toggle_volume_expands_and_collapses() {
    let mut s = InspectorState::new();
    let initial = s.volume_expanded;
    s.toggle_volume();
    assert_eq!(s.volume_expanded, !initial);
    s.toggle_volume();
    assert_eq!(s.volume_expanded, initial);
}

#[test]
fn toggle_speed_expands_and_collapses() {
    let mut s = InspectorState::new();
    let initial = s.speed_expanded;
    s.toggle_speed();
    assert_eq!(s.speed_expanded, !initial);
    s.toggle_speed();
    assert_eq!(s.speed_expanded, initial);
}

#[test]
fn all_tabs_count() {
    assert_eq!(InspectorTab::all_tabs().len(), 4);
}

#[test]
fn all_tabs_labels_non_empty() {
    for tab in InspectorTab::all_tabs() {
        assert!(!tab.label().is_empty());
    }
}

#[test]
fn all_tabs_order() {
    let tabs = InspectorTab::all_tabs();
    assert_eq!(tabs[0], InspectorTab::Text);
    assert_eq!(tabs[3], InspectorTab::AiEdit);
}

#[test]
fn inspector_labels_exact() {
    let labels: Vec<&str> = InspectorTab::all_tabs().iter().map(|t| t.label()).collect();
    assert_eq!(labels, vec!["Text", "Video", "Audio", "AI Edit"]);
    let s = InspectorState::default();
    assert!(s.transform_expanded && s.volume_expanded && !s.speed_expanded);
}

#[test]
fn media_panel_all_tabs_count() {
    assert_eq!(MediaPanelTab::all().len(), 3);
}

#[test]
fn media_panel_all_tabs_order() {
    let tabs = MediaPanelTab::all();
    assert_eq!(tabs[0], MediaPanelTab::Media);
    assert_eq!(tabs[1], MediaPanelTab::Captions);
    assert_eq!(tabs[2], MediaPanelTab::Music);
}

#[test]
fn media_panel_tab_icons_defined() {
    for tab in MediaPanelTab::all() {
        assert!(!tab.icon_name().is_empty());
    }
}

#[test]
fn media_panel_tab_labels_defined() {
    for tab in MediaPanelTab::all() {
        assert!(!tab.label().is_empty());
    }
}

#[test]
fn media_panel_default_tab_is_media() {
    let s = MediaPanelState::new();
    assert_eq!(s.active_tab, MediaPanelTab::Media);
}

#[test]
fn media_panel_select_captions() {
    let mut s = MediaPanelState::new();
    s.select_tab(MediaPanelTab::Captions);
    assert_eq!(s.active_tab, MediaPanelTab::Captions);
}

#[test]
fn media_panel_select_music() {
    let mut s = MediaPanelState::new();
    s.select_tab(MediaPanelTab::Music);
    assert_eq!(s.active_tab, MediaPanelTab::Music);
}

#[test]
fn media_panel_is_active() {
    let mut s = MediaPanelState::new();
    assert!(s.is_active(&MediaPanelTab::Media));
    assert!(!s.is_active(&MediaPanelTab::Captions));
    s.select_tab(MediaPanelTab::Captions);
    assert!(!s.is_active(&MediaPanelTab::Media));
    assert!(s.is_active(&MediaPanelTab::Captions));
}

#[test]
fn media_panel_tab_names_exact() {
    let icons: Vec<&str> = MediaPanelTab::all().iter().map(|t| t.icon_name()).collect();
    assert_eq!(icons, vec!["folder", "captions.bubble", "music.note"]);
    let labels: Vec<&str> = MediaPanelTab::all().iter().map(|t| t.label()).collect();
    assert_eq!(labels, vec!["Media", "Captions", "Music"]);
}

#[test]
fn tile_icons_by_kind() {
    assert_eq!(tile_icon(&ClipType::Audio), "\u{266a}");
    assert_eq!(tile_icon(&ClipType::Image), "\u{2b1c}");
    assert_eq!(tile_icon(&ClipType::Text), "T");
    assert_eq!(tile_icon(&ClipType::Video), "\u{25b6}");
    assert_eq!(tile_icon(&ClipType::Shape), "\u{25b6}");
}

#[test]
fn source_candidates_resolve_project_paths_under_root() {
    let ext = MediaSource::External { absolute_path: "/abs/photo.png".into() };
    assert_eq!(source_candidate(&ext, None), Some("/abs/photo.png".to_string()));
    let proj = MediaSource::Project { relative_path: "media/clip.mp4".into() };
    assert_eq!(source_candidate(&proj, None), None);
    assert_eq!(
        source_candidate(&proj, Some("/p/proj.palmier")),
        Some("/p/proj.palmier/media/clip.mp4".to_string())
    );
}

fn two_items() -> Vec<MediaItem> {
    vec![
        MediaItem { id: "m1".into(), name: "Interview.mp4".into(), kind: ClipType::Video, source_path: None },
        MediaItem { id: "m2".into(), name: "Music.wav".into(), kind: ClipType::Audio, source_path: None },
    ]
}

fn one_folder() -> Vec<(String, String)> {
    vec![("f1".to_string(), "B-roll".to_string())]
}

#[test]
fn sync_maps_entries_and_folders() {
    let mut s = MediaPanelState::new();
    s.select_tab(MediaPanelTab::Music);
    s.replace_contents(two_items(), one_folder());
    assert_eq!(s.items.len(), 2);
    assert_eq!(s.items[0].id, "m1");
    assert_eq!(s.items[0].name, "Interview.mp4");
    assert_eq!(s.items[1].kind, ClipType::Audio);
    assert_eq!(s.folders, vec![("f1".to_string(), "B-roll".to_string())]);
    assert_eq!(s.active_tab, MediaPanelTab::Music, "tab preserved");
}

#[test]
fn sync_is_idempotent_and_replaces() {
    let mut s = MediaPanelState::new();
    s.replace_contents(two_items(), one_folder());
    s.replace_contents(two_items(), one_folder());
    assert_eq!(s.items.len(), 2);
    assert_eq!(s.folders.len(), 1);
    s.replace_contents(Vec::new(), Vec::new());
    assert!(s.items.is_empty(), "lists replaced, not appended");
    assert!(s.folders.is_empty());
}

#[test]
fn drag_directions_match_divider_edges() {
    assert!(grows_with_pointer(ResizeTarget::AgentWidth));
    assert!(grows_with_pointer(ResizeTarget::MediaWidth));
    assert!(grows_with_pointer(ResizeTarget::VerticalLeftWidth));
    assert!(!grows_with_pointer(ResizeTarget::InspectorWidth));
    assert!(!grows_with_pointer(ResizeTarget::TimelineHeight));
}

#[test]
fn run_menu_action_carries_its_action() {
    let a = RunMenuAction { action: MenuAction::Quit };
    assert_eq!(a, RunMenuAction { action: MenuAction::Quit });
    assert_ne!(a, RunMenuAction { action: MenuAction::About });
}

#[test]
fn crop_aspect_mirrors_swift_presets() {
    assert_eq!(CropAspect::all().len(), 8);
    assert_eq!(CropAspect::Free.label(), "Custom");
    assert_eq!(CropAspect::Original.label(), "Original");
    assert_eq!(CropAspect::R21x9.label(), "21:9");
    let pixel_aspect = |a: CropAspect| a.ratio().map(|(w, h)| w as f64 / h as f64);
    assert_eq!(pixel_aspect(CropAspect::R16x9), Some(16.0 / 9.0));
    assert_eq!(pixel_aspect(CropAspect::R9x16), Some(9.0 / 16.0));
    assert_eq!(CropAspect::R16x9.ratio(), Some((16, 9)));
    assert_eq!(CropAspect::Free.ratio(), None);
    assert_eq!(CropAspect::Original.ratio(), None);
}

#[test]
fn clip_local_frame_clamps_to_clip_range() {
    assert_eq!(clip_local_frame(50, 100, 0), 0);
    assert_eq!(clip_local_frame(50, 100, 50), 0);
    assert_eq!(clip_local_frame(50, 100, 100), 50);
    assert_eq!(clip_local_frame(50, 100, 500), 100);
    assert_eq!(clip_local_frame(0, -5, 10), 0, "negative duration counts as zero");
}

#[test]
fn clip_type_labels_cover_all_variants() {
    assert_eq!(clip_type_label(ClipType::Video), "Video");
    assert_eq!(clip_type_label(ClipType::Audio), "Audio");
    assert_eq!(clip_type_label(ClipType::Image), "Image");
    assert_eq!(clip_type_label(ClipType::Text), "Text");
    assert_eq!(clip_type_label(ClipType::Sequence), "Sequence");
    assert_eq!(clip_type_label(ClipType::Lottie), "Lottie");
    assert_eq!(clip_type_label(ClipType::Shape), "Shape");
}

#[test]
fn mention_picker_tabs_and_samples() {
    let labels: Vec<&str> = MentionFilterTab::all().iter().map(|t| t.label()).collect();
    assert_eq!(labels, ["All", "Video", "Image", "Audio"]);
    let s = MentionPopoverState::default();
    assert_eq!(s.query, "");
    assert_eq!(s.active_tab, MentionFilterTab::All);
    assert_eq!(s.candidates.len(), 3);
    assert_eq!(s.candidates[1].name, "Background music");
    assert_eq!(s.candidates[2].media_type, "Image");
}

#[test]
fn selection_shape_counts_text_audio_and_visual_clips() {
    let kinds = [ClipType::Text, ClipType::Video, ClipType::Audio, ClipType::Image, ClipType::Text];
    assert_eq!(
        tab_selection(&kinds, true),
        SelectionShape {
            text_clips: 2,
            non_text_visual_clips: 2,
            audio_clips: 1,
            has_multicam_group: true,
            ai_eligible: true,
        }
    );
    let empty = tab_selection(&[], false);
    assert!(!empty.ai_eligible);
    assert_eq!(empty.non_text_visual_clips, 0);
}

#[test]
fn home_layout_constants() {
    assert!((HomeLayout::CARD_WIDTH as f64 - 150.0).abs() < 1e-10);
    assert!((HomeLayout::CARD_HEIGHT as f64 - 120.0).abs() < 1e-10);
    assert!((HomeLayout::CARD_GAP as f64 - 12.0).abs() < 1e-10);
    assert!((HomeLayout::HEADING_TOP as f64 - 48.0).abs() < 1e-10);
    assert!((HomeLayout::SECTION_TOP as f64 - 40.0).abs() < 1e-10);
}
