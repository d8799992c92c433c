use app_shell::pane::{LayoutPreset, PaneId, PaneLayout, PaneVisibility};

#[test]
fn edt_001_five_panes() {
    let ids = [
        PaneId::Media,
        PaneId::Preview,
        PaneId::Inspector,
        PaneId::Timeline,
        PaneId::Agent,
    ];
    assert_eq!(ids.len(), 5);
    for i in 0..ids.len() {
        for j in (i + 1)..ids.len() {
            assert_ne!(ids[i], ids[j], "pane variants must be distinct");
        }
    }
}

#[test]
fn edt_002_default_layout_preset() {
    let layout = PaneLayout::new();
    assert_eq!(layout.preset, LayoutPreset::Default);
    assert!(layout.visibility.media);
    assert!(layout.visibility.preview);
    assert!(layout.visibility.inspector);
    assert!(layout.visibility.timeline);
    assert!(layout.visibility.agent);
}

#[test]
fn edt_002_media_preset() {
    let mut layout = PaneLayout::new();
    layout.apply_preset(LayoutPreset::Media);
    assert_eq!(layout.preset, LayoutPreset::Media);
    assert!(layout.visibility.media);
    assert!(layout.visibility.preview);
    assert!(layout.visibility.inspector);
    assert!(layout.visibility.timeline);
    assert!(layout.visibility.agent);
}

#[test]
fn preset_switch_preserves_visibility() {
    let mut layout = PaneLayout::new();
    layout.toggle_pane(PaneId::Agent);
    layout.toggle_pane(PaneId::Inspector);
    let before = layout.visibility.clone();
    for preset in [
        LayoutPreset::Media,
        LayoutPreset::Vertical,
        LayoutPreset::Default,
    ] {
        layout.apply_preset(preset);
        assert_eq!(layout.visibility, before, "visibility changed by {preset:?}");
    }
}

#[test]
fn edt_003_pane_visibility_toggle() {
    let mut layout = PaneLayout::new();
    assert!(layout.visibility.media);
    layout.toggle_pane(PaneId::Media);
    assert!(!layout.visibility.media);
    layout.toggle_pane(PaneId::Media);
    assert!(layout.visibility.media);
}

#[test]
fn edt_004_maximize_collapses_others() {
    let mut layout = PaneLayout::new();
    layout.toggle_pane(PaneId::Agent);
    assert!(!layout.visibility.agent);

    layout.maximize(PaneId::Timeline);
    assert_eq!(layout.maximized_pane, Some(PaneId::Timeline));
    assert!(layout.visibility.timeline);
    assert!(!layout.visibility.media);
    assert!(!layout.visibility.preview);
    assert!(!layout.visibility.inspector);
    assert!(!layout.visibility.agent);

    let saved = layout.pre_maximize_visibility.as_ref().unwrap();
    assert!(!saved.agent);

    layout.unmaximize();
    assert!(layout.maximized_pane.is_none());
    assert!(layout.visibility.media);
    assert!(layout.visibility.preview);
    assert!(layout.visibility.inspector);
    assert!(layout.visibility.timeline);
    assert!(!layout.visibility.agent);
}

#[test]
fn edt_004_maximize_no_op_when_already_maximized() {
    let mut layout = PaneLayout::new();
    layout.maximize(PaneId::Preview);
    let saved_state = layout.pre_maximize_visibility.clone();

    layout.maximize(PaneId::Timeline);
    assert_eq!(layout.maximized_pane, Some(PaneId::Preview));
    assert_eq!(layout.pre_maximize_visibility, saved_state);
}

#[test]
fn edt_004_maximize_then_toggle_pane() {
    let mut layout = PaneLayout::new();
    layout.maximize(PaneId::Media);
    assert!(layout.visibility.media);
    layout.toggle_pane(PaneId::Media);
    assert!(layout.visibility.media);
}

// ---- further checks ----

#[test]
fn visible_count_follows_toggles_and_maximize() {
    let mut layout = PaneLayout::new();
    assert_eq!(layout.visible_count(), 5);
    layout.toggle_pane(PaneId::Agent);
    layout.toggle_pane(PaneId::Media);
    assert_eq!(layout.visible_count(), 3);
    assert!(!layout.is_visible(PaneId::Agent));
    assert!(layout.is_visible(PaneId::Preview));
    layout.maximize(PaneId::Inspector);
    assert_eq!(layout.visible_count(), 1);
    assert!(layout.is_maximized());
    layout.unmaximize();
    assert_eq!(layout.visible_count(), 3);
    assert!(!layout.is_maximized());
}

#[test]
fn unmaximize_without_maximize_keeps_visibility() {
    let mut layout = PaneLayout::new();
    layout.toggle_pane(PaneId::Timeline);
    let before = layout.visibility;
    layout.unmaximize();
    assert_eq!(layout.visibility, before);
    assert_eq!(layout.maximized_pane, None);
}

#[test]
fn default_visibility_is_all_visible() {
    assert_eq!(PaneVisibility::default_visibility(), PaneVisibility::all_visible());
    let d: PaneLayout = Default::default();
    assert_eq!(d.visibility, PaneVisibility::all_visible());
    assert_eq!(d.preset, LayoutPreset::Default);
}
