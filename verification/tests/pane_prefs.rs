use app_shell::pane::{PaneId, PaneLayout};
use app_shell::pane_prefs::{default_prefs_path, PersistedPaneVisibility};

#[test]
fn persisted_flags_round_trip_through_a_fresh_layout() {
    let mut layout = PaneLayout::new();
    layout.toggle_pane(PaneId::Media);
    layout.toggle_pane(PaneId::Agent);
    let saved = PersistedPaneVisibility::from_layout(&layout.visibility);
    assert_eq!(saved, PersistedPaneVisibility { media: false, inspector: true, agent: false });

    let mut next = PaneLayout::new();
    next.toggle_pane(PaneId::Timeline);
    saved.apply_to(&mut next.visibility);
    assert!(!next.visibility.media);
    assert!(next.visibility.inspector);
    assert!(!next.visibility.agent);
    assert!(!next.visibility.timeline, "timeline keeps its session state");
    assert!(next.visibility.preview);
    assert_eq!(PersistedPaneVisibility::from_layout(&next.visibility), saved);
}

#[test]
fn prefs_file_lives_in_config_dir() {
    assert_eq!(default_prefs_path("/home/u/.config/fronda"), "/home/u/.config/fronda/preferences.json");
}
