use app_shell::menu::{
    all_menus, all_shortcuts, is_layout_action, is_text_conflicting, route_shortcut, MenuAction,
    MenuGroup, Modifiers, Shortcut,
};

fn find_group_items(group: MenuGroup, items: &[(MenuGroup, Vec<MenuAction>)]) -> &[MenuAction] {
    items
        .iter()
        .find(|(g, _)| *g == group)
        .map(|(_, actions)| actions.as_slice())
        .expect("group should exist")
}

#[test]
fn menu_001_five_groups() {
    let menus = all_menus();
    assert_eq!(menus.len(), 5);
}

#[test]
fn menu_002_app_menu_items() {
    let menus = all_menus();
    let items = find_group_items(MenuGroup::App, &menus);
    assert!(items.contains(&MenuAction::About));
    assert!(items.contains(&MenuAction::CheckForUpdates));
    assert!(items.contains(&MenuAction::Settings));
    assert!(items.contains(&MenuAction::Quit));
}

#[test]
fn menu_003_file_menu_items() {
    let menus = all_menus();
    let items = find_group_items(MenuGroup::File, &menus);
    assert!(items.contains(&MenuAction::NewProject));
    assert!(items.contains(&MenuAction::OpenProject));
    assert!(items.contains(&MenuAction::SaveProject));
    assert!(items.contains(&MenuAction::SaveProjectAs));
    assert!(items.contains(&MenuAction::ImportMedia));
    assert!(items.contains(&MenuAction::Export));
}

#[test]
fn menu_004_edit_menu_items() {
    let menus = all_menus();
    let items = find_group_items(MenuGroup::Edit, &menus);
    assert!(items.contains(&MenuAction::Undo));
    assert!(items.contains(&MenuAction::Redo));
    assert!(items.contains(&MenuAction::Cut));
    assert!(items.contains(&MenuAction::Copy));
    assert!(items.contains(&MenuAction::Paste));
    assert!(items.contains(&MenuAction::SelectAll));
    assert!(items.contains(&MenuAction::SplitAtPlayhead));
    assert!(items.contains(&MenuAction::TrimStartToPlayhead));
    assert!(items.contains(&MenuAction::TrimEndToPlayhead));
    assert!(items.contains(&MenuAction::Delete));
}

#[test]
fn menu_005_view_menu_items() {
    let menus = all_menus();
    let items = find_group_items(MenuGroup::View, &menus);
    assert!(items.contains(&MenuAction::ToggleMediaPanel));
    assert!(items.contains(&MenuAction::ToggleInspector));
    assert!(items.contains(&MenuAction::ToggleAgentPanel));
    assert!(items.contains(&MenuAction::MaximizeFocusedPane));
    assert!(items.contains(&MenuAction::EnterFullScreen));
}

#[test]
fn menu_006_layout_submenu() {
    let menus = all_menus();
    let items = find_group_items(MenuGroup::View, &menus);
    assert!(items.contains(&MenuAction::LayoutDefault));
    assert!(items.contains(&MenuAction::LayoutMedia));
    assert!(items.contains(&MenuAction::LayoutVertical));
}

#[test]
fn menu_007_help_menu_items() {
    let menus = all_menus();
    let items = find_group_items(MenuGroup::Help, &menus);
    assert!(items.contains(&MenuAction::Tutorial));
    assert!(items.contains(&MenuAction::KeyboardShortcuts));
    assert!(items.contains(&MenuAction::McpInstructions));
    assert!(items.contains(&MenuAction::SendFeedback));
}

#[test]
fn menu_008_shortcuts_count() {
    let shortcuts = all_shortcuts();
    assert_eq!(shortcuts.len(), 44);
}

#[test]
fn shortcut_route_cmd_z() {
    let modifiers = Modifiers {
        command: true,
        ..Default::default()
    };
    assert_eq!(route_shortcut("z", &modifiers), Some(MenuAction::Undo));
}

#[test]
fn shortcut_route_cmd_shift_z() {
    let modifiers = Modifiers {
        command: true,
        shift: true,
        ..Default::default()
    };
    assert_eq!(route_shortcut("z", &modifiers), Some(MenuAction::Redo));
}

#[test]
fn shortcut_route_unknown() {
    let modifiers = Modifiers {
        command: true,
        ..Default::default()
    };
    assert_eq!(route_shortcut("unknown", &modifiers), None);
}

#[test]
fn issue_164_space_routes_play_pause() {
    assert_eq!(
        route_shortcut("space", &Modifiers::default()),
        Some(MenuAction::PlayPause)
    );
}

#[test]
fn issue_164_jkl_routes_playback() {
    assert_eq!(
        route_shortcut("j", &Modifiers::default()),
        Some(MenuAction::PlayBackward)
    );
    assert_eq!(
        route_shortcut("k", &Modifiers::default()),
        Some(MenuAction::PauseJkl)
    );
    assert_eq!(
        route_shortcut("l", &Modifiers::default()),
        Some(MenuAction::PlayForward)
    );
}

#[test]
fn issue_164_arrow_keys_route_frame_step() {
    assert_eq!(
        route_shortcut("left", &Modifiers::default()),
        Some(MenuAction::StepFrameBackward)
    );
    assert_eq!(
        route_shortcut("right", &Modifiers::default()),
        Some(MenuAction::StepFrameForward)
    );
}

#[test]
fn issue_164_shift_arrow_routes_skip() {
    let shift = Modifiers {
        shift: true,
        ..Default::default()
    };
    assert_eq!(
        route_shortcut("left", &shift),
        Some(MenuAction::SkipFramesBackward)
    );
    assert_eq!(
        route_shortcut("right", &shift),
        Some(MenuAction::SkipFramesForward)
    );
}

#[test]
fn issue_164_i_o_routes_mark_in_out() {
    assert_eq!(
        route_shortcut("i", &Modifiers::default()),
        Some(MenuAction::MarkIn)
    );
    assert_eq!(
        route_shortcut("o", &Modifiers::default()),
        Some(MenuAction::MarkOut)
    );
}

#[test]
fn issue_164_option_backspace_routes_ripple_delete() {
    let opt = Modifiers {
        option: true,
        ..Default::default()
    };
    assert_eq!(
        route_shortcut("backspace", &opt),
        Some(MenuAction::RippleDelete)
    );
}

#[test]
fn issue_164_timeline_zoom_shortcuts() {
    assert_eq!(
        route_shortcut("=", &Modifiers::default()),
        Some(MenuAction::TimelineZoomIn)
    );
    assert_eq!(
        route_shortcut("-", &Modifiers::default()),
        Some(MenuAction::TimelineZoomOut)
    );
    let shift = Modifiers {
        shift: true,
        ..Default::default()
    };
    assert_eq!(
        route_shortcut("z", &shift),
        Some(MenuAction::TimelineFitToWindow)
    );
}

#[test]
fn issue_164_clear_marks_shortcuts() {
    let opt = Modifiers {
        option: true,
        ..Default::default()
    };
    assert_eq!(route_shortcut("i", &opt), Some(MenuAction::ClearMarkIn));
    assert_eq!(route_shortcut("o", &opt), Some(MenuAction::ClearMarkOut));
    assert_eq!(route_shortcut("x", &opt), Some(MenuAction::ClearMarks));
}

// ---- further checks of the shortcut table ----

#[test]
fn every_shortcut_routes_back_to_its_own_action() {
    for s in all_shortcuts() {
        assert_eq!(route_shortcut(&s.key, &s.modifiers), Some(s.action));
    }
}

#[test]
fn shortcut_constructors_set_modifiers() {
    let s = Shortcut::cmd_option("0", MenuAction::ToggleInspector);
    assert_eq!(s.key, "0");
    assert!(s.modifiers.command && s.modifiers.option);
    assert!(!s.modifiers.shift && !s.modifiers.control);
    let s = Shortcut::cmd_shift("s", MenuAction::SaveProjectAs);
    assert!(s.modifiers.command && s.modifiers.shift && !s.modifiers.option);
    let s = Shortcut::cmd("q", MenuAction::Quit);
    assert_eq!(s.modifiers, Modifiers { command: true, ..Default::default() });
}

#[test]
fn plain_q_trims_while_cmd_q_quits() {
    assert_eq!(
        route_shortcut("q", &Modifiers::default()),
        Some(MenuAction::TrimStartToPlayhead)
    );
    let cmd = Modifiers { command: true, ..Default::default() };
    assert_eq!(route_shortcut("q", &cmd), Some(MenuAction::Quit));
    let ctrl = Modifiers { control: true, ..Default::default() };
    assert_eq!(route_shortcut("q", &ctrl), None);
}

#[test]
fn text_conflict_needs_no_command_option_or_control() {
    assert!(is_text_conflicting(&Modifiers::default()));
    assert!(is_text_conflicting(&Modifiers { shift: true, ..Default::default() }));
    assert!(!is_text_conflicting(&Modifiers { command: true, ..Default::default() }));
    assert!(!is_text_conflicting(&Modifiers { option: true, ..Default::default() }));
    assert!(!is_text_conflicting(&Modifiers { control: true, ..Default::default() }));
}

#[test]
fn layout_actions_are_the_three_presets() {
    assert!(is_layout_action(&MenuAction::LayoutDefault));
    assert!(is_layout_action(&MenuAction::LayoutMedia));
    assert!(is_layout_action(&MenuAction::LayoutVertical));
    assert!(!is_layout_action(&MenuAction::MaximizeFocusedPane));
}

#[test]
fn menu_groups_in_order_with_sizes() {
    let menus = all_menus();
    let groups: Vec<MenuGroup> = menus.iter().map(|(g, _)| *g).collect();
    assert_eq!(
        groups,
        vec![MenuGroup::App, MenuGroup::File, MenuGroup::Edit, MenuGroup::View, MenuGroup::Help]
    );
    let sizes: Vec<usize> = menus.iter().map(|(_, a)| a.len()).collect();
    assert_eq!(sizes, vec![4, 6, 10, 8, 4]);
}
