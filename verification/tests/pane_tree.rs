use app_shell::pane::{LayoutPreset, PaneId, PaneLayout};
use app_shell::pane_resize::ResizeTarget;
use app_shell::pane_tree::{build_pane_tree, PaneNode, PaneNodeKind, PaneSize, ResolvedSizes};

fn sizes() -> ResolvedSizes<f32> {
    ResolvedSizes {
        agent_width: 240.0,
        media_width: 500.0,
        inspector_width: 260.0,
        timeline_height: 300.0,
        vertical_left_width: 600.0,
    }
}

fn layout_with(preset: LayoutPreset) -> PaneLayout {
    let mut l = PaneLayout::new();
    l.apply_preset(preset);
    l
}

fn row_pane_ids(node: &PaneNode<f32>) -> Vec<PaneId> {
    match &node.kind {
        PaneNodeKind::Row(children) => children
            .iter()
            .filter_map(|c| match c.kind {
                PaneNodeKind::Pane(id) => Some(id),
                _ => None,
            })
            .collect(),
        _ => panic!("expected Row, got {node:?}"),
    }
}

fn children(node: &PaneNode<f32>) -> &Vec<PaneNode<f32>> {
    match &node.kind {
        PaneNodeKind::Row(c) | PaneNodeKind::Column(c) => c,
        _ => panic!("expected container, got {node:?}"),
    }
}

fn solids(node: &PaneNode<f32>) -> Vec<&PaneNode<f32>> {
    children(node).iter().filter(|c| !c.is_divider()).collect()
}

fn seam_targets(node: &PaneNode<f32>) -> Vec<ResizeTarget> {
    children(node)
        .iter()
        .filter_map(|c| match c.kind {
            PaneNodeKind::Divider { target, .. } => Some(target),
            _ => None,
        })
        .collect()
}

#[test]
fn default_tree_puts_timeline_full_width() {
    let tree = build_pane_tree(&layout_with(LayoutPreset::Default), &sizes());
    let root = solids(&tree);
    assert_eq!(root.len(), 2);
    assert_eq!(root[0].kind, PaneNodeKind::Pane(PaneId::Agent));
    assert_eq!(seam_targets(&tree), vec![ResizeTarget::AgentWidth]);
    let preset_col = root[1];
    assert_eq!(preset_col.size, PaneSize::Flex);
    let col = solids(preset_col);
    assert_eq!(col.len(), 2, "upper region + timeline region");
    assert_eq!(seam_targets(preset_col), vec![ResizeTarget::TimelineHeight]);
    assert_eq!(col[0].size, PaneSize::Flex);
    assert_eq!(
        row_pane_ids(col[0]),
        vec![PaneId::Media, PaneId::Preview, PaneId::Inspector]
    );
    assert_eq!(
        seam_targets(col[0]),
        vec![ResizeTarget::MediaWidth, ResizeTarget::InspectorWidth]
    );
    assert_eq!(col[1].kind, PaneNodeKind::TimelineRegion);
    assert_eq!(col[1].size, PaneSize::Fixed(300.0));
    let upper = solids(col[0]);
    assert_eq!(upper[0].size, PaneSize::Fixed(500.0));
    assert_eq!(upper[1].size, PaneSize::Flex);
    assert_eq!(upper[2].size, PaneSize::Fixed(260.0));
}

#[test]
fn default_tree_timeline_stays_full_width_without_side_panes() {
    let mut layout = layout_with(LayoutPreset::Default);
    layout.toggle_pane(PaneId::Media);
    layout.toggle_pane(PaneId::Inspector);
    let tree = build_pane_tree(&layout, &sizes());
    let root = solids(&tree);
    let col = solids(root[1]);
    assert_eq!(row_pane_ids(col[0]), vec![PaneId::Preview]);
    assert_eq!(seam_targets(col[0]), vec![], "no dividers around lone preview");
    assert_eq!(col[1].kind, PaneNodeKind::TimelineRegion);
}

#[test]
fn media_tree_matches_swift() {
    let tree = build_pane_tree(&layout_with(LayoutPreset::Media), &sizes());
    let root = solids(&tree);
    assert_eq!(root.len(), 3);
    assert_eq!(root[0].kind, PaneNodeKind::Pane(PaneId::Agent));
    assert_eq!(root[1].kind, PaneNodeKind::Pane(PaneId::Media));
    assert_eq!(root[1].size, PaneSize::Fixed(500.0));
    assert_eq!(
        seam_targets(&tree),
        vec![ResizeTarget::AgentWidth, ResizeTarget::MediaWidth]
    );
    let right = solids(root[2]);
    assert_eq!(right.len(), 2);
    assert_eq!(
        row_pane_ids(right[0]),
        vec![PaneId::Preview, PaneId::Inspector]
    );
    assert_eq!(seam_targets(right[0]), vec![ResizeTarget::InspectorWidth]);
    assert_eq!(right[1].kind, PaneNodeKind::TimelineRegion);
}

#[test]
fn vertical_tree_matches_swift() {
    let tree = build_pane_tree(&layout_with(LayoutPreset::Vertical), &sizes());
    let root = solids(&tree);
    assert_eq!(root.len(), 3);
    assert_eq!(root[0].kind, PaneNodeKind::Pane(PaneId::Agent));
    assert_eq!(
        seam_targets(&tree),
        vec![ResizeTarget::AgentWidth, ResizeTarget::VerticalLeftWidth]
    );
    let left = root[1];
    assert_eq!(left.size, PaneSize::Fixed(600.0));
    let left_col = solids(left);
    assert_eq!(left_col.len(), 2);
    assert_eq!(
        row_pane_ids(left_col[0]),
        vec![PaneId::Media, PaneId::Inspector]
    );
    assert_eq!(seam_targets(left_col[0]), vec![ResizeTarget::MediaWidth]);
    let upper = solids(left_col[0]);
    assert_eq!(upper[0].size, PaneSize::Fixed(500.0));
    assert_eq!(upper[1].size, PaneSize::Flex);
    assert_eq!(left_col[1].kind, PaneNodeKind::TimelineRegion);
    assert_eq!(root[2].kind, PaneNodeKind::Pane(PaneId::Preview));
    assert_eq!(root[2].size, PaneSize::Flex);
}

#[test]
fn agent_is_outer_column_in_all_presets() {
    for preset in [
        LayoutPreset::Default,
        LayoutPreset::Media,
        LayoutPreset::Vertical,
    ] {
        let tree = build_pane_tree(&layout_with(preset), &sizes());
        let root = children(&tree);
        assert_eq!(
            root[0].kind,
            PaneNodeKind::Pane(PaneId::Agent),
            "agent must lead in {preset:?}"
        );
        assert_eq!(root[0].size, PaneSize::Fixed(240.0));
        fn count_agents(n: &PaneNode<f32>) -> usize {
            match &n.kind {
                PaneNodeKind::Pane(PaneId::Agent) => 1,
                PaneNodeKind::Row(c) | PaneNodeKind::Column(c) => c.iter().map(count_agents).sum(),
                _ => 0,
            }
        }
        assert_eq!(count_agents(&tree), 1);
    }
}

#[test]
fn hidden_panes_are_pruned_and_lower_fills_empty_upper() {
    let mut layout = layout_with(LayoutPreset::Default);
    layout.toggle_pane(PaneId::Agent);
    let tree = build_pane_tree(&layout, &sizes());
    let root = children(&tree);
    assert_eq!(root.len(), 1, "agent hidden → only preset column");
    let mut max_layout = layout_with(LayoutPreset::Default);
    max_layout.maximize(PaneId::Timeline);
    let tree = build_pane_tree(&max_layout, &sizes());
    let root = children(&tree);
    let col = children(&root[0]);
    assert_eq!(col.len(), 1);
    assert_eq!(col[0].kind, PaneNodeKind::TimelineRegion);
    assert_eq!(col[0].size, PaneSize::Flex, "lower fills when upper empty");
}

#[test]
fn dividers_are_zero_sized_and_never_adjacent() {
    let tree = build_pane_tree(&layout_with(LayoutPreset::Media), &sizes());
    let root = children(&tree);
    for (i, c) in root.iter().enumerate() {
        if c.is_divider() {
            assert_eq!(c.size, PaneSize::Fixed(0.0));
            assert!(i > 0 && i + 1 < root.len());
            assert!(!root[i - 1].is_divider() && !root[i + 1].is_divider());
        }
    }
}

#[test]
fn lone_fixed_pane_stretches() {
    let mut layout = layout_with(LayoutPreset::Vertical);
    layout.maximize(PaneId::Agent);
    let tree = build_pane_tree(&layout, &sizes());
    let root = children(&tree);
    assert_eq!(root.len(), 1);
    assert_eq!(root[0].kind, PaneNodeKind::Pane(PaneId::Agent));
    assert_eq!(root[0].size, PaneSize::Flex);
}

fn count_cards(node: &PaneNode<f32>, id: PaneId) -> usize {
    match &node.kind {
        PaneNodeKind::Row(c) | PaneNodeKind::Column(c) => c.iter().map(|n| count_cards(n, id)).sum(),
        PaneNodeKind::Pane(p) => usize::from(*p == id),
        _ => 0,
    }
}

fn containers_well_placed(node: &PaneNode<f32>) -> bool {
    match &node.kind {
        PaneNodeKind::Row(c) | PaneNodeKind::Column(c) => {
            let seams_ok = c.iter().enumerate().all(|(i, n)| {
                !n.is_divider() || (i > 0 && i + 1 < c.len() && !c[i - 1].is_divider() && !c[i + 1].is_divider())
            });
            let flex_ok = c.is_empty() || c.iter().any(|n| n.size == PaneSize::Flex);
            seams_ok && flex_ok && c.iter().all(containers_well_placed)
        }
        _ => true,
    }
}

#[test]
fn every_visible_pane_appears_once_in_every_preset() {
    for preset in [LayoutPreset::Default, LayoutPreset::Media, LayoutPreset::Vertical] {
        for hidden in [PaneId::Media, PaneId::Preview, PaneId::Inspector, PaneId::Agent] {
            let mut l = layout_with(preset);
            l.toggle_pane(hidden);
            let tree = build_pane_tree(&l, &sizes());
            assert!(containers_well_placed(&tree));
            for id in [PaneId::Media, PaneId::Preview, PaneId::Inspector, PaneId::Agent] {
                let expected = if id == hidden { 0 } else { 1 };
                assert_eq!(count_cards(&tree, id), expected, "{preset:?} without {hidden:?}: {id:?}");
            }
        }
    }
}
