//! Editor pane identities, layout presets and the visibility / maximize
//! state machine of the five functional panes.
use vstd::prelude::*;

verus! {

/// The five functional panes of the editor.
#[derive(Debug, Clone, Copy, PartialEq, Eq, Structural)]
pub enum PaneId {
    Media,
    Preview,
    Inspector,
    Timeline,
    Agent,
}

/// Arrangement presets of the editor panes.
#[derive(Debug, Clone, Copy, PartialEq, Eq, Structural)]
pub enum LayoutPreset {
    Default,
    Media,
    Vertical,
}

/// Visibility flag of each pane.
#[derive(Debug, Clone, Copy, PartialEq, Eq, Structural)]
pub struct PaneVisibility {
    pub media: bool,
    pub preview: bool,
    pub inspector: bool,
    pub timeline: bool,
    pub agent: bool,
}

/// Whether `pane` is visible under `v`.
pub open spec fn vis_flag(v: PaneVisibility, pane: PaneId) -> bool {
    match pane {
        PaneId::Media => v.media,
        PaneId::Preview => v.preview,
        PaneId::Inspector => v.inspector,
        PaneId::Timeline => v.timeline,
        PaneId::Agent => v.agent,
    }
}

/// `v` with the flag of `pane` replaced by `b`.
pub open spec fn with_flag(v: PaneVisibility, pane: PaneId, b: bool) -> PaneVisibility {
    match pane {
        PaneId::Media => PaneVisibility { media: b, ..v },
        PaneId::Preview => PaneVisibility { preview: b, ..v },
        PaneId::Inspector => PaneVisibility { inspector: b, ..v },
        PaneId::Timeline => PaneVisibility { timeline: b, ..v },
        PaneId::Agent => PaneVisibility { agent: b, ..v },
    }
}

/// Every pane visible.
pub open spec fn all_visible_spec() -> PaneVisibility {
    PaneVisibility { media: true, preview: true, inspector: true, timeline: true, agent: true }
}

/// Only `pane` visible.
pub open spec fn only_visible(pane: PaneId) -> PaneVisibility {
    PaneVisibility {
        media: pane == PaneId::Media,
        preview: pane == PaneId::Preview,
        inspector: pane == PaneId::Inspector,
        timeline: pane == PaneId::Timeline,
        agent: pane == PaneId::Agent,
    }
}

/// 1 when `b` holds, else 0.
pub open spec fn one_if(b: bool) -> nat {
    if b { 1 } else { 0 }
}

/// Number of visible panes.
pub open spec fn count_visible(v: PaneVisibility) -> nat {
    one_if(v.media) + one_if(v.preview) + one_if(v.inspector) + one_if(v.timeline) + one_if(v.agent)
}

impl PaneVisibility {
    pub fn all_visible() -> (v: Self)
        ensures
            v == all_visible_spec(),
    {
        Self { media: true, preview: true, inspector: true, timeline: true, agent: true }
    }

    pub fn default_visibility() -> (v: Self)
        ensures
            v == all_visible_spec(),
    {
        Self::all_visible()
    }
}

/// Pane layout state.
#[derive(Debug, Clone, Copy)]
pub struct PaneLayout {
    pub visibility: PaneVisibility,
    pub preset: LayoutPreset,
    pub maximized_pane: Option<PaneId>,
    /// Visibility held before a maximize, restored by `unmaximize`.
    pub pre_maximize_visibility: Option<PaneVisibility>,
}

/// A fresh layout: default preset, all panes visible, nothing maximized.
pub open spec fn new_layout_spec() -> PaneLayout {
    PaneLayout {
        visibility: all_visible_spec(),
        preset: LayoutPreset::Default,
        maximized_pane: None,
        pre_maximize_visibility: None,
    }
}

/// Effect of `apply_preset`: the preset changes, visibility never does.
pub open spec fn apply_preset_spec(l: PaneLayout, preset: LayoutPreset) -> PaneLayout {
    PaneLayout { preset, ..l }
}

/// Effect of `toggle_pane`: flips one flag, inert while a pane is maximized.
pub open spec fn toggle_pane_spec(l: PaneLayout, pane: PaneId) -> PaneLayout {
    if l.maximized_pane is Some {
        l
    } else {
        PaneLayout { visibility: with_flag(l.visibility, pane, !vis_flag(l.visibility, pane)), ..l }
    }
}

/// Effect of `maximize`: saves the visibility and shows only `pane`;
/// inert while a pane is already maximized.
pub open spec fn maximize_spec(l: PaneLayout, pane: PaneId) -> PaneLayout {
    if l.maximized_pane is Some {
        l
    } else {
        PaneLayout {
            visibility: only_visible(pane),
            preset: l.preset,
            maximized_pane: Some(pane),
            pre_maximize_visibility: Some(l.visibility),
        }
    }
}

/// Effect of `unmaximize`: restores the saved visibility, if any.
pub open spec fn unmaximize_spec(l: PaneLayout) -> PaneLayout {
    PaneLayout {
        visibility: match l.pre_maximize_visibility {
            Some(saved) => saved,
            None => l.visibility,
        },
        preset: l.preset,
        maximized_pane: None,
        pre_maximize_visibility: None,
    }
}

impl PaneLayout {
    pub fn new() -> (l: Self)
        ensures
            l == new_layout_spec(),
    {
        Self {
            visibility: PaneVisibility::default_visibility(),
            preset: LayoutPreset::Default,
            maximized_pane: None,
            pre_maximize_visibility: None,
        }
    }

    /// Switch the arrangement; each pane keeps its visibility flag.
    pub fn apply_preset(&mut self, preset: LayoutPreset)
        ensures
            *final(self) == apply_preset_spec(*old(self), preset),
    {
        self.preset = preset;
    }

    pub fn toggle_pane(&mut self, pane: PaneId)
        ensures
            *final(self) == toggle_pane_spec(*old(self), pane),
    {
        if self.is_maximized() {
            return;
        }
        match pane {
            PaneId::Media => self.visibility.media = !self.visibility.media,
            PaneId::Preview => self.visibility.preview = !self.visibility.preview,
            PaneId::Inspector => self.visibility.inspector = !self.visibility.inspector,
            PaneId::Timeline => self.visibility.timeline = !self.visibility.timeline,
            PaneId::Agent => self.visibility.agent = !self.visibility.agent,
        }
    }

    pub fn maximize(&mut self, pane: PaneId)
        ensures
            *final(self) == maximize_spec(*old(self), pane),
    {
        if self.is_maximized() {
            return;
        }
        self.pre_maximize_visibility = Some(self.visibility);
        self.maximized_pane = Some(pane);
        self.visibility = PaneVisibility {
            media: pane == PaneId::Media,
            preview: pane == PaneId::Preview,
            inspector: pane == PaneId::Inspector,
            timeline: pane == PaneId::Timeline,
            agent: pane == PaneId::Agent,
        };
    }

    pub fn unmaximize(&mut self)
        ensures
            *final(self) == unmaximize_spec(*old(self)),
    {
        if let Some(saved) = self.pre_maximize_visibility.take() {
            self.visibility = saved;
        }
        self.maximized_pane = None;
    }

    pub fn is_maximized(&self) -> (b: bool)
        ensures
            b == (self.maximized_pane is Some),
    {
        self.maximized_pane.is_some()
    }

    pub fn is_visible(&self, pane: PaneId) -> (b: bool)
        ensures
            b == vis_flag(self.visibility, pane),
    {
        match pane {
            PaneId::Media => self.visibility.media,
            PaneId::Preview => self.visibility.preview,
            PaneId::Inspector => self.visibility.inspector,
            PaneId::Timeline => self.visibility.timeline,
            PaneId::Agent => self.visibility.agent,
        }
    }

    pub fn visible_count(&self) -> (n: usize)
        ensures
            n == count_visible(self.visibility),
    {
        let mut count: usize = 0;
        if self.visibility.media {
            count += 1;
        }
        if self.visibility.preview {
            count += 1;
        }
        if self.visibility.inspector {
            count += 1;
        }
        if self.visibility.timeline {
            count += 1;
        }
        if self.visibility.agent {
            count += 1;
        }
        count
    }
}

impl Default for PaneLayout {
    fn default() -> (l: Self)
        ensures
            l == new_layout_spec(),
    {
        Self::new()
    }
}

/// Maximizing a pane and then unmaximizing restores the visibility held
/// before the maximize, and leaves no pane maximized.
pub proof fn lemma_maximize_then_unmaximize_restores(l: PaneLayout, pane: PaneId)
    requires
        l.maximized_pane is None,
    ensures
        unmaximize_spec(maximize_spec(l, pane)).visibility == l.visibility,
        unmaximize_spec(maximize_spec(l, pane)).maximized_pane is None,
        unmaximize_spec(maximize_spec(l, pane)).preset == l.preset,
{
}

/// While a pane is maximized, exactly that pane is visible.
pub proof fn lemma_maximize_shows_only_that_pane(l: PaneLayout, pane: PaneId, other: PaneId)
    requires
        l.maximized_pane is None,
    ensures
        vis_flag(maximize_spec(l, pane).visibility, other) == (other == pane),
        count_visible(maximize_spec(l, pane).visibility) == 1,
{
}

/// A second maximize while one pane is maximized changes nothing.
pub proof fn lemma_maximize_is_inert_when_maximized(l: PaneLayout, pane: PaneId)
    requires
        l.maximized_pane is Some,
    ensures
        maximize_spec(l, pane) == l,
        toggle_pane_spec(l, pane) == l,
{
}

/// Toggling a pane twice gives back the layout; toggling flips exactly
/// that pane's flag.
pub proof fn lemma_toggle_twice_is_identity(l: PaneLayout, pane: PaneId, other: PaneId)
    ensures
        toggle_pane_spec(toggle_pane_spec(l, pane), pane) == l,
        l.maximized_pane is None ==> vis_flag(toggle_pane_spec(l, pane).visibility, other) == (
        if other == pane {
            !vis_flag(l.visibility, other)
        } else {
            vis_flag(l.visibility, other)
        }),
{
}

/// A preset switch never changes any pane's visibility.
pub proof fn lemma_preset_preserves_visibility(l: PaneLayout, preset: LayoutPreset)
    ensures
        apply_preset_spec(l, preset).visibility == l.visibility,
        apply_preset_spec(l, preset).maximized_pane == l.maximized_pane,
{
}

} // verus!
