//! Media panel model: its three tabs, the clip kinds of library items and
//! the panel's item list.
use crate::paths::{path_join, path_join_of};
use vstd::prelude::*;

verus! {

/// Kind of a media clip.
#[derive(Debug, Clone, Copy, PartialEq, Eq, Hash, Structural)]
pub enum ClipType {
    Audio,
    Image,
    Lottie,
    Sequence,
    Shape,
    Text,
    Video,
}

/// The three tabs of the media panel.
#[derive(Debug, Clone, Copy, PartialEq, Eq, Hash, Structural)]
pub enum MediaPanelTab {
    Media,
    Captions,
    Music,
}

pub open spec fn media_tab_icon(t: MediaPanelTab) -> Seq<char> {
    match t {
        MediaPanelTab::Media => "folder"@,
        MediaPanelTab::Captions => "captions.bubble"@,
        MediaPanelTab::Music => "music.note"@,
    }
}

pub open spec fn media_tab_label(t: MediaPanelTab) -> Seq<char> {
    match t {
        MediaPanelTab::Media => "Media"@,
        MediaPanelTab::Captions => "Captions"@,
        MediaPanelTab::Music => "Music"@,
    }
}

impl MediaPanelTab {
    pub fn all() -> (r: [MediaPanelTab; 3])
        ensures
            r@ == seq![MediaPanelTab::Media, MediaPanelTab::Captions, MediaPanelTab::Music],
    {
        let r = [MediaPanelTab::Media, MediaPanelTab::Captions, MediaPanelTab::Music];
        assert(r@ =~= seq![MediaPanelTab::Media, MediaPanelTab::Captions, MediaPanelTab::Music]);
        r
    }

    /// Symbol icon name for the tab button.
    pub fn icon_name(&self) -> (s: &'static str)
        ensures
            s@ == media_tab_icon(*self),
    {
        match self {
            MediaPanelTab::Media => "folder",
            MediaPanelTab::Captions => "captions.bubble",
            MediaPanelTab::Music => "music.note",
        }
    }

    /// Display label.
    pub fn label(&self) -> (s: &'static str)
        ensures
            s@ == media_tab_label(*self),
    {
        match self {
            MediaPanelTab::Media => "Media",
            MediaPanelTab::Captions => "Captions",
            MediaPanelTab::Music => "Music",
        }
    }
}

/// Icon glyph for a media clip type.
pub open spec fn tile_icon_spec(kind: ClipType) -> Seq<char> {
    match kind {
        ClipType::Audio => "\u{266a}"@,
        ClipType::Image => "\u{2b1c}"@,
        ClipType::Text => "T"@,
        _ => "\u{25b6}"@,
    }
}

pub fn tile_icon(kind: &ClipType) -> (s: &'static str)
    ensures
        s@ == tile_icon_spec(*kind),
{
    match kind {
        ClipType::Audio => "\u{266a}",
        ClipType::Image => "\u{2b1c}",
        ClipType::Text => "T",
        _ => "\u{25b6}",
    }
}

/// Where a library asset's media lives.
#[derive(Debug, Clone, PartialEq)]
pub enum MediaSource {
    /// An absolute path outside the project.
    External { absolute_path: String },
    /// A path relative to the project root.
    Project { relative_path: String },
}

/// The on-disk candidate for a source: external sources as they are,
/// project sources under the project root when one is known.
pub open spec fn source_candidate_spec(source: MediaSource, project_root: Option<Seq<char>>) -> Option<Seq<char>> {
    match source {
        MediaSource::External { absolute_path } => Some(absolute_path@),
        MediaSource::Project { relative_path } => match project_root {
            Some(root) => Some(path_join_of(root, relative_path@)),
            None => None,
        },
    }
}

/// The path a library asset's thumbnail is read from, before the caller
/// keeps it only when the file exists.
pub fn source_candidate(source: &MediaSource, project_root: Option<&str>) -> (r: Option<String>)
    ensures
        match r {
            Some(p) => source_candidate_spec(*source, match project_root {
                Some(root) => Some(root@),
                None => None,
            }) == Some(p@),
            None => source_candidate_spec(*source, match project_root {
                Some(root) => Some(root@),
                None => None,
            }) is None,
        },
{
    match source {
        MediaSource::External { absolute_path } => Some(absolute_path.clone()),
        MediaSource::Project { relative_path } => match project_root {
            Some(root) => Some(path_join(root, relative_path.as_str())),
            None => None,
        },
    }
}

/// One media entry as shown in the library grid.
#[derive(Debug, Clone)]
pub struct MediaItem {
    pub id: String,
    pub name: String,
    pub kind: ClipType,
    /// Resolved on-disk source (existing files only) for real thumbnails.
    pub source_path: Option<String>,
}

/// Media panel state.
#[derive(Debug, Clone)]
pub struct MediaPanelState {
    pub active_tab: MediaPanelTab,
    pub items: Vec<MediaItem>,
    /// (id, name) of manifest folders, display only.
    pub folders: Vec<(String, String)>,
}

impl MediaPanelState {
    pub fn new() -> (s: Self)
        ensures
            s.active_tab == MediaPanelTab::Media,
            s.items@.len() == 0,
            s.folders@.len() == 0,
    {
        Self { active_tab: MediaPanelTab::Media, items: Vec::new(), folders: Vec::new() }
    }

    pub fn select_tab(&mut self, tab: MediaPanelTab)
        ensures
            final(self).active_tab == tab,
            final(self).items@ == old(self).items@,
            final(self).folders@ == old(self).folders@,
    {
        self.active_tab = tab;
    }

    pub fn is_active(&self, tab: &MediaPanelTab) -> (b: bool)
        ensures
            b == (self.active_tab == *tab),
    {
        self.active_tab == *tab
    }

    /// Replace the item and folder lists; view-only state such as the
    /// active tab is kept.
    pub fn replace_contents(&mut self, items: Vec<MediaItem>, folders: Vec<(String, String)>)
        ensures
            final(self).active_tab == old(self).active_tab,
            final(self).items@ == items@,
            final(self).folders@ == folders@,
    {
        self.items = items;
        self.folders = folders;
    }
}

impl Default for MediaPanelState {
    fn default() -> (s: Self)
        ensures
            s.active_tab == MediaPanelTab::Media,
            s.items@.len() == 0,
            s.folders@.len() == 0,
    {
        Self::new()
    }
}

} // verus!
