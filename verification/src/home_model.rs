//! Data of the home screen: its layout metrics, recent project cards and
//! its navigation actions.
use vstd::prelude::*;

verus! {

/// Layout metrics of the home screen, in whole logical pixels.
pub struct HomeLayout;

impl HomeLayout {
    pub const HEADING_FONT_SIZE: u32 = 28;
    pub const SUBTITLE_FONT_SIZE: u32 = 14;
    pub const CARD_WIDTH: u32 = 150;
    pub const CARD_HEIGHT: u32 = 120;
    pub const CARD_GAP: u32 = 12;
    pub const SECTION_TOP: u32 = 40;
    pub const HEADING_TOP: u32 = 48;
}

/// A recent project entry displayed on the home screen.
#[derive(Debug, Clone, PartialEq)]
pub struct ProjectCard {
    pub name: String,
    pub path: String,
    pub last_opened_label: String,
}

/// Navigation action from the home screen.
#[derive(Debug, Clone, PartialEq)]
pub enum HomeAction {
    NewProject,
    OpenProject,
    OpenProjectAt(usize),
}

} // verus!
