//! The '@' mention picker of the agent chat: its filter tabs and the assets
//! it offers.
use vstd::prelude::*;

verus! {

/// Filter tabs of the mention picker.
#[derive(Debug, Clone, Copy, PartialEq, Eq, Structural)]
pub enum MentionFilterTab {
    All,
    Video,
    Image,
    Audio,
}

pub open spec fn mention_tab_label(t: MentionFilterTab) -> Seq<char> {
    match t {
        MentionFilterTab::All => "All"@,
        MentionFilterTab::Video => "Video"@,
        MentionFilterTab::Image => "Image"@,
        MentionFilterTab::Audio => "Audio"@,
    }
}

impl MentionFilterTab {
    pub fn label(&self) -> (s: &'static str)
        ensures
            s@ == mention_tab_label(*self),
    {
        proof {
            reveal_strlit("All");
            reveal_strlit("Video");
            reveal_strlit("Image");
            reveal_strlit("Audio");
        }
        match self {
            MentionFilterTab::All => "All",
            MentionFilterTab::Video => "Video",
            MentionFilterTab::Image => "Image",
            MentionFilterTab::Audio => "Audio",
        }
    }

    /// The tabs in strip order.
    pub fn all() -> (r: [MentionFilterTab; 4])
        ensures
            r@ == seq![MentionFilterTab::All, MentionFilterTab::Video, MentionFilterTab::Image, MentionFilterTab::Audio],
    {
        let r = [MentionFilterTab::All, MentionFilterTab::Video, MentionFilterTab::Image, MentionFilterTab::Audio];
        assert(r@ =~= seq![MentionFilterTab::All, MentionFilterTab::Video, MentionFilterTab::Image, MentionFilterTab::Audio]);
        r
    }
}

/// An asset the picker offers.
#[derive(Debug, Clone, PartialEq)]
pub struct MentionCandidate {
    pub id: String,
    pub name: String,
    pub media_type: String,
}

/// State of the picker: the typed query, the active tab and the offers.
#[derive(Debug, Clone)]
pub struct MentionPopoverState {
    pub query: String,
    pub active_tab: MentionFilterTab,
    pub candidates: Vec<MentionCandidate>,
}

pub open spec fn candidate_view(c: MentionCandidate) -> (Seq<char>, Seq<char>, Seq<char>) {
    (c.id@, c.name@, c.media_type@)
}

fn candidate(id: &str, name: &str, media_type: &str) -> (c: MentionCandidate)
    ensures
        candidate_view(c) == (id@, name@, media_type@),
{
    MentionCandidate {
        id: String::from_str(id),
        name: String::from_str(name),
        media_type: String::from_str(media_type),
    }
}

impl Default for MentionPopoverState {
    /// An empty query on the All tab, with three sample assets.
    fn default() -> (s: Self)
        ensures
            s.query@ == Seq::<char>::empty(),
            s.active_tab == MentionFilterTab::All,
            s.candidates@.map_values(|c: MentionCandidate| candidate_view(c)) == seq![
                ("1"@, "Interview A-roll"@, "Video"@),
                ("2"@, "Background music"@, "Audio"@),
                ("3"@, "Title card"@, "Image"@),
            ],
    {
        let mut candidates: Vec<MentionCandidate> = Vec::new();
        candidates.push(candidate("1", "Interview A-roll", "Video"));
        candidates.push(candidate("2", "Background music", "Audio"));
        candidates.push(candidate("3", "Title card", "Image"));
        assert(candidates@.map_values(|c: MentionCandidate| candidate_view(c)) =~= seq![
            ("1"@, "Interview A-roll"@, "Video"@),
            ("2"@, "Background music"@, "Audio"@),
            ("3"@, "Title card"@, "Image"@),
        ]);
        MentionPopoverState { query: String::new(), active_tab: MentionFilterTab::All, candidates }
    }
}

} // verus!
