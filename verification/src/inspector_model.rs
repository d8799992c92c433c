//! Inspector panel tabs and the expanded/collapsed state of its sections,
//! the crop presets, kind labels, the clip-relative playhead frame and the
//! shape of a clip selection.
use crate::media_panel_model::ClipType;
use vstd::prelude::*;

verus! {

/// Inspector panel clip tabs.
#[derive(Debug, Clone, Copy, PartialEq, Eq, Structural)]
pub enum InspectorTab {
    /// Text clip properties.
    Text,
    /// Visual clip: volume, transform, playback.
    Video,
    /// Audio clip: volume, speed.
    Audio,
    /// AI editing.
    AiEdit,
}

/// Display label of a tab.
pub open spec fn inspector_tab_label(t: InspectorTab) -> Seq<char> {
    match t {
        InspectorTab::Text => "Text"@,
        InspectorTab::Video => "Video"@,
        InspectorTab::Audio => "Audio"@,
        InspectorTab::AiEdit => "AI Edit"@,
    }
}

impl InspectorTab {
    pub fn label(&self) -> (s: &'static str)
        ensures
            s@ == inspector_tab_label(*self),
    {
        match self {
            InspectorTab::Text => "Text",
            InspectorTab::Video => "Video",
            InspectorTab::Audio => "Audio",
            InspectorTab::AiEdit => "AI Edit",
        }
    }

    /// The four tabs in display order.
    pub fn all_tabs() -> (r: &'static [InspectorTab])
        ensures
            r@ == seq![InspectorTab::Text, InspectorTab::Video, InspectorTab::Audio, InspectorTab::AiEdit],
    {
        let r: &'static [InspectorTab] = &[
            InspectorTab::Text,
            InspectorTab::Video,
            InspectorTab::Audio,
            InspectorTab::AiEdit,
        ];
        assert(r@ =~= seq![InspectorTab::Text, InspectorTab::Video, InspectorTab::Audio, InspectorTab::AiEdit]);
        r
    }
}

/// Inspector panel state.
#[derive(Debug, Clone, Copy)]
pub struct InspectorState {
    pub active_tab: InspectorTab,
    pub transform_expanded: bool,
    pub volume_expanded: bool,
    pub speed_expanded: bool,
}

/// The initial inspector state: Video tab, transform and volume expanded.
pub open spec fn initial_inspector() -> InspectorState {
    InspectorState {
        active_tab: InspectorTab::Video,
        transform_expanded: true,
        volume_expanded: true,
        speed_expanded: false,
    }
}

impl InspectorState {
    pub fn new() -> (s: Self)
        ensures
            s == initial_inspector(),
    {
        Self {
            active_tab: InspectorTab::Video,
            transform_expanded: true,
            volume_expanded: true,
            speed_expanded: false,
        }
    }

    pub fn select_tab(&mut self, tab: InspectorTab)
        ensures
            *final(self) == (InspectorState { active_tab: tab, ..*old(self) }),
    {
        self.active_tab = tab;
    }

    pub fn toggle_transform(&mut self)
        ensures
            *final(self) == (InspectorState {
                transform_expanded: !old(self).transform_expanded,
                ..*old(self)
            }),
    {
        self.transform_expanded = !self.transform_expanded;
    }

    pub fn toggle_volume(&mut self)
        ensures
            *final(self) == (InspectorState { volume_expanded: !old(self).volume_expanded, ..*old(self) }),
    {
        self.volume_expanded = !self.volume_expanded;
    }

    pub fn toggle_speed(&mut self)
        ensures
            *final(self) == (InspectorState { speed_expanded: !old(self).speed_expanded, ..*old(self) }),
    {
        self.speed_expanded = !self.speed_expanded;
    }
}

impl Default for InspectorState {
    fn default() -> (s: Self)
        ensures
            s == initial_inspector(),
    {
        Self::new()
    }
}

/// Crop aspect presets.
#[derive(Debug, Clone, Copy, PartialEq, Eq, Structural)]
pub enum CropAspect {
    Free,
    Original,
    R16x9,
    R9x16,
    R1x1,
    R4x3,
    R3x4,
    R21x9,
}

pub open spec fn crop_aspect_label(a: CropAspect) -> Seq<char> {
    match a {
        CropAspect::Free => "Custom"@,
        CropAspect::Original => "Original"@,
        CropAspect::R16x9 => "16:9"@,
        CropAspect::R9x16 => "9:16"@,
        CropAspect::R1x1 => "1:1"@,
        CropAspect::R4x3 => "4:3"@,
        CropAspect::R3x4 => "3:4"@,
        CropAspect::R21x9 => "21:9"@,
    }
}

/// The ratio a preset locks to, as width and height; `None` for the free
/// and original presets.
pub open spec fn crop_aspect_ratio(a: CropAspect) -> Option<(u32, u32)> {
    match a {
        CropAspect::Free => None,
        CropAspect::Original => None,
        CropAspect::R16x9 => Some((16, 9)),
        CropAspect::R9x16 => Some((9, 16)),
        CropAspect::R1x1 => Some((1, 1)),
        CropAspect::R4x3 => Some((4, 3)),
        CropAspect::R3x4 => Some((3, 4)),
        CropAspect::R21x9 => Some((21, 9)),
    }
}

impl CropAspect {
    /// Every preset in menu order.
    pub fn all() -> (r: [CropAspect; 8])
        ensures
            r@ == seq![CropAspect::Free, CropAspect::Original, CropAspect::R16x9, CropAspect::R9x16,
                CropAspect::R1x1, CropAspect::R4x3, CropAspect::R3x4, CropAspect::R21x9],
    {
        let r = [CropAspect::Free, CropAspect::Original, CropAspect::R16x9, CropAspect::R9x16,
            CropAspect::R1x1, CropAspect::R4x3, CropAspect::R3x4, CropAspect::R21x9];
        assert(r@ =~= seq![CropAspect::Free, CropAspect::Original, CropAspect::R16x9, CropAspect::R9x16,
            CropAspect::R1x1, CropAspect::R4x3, CropAspect::R3x4, CropAspect::R21x9]);
        r
    }

    pub fn label(self) -> (s: &'static str)
        ensures
            s@ == crop_aspect_label(self),
    {
        proof {
            reveal_strlit("Custom");
            reveal_strlit("Original");
            reveal_strlit("16:9");
            reveal_strlit("9:16");
            reveal_strlit("1:1");
            reveal_strlit("4:3");
            reveal_strlit("3:4");
            reveal_strlit("21:9");
        }
        match self {
            CropAspect::Free => "Custom",
            CropAspect::Original => "Original",
            CropAspect::R16x9 => "16:9",
            CropAspect::R9x16 => "9:16",
            CropAspect::R1x1 => "1:1",
            CropAspect::R4x3 => "4:3",
            CropAspect::R3x4 => "3:4",
            CropAspect::R21x9 => "21:9",
        }
    }

    /// The locked ratio as (width, height).
    pub fn ratio(self) -> (r: Option<(u32, u32)>)
        ensures
            r == crop_aspect_ratio(self),
    {
        match self {
            CropAspect::Free => None,
            CropAspect::Original => None,
            CropAspect::R16x9 => Some((16, 9)),
            CropAspect::R9x16 => Some((9, 16)),
            CropAspect::R1x1 => Some((1, 1)),
            CropAspect::R4x3 => Some((4, 3)),
            CropAspect::R3x4 => Some((3, 4)),
            CropAspect::R21x9 => Some((21, 9)),
        }
    }
}

pub open spec fn clip_type_label_spec(t: ClipType) -> Seq<char> {
    match t {
        ClipType::Video => "Video"@,
        ClipType::Audio => "Audio"@,
        ClipType::Image => "Image"@,
        ClipType::Text => "Text"@,
        ClipType::Lottie => "Lottie"@,
        ClipType::Shape => "Shape"@,
        ClipType::Sequence => "Sequence"@,
    }
}

/// Human label for a clip or asset kind.
pub fn clip_type_label(t: ClipType) -> (s: &'static str)
    ensures
        s@ == clip_type_label_spec(t),
{
    proof {
        reveal_strlit("Video");
        reveal_strlit("Audio");
        reveal_strlit("Image");
        reveal_strlit("Text");
        reveal_strlit("Lottie");
        reveal_strlit("Shape");
        reveal_strlit("Sequence");
    }
    match t {
        ClipType::Video => "Video",
        ClipType::Audio => "Audio",
        ClipType::Image => "Image",
        ClipType::Text => "Text",
        ClipType::Lottie => "Lottie",
        ClipType::Shape => "Shape",
        ClipType::Sequence => "Sequence",
    }
}

/// The playhead relative to a clip's start, held inside the clip's range
/// (a negative duration counts as zero).
pub open spec fn clip_local_frame_spec(start_frame: int, duration_frames: int, playhead_frame: int) -> int {
    let hi = if duration_frames > 0 { duration_frames } else { 0 };
    let d = playhead_frame - start_frame;
    if d < 0 {
        0
    } else if d > hi {
        hi
    } else {
        d
    }
}

/// Clip-relative frame for keyframe lookup, clamped to the clip's range.
pub fn clip_local_frame(start_frame: i64, duration_frames: i64, playhead_frame: i64) -> (f: i64)
    requires
        i64::MIN <= playhead_frame - start_frame <= i64::MAX,
    ensures
        f == clip_local_frame_spec(start_frame as int, duration_frames as int, playhead_frame as int),
{
    let hi: i64 = if duration_frames > 0 { duration_frames } else { 0 };
    let d = playhead_frame - start_frame;
    if d < 0 {
        0
    } else if d > hi {
        hi
    } else {
        d
    }
}

/// The shape of a clip selection that decides which inspector tabs show.
#[derive(Debug, Clone, Copy, PartialEq, Eq, Structural)]
pub struct SelectionShape {
    pub text_clips: usize,
    pub non_text_visual_clips: usize,
    pub audio_clips: usize,
    pub has_multicam_group: bool,
    pub ai_eligible: bool,
}

/// Number of `kind` among `kinds`.
pub open spec fn kind_count(kinds: Seq<ClipType>, kind: ClipType) -> nat
    decreases kinds.len(),
{
    if kinds.len() == 0 {
        0
    } else {
        kind_count(kinds.drop_last(), kind) + if kinds.last() == kind {
            1nat
        } else {
            0nat
        }
    }
}

proof fn lemma_kind_counts_bounded(kinds: Seq<ClipType>)
    ensures
        kind_count(kinds, ClipType::Text) + kind_count(kinds, ClipType::Audio) <= kinds.len(),
    decreases kinds.len(),
{
    if kinds.len() > 0 {
        lemma_kind_counts_bounded(kinds.drop_last());
    }
}

fn count_kind_in(kinds: &[ClipType], kind: ClipType) -> (n: usize)
    ensures
        n == kind_count(kinds@, kind),
{
    let mut n: usize = 0;
    let mut i: usize = 0;
    while i < kinds.len()
        invariant
            0 <= i <= kinds@.len(),
            n <= i,
            n == kind_count(kinds@.take(i as int), kind),
        decreases kinds.len() - i,
    {
        assert(kinds@.take(i + 1).drop_last() =~= kinds@.take(i as int));
        if kinds[i] == kind {
            n += 1;
        }
        i += 1;
    }
    assert(kinds@.take(i as int) =~= kinds@);
    n
}

/// The selection shape of the selected clips' kinds (in timeline order):
/// text and audio clips are counted, every other clip is a visual one; any
/// selection may use AI editing.
pub fn tab_selection(kinds: &[ClipType], has_multicam_group: bool) -> (s: SelectionShape)
    ensures
        s.text_clips == kind_count(kinds@, ClipType::Text),
        s.audio_clips == kind_count(kinds@, ClipType::Audio),
        s.non_text_visual_clips == kinds@.len() - kind_count(kinds@, ClipType::Text) - kind_count(kinds@, ClipType::Audio),
        s.has_multicam_group == has_multicam_group,
        s.ai_eligible == (kinds@.len() > 0),
{
    let text = count_kind_in(kinds, ClipType::Text);
    let audio = count_kind_in(kinds, ClipType::Audio);
    proof {
        lemma_kind_counts_bounded(kinds@);
    }
    SelectionShape {
        text_clips: text,
        non_text_visual_clips: kinds.len() - text - audio,
        audio_clips: audio,
        has_multicam_group,
        ai_eligible: kinds.len() > 0,
    }
}

/// The clip-relative frame lies within the clip: it is the playhead's
/// offset from the clip's start while the playhead is inside the clip, the
/// clip's first frame before it, and its end after it.
pub proof fn lemma_clip_local_frame_in_clip(start_frame: int, duration_frames: int, playhead_frame: int)
    ensures
        0 <= clip_local_frame_spec(start_frame, duration_frames, playhead_frame),
        clip_local_frame_spec(start_frame, duration_frames, playhead_frame) <= if duration_frames > 0 { duration_frames } else { 0 },
        start_frame <= playhead_frame <= start_frame + duration_frames ==> clip_local_frame_spec(start_frame, duration_frames, playhead_frame)
            == playhead_frame - start_frame,
        playhead_frame < start_frame ==> clip_local_frame_spec(start_frame, duration_frames, playhead_frame) == 0,
        duration_frames >= 0 && playhead_frame > start_frame + duration_frames ==> clip_local_frame_spec(start_frame, duration_frames, playhead_frame)
            == duration_frames,
{
}

/// Counting clips of a kind adds up over a selection split in two, and a
/// single clip counts once for its own kind and not at all for another.
pub proof fn lemma_kind_count_adds(a: Seq<ClipType>, b: Seq<ClipType>, kind: ClipType, x: ClipType)
    ensures
        kind_count(a + b, kind) == kind_count(a, kind) + kind_count(b, kind),
        kind_count(seq![x], kind) == if x == kind { 1nat } else { 0nat },
    decreases b.len(),
{
    assert(seq![x].drop_last() =~= Seq::<ClipType>::empty());
    assert(kind_count(Seq::<ClipType>::empty(), kind) == 0);
    assert(seq![x].last() == x);
    if b.len() == 0 {
        assert(a + b =~= a);
    } else {
        lemma_kind_count_adds(a, b.drop_last(), kind, x);
        assert((a + b).drop_last() =~= a + b.drop_last());
        assert((a + b).last() == b.last());
    }
}

} // verus!
