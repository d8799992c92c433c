//! Captions and music tabs: which timeline clips a caption run targets, the
//! source summary, the agent prompts, and the music model choice.
use crate::generation_panel::opt_string_view;
use crate::generation_model::{
    first_id_index, has_inflight_generation, lemma_first_id_index, status_inflight, ModelCaps, ModelConfig,
};
use crate::http_generation_backend::opt_view;
use crate::media_panel_model::ClipType;
use crate::text::{append_decimal, append_i64, decimal, lowercase_of, signed_decimal, to_lowercase, trim, trim_spec};
use vstd::prelude::*;

verus! {

/// Letter case applied to generated captions.
#[derive(Debug, Clone, Copy, PartialEq, Eq, Structural)]
pub enum CaptionCase {
    Auto,
    Upper,
    Lower,
}

pub open spec fn caption_case_label(c: CaptionCase) -> Seq<char> {
    match c {
        CaptionCase::Auto => "Auto"@,
        CaptionCase::Upper => "UPPERCASE"@,
        CaptionCase::Lower => "lowercase"@,
    }
}

/// The case's value in a caption request.
pub open spec fn caption_case_value(c: CaptionCase) -> Seq<char> {
    match c {
        CaptionCase::Auto => "auto"@,
        CaptionCase::Upper => "upper"@,
        CaptionCase::Lower => "lower"@,
    }
}

impl CaptionCase {
    pub fn all() -> (r: [CaptionCase; 3])
        ensures
            r@ == seq![CaptionCase::Auto, CaptionCase::Upper, CaptionCase::Lower],
    {
        let r = [CaptionCase::Auto, CaptionCase::Upper, CaptionCase::Lower];
        assert(r@ =~= seq![CaptionCase::Auto, CaptionCase::Upper, CaptionCase::Lower]);
        r
    }

    pub fn label(&self) -> (s: &'static str)
        ensures
            s@ == caption_case_label(*self),
    {
        proof {
            reveal_strlit("Auto");
            reveal_strlit("UPPERCASE");
            reveal_strlit("lowercase");
        }
        match self {
            CaptionCase::Auto => "Auto",
            CaptionCase::Upper => "UPPERCASE",
            CaptionCase::Lower => "lowercase",
        }
    }

    pub fn config_value(&self) -> (s: &'static str)
        ensures
            s@ == caption_case_value(*self),
    {
        proof {
            reveal_strlit("auto");
            reveal_strlit("upper");
            reveal_strlit("lower");
        }
        match self {
            CaptionCase::Auto => "auto",
            CaptionCase::Upper => "upper",
            CaptionCase::Lower => "lower",
        }
    }
}

impl Default for CaptionCase {
    fn default() -> (c: Self)
        ensures
            c == CaptionCase::Auto,
    {
        CaptionCase::Auto
    }
}

/// A timeline clip as the captions tab sees it.
#[derive(Debug, Clone, PartialEq)]
pub struct CaptionClip {
    pub id: String,
    /// The kind of media the clip plays.
    pub kind: ClipType,
}

/// A timeline track as the captions tab sees it.
#[derive(Debug, Clone, PartialEq)]
pub struct CaptionTrack {
    pub id: String,
    /// The track's short display label, such as "V1" or "A1".
    pub label: String,
    pub clips: Vec<CaptionClip>,
}

/// The timeline's tracks in order, and the ids of the selected clips.
#[derive(Debug, Clone, PartialEq)]
pub struct CaptionTimeline {
    pub tracks: Vec<CaptionTrack>,
    pub selected_clip_ids: Vec<String>,
}

/// Audio and video clips can be transcribed; other kinds cannot.
pub open spec fn captionable(c: CaptionClip) -> bool {
    c.kind == ClipType::Audio || c.kind == ClipType::Video
}

/// Ids of the captionable clips among `clips`, in order.
pub open spec fn captionable_in(clips: Seq<CaptionClip>) -> Seq<Seq<char>>
    decreases clips.len(),
{
    if clips.len() == 0 {
        Seq::empty()
    } else {
        captionable_in(clips.drop_last()) + if captionable(clips.last()) { seq![clips.last().id@] } else { Seq::empty() }
    }
}

/// Ids of the captionable clips of the tracks with id `track` (of every
/// track when `track` is `None`), in timeline order.
pub open spec fn captionable_ids_spec(tracks: Seq<CaptionTrack>, track: Option<Seq<char>>) -> Seq<Seq<char>>
    decreases tracks.len(),
{
    if tracks.len() == 0 {
        Seq::empty()
    } else {
        let t = tracks.last();
        let in_scope = match track {
            Some(id) => t.id@ == id,
            None => true,
        };
        captionable_ids_spec(tracks.drop_last(), track) + if in_scope { captionable_in(t.clips@) } else { Seq::empty() }
    }
}

pub open spec fn strs(v: Seq<String>) -> Seq<Seq<char>> {
    v.map_values(|s: String| s@)
}

/// Ids of the selected captionable clips among `clips`, in order.
pub open spec fn selected_in(clips: Seq<CaptionClip>, selected: Seq<Seq<char>>) -> Seq<Seq<char>>
    decreases clips.len(),
{
    if clips.len() == 0 {
        Seq::empty()
    } else {
        let c = clips.last();
        selected_in(clips.drop_last(), selected) + if captionable(c) && selected.contains(c.id@) { seq![c.id@] } else { Seq::empty() }
    }
}

/// Ids of the selected captionable clips, in timeline order.
pub open spec fn selected_ids_spec(tracks: Seq<CaptionTrack>, selected: Seq<Seq<char>>) -> Seq<Seq<char>>
    decreases tracks.len(),
{
    if tracks.len() == 0 {
        Seq::empty()
    } else {
        selected_ids_spec(tracks.drop_last(), selected) + selected_in(tracks.last().clips@, selected)
    }
}

pub open spec fn opt_str_view(o: Option<&str>) -> Option<Seq<char>> {
    match o {
        Some(s) => Some(s@),
        None => None,
    }
}

fn push_captionable(out: &mut Vec<String>, clips: &Vec<CaptionClip>, selected: Option<&Vec<String>>)
    ensures
        strs(final(out)@) == strs(old(out)@) + match selected {
            Some(sel) => selected_in(clips@, strs(sel@)),
            None => captionable_in(clips@),
        },
{
    let ghost start = strs(out@);
    let mut i: usize = 0;
    while i < clips.len()
        invariant
            0 <= i <= clips@.len(),
            strs(out@) == start + match selected {
                Some(sel) => selected_in(clips@.take(i as int), strs(sel@)),
                None => captionable_in(clips@.take(i as int)),
            },
        decreases clips.len() - i,
    {
        let c = &clips[i];
        assert(clips@.take(i + 1).drop_last() =~= clips@.take(i as int));
        assert(clips@.take(i + 1).last() == *c);
        let keep = (c.kind == ClipType::Audio || c.kind == ClipType::Video) && match selected {
            Some(sel) => contains_id(sel, &c.id),
            None => true,
        };
        let ghost before = strs(out@);
        if keep {
            out.push(c.id.clone());
            assert(strs(out@) =~= before + seq![c.id@]);
        } else {
            assert(strs(out@) =~= before + Seq::<Seq<char>>::empty());
        }
        i += 1;
    }
    assert(clips@.take(i as int) =~= clips@);
}

fn contains_id(v: &Vec<String>, id: &String) -> (b: bool)
    ensures
        b == strs(v@).contains(id@),
{
    let mut i: usize = 0;
    while i < v.len()
        invariant
            0 <= i <= v@.len(),
            forall|k: int| 0 <= k < i ==> (#[trigger] v@[k])@ != id@,
        decreases v.len() - i,
    {
        if v[i] == *id {
            assert(strs(v@)[i as int] == id@);
            return true;
        }
        i += 1;
    }
    assert forall|k: int| 0 <= k < strs(v@).len() implies strs(v@)[k] != id@ by {
        assert(strs(v@)[k] == v@[k]@);
    }
    false
}

/// Captionable clip ids, optionally limited to the tracks with one id.
pub fn captionable_clip_ids(timeline: &CaptionTimeline, track_id: Option<&str>) -> (r: Vec<String>)
    ensures
        strs(r@) == captionable_ids_spec(timeline.tracks@, opt_str_view(track_id)),
{
    let key = match track_id {
        Some(t) => Some(String::from_str(t)),
        None => None,
    };
    let mut out: Vec<String> = Vec::new();
    let mut i: usize = 0;
    while i < timeline.tracks.len()
        invariant
            0 <= i <= timeline.tracks@.len(),
            match key {
                Some(k) => track_id matches Some(t) && k@ == t@,
                None => track_id is None,
            },
            strs(out@) == captionable_ids_spec(timeline.tracks@.take(i as int), opt_str_view(track_id)),
        decreases timeline.tracks.len() - i,
    {
        let t = &timeline.tracks[i];
        assert(timeline.tracks@.take(i + 1).drop_last() =~= timeline.tracks@.take(i as int));
        assert(timeline.tracks@.take(i + 1).last() == *t);
        let in_scope = match &key {
            Some(k) => t.id == *k,
            None => true,
        };
        let ghost before = strs(out@);
        if in_scope {
            push_captionable(&mut out, &t.clips, None);
        } else {
            assert(strs(out@) =~= before + Seq::<Seq<char>>::empty());
        }
        i += 1;
    }
    assert(timeline.tracks@.take(i as int) =~= timeline.tracks@);
    out
}

/// Ids of the selected clips that can be captioned, in timeline order.
pub fn selected_captionable_ids(timeline: &CaptionTimeline) -> (r: Vec<String>)
    ensures
        strs(r@) == selected_ids_spec(timeline.tracks@, strs(timeline.selected_clip_ids@)),
{
    let mut out: Vec<String> = Vec::new();
    let mut i: usize = 0;
    while i < timeline.tracks.len()
        invariant
            0 <= i <= timeline.tracks@.len(),
            strs(out@) == selected_ids_spec(timeline.tracks@.take(i as int), strs(timeline.selected_clip_ids@)),
        decreases timeline.tracks.len() - i,
    {
        let t = &timeline.tracks[i];
        assert(timeline.tracks@.take(i + 1).drop_last() =~= timeline.tracks@.take(i as int));
        assert(timeline.tracks@.take(i + 1).last() == *t);
        push_captionable(&mut out, &t.clips, Some(&timeline.selected_clip_ids));
        i += 1;
    }
    assert(timeline.tracks@.take(i as int) =~= timeline.tracks@);
    out
}

/// Rows of the caption source menu: each track with something to caption,
/// as (track id, label, number of captionable clips).
pub open spec fn track_entries_spec(tracks: Seq<CaptionTrack>) -> Seq<(Seq<char>, Seq<char>, nat)>
    decreases tracks.len(),
{
    if tracks.len() == 0 {
        Seq::empty()
    } else {
        let t = tracks.last();
        let n = captionable_in(t.clips@).len();
        track_entries_spec(tracks.drop_last()) + if n > 0 { seq![(t.id@, t.label@, n)] } else { Seq::empty() }
    }
}

pub open spec fn entry_view(e: (String, String, usize)) -> (Seq<char>, Seq<char>, nat) {
    (e.0@, e.1@, e.2 as nat)
}

proof fn lemma_captionable_in_len(clips: Seq<CaptionClip>)
    ensures
        captionable_in(clips).len() <= clips.len(),
    decreases clips.len(),
{
    if clips.len() > 0 {
        lemma_captionable_in_len(clips.drop_last());
    }
}

/// Rows of the caption source menu: (track id, label, captionable clips)
/// for each track that has any.
pub fn caption_track_entries(timeline: &CaptionTimeline) -> (r: Vec<(String, String, usize)>)
    ensures
        r@.map_values(|e: (String, String, usize)| entry_view(e)) == track_entries_spec(timeline.tracks@),
{
    let mut out: Vec<(String, String, usize)> = Vec::new();
    let mut i: usize = 0;
    while i < timeline.tracks.len()
        invariant
            0 <= i <= timeline.tracks@.len(),
            out@.map_values(|e: (String, String, usize)| entry_view(e)) == track_entries_spec(timeline.tracks@.take(i as int)),
        decreases timeline.tracks.len() - i,
    {
        let t = &timeline.tracks[i];
        assert(timeline.tracks@.take(i + 1).drop_last() =~= timeline.tracks@.take(i as int));
        assert(timeline.tracks@.take(i + 1).last() == *t);
        let mut ids: Vec<String> = Vec::new();
        push_captionable(&mut ids, &t.clips, None);
        assert(strs(ids@) =~= captionable_in(t.clips@));
        let ghost before = out@;
        if ids.len() > 0 {
            out.push((t.id.clone(), t.label.clone(), ids.len()));
            assert(out@.map_values(|e: (String, String, usize)| entry_view(e))
                =~= before.map_values(|e: (String, String, usize)| entry_view(e)).push((t.id@, t.label@, captionable_in(t.clips@).len())));
        } else {
            assert(out@ == before);
        }
        i += 1;
    }
    assert(timeline.tracks@.take(i as int) =~= timeline.tracks@);
    out
}

/// The clips a caption run targets: the chosen track's captionable clips;
/// with no track chosen, the selected captionable clips, or every
/// captionable clip when none is selected.
pub open spec fn source_ids_spec(tl: CaptionTimeline, track: Option<Seq<char>>) -> Seq<Seq<char>> {
    match track {
        Some(id) => captionable_ids_spec(tl.tracks@, Some(id)),
        None => {
            let selected = selected_ids_spec(tl.tracks@, strs(tl.selected_clip_ids@));
            if selected.len() > 0 {
                selected
            } else {
                captionable_ids_spec(tl.tracks@, None)
            }
        },
    }
}

/// The clip ids a caption run targets.
pub fn caption_source_ids(timeline: &CaptionTimeline, selected_track: Option<&str>) -> (r: Vec<String>)
    ensures
        strs(r@) == source_ids_spec(*timeline, opt_str_view(selected_track)),
{
    match selected_track {
        Some(id) => captionable_clip_ids(timeline, Some(id)),
        None => {
            let selected = selected_captionable_ids(timeline);
            if selected.len() > 0 {
                selected
            } else {
                captionable_clip_ids(timeline, None)
            }
        },
    }
}

/// How many clips a caption run would target.
pub fn caption_effective_count(timeline: &CaptionTimeline, selected_track: Option<&str>) -> (n: usize)
    ensures
        n == source_ids_spec(*timeline, opt_str_view(selected_track)).len(),
{
    caption_source_ids(timeline, selected_track).len()
}

/// Index of the first track with id `id`.
pub open spec fn track_index(tracks: Seq<CaptionTrack>, id: Seq<char>) -> Option<int>
    decreases tracks.len(),
{
    if tracks.len() == 0 {
        None
    } else {
        match track_index(tracks.drop_last(), id) {
            Some(i) => Some(i),
            None => if tracks.last().id@ == id {
                Some(tracks.len() - 1)
            } else {
                None
            },
        }
    }
}

proof fn lemma_track_index(tracks: Seq<CaptionTrack>, id: Seq<char>)
    ensures
        match track_index(tracks, id) {
            Some(i) => 0 <= i < tracks.len() && tracks[i].id@ == id,
            None => true,
        },
    decreases tracks.len(),
{
    if tracks.len() > 0 {
        lemma_track_index(tracks.drop_last(), id);
    }
}

/// The caption source line: "<label> · <count>" for a chosen track ("No
/// track" when it is gone), else "Selected Clips · <count>", "No audio" or
/// "Auto".
pub open spec fn source_summary_spec(tl: CaptionTimeline, track: Option<Seq<char>>) -> Seq<char> {
    match track {
        Some(id) => match track_index(tl.tracks@, id) {
            None => "No track"@,
            Some(i) => tl.tracks@[i].label@ + " · "@ + decimal(captionable_ids_spec(tl.tracks@, Some(id)).len()),
        },
        None => {
            let selected = selected_ids_spec(tl.tracks@, strs(tl.selected_clip_ids@));
            if selected.len() > 0 {
                "Selected Clips · "@ + decimal(selected.len())
            } else if captionable_ids_spec(tl.tracks@, None).len() == 0 {
                "No audio"@
            } else {
                "Auto"@
            }
        },
    }
}

fn find_track(tracks: &Vec<CaptionTrack>, id: &str) -> (r: Option<usize>)
    ensures
        match r {
            Some(i) => track_index(tracks@, id@) == Some(i as int),
            None => track_index(tracks@, id@) is None,
        },
{
    let key = String::from_str(id);
    let mut i: usize = 0;
    while i < tracks.len()
        invariant
            key@ == id@,
            0 <= i <= tracks@.len(),
            track_index(tracks@.take(i as int), id@) is None,
        decreases tracks.len() - i,
    {
        assert(tracks@.take(i + 1).drop_last() =~= tracks@.take(i as int));
        if tracks[i].id == key {
            assert(track_index(tracks@.take(i + 1), id@) == Some(i as int));
            proof {
                lemma_track_index_prefix(tracks@, id@, i as int + 1);
            }
            return Some(i);
        }
        i += 1;
    }
    assert(tracks@.take(i as int) =~= tracks@);
    None
}

proof fn lemma_track_index_prefix(tracks: Seq<CaptionTrack>, id: Seq<char>, n: int)
    requires
        0 <= n <= tracks.len(),
        track_index(tracks.take(n), id) is Some,
    ensures
        track_index(tracks, id) == track_index(tracks.take(n), id),
    decreases tracks.len() - n,
{
    if n < tracks.len() {
        assert(tracks.take(n + 1).drop_last() =~= tracks.take(n));
        lemma_track_index_prefix(tracks, id, n + 1);
    } else {
        assert(tracks.take(n) =~= tracks);
    }
}

/// The caption source line shown above the Generate button.
pub fn caption_source_summary(timeline: &CaptionTimeline, selected_track: Option<&str>) -> (s: String)
    ensures
        s@ == source_summary_spec(*timeline, opt_str_view(selected_track)),
{
    proof {
        reveal_strlit("No track");
        reveal_strlit(" · ");
        reveal_strlit("Selected Clips · ");
        reveal_strlit("No audio");
        reveal_strlit("Auto");
    }
    if let Some(track_id) = selected_track {
        let index = match find_track(&timeline.tracks, track_id) {
            Some(i) => i,
            None => return String::from_str("No track"),
        };
        proof {
            lemma_track_index(timeline.tracks@, track_id@);
        }
        let count = captionable_clip_ids(timeline, Some(track_id)).len();
        let mut s = timeline.tracks[index].label.clone();
        s.append(" · ");
        append_decimal(&mut s, count as u128);
        return s;
    }
    let selected = selected_captionable_ids(timeline);
    if selected.len() > 0 {
        let mut s = String::from_str("Selected Clips · ");
        append_decimal(&mut s, selected.len() as u128);
        return s;
    }
    if captionable_clip_ids(timeline, None).len() == 0 {
        String::from_str("No audio")
    } else {
        String::from_str("Auto")
    }
}

pub open spec fn caption_prompt_prefix() -> Seq<char> {
    "If the timeline has no captions yet, transcribe the spoken audio and add captions on word boundaries first. Then "@
}

/// The agent prompt for a caption task: transcribe first when there are no
/// captions, then the task.
pub fn caption_agent_prompt(task: &str) -> (s: String)
    ensures
        s@ == caption_prompt_prefix() + task@,
{
    let mut s = String::from_str(
        "If the timeline has no captions yet, transcribe the spoken audio and add captions on word boundaries first. Then ",
    );
    proof {
        reveal_strlit("If the timeline has no captions yet, transcribe the spoken audio and add captions on word boundaries first. Then ");
    }
    s.append(task);
    s
}

/// The caption task that translates the captions into `language`.
pub fn caption_translate_task(language: &str) -> (s: String)
    ensures
        s@ == "translate the captions to "@ + language@ + ", keeping each caption's timing unchanged."@,
{
    proof {
        reveal_strlit("translate the captions to ");
        reveal_strlit(", keeping each caption's timing unchanged.");
    }
    let mut s = String::from_str("translate the captions to ");
    s.append(language);
    s.append(", keeping each caption's timing unchanged.");
    s
}

/// Caption agent tasks: (menu label, task text).
pub fn caption_agent_tasks() -> (r: [(&'static str, &'static str); 3])
    ensures
        r[0].0@ == "Remove filler words"@,
        r[0].1@ == "remove filler words (um, uh, er, like, you know) from the captions, keeping each caption's timing unchanged."@,
        r[1].0@ == "Fix names & jargon"@,
        r[1].1@ == "fix any misspelled names, brand names, or technical jargon in the captions using the surrounding context, keeping timing unchanged."@,
        r[2].0@ == "Add emoji"@,
        r[2].1@ == "add relevant emoji to the captions, keeping the text and timing otherwise unchanged."@,
{
    [
        ("Remove filler words", "remove filler words (um, uh, er, like, you know) from the captions, keeping each caption's timing unchanged."),
        ("Fix names & jargon", "fix any misspelled names, brand names, or technical jargon in the captions using the surrounding context, keeping timing unchanged."),
        ("Add emoji", "add relevant emoji to the captions, keeping the text and timing otherwise unchanged."),
    ]
}

/// Languages the caption agent offers to translate into.
pub fn caption_translate_languages() -> (r: [&'static str; 10])
    ensures
        r[0]@ == "Spanish"@,
        r[1]@ == "French"@,
        r[2]@ == "German"@,
        r[3]@ == "Italian"@,
        r[4]@ == "Portuguese"@,
        r[5]@ == "Japanese"@,
        r[6]@ == "Korean"@,
        r[7]@ == "Chinese"@,
        r[8]@ == "Hindi"@,
        r[9]@ == "Arabic"@,
{
    ["Spanish", "French", "German", "Italian", "Portuguese", "Japanese", "Korean", "Chinese", "Hindi", "Arabic"]
}

/// The caption languages offered: (locale tag, display name).
pub open spec fn caption_language_table() -> Seq<(Seq<char>, Seq<char>)> {
    seq![
        ("en-US"@, "English"@),
        ("es-ES"@, "Spanish"@),
        ("fr-FR"@, "French"@),
        ("de-DE"@, "German"@),
        ("it-IT"@, "Italian"@),
        ("pt-BR"@, "Portuguese"@),
        ("ja-JP"@, "Japanese"@),
        ("ko-KR"@, "Korean"@),
        ("zh-TW"@, "Chinese"@),
        ("hi-IN"@, "Hindi"@),
        ("ar-SA"@, "Arabic"@),
    ]
}

/// The caption languages offered, as (locale tag, display name).
pub fn caption_languages() -> (r: [(&'static str, &'static str); 11])
    ensures
        r@.len() == caption_language_table().len(),
        forall|i: int| 0 <= i < 11 ==> (#[trigger] r@[i]).0@ == caption_language_table()[i].0 && r@[i].1@
            == caption_language_table()[i].1,
{
    let r = [
        ("en-US", "English"),
        ("es-ES", "Spanish"),
        ("fr-FR", "French"),
        ("de-DE", "German"),
        ("it-IT", "Italian"),
        ("pt-BR", "Portuguese"),
        ("ja-JP", "Japanese"),
        ("ko-KR", "Korean"),
        ("zh-TW", "Chinese"),
        ("hi-IN", "Hindi"),
        ("ar-SA", "Arabic"),
    ];
    assert forall|i: int| 0 <= i < 11 implies (#[trigger] r@[i]).0@ == caption_language_table()[i].0 && r@[i].1@
        == caption_language_table()[i].1 by {
        if i == 0 {} else if i == 1 {} else if i == 2 {} else if i == 3 {} else if i == 4 {} else if i == 5 {}
        else if i == 6 {} else if i == 7 {} else if i == 8 {} else if i == 9 {} else {}
    }
    r
}

/// The display name of the first language of `t` tagged `tag`.
pub open spec fn language_name(t: Seq<(Seq<char>, Seq<char>)>, tag: Seq<char>) -> Option<Seq<char>>
    decreases t.len(),
{
    if t.len() == 0 {
        None
    } else if t[0].0 == tag {
        Some(t[0].1)
    } else {
        language_name(t.drop_first(), tag)
    }
}

/// The caption-language button label: the language's name when the tag
/// is an offered one, the tag itself otherwise, `Auto` when unset.
pub open spec fn caption_language_label_spec(language: Option<Seq<char>>) -> Seq<char> {
    match language {
        None => "Auto"@,
        Some(tag) => match language_name(caption_language_table(), tag) {
            Some(name) => name,
            None => tag,
        },
    }
}

/// The caption-language button label; see `caption_language_label_spec`.
pub fn caption_language_label(language: Option<&str>) -> (s: String)
    ensures
        s@ == caption_language_label_spec(opt_str_view(language)),
{
    let tag = match language {
        None => {
            return String::from_str("Auto");
        },
        Some(t) => t,
    };
    let table = caption_languages();
    let key = String::from_str(tag);
    let ghost t = caption_language_table();
    let mut i: usize = 0;
    assert(t.skip(0) =~= t);
    while i < 11
        invariant
            0 <= i <= 11,
            key@ == tag@,
            language == Some(tag),
            t == caption_language_table(),
            forall|k: int| 0 <= k < 11 ==> (#[trigger] table@[k]).0@ == t[k].0 && table@[k].1@ == t[k].1,
            language_name(t, tag@) == language_name(t.skip(i as int), tag@),
        decreases 11 - i,
    {
        let (a, b) = table[i];
        let entry = String::from_str(a);
        assert(t.skip(i as int)[0] == t[i as int]);
        assert(t.skip(i as int).drop_first() =~= t.skip(i + 1));
        assert(table@[i as int].0@ == t[i as int].0);
        assert(a@ == t[i as int].0 && b@ == t[i as int].1);
        if entry == key {
            assert(language_name(t.skip(i as int), tag@) == Some(t[i as int].1));
            return String::from_str(b);
        }
        i += 1;
    }
    assert(t.skip(11) =~= Seq::<(Seq<char>, Seq<char>)>::empty());
    String::from_str(tag)
}

/// A caption source row: the track label and its clip count, `clip` for
/// one and `clips` otherwise.
pub fn caption_track_row_label(label: &str, count: usize) -> (s: String)
    ensures
        s@ == label@ + " · "@ + decimal(count as nat) + if count == 1 {
            " clip"@
        } else {
            " clips"@
        },
{
    let mut s = String::from_str(label);
    s.append(" · ");
    append_decimal(&mut s, count as u128);
    if count == 1 {
        s.append(" clip");
    } else {
        s.append(" clips");
    }
    s
}

/// Captions cannot be generated with no clip to caption or while a run is
/// under way.
pub fn captions_generate_disabled(effective_count: usize, is_generating: bool) -> (b: bool)
    ensures
        b == (effective_count == 0 || is_generating),
{
    effective_count == 0 || is_generating
}

/// Music can be generated with a model, no validation note, and no run
/// under way.
pub fn music_can_generate(has_model: bool, validation: &Option<String>, is_generating: bool) -> (b: bool)
    ensures
        b == (has_model && validation is None && !is_generating),
{
    has_model && validation.is_none() && !is_generating
}

/// The captions tab's dropdowns.
#[derive(Debug, Clone, Copy, PartialEq, Eq, Structural)]
pub enum CaptionsMenu {
    Source,
    Language,
    Font,
    Case,
    Agent,
    AgentTranslate,
}

/// The music tab's dropdowns.
#[derive(Debug, Clone, Copy, PartialEq, Eq, Structural)]
pub enum MusicMenu {
    Input,
    Model,
    Agent,
    AgentMood,
}

/// The open captions dropdown after its button is clicked: a click on the
/// open menu's button closes it (the agent button also closes the
/// translate submenu); any other click opens that menu.
pub open spec fn captions_menu_after_click(current: Option<CaptionsMenu>, clicked: CaptionsMenu) -> Option<CaptionsMenu> {
    let closes = current == Some(clicked) || (clicked == CaptionsMenu::Agent && current == Some(
        CaptionsMenu::AgentTranslate,
    ));
    if closes {
        None
    } else {
        Some(clicked)
    }
}

pub fn toggle_captions_menu(current: Option<CaptionsMenu>, clicked: CaptionsMenu) -> (r: Option<CaptionsMenu>)
    ensures
        r == captions_menu_after_click(current, clicked),
{
    let closes = match current {
        Some(m) => m == clicked || (clicked == CaptionsMenu::Agent && m == CaptionsMenu::AgentTranslate),
        None => false,
    };
    if closes {
        None
    } else {
        Some(clicked)
    }
}

/// The open music dropdown after its button is clicked: a click on the
/// open menu's button closes it (the agent button also closes the mood
/// submenu); any other click opens that menu.
pub open spec fn music_menu_after_click(current: Option<MusicMenu>, clicked: MusicMenu) -> Option<MusicMenu> {
    let closes = current == Some(clicked) || (clicked == MusicMenu::Agent && current == Some(MusicMenu::AgentMood));
    if closes {
        None
    } else {
        Some(clicked)
    }
}

pub fn toggle_music_menu(current: Option<MusicMenu>, clicked: MusicMenu) -> (r: Option<MusicMenu>)
    ensures
        r == music_menu_after_click(current, clicked),
{
    let closes = match current {
        Some(m) => m == clicked || (clicked == MusicMenu::Agent && m == MusicMenu::AgentMood),
        None => false,
    };
    if closes {
        None
    } else {
        Some(clicked)
    }
}

/// Clicking a dropdown's button twice leaves it as it was when it was
/// closed: open, then closed again.
pub proof fn lemma_menu_click_twice_closes(clicked: CaptionsMenu, m: MusicMenu)
    ensures
        captions_menu_after_click(captions_menu_after_click(None, clicked), clicked) is None,
        music_menu_after_click(music_menu_after_click(None, m), m) is None,
{
}

/// How the music tab generates.
#[derive(Debug, Clone, Copy, PartialEq, Eq, Structural)]
pub enum MusicMode {
    VideoToMusic,
    TextToMusic,
}

pub open spec fn music_mode_label(m: MusicMode) -> Seq<char> {
    match m {
        MusicMode::VideoToMusic => "Video to Music"@,
        MusicMode::TextToMusic => "Text to Music"@,
    }
}

impl MusicMode {
    pub fn label(&self) -> (s: &'static str)
        ensures
            s@ == music_mode_label(*self),
    {
        proof {
            reveal_strlit("Video to Music");
            reveal_strlit("Text to Music");
        }
        match self {
            MusicMode::VideoToMusic => "Video to Music",
            MusicMode::TextToMusic => "Text to Music",
        }
    }
}

impl Default for MusicMode {
    fn default() -> (m: Self)
        ensures
            m == MusicMode::VideoToMusic,
    {
        MusicMode::VideoToMusic
    }
}

pub open spec fn is_music_model(m: ModelConfig) -> bool {
    match m.caps {
        ModelCaps::Audio(c) => c.is_music,
        _ => false,
    }
}

/// The music models of the catalog, in catalog order.
pub open spec fn music_models_spec(c: Seq<ModelConfig>) -> Seq<ModelConfig>
    decreases c.len(),
{
    if c.len() == 0 {
        Seq::empty()
    } else {
        music_models_spec(c.drop_last()) + if is_music_model(c.last()) { seq![c.last()] } else { Seq::empty() }
    }
}

pub open spec fn mderefs(v: Seq<&ModelConfig>) -> Seq<ModelConfig> {
    v.map_values(|m: &ModelConfig| *m)
}

/// The catalog's music models, in catalog order.
pub fn music_models<'a>(catalog: &'a [ModelConfig]) -> (r: Vec<&'a ModelConfig>)
    ensures
        mderefs(r@) == music_models_spec(catalog@),
{
    let mut r: Vec<&'a ModelConfig> = Vec::new();
    let mut i: usize = 0;
    while i < catalog.len()
        invariant
            0 <= i <= catalog@.len(),
            mderefs(r@) == music_models_spec(catalog@.take(i as int)),
        decreases catalog.len() - i,
    {
        let m = &catalog[i];
        assert(catalog@.take(i + 1).drop_last() =~= catalog@.take(i as int));
        assert(catalog@.take(i + 1).last() == *m);
        let music = match &m.caps {
            ModelCaps::Audio(c) => c.is_music,
            _ => false,
        };
        let ghost before = r@;
        if music {
            r.push(m);
            assert(mderefs(r@) =~= mderefs(before) + seq![*m]);
        } else {
            assert(mderefs(r@) =~= mderefs(before) + Seq::<ModelConfig>::empty());
        }
        i += 1;
    }
    assert(catalog@.take(i as int) =~= catalog@);
    r
}

/// The music model for a choice: the first music model with that id, else
/// the first music model; `None` when the catalog has none.
pub open spec fn music_model_spec(c: Seq<ModelConfig>, id: Option<Seq<char>>) -> Option<ModelConfig> {
    let ms = music_models_spec(c);
    let fallback = if ms.len() > 0 { Some(ms[0]) } else { None };
    match id {
        Some(x) => match first_id_index(ms, x) {
            Some(i) => Some(ms[i]),
            None => fallback,
        },
        None => fallback,
    }
}

/// The selected music model, falling back to the first music model.
pub fn music_model_for<'a>(catalog: &'a [ModelConfig], id: Option<&str>) -> (r: Option<&'a ModelConfig>)
    ensures
        match r {
            Some(m) => music_model_spec(catalog@, opt_str_view(id)) == Some(*m),
            None => music_model_spec(catalog@, opt_str_view(id)) is None,
        },
{
    let models = music_models(catalog);
    let ghost ms = music_models_spec(catalog@);
    if let Some(x) = id {
        proof {
            lemma_first_id_index(ms, x@);
        }
        let key = String::from_str(x);
        let mut i: usize = 0;
        while i < models.len()
            invariant
                0 <= i <= models@.len(),
                key@ == x@,
                mderefs(models@) == ms,
                ms == music_models_spec(catalog@),
                id == Some(x),
                forall|j: int| 0 <= j < i ==> (#[trigger] ms[j]).id@ != x@,
            decreases models.len() - i,
        {
            assert(ms[i as int] == *models@[i as int]);
            if models[i].id == key {
                proof {
                    lemma_first_id_index(ms, x@);
                    match first_id_index(ms, x@) {
                        Some(k) => {
                            if k < i {
                                assert(ms[k].id@ != x@);
                            } else if k > i {
                                assert(ms[i as int].id@ == x@);
                            }
                        },
                        None => {
                            assert(ms[i as int].id@ == x@);
                        },
                    }
                }
                return Some(models[i]);
            }
            i += 1;
        }
    }
    if models.len() > 0 {
        assert(ms[0] == *models@[0]);
        Some(models[0])
    } else {
        None
    }
}

/// Every music model is driven by a prompt, so text mode is always offered.
pub fn music_supports_text_mode(model: &ModelConfig) -> (b: bool)
    ensures
        b,
{
    true
}

/// The mode in effect: the chosen one when there is a model, else video
/// to music.
pub fn effective_music_mode(mode: MusicMode, model: Option<&ModelConfig>) -> (m: MusicMode)
    ensures
        m == (if model is Some { mode } else { MusicMode::VideoToMusic }),
{
    match model {
        Some(x) => {
            if music_supports_text_mode(x) {
                mode
            } else {
                MusicMode::VideoToMusic
            }
        },
        None => MusicMode::VideoToMusic,
    }
}

/// Why a video span of `seconds` (already rounded) does not suit the model:
/// at least 1 and at most 900 seconds are accepted.
pub open spec fn music_span_spec(display_name: Seq<char>, seconds: i64) -> Option<Seq<char>> {
    if seconds < 1 {
        Some(display_name + " needs at least 1s of video (selection is "@ + signed_decimal(seconds as int) + "s)."@)
    } else if seconds > 900 {
        Some(display_name + " accepts at most 900s of video (selection is "@ + signed_decimal(seconds as int) + "s)."@)
    } else {
        None
    }
}

/// Check a video span (in whole seconds) against the model's limits.
pub fn music_span_note(model: &ModelConfig, span_seconds: i64) -> (r: Option<String>)
    ensures
        match r {
            Some(s) => music_span_spec(model.display_name@, span_seconds) == Some(s@),
            None => music_span_spec(model.display_name@, span_seconds) is None,
        },
{
    proof {
        reveal_strlit(" needs at least 1s of video (selection is ");
        reveal_strlit(" accepts at most 900s of video (selection is ");
        reveal_strlit("s).");
    }
    if span_seconds < 1 {
        let mut s = model.display_name.clone();
        s.append(" needs at least 1s of video (selection is ");
        append_i64(&mut s, span_seconds);
        s.append("s).");
        return Some(s);
    }
    if span_seconds > 900 {
        let mut s = model.display_name.clone();
        s.append(" accepts at most 900s of video (selection is ");
        append_i64(&mut s, span_seconds);
        s.append("s).");
        return Some(s);
    }
    None
}

/// What keeps a music generation from starting, in the order the tab
/// checks: no model; in text mode a blank prompt; otherwise an empty span
/// (`span_positive` false) or one outside the model's limits
/// (`span_seconds` is the span rounded to whole seconds); finally the credit
/// shortfall line, when the estimate exceeds the balance. `None` when
/// generation may proceed.
pub open spec fn music_validation_spec(
    model: Option<ModelConfig>,
    text_mode: bool,
    prompt: Seq<char>,
    span_positive: bool,
    span_seconds: i64,
    shortfall: Option<Seq<char>>,
) -> Option<Seq<char>> {
    match model {
        None => Some("No music models available."@),
        Some(m) => {
            if text_mode && trim_spec(prompt).len() == 0 {
                Some("Describe the music to generate."@)
            } else if !text_mode && !span_positive {
                Some("Add video to the timeline, then mark a range to score only part of it."@)
            } else if !text_mode && music_span_spec(m.display_name@, span_seconds) is Some {
                music_span_spec(m.display_name@, span_seconds)
            } else {
                shortfall
            }
        },
    }
}

pub open spec fn opt_model(o: Option<&ModelConfig>) -> Option<ModelConfig> {
    match o {
        Some(m) => Some(*m),
        None => None,
    }
}

pub open spec fn opt_ref_view(o: Option<&str>) -> Option<Seq<char>> {
    match o {
        Some(s) => Some(s@),
        None => None,
    }
}

/// The music tab's validation note; see `music_validation_spec`.
pub fn music_validation_note(
    model: Option<&ModelConfig>,
    text_mode: bool,
    prompt: &str,
    span_positive: bool,
    span_seconds: i64,
    shortfall: Option<&str>,
) -> (r: Option<String>)
    ensures
        opt_string_view(r) == music_validation_spec(
            opt_model(model),
            text_mode,
            prompt@,
            span_positive,
            span_seconds,
            opt_ref_view(shortfall),
        ),
{
    let m = match model {
        Some(m) => m,
        None => {
            return Some(String::from_str("No music models available."));
        },
    };
    if text_mode {
        if trim(prompt).unicode_len() == 0 {
            return Some(String::from_str("Describe the music to generate."));
        }
    } else {
        if !span_positive {
            return Some(String::from_str("Add video to the timeline, then mark a range to score only part of it."));
        }
        if let Some(issue) = music_span_note(m, span_seconds) {
            return Some(issue);
        }
    }
    match shortfall {
        Some(line) => Some(String::from_str(line)),
        None => None,
    }
}

/// The caption language after the timeline changed: a language the user
/// never set and that is unset takes the timeline's transcription
/// language; otherwise it stays.
pub fn synced_caption_language(language: Option<String>, touched: bool, timeline_language: Option<String>) -> (r: Option<String>)
    ensures
        opt_string_view(r) == if !touched && language is None {
            opt_string_view(timeline_language)
        } else {
            opt_string_view(language)
        },
{
    if !touched && language.is_none() {
        timeline_language
    } else {
        language
    }
}

/// The music overlay stays only while a generation is really under way:
/// some media entry's generation status (`statuses`) says so.
pub fn music_still_generating(is_generating: bool, statuses: &[Option<String>]) -> (b: bool)
    ensures
        b == (is_generating && exists|j: int|
            0 <= j < statuses@.len() && status_inflight(opt_view(#[trigger] statuses@[j]))),
{
    is_generating && has_inflight_generation(statuses)
}

/// Moods offered by the music agent.
pub fn music_moods() -> (r: [&'static str; 5])
    ensures
        r[0]@ == "Cinematic"@,
        r[1]@ == "Upbeat"@,
        r[2]@ == "Ambient"@,
        r[3]@ == "Tense"@,
        r[4]@ == "Lo-fi"@,
{
    ["Cinematic", "Upbeat", "Ambient", "Tense", "Lo-fi"]
}

/// The agent prompt that scores the whole timeline.
pub const MUSIC_TIMELINE_PROMPT: &'static str = "Score my timeline with music that matches the visuals. Use a video-to-music model on the full timeline span so the music follows the edit, and place it on an audio track.";

/// The agent prompt for a mood, with the mood in lowercase.
pub fn music_mood_prompt(mood: &str) -> (s: String)
    ensures
        s@ == "Generate "@ + lowercase_of(mood@) + " music for my timeline and place it on an audio track aligned to the edit."@,
{
    proof {
        reveal_strlit("Generate ");
        reveal_strlit(" music for my timeline and place it on an audio track aligned to the edit.");
    }
    let mut s = String::from_str("Generate ");
    let lower = to_lowercase(mood);
    s.append(lower.as_str());
    s.append(" music for my timeline and place it on an audio track aligned to the edit.");
    s
}

/// Whether some captionable clip of `tracks` has id `id`.
pub open spec fn is_captionable_clip_id(tracks: Seq<CaptionTrack>, id: Seq<char>) -> bool {
    exists|t: int, c: int| 0 <= t < tracks.len() && 0 <= c < tracks[t].clips@.len()
        && captionable(#[trigger] tracks[t].clips@[c]) && tracks[t].clips@[c].id@ == id
}

pub open spec fn clip_ids_from(clips: Seq<CaptionClip>, selected: Option<Seq<Seq<char>>>) -> Seq<Seq<char>> {
    match selected {
        Some(sel) => selected_in(clips, sel),
        None => captionable_in(clips),
    }
}

pub open spec fn track_ids_from(tracks: Seq<CaptionTrack>, track: Option<Seq<char>>, selected: Option<Seq<Seq<char>>>) -> Seq<Seq<char>> {
    match selected {
        Some(sel) => selected_ids_spec(tracks, sel),
        None => captionable_ids_spec(tracks, track),
    }
}

pub open spec fn clip_has_id(clips: Seq<CaptionClip>, id: Seq<char>) -> bool {
    exists|c: int| 0 <= c < clips.len() && captionable(#[trigger] clips[c]) && clips[c].id@ == id
}

proof fn lemma_captionable_in_members(clips: Seq<CaptionClip>, selected: Option<Seq<Seq<char>>>)
    ensures
        forall|k: int| 0 <= k < clip_ids_from(clips, selected).len()
            ==> clip_has_id(clips, #[trigger] clip_ids_from(clips, selected)[k]),
    decreases clips.len(),
{
    if clips.len() > 0 {
        let init = clips.drop_last();
        lemma_captionable_in_members(init, selected);
        let r = clip_ids_from(clips, selected);
        let rest = clip_ids_from(init, selected);
        assert forall|k: int| 0 <= k < r.len() implies clip_has_id(clips, #[trigger] r[k]) by {
            if k < rest.len() {
                assert(r[k] == rest[k]);
                assert(clip_has_id(init, rest[k]));
                let c = choose|c: int| 0 <= c < init.len() && captionable(#[trigger] init[c]) && init[c].id@ == rest[k];
                assert(clips[c] == init[c]);
            } else {
                assert(clips[clips.len() - 1] == clips.last());
            }
        }
    }
}

proof fn lemma_tracks_members(tracks: Seq<CaptionTrack>, track: Option<Seq<char>>, selected: Option<Seq<Seq<char>>>)
    ensures
        forall|k: int| 0 <= k < track_ids_from(tracks, track, selected).len()
            ==> is_captionable_clip_id(tracks, #[trigger] track_ids_from(tracks, track, selected)[k]),
    decreases tracks.len(),
{
    if tracks.len() > 0 {
        let init = tracks.drop_last();
        lemma_tracks_members(init, track, selected);
        let t = tracks.last();
        lemma_captionable_in_members(t.clips@, selected);
        let r = track_ids_from(tracks, track, selected);
        let rest = track_ids_from(init, track, selected);
        assert forall|k: int| 0 <= k < r.len() implies is_captionable_clip_id(tracks, #[trigger] r[k]) by {
            if k < rest.len() {
                assert(r[k] == rest[k]);
                assert(is_captionable_clip_id(init, rest[k]));
                let (ti, ci) = choose|ti: int, ci: int| 0 <= ti < init.len() && 0 <= ci < init[ti].clips@.len()
                    && captionable(#[trigger] init[ti].clips@[ci]) && init[ti].clips@[ci].id@ == rest[k];
                assert(tracks[ti] == init[ti]);
                assert(captionable(tracks[ti].clips@[ci]));
            } else {
                let in_scope = match track {
                    Some(id) => t.id@ == id,
                    None => true,
                };
                let tail = if selected is Some || in_scope { clip_ids_from(t.clips@, selected) } else { Seq::empty() };
                assert(r == rest + tail);
                assert(r[k] == tail[k - rest.len()]);
                assert(clip_has_id(t.clips@, tail[k - rest.len()]));
                let c = choose|c: int| 0 <= c < t.clips@.len() && captionable(#[trigger] t.clips@[c]) && t.clips@[c].id@ == tail[k - rest.len()];
                assert(tracks[tracks.len() - 1] == t);
                assert(captionable(tracks[tracks.len() - 1].clips@[c]));
            }
        }
    }
}

/// A caption run only targets clips that can be transcribed: every id it
/// names belongs to an audio or video clip of the timeline.
pub proof fn lemma_caption_sources_are_captionable(tl: CaptionTimeline, track: Option<Seq<char>>)
    ensures
        forall|k: int| 0 <= k < source_ids_spec(tl, track).len()
            ==> is_captionable_clip_id(tl.tracks@, #[trigger] source_ids_spec(tl, track)[k]),
{
    lemma_tracks_members(tl.tracks@, track, None);
    lemma_tracks_members(tl.tracks@, None, None);
    lemma_tracks_members(tl.tracks@, None, Some(strs(tl.selected_clip_ids@)));
    let r = source_ids_spec(tl, track);
    assert forall|k: int| 0 <= k < r.len() implies is_captionable_clip_id(tl.tracks@, #[trigger] r[k]) by {
        match track {
            Some(id) => {
                assert(r == track_ids_from(tl.tracks@, Some(id), None));
            },
            None => {
                let selected = selected_ids_spec(tl.tracks@, strs(tl.selected_clip_ids@));
                if selected.len() > 0 {
                    assert(r == track_ids_from(tl.tracks@, None, Some(strs(tl.selected_clip_ids@))));
                } else {
                    assert(r == track_ids_from(tl.tracks@, None, None));
                }
            },
        }
    }
}

/// Whether `selected`, when given, names `id`.
pub open spec fn admits(selected: Option<Seq<Seq<char>>>, id: Seq<char>) -> bool {
    match selected {
        Some(sel) => sel.contains(id),
        None => true,
    }
}

/// Whether track `t` is one of those asked for (all when `track` is `None`).
pub open spec fn track_in_scope(track: Option<Seq<char>>, t: CaptionTrack) -> bool {
    match track {
        Some(id) => t.id@ == id,
        None => true,
    }
}

/// Whether a transcribable clip of `clips` admitted by `selected` has id `id`.
pub open spec fn clip_named(clips: Seq<CaptionClip>, selected: Option<Seq<Seq<char>>>, id: Seq<char>) -> bool {
    exists|c: int| 0 <= c < clips.len() && captionable(#[trigger] clips[c]) && clips[c].id@ == id && admits(selected, id)
}

/// Whether a transcribable clip admitted by `selected`, on a track asked
/// for by `track`, has id `id`.
pub open spec fn track_clip_named(tracks: Seq<CaptionTrack>, track: Option<Seq<char>>, selected: Option<Seq<Seq<char>>>, id: Seq<char>) -> bool {
    exists|t: int, c: int| 0 <= t < tracks.len() && track_in_scope(track, tracks[t]) && 0 <= c < tracks[t].clips@.len()
        && captionable(#[trigger] tracks[t].clips@[c]) && tracks[t].clips@[c].id@ == id && admits(selected, id)
}

proof fn lemma_clip_ids_exact(clips: Seq<CaptionClip>, selected: Option<Seq<Seq<char>>>)
    ensures
        forall|k: int| 0 <= k < clip_ids_from(clips, selected).len() ==> clip_named(clips, selected, #[trigger] clip_ids_from(clips, selected)[k]),
        forall|c: int| 0 <= c < clips.len() && captionable(#[trigger] clips[c]) && admits(selected, clips[c].id@)
            ==> clip_ids_from(clips, selected).contains(clips[c].id@),
    decreases clips.len(),
{
    if clips.len() > 0 {
        let init = clips.drop_last();
        lemma_clip_ids_exact(init, selected);
        let r = clip_ids_from(clips, selected);
        let rest = clip_ids_from(init, selected);
        let last = clips.last();
        let tail = if captionable(last) && admits(selected, last.id@) { seq![last.id@] } else { Seq::<Seq<char>>::empty() };
        assert(r =~= rest + tail);
        assert forall|k: int| 0 <= k < r.len() implies clip_named(clips, selected, #[trigger] r[k]) by {
            if k < rest.len() {
                assert(r[k] == rest[k]);
                assert(clip_named(init, selected, rest[k]));
                let c = choose|c: int| 0 <= c < init.len() && captionable(#[trigger] init[c]) && init[c].id@ == rest[k]
                    && admits(selected, rest[k]);
                assert(clips[c] == init[c]);
            } else {
                assert(clips[clips.len() - 1] == last);
            }
        }
        assert forall|c: int| 0 <= c < clips.len() && captionable(#[trigger] clips[c]) && admits(selected, clips[c].id@)
            implies r.contains(clips[c].id@) by {
            if c < init.len() {
                assert(init[c] == clips[c]);
                let j = choose|j: int| 0 <= j < rest.len() && rest[j] == clips[c].id@;
                assert(r[j] == rest[j]);
            } else {
                assert(r[rest.len() as int] == clips[c].id@);
            }
        }
    }
}

proof fn lemma_track_ids_exact(tracks: Seq<CaptionTrack>, track: Option<Seq<char>>, selected: Option<Seq<Seq<char>>>)
    requires
        selected is Some ==> track is None,
    ensures
        forall|k: int| 0 <= k < track_ids_from(tracks, track, selected).len() ==> track_clip_named(tracks, track, selected, #[trigger] track_ids_from(tracks, track, selected)[k]),
        forall|t: int, c: int| 0 <= t < tracks.len() && track_in_scope(track, tracks[t]) && 0 <= c < tracks[t].clips@.len()
            && captionable(#[trigger] tracks[t].clips@[c]) && admits(selected, tracks[t].clips@[c].id@)
            ==> track_ids_from(tracks, track, selected).contains(tracks[t].clips@[c].id@),
    decreases tracks.len(),
{
    if tracks.len() > 0 {
        let init = tracks.drop_last();
        lemma_track_ids_exact(init, track, selected);
        let last = tracks.last();
        lemma_clip_ids_exact(last.clips@, selected);
        let r = track_ids_from(tracks, track, selected);
        let rest = track_ids_from(init, track, selected);
        let tail = if track_in_scope(track, last) { clip_ids_from(last.clips@, selected) } else { Seq::<Seq<char>>::empty() };
        assert(r =~= rest + tail);
        assert(tracks[tracks.len() - 1] == last);
        assert forall|k: int| 0 <= k < r.len() implies track_clip_named(tracks, track, selected, #[trigger] r[k]) by {
            if k < rest.len() {
                assert(r[k] == rest[k]);
                assert(track_clip_named(init, track, selected, rest[k]));
                let (t, c) = choose|t: int, c: int| 0 <= t < init.len() && track_in_scope(track, init[t]) && 0 <= c
                    < init[t].clips@.len() && captionable(#[trigger] init[t].clips@[c]) && init[t].clips@[c].id@ == rest[k]
                    && admits(selected, rest[k]);
                assert(tracks[t] == init[t]);
                assert(captionable(tracks[t].clips@[c]));
            } else {
                assert(r[k] == tail[k - rest.len()]);
                assert(clip_named(last.clips@, selected, tail[k - rest.len()]));
                let c = choose|c: int| 0 <= c < last.clips@.len() && captionable(#[trigger] last.clips@[c])
                    && last.clips@[c].id@ == tail[k - rest.len()] && admits(selected, tail[k - rest.len()]);
                assert(captionable(tracks[tracks.len() - 1].clips@[c]));
            }
        }
        assert forall|t: int, c: int| 0 <= t < tracks.len() && track_in_scope(track, tracks[t]) && 0 <= c < tracks[t].clips@.len()
            && captionable(#[trigger] tracks[t].clips@[c]) && admits(selected, tracks[t].clips@[c].id@)
            implies r.contains(tracks[t].clips@[c].id@) by {
            let id = tracks[t].clips@[c].id@;
            if t < init.len() {
                assert(init[t] == tracks[t]);
                assert(captionable(init[t].clips@[c]));
                let j = choose|j: int| 0 <= j < rest.len() && rest[j] == id;
                assert(r[j] == rest[j]);
            } else {
                assert(captionable(last.clips@[c]));
                let j = choose|j: int| 0 <= j < tail.len() && tail[j] == id;
                assert(r[rest.len() + j] == tail[j]);
            }
        }
    }
}

/// The clips a caption run targets, exactly: with a track chosen, the
/// transcribable clips of the tracks with that id; with none chosen and
/// some transcribable clip selected, the selected transcribable clips;
/// with nothing of that selected, every transcribable clip.
pub proof fn lemma_caption_sources_exact(tl: CaptionTimeline, track: Option<Seq<char>>)
    ensures
        track is Some ==> forall|t: int, c: int| 0 <= t < tl.tracks@.len() && track_in_scope(track, tl.tracks@[t]) && 0 <= c
            < tl.tracks@[t].clips@.len() && captionable(#[trigger] tl.tracks@[t].clips@[c])
            ==> source_ids_spec(tl, track).contains(tl.tracks@[t].clips@[c].id@),
        track is Some ==> forall|k: int| 0 <= k < source_ids_spec(tl, track).len() ==> track_clip_named(tl.tracks@, track, None, #[trigger] source_ids_spec(tl, track)[k]),
        track is None ==> forall|t: int, c: int| 0 <= t < tl.tracks@.len() && 0 <= c < tl.tracks@[t].clips@.len()
            && captionable(#[trigger] tl.tracks@[t].clips@[c]) && strs(tl.selected_clip_ids@).contains(tl.tracks@[t].clips@[c].id@)
            ==> source_ids_spec(tl, track).contains(tl.tracks@[t].clips@[c].id@),
        track is None && selected_ids_spec(tl.tracks@, strs(tl.selected_clip_ids@)).len() > 0 ==> forall|k: int| 0 <= k
            < source_ids_spec(tl, track).len() ==> strs(tl.selected_clip_ids@).contains(#[trigger] source_ids_spec(tl, track)[k]),
        track is None && (forall|t: int, c: int| 0 <= t < tl.tracks@.len() && 0 <= c < tl.tracks@[t].clips@.len()
            && captionable(#[trigger] tl.tracks@[t].clips@[c]) ==> !strs(tl.selected_clip_ids@).contains(tl.tracks@[t].clips@[c].id@))
            ==> forall|t: int, c: int| 0 <= t < tl.tracks@.len() && 0 <= c < tl.tracks@[t].clips@.len()
            && captionable(#[trigger] tl.tracks@[t].clips@[c]) ==> source_ids_spec(tl, track).contains(tl.tracks@[t].clips@[c].id@),
{
    let tracks = tl.tracks@;
    let sel = strs(tl.selected_clip_ids@);
    lemma_track_ids_exact(tracks, track, None);
    lemma_track_ids_exact(tracks, None, None);
    lemma_track_ids_exact(tracks, None, Some(sel));
    assert(track_ids_from(tracks, track, None) == captionable_ids_spec(tracks, track));
    let chosen = selected_ids_spec(tracks, sel);
    assert(track_ids_from(tracks, None, Some(sel)) == chosen);
    if track is None {
        if chosen.len() > 0 {
            assert forall|k: int| 0 <= k < source_ids_spec(tl, track).len() implies sel.contains(
                #[trigger] source_ids_spec(tl, track)[k],
            ) by {
                assert(track_clip_named(tracks, None, Some(sel), chosen[k]));
            }
        } else {
            assert forall|t: int, c: int| 0 <= t < tracks.len() && 0 <= c < tracks[t].clips@.len()
                && captionable(#[trigger] tracks[t].clips@[c]) && sel.contains(tracks[t].clips@[c].id@)
                implies source_ids_spec(tl, track).contains(tracks[t].clips@[c].id@) by {
                assert(track_in_scope(None, tracks[t]));
                assert(admits(Some(sel), tracks[t].clips@[c].id@));
                assert(chosen.contains(tracks[t].clips@[c].id@));
            }
        }
        assert forall|t: int, c: int| 0 <= t < tracks.len() && 0 <= c < tracks[t].clips@.len()
            && captionable(#[trigger] tracks[t].clips@[c]) && sel.contains(tracks[t].clips@[c].id@)
            implies source_ids_spec(tl, track).contains(tracks[t].clips@[c].id@) by {
            assert(track_in_scope(None, tracks[t]));
            assert(admits(Some(sel), tracks[t].clips@[c].id@));
        }
        if forall|t: int, c: int| 0 <= t < tracks.len() && 0 <= c < tracks[t].clips@.len()
            && captionable(#[trigger] tracks[t].clips@[c]) ==> !sel.contains(tracks[t].clips@[c].id@) {
            if chosen.len() > 0 {
                assert(track_clip_named(tracks, None, Some(sel), chosen[0]));
                let (t, c) = choose|t: int, c: int| 0 <= t < tracks.len() && track_in_scope(None, tracks[t]) && 0 <= c
                    < tracks[t].clips@.len() && captionable(#[trigger] tracks[t].clips@[c]) && tracks[t].clips@[c].id@ == chosen[0]
                    && admits(Some(sel), chosen[0]);
            }
            assert forall|t: int, c: int| 0 <= t < tracks.len() && 0 <= c < tracks[t].clips@.len()
                && captionable(#[trigger] tracks[t].clips@[c])
                implies source_ids_spec(tl, track).contains(tracks[t].clips@[c].id@) by {
                assert(track_in_scope(None, tracks[t]));
                assert(admits(None, tracks[t].clips@[c].id@));
            }
        }
    } else {
        assert forall|t: int, c: int| 0 <= t < tracks.len() && track_in_scope(track, tracks[t]) && 0 <= c < tracks[t].clips@.len()
            && captionable(#[trigger] tracks[t].clips@[c])
            implies source_ids_spec(tl, track).contains(tracks[t].clips@[c].id@) by {
            assert(admits(None, tracks[t].clips@[c].id@));
        }
    }
}

/// The source line counts what a run would target: with a chosen track
/// that exists it shows that track's label and the run's clip count; with
/// selected transcribable clips it shows their count; with nothing to
/// transcribe it says so; and a missing track is named as such.
pub proof fn lemma_summary_counts_sources(tl: CaptionTimeline, track: Option<Seq<char>>)
    ensures
        track matches Some(id) ==> (forall|t: int| 0 <= t < tl.tracks@.len() ==> (#[trigger] tl.tracks@[t]).id@ != id)
            ==> source_summary_spec(tl, track) == "No track"@,
        track matches Some(id) ==> (track_index(tl.tracks@, id) matches Some(i) ==> source_summary_spec(tl, track)
            == tl.tracks@[i].label@ + " · "@ + decimal(source_ids_spec(tl, track).len())),
        track matches Some(id) ==> (track_index(tl.tracks@, id) matches Some(i) ==> 0 <= i < tl.tracks@.len()
            && tl.tracks@[i].id@ == id),
        track is None && selected_ids_spec(tl.tracks@, strs(tl.selected_clip_ids@)).len() > 0 ==> source_summary_spec(tl, track)
            == "Selected Clips · "@ + decimal(source_ids_spec(tl, track).len()),
        track is None && source_ids_spec(tl, track).len() == 0 ==> source_summary_spec(tl, track) == "No audio"@,
{
    if let Some(id) = track {
        lemma_track_index(tl.tracks@, id);
        lemma_track_index_none(tl.tracks@, id);
    }
}

proof fn lemma_track_index_none(tracks: Seq<CaptionTrack>, id: Seq<char>)
    ensures
        (forall|t: int| 0 <= t < tracks.len() ==> (#[trigger] tracks[t]).id@ != id) ==> track_index(tracks, id) is None,
    decreases tracks.len(),
{
    if tracks.len() > 0 {
        lemma_track_index_none(tracks.drop_last(), id);
        assert(forall|t: int| 0 <= t < tracks.len() - 1 ==> tracks.drop_last()[t] == #[trigger] tracks[t]);
    }
}

proof fn lemma_music_models_exact(c: Seq<ModelConfig>)
    ensures
        forall|k: int| 0 <= k < music_models_spec(c).len() ==> is_music_model(#[trigger] music_models_spec(c)[k])
            && exists|j: int| 0 <= j < c.len() && c[j] == music_models_spec(c)[k]
            && forall|i: int| 0 <= i < j ==> !is_music_model(#[trigger] c[i]) || k > 0,
        forall|j: int| 0 <= j < c.len() && is_music_model(#[trigger] c[j]) ==> music_models_spec(c).contains(c[j]),
        music_models_spec(c).len() > 0 ==> exists|j: int| 0 <= j < c.len() && c[j] == music_models_spec(c)[0]
            && forall|i: int| 0 <= i < j ==> !is_music_model(#[trigger] c[i]),
    decreases c.len(),
{
    if c.len() > 0 {
        let init = c.drop_last();
        lemma_music_models_exact(init);
        let ms = music_models_spec(c);
        let rest = music_models_spec(init);
        assert(forall|j: int| 0 <= j < init.len() ==> init[j] == #[trigger] c[j]);
        let tail = if is_music_model(c.last()) { seq![c.last()] } else { Seq::<ModelConfig>::empty() };
        assert(ms =~= rest + tail);
        assert forall|k: int| 0 <= k < ms.len() implies is_music_model(#[trigger] ms[k])
            && exists|j: int| 0 <= j < c.len() && c[j] == ms[k] && forall|i: int| 0 <= i < j ==> !is_music_model(#[trigger] c[i]) || k > 0 by {
            if k < rest.len() {
                assert(ms[k] == rest[k]);
                let j = choose|j: int| 0 <= j < init.len() && init[j] == rest[k] && forall|i: int| 0 <= i < j ==> !is_music_model(#[trigger] init[i]) || k > 0;
                assert(c[j] == ms[k]);
                assert forall|i: int| 0 <= i < j implies !is_music_model(#[trigger] c[i]) || k > 0 by {
                    assert(c[i] == init[i]);
                }
            } else {
                assert(ms[k] == c[c.len() - 1]);
                if k == 0 {
                    assert forall|i: int| 0 <= i < c.len() - 1 implies !is_music_model(#[trigger] c[i]) by {
                        assert(c[i] == init[i]);
                        if is_music_model(init[i]) {
                            assert(rest.contains(init[i]));
                        }
                    }
                }
            }
        }
        assert forall|j: int| 0 <= j < c.len() && is_music_model(#[trigger] c[j]) implies ms.contains(c[j]) by {
            if j < init.len() {
                assert(init[j] == c[j]);
                assert(is_music_model(init[j]));
                let q = choose|q: int| 0 <= q < rest.len() && rest[q] == c[j];
                assert(ms[q] == rest[q]);
            } else {
                assert(ms[rest.len() as int] == c[j]);
            }
        }
        if ms.len() > 0 {
            assert(is_music_model(ms[0]));
            let j = choose|j: int| 0 <= j < c.len() && c[j] == ms[0] && forall|i: int| 0 <= i < j ==> !is_music_model(#[trigger] c[i]) || 0int > 0;
            assert(forall|i: int| 0 <= i < j ==> !is_music_model(#[trigger] c[i]));
        }
    }
}

/// The music model for a choice: there is one exactly when the catalog
/// has a music model; it is always a music model of the catalog; a choice
/// that names a music model gets a model with that id; otherwise the
/// catalog's first music model is used.
pub proof fn lemma_music_model_choice(c: Seq<ModelConfig>, id: Option<Seq<char>>)
    ensures
        music_model_spec(c, id) is Some <==> exists|j: int| 0 <= j < c.len() && is_music_model(#[trigger] c[j]),
        music_model_spec(c, id) matches Some(m) ==> is_music_model(m) && c.contains(m),
        id matches Some(x) ==> ((exists|j: int| 0 <= j < c.len() && is_music_model(#[trigger] c[j]) && c[j].id@ == x)
            ==> music_model_spec(c, id)->0.id@ == x),
        id matches Some(x) ==> ((forall|j: int| 0 <= j < c.len() && is_music_model(#[trigger] c[j]) ==> c[j].id@ != x)
            ==> (music_model_spec(c, id) matches Some(m) ==> exists|j: int| 0 <= j < c.len() && c[j] == m
            && forall|i: int| 0 <= i < j ==> !is_music_model(#[trigger] c[i]))),
        id is None ==> (music_model_spec(c, id) matches Some(m) ==> exists|j: int| 0 <= j < c.len() && c[j] == m
            && forall|i: int| 0 <= i < j ==> !is_music_model(#[trigger] c[i])),
{
    lemma_music_models_exact(c);
    let ms = music_models_spec(c);
    if exists|j: int| 0 <= j < c.len() && is_music_model(#[trigger] c[j]) {
        let j = choose|j: int| 0 <= j < c.len() && is_music_model(#[trigger] c[j]);
        assert(ms.contains(c[j]));
    }
    if ms.len() > 0 {
        assert(is_music_model(ms[0]));
    }
    if let Some(x) = id {
        lemma_first_id_index(ms, x);
        if exists|j: int| 0 <= j < c.len() && is_music_model(#[trigger] c[j]) && c[j].id@ == x {
            let j = choose|j: int| 0 <= j < c.len() && is_music_model(#[trigger] c[j]) && c[j].id@ == x;
            assert(ms.contains(c[j]));
            let q = choose|q: int| 0 <= q < ms.len() && ms[q] == c[j];
            assert(ms[q].id@ == x);
        }
        if forall|j: int| 0 <= j < c.len() && is_music_model(#[trigger] c[j]) ==> c[j].id@ != x {
            assert forall|q: int| 0 <= q < ms.len() implies (#[trigger] ms[q]).id@ != x by {
                assert(is_music_model(ms[q]));
                let j = choose|j: int| 0 <= j < c.len() && c[j] == ms[q] && forall|i: int| 0 <= i < j ==> !is_music_model(#[trigger] c[i]) || q > 0;
            }
        }
    }
    if let Some(m) = music_model_spec(c, id) {
        match id {
            Some(x) => match first_id_index(ms, x) {
                Some(i) => {
                    let j = choose|j: int| 0 <= j < c.len() && c[j] == ms[i] && forall|t: int| 0 <= t < j ==> !is_music_model(#[trigger] c[t]) || i > 0;
                },
                None => {},
            },
            None => {},
        }
    }
}

/// A music generation may start exactly when there is a model; in text
/// mode the prompt is not blank; otherwise the span is positive and
/// between one and nine hundred seconds; and there is no credit
/// shortfall. A span outside those limits is reported in any mode but
/// text mode.
pub proof fn lemma_music_validation_clears(
    model: Option<ModelConfig>,
    text_mode: bool,
    prompt: Seq<char>,
    span_positive: bool,
    span_seconds: i64,
    shortfall: Option<Seq<char>>,
)
    ensures
        music_validation_spec(model, text_mode, prompt, span_positive, span_seconds, shortfall) is None <==> {
            &&& model is Some
            &&& text_mode ==> trim_spec(prompt).len() > 0
            &&& !text_mode ==> span_positive && 1 <= span_seconds <= 900
            &&& shortfall is None
        },
        music_span_spec(prompt, span_seconds) is None <==> 1 <= span_seconds <= 900,
        model is Some && !text_mode && span_positive && !(1 <= span_seconds <= 900) ==> music_validation_spec(
            model,
            text_mode,
            prompt,
            span_positive,
            span_seconds,
            shortfall,
        ) == music_span_spec(model->0.display_name@, span_seconds),
{
}

} // verus!
