use app_shell::captions::{
    caption_language_label, caption_languages, caption_track_row_label, captions_generate_disabled,
    music_can_generate, toggle_captions_menu, toggle_music_menu, CaptionsMenu, MusicMenu,
    caption_agent_prompt, caption_agent_tasks, caption_effective_count, caption_source_ids,
    caption_source_summary, caption_track_entries, caption_translate_languages,
    caption_translate_task, captionable_clip_ids, effective_music_mode, music_model_for,
    music_models, music_mood_prompt, music_moods, music_span_note, music_supports_text_mode,
    music_still_generating, music_validation_note, synced_caption_language,
    selected_captionable_ids, CaptionCase, CaptionClip, CaptionTimeline, CaptionTrack, MusicMode,
    MUSIC_TIMELINE_PROMPT,
};
use app_shell::generation_model::{AudioCaps, ModelCaps, ModelConfig};
use app_shell::generation_panel::{caption_generate_note, music_generate_note};
use app_shell::http_generation_backend::ModelKind;
use app_shell::json::JsonValue;
use app_shell::media_panel_model::ClipType;

fn clip(id: &str, kind: ClipType) -> CaptionClip {
    CaptionClip { id: id.into(), kind }
}

/// One text track (never captionable), one video track with two clips,
/// one audio track with one clip.
fn timeline() -> CaptionTimeline {
    CaptionTimeline {
        tracks: vec![
            CaptionTrack { id: "t-text".into(), label: "T1".into(), clips: vec![clip("c-text", ClipType::Text)] },
            CaptionTrack {
                id: "t-video".into(),
                label: "V1".into(),
                clips: vec![clip("c-v1", ClipType::Video), clip("c-v2", ClipType::Video)],
            },
            CaptionTrack { id: "t-audio".into(), label: "A1".into(), clips: vec![clip("c-a1", ClipType::Audio)] },
        ],
        selected_clip_ids: vec![],
    }
}

fn empty_timeline() -> CaptionTimeline {
    CaptionTimeline { tracks: vec![], selected_clip_ids: vec![] }
}

fn select(ids: &[&str]) -> Vec<String> {
    ids.iter().map(|s| s.to_string()).collect()
}

#[test]
fn caption_case_wire_values_match_search_core_serde() {
    assert_eq!(CaptionCase::Auto.config_value(), "auto");
    assert_eq!(CaptionCase::Upper.config_value(), "upper");
    assert_eq!(CaptionCase::Lower.config_value(), "lower");
    assert_eq!(CaptionCase::Upper.label(), "UPPERCASE");
    assert_eq!(CaptionCase::Lower.label(), "lowercase");
    assert_eq!(CaptionCase::default(), CaptionCase::Auto);
    assert_eq!(CaptionCase::all(), [CaptionCase::Auto, CaptionCase::Upper, CaptionCase::Lower]);
}

#[test]
fn caption_targets_cover_audio_and_video_not_text() {
    let tl = timeline();
    assert_eq!(captionable_clip_ids(&tl, None), ["c-v1", "c-v2", "c-a1"], "text clips are not caption sources");
}

#[test]
fn caption_targets_scope_to_track() {
    let tl = timeline();
    assert_eq!(captionable_clip_ids(&tl, Some("t-audio")), ["c-a1"]);
    assert!(captionable_clip_ids(&tl, Some("t-text")).is_empty());
    assert!(captionable_clip_ids(&tl, Some("ghost")).is_empty());
}

#[test]
fn selected_captionable_ids_intersects_selection() {
    let mut tl = timeline();
    tl.selected_clip_ids = select(&["c-v2", "c-text"]);
    assert_eq!(selected_captionable_ids(&tl), ["c-v2"]);
}

#[test]
fn caption_track_entries_skip_empty_tracks() {
    let tl = timeline();
    let entries = caption_track_entries(&tl);
    let ids: Vec<&str> = entries.iter().map(|(id, _, _)| id.as_str()).collect();
    assert_eq!(ids, ["t-video", "t-audio"], "text track has no targets");
    assert_eq!(entries[0].1, "V1");
    assert_eq!(entries[0].2, 2);
    assert_eq!(entries[1].1, "A1");
}

#[test]
fn caption_source_summary_branches() {
    let tl = timeline();
    assert_eq!(caption_source_summary(&tl, None), "Auto");
    assert_eq!(caption_source_summary(&tl, Some("t-video")), "V1 · 2");
    assert_eq!(caption_source_summary(&tl, Some("ghost")), "No track");
    assert_eq!(caption_source_summary(&empty_timeline(), None), "No audio");

    let mut sel = timeline();
    sel.selected_clip_ids = select(&["c-a1"]);
    assert_eq!(caption_source_summary(&sel, None), "Selected Clips · 1");
}

#[test]
fn caption_effective_count_prefers_selection() {
    let tl = timeline();
    assert_eq!(caption_effective_count(&tl, None), 3, "auto = all targets");
    assert_eq!(caption_effective_count(&tl, Some("t-audio")), 1);
    assert_eq!(caption_effective_count(&empty_timeline(), None), 0);

    let mut sel = timeline();
    sel.selected_clip_ids = select(&["c-v1"]);
    assert_eq!(caption_effective_count(&sel, None), 1);
    assert_eq!(caption_source_ids(&sel, None), ["c-v1"], "generation targets the selection");
    assert_eq!(caption_source_ids(&sel, Some("t-audio")), ["c-a1"], "explicit track wins over selection");
}

fn obj(members: Vec<(&str, JsonValue)>) -> JsonValue {
    JsonValue::Object(members.into_iter().map(|(k, v)| (k.to_string(), v)).collect())
}

fn content(text: &str, is_error: bool) -> JsonValue {
    let item = obj(vec![("type", JsonValue::Str("text".into())), ("text", JsonValue::Str(text.into()))]);
    let mut members = vec![("content", JsonValue::Array(vec![item]))];
    if is_error {
        members.push(("isError", JsonValue::Bool(true)));
    }
    obj(members)
}

#[test]
fn caption_generate_note_maps_outcomes() {
    let unavailable = Ok(content("Actual transcription requires a remote API.", true));
    assert_eq!(
        caption_generate_note(&unavailable).as_deref(),
        Some("Transcription unavailable — no speech engine is connected.")
    );
    let failed = Err("Clip 'x' not found".to_string());
    assert_eq!(caption_generate_note(&failed).as_deref(), Some("Clip 'x' not found"));
    let queued = Ok(content("Transcribing 2 clips", false));
    assert_eq!(caption_generate_note(&queued), None, "real run: no note");
}

#[test]
fn caption_agent_prompts_mirror_swift() {
    let p = caption_agent_prompt("add relevant emoji.");
    assert!(p.starts_with(
        "If the timeline has no captions yet, transcribe the spoken audio and add captions on word boundaries first. Then "
    ));
    assert!(p.ends_with("add relevant emoji."));
    assert_eq!(
        caption_translate_task("Japanese"),
        "translate the captions to Japanese, keeping each caption's timing unchanged."
    );
    assert_eq!(caption_translate_languages().len(), 10);
    assert_eq!(caption_agent_tasks().len(), 3);
    assert_eq!(caption_agent_tasks()[2].0, "Add emoji");
}

fn music(id: &str) -> ModelConfig {
    ModelConfig {
        id: id.into(),
        display_name: format!("Model {id}"),
        kind: ModelKind::Audio,
        paid_only: false,
        caps: ModelCaps::Audio(AudioCaps {
            is_music: !id.contains("tts"),
            default_voice: None,
            voices: None,
            durations: None,
            supports_instrumental: true,
            supports_lyrics: false,
            supports_style_instructions: false,
            min_prompt_length: 1,
        }),
    }
}

fn music_catalog() -> Vec<ModelConfig> {
    vec![music("elevenlabs-tts-v3"), music("minimax-music-v2.6"), music("elevenlabs-music")]
}

#[test]
fn music_models_are_catalog_music_entries() {
    let cat = music_catalog();
    let ids: Vec<&str> = music_models(&cat).iter().map(|m| m.id.as_str()).collect();
    assert_eq!(ids, ["minimax-music-v2.6", "elevenlabs-music"]);
}

#[test]
fn music_model_falls_back_to_first() {
    let cat = music_catalog();
    assert_eq!(music_model_for(&cat, None).unwrap().id, "minimax-music-v2.6");
    assert_eq!(music_model_for(&cat, Some("elevenlabs-music")).unwrap().id, "elevenlabs-music");
    assert_eq!(music_model_for(&cat, Some("ghost")).unwrap().id, "minimax-music-v2.6", "unknown id falls back");
    assert_eq!(music_model_for(&cat, Some("elevenlabs-tts-v3")).unwrap().id, "minimax-music-v2.6");
    assert!(music_model_for(&[], None).is_none());
}

#[test]
fn music_mode_follows_model_presence() {
    let cat = music_catalog();
    assert_eq!(MusicMode::default(), MusicMode::VideoToMusic);
    assert!(music_supports_text_mode(&cat[1]));
    assert_eq!(
        effective_music_mode(MusicMode::TextToMusic, music_model_for(&cat, None)),
        MusicMode::TextToMusic,
        "music models are prompt-driven → text mode kept"
    );
    assert_eq!(effective_music_mode(MusicMode::TextToMusic, None), MusicMode::VideoToMusic, "no model → video mode");
    assert_eq!(MusicMode::TextToMusic.label(), "Text to Music");
}

#[test]
fn music_span_note_bounds() {
    let cat = music_catalog();
    let model = music_model_for(&cat, None).unwrap();
    let secs = |x: f64| x.round() as i64;
    assert!(music_span_note(model, secs(0.4)).unwrap().contains("at least 1s"));
    assert_eq!(music_span_note(model, secs(1.0)), None);
    assert_eq!(music_span_note(model, secs(900.4)), None, "rounds to 900");
    assert!(music_span_note(model, secs(901.0)).unwrap().contains("at most 900s"));
}

#[test]
fn music_span_note_names_model_and_span() {
    let cat = music_catalog();
    let model = music_model_for(&cat, None).unwrap();
    assert_eq!(
        music_span_note(model, 0).as_deref(),
        Some("Model minimax-music-v2.6 needs at least 1s of video (selection is 0s).")
    );
    assert_eq!(music_span_note(model, 900), None);
}

/// The note for a span of `span` seconds, as the tab computes it: the span
/// is tested for being positive and rounded; the credit line appears when
/// the estimate exceeds a known balance.
fn validate(
    model: Option<&ModelConfig>,
    text_mode: bool,
    prompt: &str,
    span: f64,
    cost: Option<f64>,
    remaining: Option<f64>,
) -> Option<String> {
    let shortfall = match (cost, remaining) {
        (Some(c), Some(l)) if c > l => Some(format!("${c:.2} needed. Only ${l:.2} remaining.")),
        _ => None,
    };
    music_validation_note(model, text_mode, prompt, span > 0.0, span.round() as i64, shortfall.as_deref())
}

#[test]
fn music_validation_note_order() {
    let cat = music_catalog();
    let model = music_model_for(&cat, None);
    assert_eq!(validate(None, true, "x", 0.0, None, None).as_deref(), Some("No music models available."));
    assert_eq!(
        validate(model, true, "   ", 0.0, None, None).as_deref(),
        Some("Describe the music to generate.")
    );
    assert_eq!(
        validate(model, false, "", 0.0, None, None).as_deref(),
        Some("Add video to the timeline, then mark a range to score only part of it.")
    );
    let too_long = validate(model, false, "", 1000.0, None, None).unwrap();
    assert!(too_long.contains("at most 900s"), "{too_long}");
    let too_short = validate(model, false, "", 0.2, None, None).unwrap();
    assert!(too_short.contains("at least 1s"), "{too_short}");
    let shortfall = validate(model, true, "beat", 0.0, Some(5.0), Some(1.0)).unwrap();
    assert!(shortfall.contains("needed"), "{shortfall}");
    assert_eq!(validate(model, false, "", 30.0, Some(0.03), Some(10.0)), None, "valid video-mode run");
    assert_eq!(validate(model, true, "beat", 0.0, None, None), None, "valid text-mode run ignores the span");
}

#[test]
fn music_generate_note_maps_outcomes() {
    let unavailable = Ok(content("Music generation requires a remote API.", true));
    assert_eq!(
        music_generate_note(&unavailable).as_deref(),
        Some("Generation unavailable — no backend is connected.")
    );
    let queued = Ok(content("Queued music generation", false));
    assert_eq!(music_generate_note(&queued), None);
}

#[test]
fn music_agent_prompts_mirror_swift() {
    assert!(MUSIC_TIMELINE_PROMPT.starts_with("Score my timeline"));
    assert_eq!(
        music_mood_prompt("Lo-fi"),
        "Generate lo-fi music for my timeline and place it on an audio track aligned to the edit."
    );
    assert_eq!(music_moods().len(), 5);
}

#[test]
fn caption_language_follows_timeline_until_touched() {
    assert_eq!(synced_caption_language(None, false, Some("de".into())), Some("de".to_string()));
    assert_eq!(synced_caption_language(None, true, Some("de".into())), None, "user chose automatic");
    assert_eq!(synced_caption_language(Some("fr".into()), false, Some("de".into())), Some("fr".to_string()));
}

#[test]
fn music_overlay_needs_an_inflight_entry() {
    assert!(music_still_generating(true, &[None, Some("generating".to_string())]));
    assert!(!music_still_generating(true, &[Some("none".to_string())]));
    assert!(!music_still_generating(false, &[Some("generating".to_string())]));
}

#[test]
fn caption_language_label_names_known_tags() {
    assert_eq!(caption_language_label(None), "Auto");
    assert_eq!(caption_language_label(Some("de-DE")), "German");
    assert_eq!(caption_language_label(Some("ar-SA")), "Arabic");
    assert_eq!(caption_language_label(Some("nl-NL")), "nl-NL", "unknown tags show raw");
    assert_eq!(caption_languages().len(), 11);
    assert_eq!(caption_languages()[0], ("en-US", "English"));
}

#[test]
fn caption_rows_and_generate_gates() {
    assert_eq!(caption_track_row_label("Video 1", 1), "Video 1 · 1 clip");
    assert_eq!(caption_track_row_label("Audio", 3), "Audio · 3 clips");
    assert_eq!(caption_track_row_label("Audio", 0), "Audio · 0 clips");
    assert!(captions_generate_disabled(0, false));
    assert!(captions_generate_disabled(2, true));
    assert!(!captions_generate_disabled(2, false));
    assert!(music_can_generate(true, &None, false));
    assert!(!music_can_generate(true, &Some("Describe the music to generate.".into()), false));
    assert!(!music_can_generate(false, &None, false));
    assert!(!music_can_generate(true, &None, true));
}

#[test]
fn dropdown_buttons_toggle_their_menu() {
    assert_eq!(toggle_captions_menu(None, CaptionsMenu::Source), Some(CaptionsMenu::Source));
    assert_eq!(toggle_captions_menu(Some(CaptionsMenu::Source), CaptionsMenu::Source), None);
    assert_eq!(toggle_captions_menu(Some(CaptionsMenu::Font), CaptionsMenu::Case), Some(CaptionsMenu::Case));
    assert_eq!(toggle_captions_menu(Some(CaptionsMenu::AgentTranslate), CaptionsMenu::Agent), None);
    assert_eq!(toggle_music_menu(Some(MusicMenu::AgentMood), MusicMenu::Agent), None);
    assert_eq!(toggle_music_menu(Some(MusicMenu::Input), MusicMenu::Model), Some(MusicMenu::Model));
}
