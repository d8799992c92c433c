use app_shell::generation_model::{
    accepted_kinds, apply_setting, build_generation_input, can_add_reference, can_submit,
    drop_rejection_message, effective_generate_audio, generation_tool_call, setting_options, has_any_settings, has_inflight_generation,
    models_for, ref_cap_reached, ref_counter_label, setting_value, settings_summary,
    shows_frame_strip, shows_image_refs, shows_mode_toggle, shows_ref_sections,
    visible_setting_fields, visible_setting_toggles, AudioCaps, GenParams, GenerationState,
    GenerationType, ImageCaps, ModelCaps, ModelConfig, RefAsset, RefSlot, SettingField,
    SettingToggle, VideoCaps,
};
use app_shell::generation_panel::SubmitOutcome;
use app_shell::http_generation_backend::ModelKind;
use app_shell::json::JsonValue;
use app_shell::media_panel_model::ClipType;

fn strs(v: &[&str]) -> Vec<String> {
    v.iter().map(|s| s.to_string()).collect()
}

fn video(id: &str, caps: VideoCaps) -> ModelConfig {
    ModelConfig {
        id: id.into(),
        display_name: id.to_uppercase(),
        kind: ModelKind::Video,
        paid_only: false,
        caps: ModelCaps::Video(caps),
    }
}

fn base_video() -> VideoCaps {
    VideoCaps {
        durations: vec![5, 10],
        aspect_ratios: strs(&["16:9", "9:16", "1:1"]),
        resolutions: Some(strs(&["720p", "1080p"])),
        requires_source_video: false,
        frames_and_references_exclusive: false,
        supports_first_frame: true,
        supports_last_frame: true,
        max_reference_images: 0,
        max_reference_videos: 0,
        max_reference_audios: 0,
        max_total_references: None,
        has_audio_discount: false,
        supports_references: false,
        max_references: 0,
    }
}

fn image(id: &str, caps: ImageCaps) -> ModelConfig {
    ModelConfig {
        id: id.into(),
        display_name: id.to_uppercase(),
        kind: ModelKind::Image,
        paid_only: false,
        caps: ModelCaps::Image(caps),
    }
}

fn audio(id: &str, caps: AudioCaps) -> ModelConfig {
    ModelConfig {
        id: id.into(),
        display_name: id.to_uppercase(),
        kind: ModelKind::Audio,
        paid_only: false,
        caps: ModelCaps::Audio(caps),
    }
}

fn base_audio() -> AudioCaps {
    AudioCaps {
        is_music: false,
        default_voice: None,
        voices: None,
        durations: None,
        supports_instrumental: false,
        supports_lyrics: false,
        supports_style_instructions: false,
        min_prompt_length: 1,
    }
}

/// A catalog with the caps the panel's behaviour depends on.
fn catalog() -> Vec<ModelConfig> {
    vec![
        video(
            "seedance-2",
            VideoCaps {
                resolutions: Some(strs(&["480p", "720p", "1080p"])),
                frames_and_references_exclusive: true,
                max_reference_images: 9,
                max_reference_videos: 3,
                max_reference_audios: 3,
                max_total_references: Some(12),
                supports_references: true,
                max_references: 12,
                ..base_video()
            },
        ),
        video("veo3.1", VideoCaps { durations: vec![4, 6, 8], ..base_video() }),
        video(
            "veo3.1-lite",
            VideoCaps {
                durations: vec![4, 6, 8],
                resolutions: Some(strs(&["720p", "1080p", "4k"])),
                ..base_video()
            },
        ),
        video(
            "grok-imagine-video",
            VideoCaps { durations: (6..=15).collect(), ..base_video() },
        ),
        video(
            "kling-v3",
            VideoCaps {
                max_reference_images: 3,
                supports_references: true,
                max_references: 3,
                ..base_video()
            },
        ),
        video(
            "kling-o3",
            VideoCaps {
                resolutions: Some(strs(&["720p", "1080p", "4k"])),
                max_reference_images: 4,
                max_reference_videos: 1,
                has_audio_discount: true,
                supports_references: true,
                max_references: 5,
                ..base_video()
            },
        ),
        video(
            "kling-o3-edit",
            VideoCaps {
                durations: vec![],
                aspect_ratios: vec![],
                resolutions: None,
                requires_source_video: true,
                supports_first_frame: false,
                supports_last_frame: false,
                ..base_video()
            },
        ),
        video("hailuo-2", base_video()),
        video("wan-2.5", base_video()),
        video("ltx-2", base_video()),
        image(
            "nano-banana-pro",
            ImageCaps {
                aspect_ratios: strs(&["1:1", "16:9", "9:16"]),
                resolutions: Some(strs(&["1K", "2K", "4K"])),
                qualities: None,
                max_images: 4,
                supports_image_reference: true,
            },
        ),
        image(
            "gpt-image-2",
            ImageCaps {
                aspect_ratios: vec![],
                resolutions: Some(strs(&[
                    "1024x768", "1024x1024", "768x1024", "1536x1024", "1024x1536", "3840x2160",
                ])),
                qualities: Some(strs(&["low", "medium", "high"])),
                max_images: 1,
                supports_image_reference: true,
            },
        ),
        image(
            "recraft-v4",
            ImageCaps {
                aspect_ratios: strs(&["1:1"]),
                resolutions: None,
                qualities: None,
                max_images: 1,
                supports_image_reference: false,
            },
        ),
        audio(
            "elevenlabs-tts-v3",
            AudioCaps {
                default_voice: Some("Rachel".into()),
                voices: Some(strs(&["Rachel", "Adam"])),
                ..base_audio()
            },
        ),
        audio(
            "gemini-3.1-flash-tts",
            AudioCaps {
                default_voice: Some("Kore".into()),
                voices: Some(strs(&["Kore", "Puck"])),
                supports_style_instructions: true,
                ..base_audio()
            },
        ),
        audio(
            "elevenlabs-music",
            AudioCaps {
                is_music: true,
                durations: Some(vec![10, 30, 60]),
                supports_instrumental: true,
                ..base_audio()
            },
        ),
        audio(
            "minimax-music-v2.6",
            AudioCaps {
                is_music: true,
                supports_instrumental: true,
                supports_lyrics: true,
                min_prompt_length: 10,
                ..base_audio()
            },
        ),
    ]
}

fn default_state(cat: &[ModelConfig]) -> GenerationState {
    GenerationState::new("seedance-2", "nano-banana-pro", "elevenlabs-tts-v3", cat)
}

fn state_for(t: GenerationType, model_id: &str, cat: &[ModelConfig]) -> GenerationState {
    let mut st = default_state(cat);
    st.select_type(t, cat);
    st.select_model(model_id, cat);
    st
}

fn video_state(id: &str, cat: &[ModelConfig]) -> GenerationState {
    state_for(GenerationType::Video, id, cat)
}

fn image_state(id: &str, cat: &[ModelConfig]) -> GenerationState {
    state_for(GenerationType::Image, id, cat)
}

fn audio_state(id: &str, cat: &[ModelConfig]) -> GenerationState {
    state_for(GenerationType::Audio, id, cat)
}

fn can_submit_now(st: &GenerationState, cat: &[ModelConfig]) -> bool {
    can_submit(st, cat, true, true)
}

#[test]
fn default_state_selects_first_plan_available_models() {
    let cat = catalog();
    let st = default_state(&cat);
    assert_eq!(st.video_model_id, "seedance-2");
    assert_eq!(st.image_model_id, "nano-banana-pro");
    assert_eq!(st.audio_model_id, "elevenlabs-tts-v3");
    assert_eq!(st.selected_model(&cat).id, "seedance-2");
    assert_eq!(st.params.duration, 5);
    assert_eq!(st.params.resolution, "1080p");
    assert_eq!(st.params.aspect_ratio, "16:9");
}

#[test]
fn switching_models_re_derives_invalid_settings() {
    let cat = catalog();
    let mut st = video_state("veo3.1", &cat);
    assert_eq!(st.params.duration, 4, "5 is not a Veo duration → first (4)");
    st.params.duration = 8;
    st.select_model("grok-imagine-video", &cat);
    assert_eq!(st.params.duration, 8, "8 valid for Grok (6..=15) → kept");
    st.select_model("veo3.1-lite", &cat);
    assert_eq!(st.params.duration, 8, "8 valid for Veo → kept");
    st.params.resolution = "4k".into();
    st.select_model("veo3.1-lite", &cat);
    assert_eq!(st.params.resolution, "4k", "same-model reselect is a no-op");
    st.select_model("seedance-2", &cat);
    assert_eq!(st.params.resolution, "480p", "4k unsupported → first");
}

#[test]
fn select_type_audio_applies_voice_default() {
    let cat = catalog();
    let mut st = default_state(&cat);
    st.select_type(GenerationType::Audio, &cat);
    assert_eq!(st.params.voice, "Rachel");
    st.select_model("gemini-3.1-flash-tts", &cat);
    assert_eq!(st.params.voice, "Kore");
    st.select_model("elevenlabs-music", &cat);
    assert_eq!(st.params.voice, "", "music model has no voices");
    assert_eq!(st.params.audio_duration, 30, "30 is a valid music duration");
}

#[test]
fn select_model_resets_video_ref_state() {
    let cat = catalog();
    let mut st = video_state("seedance-2", &cat);
    st.use_first_last = false;
    st.references.push(RefAsset { id: "a".into(), kind: ClipType::Image });
    st.select_model("kling-o3", &cat);
    assert!(st.use_first_last);
    assert!(st.references.is_empty());
}

#[test]
fn select_type_clears_references_and_status() {
    let cat = catalog();
    let mut st = video_state("seedance-2", &cat);
    st.first_frame = Some("f".into());
    st.status = Some("boom".into());
    st.select_type(GenerationType::Image, &cat);
    assert!(st.first_frame.is_none());
    assert!(st.status.is_none());
}

#[test]
fn reselecting_the_active_type_keeps_everything() {
    let cat = catalog();
    let mut st = video_state("seedance-2", &cat);
    st.first_frame = Some("f".into());
    st.status = Some("boom".into());
    st.show_settings = true;
    st.select_type(GenerationType::Video, &cat);
    assert_eq!(st.first_frame.as_deref(), Some("f"));
    assert_eq!(st.status.as_deref(), Some("boom"));
    assert!(st.show_settings);
}

#[test]
fn unknown_model_id_changes_nothing() {
    let cat = catalog();
    let mut st = video_state("veo3.1", &cat);
    st.select_model("no-such-model", &cat);
    assert_eq!(st.video_model_id, "veo3.1");
    assert_eq!(st.params.duration, 4);
}

#[test]
fn picking_a_model_of_another_kind_only_sets_its_slot() {
    let cat = catalog();
    let mut st = video_state("veo3.1", &cat);
    st.params.aspect_ratio = "9:16".into();
    st.select_model("recraft-v4", &cat);
    assert_eq!(st.image_model_id, "recraft-v4");
    assert_eq!(st.params.aspect_ratio, "9:16");
}

#[test]
fn can_submit_requires_prompt() {
    let cat = catalog();
    let mut st = video_state("seedance-2", &cat);
    assert!(!can_submit_now(&st, &cat), "empty prompt");
    st.prompt = "   ".into();
    assert!(!can_submit_now(&st, &cat), "whitespace prompt");
    st.prompt = "a fox".into();
    assert!(can_submit_now(&st, &cat));
}

#[test]
fn can_submit_audio_min_prompt_length() {
    let cat = catalog();
    let mut st = audio_state("minimax-music-v2.6", &cat);
    st.prompt = "short".into();
    assert!(!can_submit_now(&st, &cat), "below min 10 chars");
    st.prompt = "lofi hip hop beat".into();
    assert!(can_submit_now(&st, &cat));
}

#[test]
fn can_submit_exclusive_reference_mode_needs_refs() {
    let cat = catalog();
    let mut st = video_state("seedance-2", &cat);
    st.prompt = "a fox".into();
    st.use_first_last = false;
    assert!(!can_submit_now(&st, &cat), "reference mode with no refs");
    st.references.push(RefAsset { id: "a".into(), kind: ClipType::Image });
    assert!(can_submit_now(&st, &cat));
}

#[test]
fn can_submit_edit_models_blocked_without_source() {
    let cat = catalog();
    let mut st = video_state("kling-o3-edit", &cat);
    st.prompt = "restyle".into();
    assert!(!can_submit_now(&st, &cat));
}

#[test]
fn can_submit_blocked_by_plan_or_balance() {
    let cat = catalog();
    let mut st = video_state("seedance-2", &cat);
    st.prompt = "a fox".into();
    assert!(!can_submit(&st, &cat, false, true), "model not on the plan");
    assert!(!can_submit(&st, &cat, true, false), "estimate over the balance");
    assert!(can_submit(&st, &cat, true, true));
}

#[test]
fn setting_fields_derive_from_caps() {
    let cat = catalog();
    assert_eq!(
        visible_setting_fields(&video_state("seedance-2", &cat), &cat),
        vec![SettingField::Duration, SettingField::AspectRatio, SettingField::Resolution]
    );
    assert_eq!(
        visible_setting_fields(&image_state("gpt-image-2", &cat), &cat),
        vec![SettingField::Resolution, SettingField::Quality],
        "GPT has no aspect list and maxImages 1"
    );
    assert_eq!(
        visible_setting_fields(&image_state("nano-banana-pro", &cat), &cat),
        vec![SettingField::AspectRatio, SettingField::Resolution, SettingField::Count]
    );
    assert_eq!(
        visible_setting_fields(&audio_state("elevenlabs-music", &cat), &cat),
        vec![SettingField::AudioDuration]
    );
    assert!(visible_setting_fields(&audio_state("elevenlabs-tts-v3", &cat), &cat).is_empty());
    assert!(visible_setting_fields(&video_state("kling-o3-edit", &cat), &cat).is_empty());
}

#[test]
fn setting_toggles_derive_from_caps() {
    let cat = catalog();
    assert_eq!(
        visible_setting_toggles(&video_state("kling-o3", &cat), &cat),
        vec![SettingToggle::GenerateAudio]
    );
    assert!(visible_setting_toggles(&video_state("seedance-2", &cat), &cat).is_empty());
    assert_eq!(
        visible_setting_toggles(&audio_state("minimax-music-v2.6", &cat), &cat),
        vec![SettingToggle::Instrumental]
    );
}

#[test]
fn has_any_settings_gates_gear() {
    let cat = catalog();
    assert!(has_any_settings(&video_state("seedance-2", &cat), &cat));
    assert!(has_any_settings(&audio_state("elevenlabs-music", &cat), &cat));
    assert!(!has_any_settings(&audio_state("elevenlabs-tts-v3", &cat), &cat));
    assert!(!has_any_settings(&video_state("kling-o3-edit", &cat), &cat));
}

#[test]
fn setting_labels() {
    assert_eq!(SettingField::Duration.label(), "Duration");
    assert_eq!(SettingField::AudioDuration.label(), "Duration");
    assert_eq!(SettingField::AspectRatio.label(), "Aspect Ratio");
    assert_eq!(SettingField::Count.label(), "Count");
    assert_eq!(SettingToggle::GenerateAudio.label(), "Generate audio");
    assert_eq!(GenerationType::Image.label(), "Image");
    assert_eq!(GenerationType::Audio.icon_path(), "icons/waveform.svg");
    assert_eq!(GenerationType::Video.kind(), ModelKind::Video);
    assert_eq!(
        GenerationType::all(),
        [GenerationType::Video, GenerationType::Image, GenerationType::Audio]
    );
}

#[test]
fn apply_setting_parses_numbers_and_sets_text() {
    let cat = catalog();
    let mut st = video_state("veo3.1", &cat);
    apply_setting(&mut st, SettingField::Duration, "6");
    assert_eq!(st.params.duration, 6);
    assert_eq!(setting_value(&st, SettingField::Duration), "6");
    apply_setting(&mut st, SettingField::Duration, "six");
    assert_eq!(st.params.duration, 6, "unparsable value leaves the field");
    apply_setting(&mut st, SettingField::Duration, "-3");
    assert_eq!(setting_value(&st, SettingField::Duration), "-3");
    apply_setting(&mut st, SettingField::Resolution, "720p");
    assert_eq!(setting_value(&st, SettingField::Resolution), "720p");

    let mut nst = image_state("nano-banana-pro", &cat);
    apply_setting(&mut nst, SettingField::Count, "3");
    assert_eq!(nst.params.num_images, 3);
    assert_eq!(setting_value(&nst, SettingField::Count), "3");
    apply_setting(&mut nst, SettingField::Count, "99999999999999999999");
    assert_eq!(nst.params.num_images, 3, "out of range is not a number");
}

#[test]
fn setting_options_and_apply() {
    let cat = catalog();
    let mut st = video_state("veo3.1", &cat);
    let durations = setting_options(&st, &cat, SettingField::Duration, &[], &[]);
    assert_eq!(
        durations,
        vec![
            ("4".to_string(), "4s".to_string()),
            ("6".to_string(), "6s".to_string()),
            ("8".to_string(), "8s".to_string())
        ]
    );
    apply_setting(&mut st, SettingField::Duration, "6");
    assert_eq!(st.params.duration, 6);
    assert_eq!(setting_value(&st, SettingField::Duration), "6");

    let ist = image_state("gpt-image-2", &cat);
    let labels = strs(&["Landscape", "Square", "Portrait", "Landscape HD", "Portrait HD", "Landscape 4K"]);
    let resolutions = setting_options(&ist, &cat, SettingField::Resolution, &[], &labels);
    assert_eq!(resolutions[1], ("1024x1024".to_string(), "Square".to_string()));
    assert_eq!(resolutions[5], ("3840x2160".to_string(), "Landscape 4K".to_string()));
    let qualities = setting_options(&ist, &cat, SettingField::Quality, &[], &[]);
    assert_eq!(qualities[0], ("low".to_string(), "Low".to_string()));

    let mut nst = image_state("nano-banana-pro", &cat);
    let counts = setting_options(&nst, &cat, SettingField::Count, &[], &[]);
    assert_eq!(counts.len(), 4);
    apply_setting(&mut nst, SettingField::Count, "3");
    assert_eq!(nst.params.num_images, 3);
}

#[test]
fn setting_options_label_aspects_and_list_counts() {
    let cat = catalog();
    let st = video_state("seedance-2", &cat);
    let aspects = setting_options(&st, &cat, SettingField::AspectRatio, &strs(&["Wide", "Tall", "Square"]), &[]);
    assert_eq!(aspects[2], ("1:1".to_string(), "Square".to_string()));
    let res = setting_options(&st, &cat, SettingField::Resolution, &[], &[]);
    assert_eq!(res[0], ("480p".to_string(), "480p".to_string()));
    assert!(setting_options(&st, &cat, SettingField::Quality, &[], &[]).is_empty());
    let nst = image_state("nano-banana-pro", &cat);
    let counts = setting_options(&nst, &cat, SettingField::Count, &[], &[]);
    assert_eq!(counts[3], ("4".to_string(), "4".to_string()));
    let music = audio_state("elevenlabs-music", &cat);
    let ds = setting_options(&music, &cat, SettingField::AudioDuration, &[], &[]);
    assert_eq!(ds[2], ("60".to_string(), "60s".to_string()));
}

#[test]
fn settings_summary_strings() {
    let cat = catalog();
    let st = video_state("seedance-2", &cat);
    assert_eq!(settings_summary(&st, &cat, ""), "1080p · 5s · 16:9");

    let ist = image_state("gpt-image-2", &cat);
    assert_eq!(settings_summary(&ist, &cat, "Landscape"), "Landscape · high");

    let mut ast = audio_state("elevenlabs-music", &cat);
    assert_eq!(settings_summary(&ast, &cat, ""), "30s");
    ast.params.instrumental = true;
    assert_eq!(settings_summary(&ast, &cat, ""), "30s · Instrumental");

    let tts = audio_state("elevenlabs-tts-v3", &cat);
    assert_eq!(settings_summary(&tts, &cat, ""), "Settings");

    let mut nst = image_state("nano-banana-pro", &cat);
    nst.params.num_images = 2;
    assert_eq!(settings_summary(&nst, &cat, "2K"), "2K · 16:9 · ×2");
}

#[test]
fn reference_caps_enforced_per_kind_and_total() {
    let cat = catalog();
    let mut st = video_state("kling-v3", &cat);
    st.use_first_last = true;
    for i in 0..3 {
        let id = format!("img{i}");
        assert!(can_add_reference(&st, &cat, &id, ClipType::Image).is_ok());
        st.references.push(RefAsset { id, kind: ClipType::Image });
    }
    assert!(can_add_reference(&st, &cat, "img9", ClipType::Image)
        .unwrap_err()
        .contains("limit reached (3)"));
    assert!(can_add_reference(&st, &cat, "vid1", ClipType::Video)
        .unwrap_err()
        .contains("doesn't accept video references"));
    assert!(can_add_reference(&st, &cat, "img0", ClipType::Image)
        .unwrap_err()
        .contains("Already"));
    assert!(ref_cap_reached(&st, &cat));
    assert_eq!(ref_counter_label(&st, &cat), "3/3");
}

#[test]
fn reference_messages_are_exact() {
    let cat = catalog();
    let mut st = video_state("kling-v3", &cat);
    for i in 0..3 {
        st.references.push(RefAsset { id: format!("img{i}"), kind: ClipType::Image });
    }
    assert_eq!(
        can_add_reference(&st, &cat, "img9", ClipType::Image),
        Err("image reference limit reached (3).".to_string())
    );
    assert_eq!(
        can_add_reference(&st, &cat, "vid1", ClipType::Video),
        Err("KLING-V3 doesn't accept video references.".to_string())
    );
    let ast = audio_state("elevenlabs-tts-v3", &cat);
    assert_eq!(
        can_add_reference(&ast, &cat, "a", ClipType::Audio),
        Err("Audio generation doesn't take references.".to_string())
    );
    let ist = image_state("nano-banana-pro", &cat);
    assert_eq!(
        can_add_reference(&ist, &cat, "a", ClipType::Video),
        Err("Reference expects an image.".to_string())
    );
    assert_eq!(ref_counter_label(&ist, &cat), "0");
}

#[test]
fn seedance_total_reference_cap() {
    let cat = catalog();
    let mut st = video_state("seedance-2", &cat);
    st.use_first_last = false;
    for i in 0..9 {
        st.references.push(RefAsset { id: format!("i{i}"), kind: ClipType::Image });
    }
    for i in 0..3 {
        st.references.push(RefAsset { id: format!("v{i}"), kind: ClipType::Video });
    }
    assert_eq!(st.references.len(), 12);
    assert!(
        can_add_reference(&st, &cat, "a1", ClipType::Audio)
            .unwrap_err()
            .contains("limit reached (12)"),
        "total cap hits before the per-kind audio cap"
    );
    assert!(ref_cap_reached(&st, &cat));
}

#[test]
fn image_references_gated_by_support() {
    let cat = catalog();
    let st = image_state("nano-banana-pro", &cat);
    assert!(can_add_reference(&st, &cat, "a", ClipType::Image).is_ok());
    assert!(can_add_reference(&st, &cat, "a", ClipType::Video).is_err());
    let rst = image_state("recraft-v4", &cat);
    assert!(can_add_reference(&rst, &cat, "a", ClipType::Image)
        .unwrap_err()
        .contains("doesn't accept reference images"));
}

#[test]
fn accepted_kinds_per_slot() {
    let cat = catalog();
    let st = video_state("seedance-2", &cat);
    assert_eq!(accepted_kinds(&st, &cat, RefSlot::FirstFrame), vec![ClipType::Image]);
    assert_eq!(
        accepted_kinds(&st, &cat, RefSlot::Reference),
        vec![ClipType::Image, ClipType::Video, ClipType::Audio]
    );
    let kst = video_state("kling-v3", &cat);
    assert_eq!(accepted_kinds(&kst, &cat, RefSlot::Reference), vec![ClipType::Image]);
    let ist = image_state("recraft-v4", &cat);
    assert!(accepted_kinds(&ist, &cat, RefSlot::Reference).is_empty());
}

#[test]
fn drop_rejection_matches_accepted_kinds() {
    let cat = catalog();
    let st = video_state("seedance-2", &cat);
    assert_eq!(drop_rejection_message(&st, &cat, RefSlot::FirstFrame, ClipType::Image), None);
    assert_eq!(
        drop_rejection_message(&st, &cat, RefSlot::FirstFrame, ClipType::Audio),
        Some("Drop image here.".to_string())
    );
    assert_eq!(drop_rejection_message(&st, &cat, RefSlot::Reference, ClipType::Video), None);
    let kst = video_state("kling-v3", &cat);
    assert_eq!(
        drop_rejection_message(&kst, &cat, RefSlot::Reference, ClipType::Audio),
        Some("Drop image here.".to_string())
    );
    let kost = video_state("kling-o3", &cat);
    assert_eq!(
        drop_rejection_message(&kost, &cat, RefSlot::Reference, ClipType::Audio),
        Some("Drop image or video here.".to_string())
    );
}

#[test]
fn drop_rejection_on_refless_model() {
    let cat = catalog();
    let ist = image_state("recraft-v4", &cat);
    let msg = drop_rejection_message(&ist, &cat, RefSlot::Reference, ClipType::Image);
    assert!(msg.as_deref().is_some_and(|m| m.contains("doesn't accept")), "msg={msg:?}");
    assert_eq!(msg.as_deref(), Some("RECRAFT-V4 doesn't accept references."));
}

#[test]
fn reference_layout_per_model() {
    let cat = catalog();
    let veo = video_state("veo3.1", &cat);
    assert!(shows_frame_strip(&veo, &cat) && !shows_ref_sections(&veo, &cat));
    assert!(!shows_mode_toggle(&veo, &cat));

    let kling = video_state("kling-o3", &cat);
    assert!(shows_frame_strip(&kling, &cat) && shows_ref_sections(&kling, &cat));

    let mut seedance = video_state("seedance-2", &cat);
    assert!(shows_mode_toggle(&seedance, &cat));
    assert!(shows_frame_strip(&seedance, &cat) && !shows_ref_sections(&seedance, &cat));
    seedance.use_first_last = false;
    assert!(!shows_frame_strip(&seedance, &cat) && shows_ref_sections(&seedance, &cat));

    let edit = video_state("kling-o3-edit", &cat);
    assert!(!shows_frame_strip(&edit, &cat) && !shows_ref_sections(&edit, &cat));
    assert!(!shows_mode_toggle(&edit, &cat));

    assert!(shows_image_refs(&image_state("nano-banana-pro", &cat), &cat));
    assert!(!shows_image_refs(&image_state("recraft-v4", &cat), &cat));

    let audio = audio_state("elevenlabs-tts-v3", &cat);
    assert!(!shows_frame_strip(&audio, &cat) && !shows_ref_sections(&audio, &cat));
    assert!(!shows_image_refs(&audio, &cat));
}

#[test]
fn build_generation_input_video_full() {
    let cat = catalog();
    let mut st = video_state("kling-o3", &cat);
    st.prompt = "a fox running".into();
    st.params.duration = 10;
    st.params.resolution = "4k".into();
    st.params.generate_audio = false;
    st.first_frame = Some("f1".into());
    st.last_frame = Some("l1".into());
    st.references = vec![
        RefAsset { id: "ri".into(), kind: ClipType::Image },
        RefAsset { id: "rv".into(), kind: ClipType::Video },
    ];
    let input = build_generation_input(&st, &cat);
    assert_eq!(input.prompt, "a fox running");
    assert_eq!(input.model, "kling-o3");
    assert_eq!(input.duration, 10);
    assert_eq!(input.aspect_ratio, "16:9");
    assert_eq!(input.resolution.as_deref(), Some("4k"));
    assert_eq!(input.generate_audio, Some(false));
    assert_eq!(input.image_url_asset_ids, Some(vec!["f1".to_string(), "l1".to_string()]));
    assert_eq!(input.reference_image_asset_ids, Some(vec!["ri".to_string()]));
    assert_eq!(input.reference_video_asset_ids, Some(vec!["rv".to_string()]));
    assert_eq!(input.reference_audio_asset_ids, None);
    assert_eq!(input.quality, None);
    assert_eq!(input.num_images, None);
}

#[test]
fn build_generation_input_exclusive_mode_drops_hidden_side() {
    let cat = catalog();
    let mut st = video_state("seedance-2", &cat);
    st.prompt = "p".into();
    st.first_frame = Some("f1".into());
    st.references.push(RefAsset { id: "r1".into(), kind: ClipType::Image });
    st.use_first_last = true;
    let input = build_generation_input(&st, &cat);
    assert_eq!(input.image_url_asset_ids, Some(vec!["f1".to_string()]));
    assert_eq!(input.reference_image_asset_ids, None, "refs hidden in frames mode");
    st.use_first_last = false;
    let input = build_generation_input(&st, &cat);
    assert_eq!(input.image_url_asset_ids, None, "frames hidden in refs mode");
    assert_eq!(input.reference_image_asset_ids, Some(vec!["r1".to_string()]));
}

#[test]
fn build_generation_input_audio_and_image() {
    let cat = catalog();
    let mut ast = audio_state("gemini-3.1-flash-tts", &cat);
    ast.prompt = "hello world".into();
    ast.style_instructions = "calm".into();
    ast.lyrics = "ignored".into();
    let input = build_generation_input(&ast, &cat);
    assert_eq!(input.voice.as_deref(), Some("Kore"));
    assert_eq!(input.style_instructions.as_deref(), Some("calm"));
    assert_eq!(input.lyrics, None, "TTS doesn't support lyrics");
    assert_eq!(input.duration, 0, "no duration caps");
    assert_eq!(input.instrumental, None);

    let mut ist = image_state("nano-banana-pro", &cat);
    ist.prompt = "a sunset".into();
    ist.params.num_images = 3;
    ist.references.push(RefAsset { id: "r1".into(), kind: ClipType::Image });
    let input = build_generation_input(&ist, &cat);
    assert_eq!(input.num_images, Some(3));
    assert_eq!(input.quality, None, "nano has no qualities");
    assert_eq!(input.image_url_asset_ids, Some(vec!["r1".to_string()]));
}

fn arg<'a>(args: &'a JsonValue, key: &str) -> Option<&'a JsonValue> {
    args.get(key)
}

fn text(v: &str) -> JsonValue {
    JsonValue::Str(v.to_string())
}

#[test]
fn generation_tool_call_routes_by_kind_and_category() {
    let cat = catalog();
    let mut vst = video_state("seedance-2", &cat);
    vst.prompt = "a fox".into();
    let (tool, args) = generation_tool_call(&vst, &cat);
    assert_eq!(tool, "generate_video");
    assert_eq!(arg(&args, "prompt"), Some(&text("a fox")));
    assert_eq!(arg(&args, "model"), Some(&text("seedance-2")));
    assert_eq!(arg(&args, "duration"), Some(&JsonValue::Number("5.0".to_string())));
    assert_eq!(arg(&args, "resolution"), Some(&text("1080p")));

    let (tool, args) = generation_tool_call(&image_state("gpt-image-2", &cat), &cat);
    assert_eq!(tool, "generate_image");
    assert_eq!(arg(&args, "quality"), Some(&text("high")));
    assert!(arg(&args, "duration").is_none());

    let mut tts = audio_state("elevenlabs-tts-v3", &cat);
    tts.prompt = "say this".into();
    let (tool, args) = generation_tool_call(&tts, &cat);
    assert_eq!(tool, "generate_audio");
    assert_eq!(arg(&args, "voice"), Some(&text("Rachel")));
    assert!(arg(&args, "duration").is_none(), "TTS has no duration");

    let mut mm = audio_state("minimax-music-v2.6", &cat);
    mm.prompt = "lofi hip hop".into();
    mm.params.instrumental = true;
    let (tool, args) = generation_tool_call(&mm, &cat);
    assert_eq!(tool, "generate_audio");
    assert_eq!(arg(&args, "instrumental"), Some(&JsonValue::Bool(true)));
    assert!(arg(&args, "duration").is_none(), "minimax has no duration caps");

    let mut em = audio_state("elevenlabs-music", &cat);
    em.prompt = "orchestral".into();
    let (tool, args) = generation_tool_call(&em, &cat);
    assert_eq!(tool, "generate_audio");
    assert_eq!(arg(&args, "duration"), Some(&JsonValue::Number("30.0".to_string())));
}

#[test]
fn tool_call_lists_reference_ids_and_count() {
    let cat = catalog();
    let mut ist = image_state("nano-banana-pro", &cat);
    ist.prompt = "x".into();
    ist.params.num_images = 2;
    ist.references.push(RefAsset { id: "r1".into(), kind: ClipType::Image });
    let (_, args) = generation_tool_call(&ist, &cat);
    assert_eq!(arg(&args, "numImages"), Some(&JsonValue::Number("2".to_string())));
    assert_eq!(arg(&args, "imageURLAssetIds"), Some(&JsonValue::Array(vec![text("r1")])));
    assert_eq!(arg(&args, "aspectRatio"), Some(&text("16:9")));
}

#[test]
fn inflight_derives_from_manifest_status() {
    assert!(has_inflight_generation(&[Some("generating".to_string())]));
    assert!(has_inflight_generation(&[None, Some("downloading".to_string())]));
    assert!(!has_inflight_generation(&[Some("none".to_string()), None]));
    assert!(!has_inflight_generation(&[]));
}

#[test]
fn models_for_lists_kind_in_catalog_order() {
    let cat = catalog();
    let ids: Vec<&str> = models_for(&cat, ModelKind::Video).iter().map(|m| m.id.as_str()).collect();
    assert_eq!(ids.len(), 10);
    assert_eq!(ids[0], "seedance-2");
    let audio: Vec<&str> = models_for(&cat, ModelKind::Audio).iter().map(|m| m.id.as_str()).collect();
    assert_eq!(audio, vec!["elevenlabs-tts-v3", "gemini-3.1-flash-tts", "elevenlabs-music", "minimax-music-v2.6"]);
    assert!(models_for(&cat, ModelKind::Upscale).is_empty());
}

#[test]
fn selected_model_falls_back_to_first_of_kind() {
    let cat = catalog();
    let mut st = default_state(&cat);
    st.video_model_id = "nano-banana-pro".into();
    assert_eq!(st.selected_model(&cat).id, "seedance-2");
    st.video_model_id = "missing".into();
    assert_eq!(st.selected_model(&cat).id, "seedance-2");
    assert_eq!(st.selected_model_id(), "missing");
}

#[test]
fn close_popovers_reports_and_clears() {
    let cat = catalog();
    let mut st = default_state(&cat);
    assert!(!st.close_popovers());
    st.show_settings = true;
    st.asset_picker = Some(RefSlot::Reference);
    assert!(st.close_popovers());
    assert!(!st.show_settings && st.asset_picker.is_none());
}

#[test]
fn assign_reference_routes_slots_and_caps() {
    let cat = catalog();
    let mut st = video_state("kling-v3", &cat);
    st.assign_reference(RefSlot::FirstFrame, "f1", ClipType::Image, &cat);
    assert_eq!(st.first_frame.as_deref(), Some("f1"));
    st.assign_reference(RefSlot::Reference, "r1", ClipType::Image, &cat);
    assert_eq!(st.references.len(), 1);
    st.assign_reference(RefSlot::Reference, "r1", ClipType::Image, &cat);
    assert_eq!(st.references.len(), 1, "duplicate rejected");
    assert!(st.status.is_some(), "rejection surfaces a status line");
}

#[test]
fn sanitize_for_clamps_image_count_and_keeps_valid_values() {
    let cat = catalog();
    let mut p = GenParams::default();
    p.num_images = 9;
    p.quality = "ultra".into();
    p.resolution = "768x1024".into();
    p.sanitize_for(&cat[11]);
    assert_eq!(p.num_images, 1, "gpt-image-2 takes one image");
    assert_eq!(p.quality, "high", "unlisted quality falls back to the last option");
    assert_eq!(p.resolution, "768x1024", "listed resolution kept");
    assert_eq!(p.aspect_ratio, "16:9", "no aspect list: kept");
    let mut q = GenParams::default();
    q.num_images = 0;
    q.sanitize_for(&cat[10]);
    assert_eq!(q.num_images, 1);
}

#[test]
fn drop_follows_pick_rules() {
    let cat = catalog();
    let mut st = video_state("kling-v3", &cat);
    st.handle_asset_drop(RefSlot::Reference, "a1", ClipType::Audio, &cat);
    assert!(st.references.is_empty());
    assert_eq!(st.status.as_deref(), Some("Drop image here."));
    st.handle_asset_drop(RefSlot::Reference, "i1", ClipType::Image, &cat);
    assert_eq!(st.references, vec![RefAsset { id: "i1".into(), kind: ClipType::Image }]);
    st.handle_asset_drop(RefSlot::FirstFrame, "v1", ClipType::Video, &cat);
    assert!(st.first_frame.is_none(), "frames take images only");
    st.handle_asset_drop(RefSlot::FirstFrame, "i2", ClipType::Image, &cat);
    assert_eq!(st.first_frame.as_deref(), Some("i2"));
}

#[test]
fn asset_picker_closes_other_popovers() {
    let cat = catalog();
    let mut st = default_state(&cat);
    st.show_settings = true;
    st.open_asset_picker(RefSlot::LastFrame);
    assert!(!st.show_settings);
    assert_eq!(st.asset_picker, Some(RefSlot::LastFrame));
}

#[test]
fn submit_outcome_resets_or_reports() {
    let cat = catalog();
    let mut st = video_state("seedance-2", &cat);
    st.prompt = "a fox".into();
    st.lyrics = "la".into();
    st.first_frame = Some("f".into());
    st.apply_submit_outcome(&SubmitOutcome::Failed("boom".into()));
    assert_eq!(st.status.as_deref(), Some("boom"));
    assert_eq!(st.prompt, "a fox", "a failure keeps the form");
    st.apply_submit_outcome(&SubmitOutcome::Unavailable);
    assert_eq!(st.status.as_deref(), Some("Generation unavailable — no backend is connected."));
    st.apply_submit_outcome(&SubmitOutcome::Queued("ok".into()));
    assert_eq!(st.prompt, "");
    assert_eq!(st.lyrics, "");
    assert!(st.first_frame.is_none());
    assert!(st.status.is_none());
}

#[test]
fn generate_audio_follows_toggle_only_where_offered() {
    let cat = catalog();
    let mut kling = video_state("kling-o3", &cat);
    kling.params.generate_audio = false;
    assert!(!effective_generate_audio(&kling, &cat));
    let mut seedance = video_state("seedance-2", &cat);
    seedance.params.generate_audio = false;
    assert!(effective_generate_audio(&seedance, &cat), "no toggle: audio always on");
}
