//! Form model of the AI generation panel: the model caps that drive it, the
//! generation parameters and their correction against a model's caps, the
//! reference slots with their per-model limits, the settings popover and
//! the request that a submission sends.
use crate::http_generation_backend::{opt_view, ModelKind};
use crate::json::{json_of, jsons_of, members_of, push_member, Json, JsonValue};
use crate::generation_panel::{submit_outcome_view, SubmitOutcome, SubmitOutcomeView};
use crate::media_panel_model::ClipType;
use crate::text::{append_decimal, append_i64, char_uppercase, decimal, lemma_signed_decimal_parses_back, parse_i64, parse_i64_spec, signed_decimal, trim, trim_spec, uppercase_of_char};
use vstd::prelude::*;

verus! {

/// AI generation type picked in the panel's tab row.
#[derive(Debug, Clone, Copy, PartialEq, Eq, Structural)]
pub enum GenerationType {
    Video,
    Image,
    Audio,
}

pub open spec fn generation_type_label(t: GenerationType) -> Seq<char> {
    match t {
        GenerationType::Video => "Video"@,
        GenerationType::Image => "Image"@,
        GenerationType::Audio => "Audio"@,
    }
}

pub open spec fn generation_type_icon(t: GenerationType) -> Seq<char> {
    match t {
        GenerationType::Video => "icons/video.svg"@,
        GenerationType::Image => "icons/photo.svg"@,
        GenerationType::Audio => "icons/waveform.svg"@,
    }
}

/// The model kind a generation type draws its models from.
pub open spec fn kind_of_type(t: GenerationType) -> ModelKind {
    match t {
        GenerationType::Video => ModelKind::Video,
        GenerationType::Image => ModelKind::Image,
        GenerationType::Audio => ModelKind::Audio,
    }
}

impl GenerationType {
    pub fn label(&self) -> (s: &'static str)
        ensures
            s@ == generation_type_label(*self),
    {
        proof {
            reveal_strlit("Video");
            reveal_strlit("Image");
            reveal_strlit("Audio");
        }
        match self {
            GenerationType::Video => "Video",
            GenerationType::Image => "Image",
            GenerationType::Audio => "Audio",
        }
    }

    pub fn icon_path(&self) -> (s: &'static str)
        ensures
            s@ == generation_type_icon(*self),
    {
        proof {
            reveal_strlit("icons/video.svg");
            reveal_strlit("icons/photo.svg");
            reveal_strlit("icons/waveform.svg");
        }
        match self {
            GenerationType::Video => "icons/video.svg",
            GenerationType::Image => "icons/photo.svg",
            GenerationType::Audio => "icons/waveform.svg",
        }
    }

    pub fn kind(&self) -> (k: ModelKind)
        ensures
            k == kind_of_type(*self),
    {
        match self {
            GenerationType::Video => ModelKind::Video,
            GenerationType::Image => ModelKind::Image,
            GenerationType::Audio => ModelKind::Audio,
        }
    }

    /// The three types in tab order.
    pub fn all() -> (r: [GenerationType; 3])
        ensures
            r@ == seq![GenerationType::Video, GenerationType::Image, GenerationType::Audio],
    {
        let r = [GenerationType::Video, GenerationType::Image, GenerationType::Audio];
        assert(r@ =~= seq![GenerationType::Video, GenerationType::Image, GenerationType::Audio]);
        r
    }
}

/// What a video model accepts.
#[derive(Debug, Clone, PartialEq)]
pub struct VideoCaps {
    pub durations: Vec<i64>,
    pub aspect_ratios: Vec<String>,
    pub resolutions: Option<Vec<String>>,
    pub requires_source_video: bool,
    pub frames_and_references_exclusive: bool,
    pub supports_first_frame: bool,
    pub supports_last_frame: bool,
    pub max_reference_images: i64,
    pub max_reference_videos: i64,
    pub max_reference_audios: i64,
    pub max_total_references: Option<i64>,
    /// Whether the model prices audio separately (and so offers an audio toggle).
    pub has_audio_discount: bool,
    /// Whether the model takes reference media at all, as the catalog reports.
    pub supports_references: bool,
    /// The reference capacity the catalog reports, shown in the counter.
    pub max_references: i64,
}

/// What an image model accepts.
#[derive(Debug, Clone, PartialEq)]
pub struct ImageCaps {
    pub aspect_ratios: Vec<String>,
    pub resolutions: Option<Vec<String>>,
    pub qualities: Option<Vec<String>>,
    pub max_images: i64,
    pub supports_image_reference: bool,
}

/// What an audio model accepts.
#[derive(Debug, Clone, PartialEq)]
pub struct AudioCaps {
    /// Whether the catalog files the model under music (rather than speech).
    pub is_music: bool,
    pub default_voice: Option<String>,
    pub voices: Option<Vec<String>>,
    pub durations: Option<Vec<i64>>,
    pub supports_instrumental: bool,
    pub supports_lyrics: bool,
    pub supports_style_instructions: bool,
    pub min_prompt_length: i64,
}

/// A model's capabilities, one variant per generation type.
#[derive(Debug, Clone, PartialEq)]
pub enum ModelCaps {
    Video(VideoCaps),
    Image(ImageCaps),
    Audio(AudioCaps),
}

/// One catalog entry.
#[derive(Debug, Clone, PartialEq)]
pub struct ModelConfig {
    pub id: String,
    pub display_name: String,
    pub kind: ModelKind,
    pub paid_only: bool,
    pub caps: ModelCaps,
}

/// The entries of `catalog` of `kind`, in catalog order.
pub open spec fn models_of_kind(catalog: Seq<ModelConfig>, kind: ModelKind) -> Seq<ModelConfig>
    decreases catalog.len(),
{
    if catalog.len() == 0 {
        Seq::empty()
    } else {
        let rest = models_of_kind(catalog.drop_last(), kind);
        if catalog.last().kind == kind {
            rest.push(catalog.last())
        } else {
            rest
        }
    }
}

/// Catalog entries of a kind, in catalog order.
pub fn models_for<'a>(catalog: &'a [ModelConfig], kind: ModelKind) -> (r: Vec<&'a ModelConfig>)
    ensures
        r@.map_values(|m: &ModelConfig| *m) == models_of_kind(catalog@, kind),
{
    let mut r: Vec<&'a ModelConfig> = Vec::new();
    let mut i: usize = 0;
    while i < catalog.len()
        invariant
            0 <= i <= catalog@.len(),
            r@.map_values(|m: &ModelConfig| *m) == models_of_kind(catalog@.take(i as int), kind),
        decreases catalog.len() - i,
    {
        assert(catalog@.take(i + 1).drop_last() =~= catalog@.take(i as int));
        let ghost before = r@;
        if catalog[i].kind == kind {
            r.push(&catalog[i]);
            assert(r@.map_values(|m: &ModelConfig| *m) =~= before.map_values(|m: &ModelConfig| *m).push(catalog@[i as int]));
        }
        i += 1;
    }
    assert(catalog@.take(i as int) =~= catalog@);
    r
}

/// Views of a list of strings.
pub open spec fn strs(v: Seq<String>) -> Seq<Seq<char>> {
    v.map_values(|s: String| s@)
}

/// Whether `x` is among the strings of `v`.
pub open spec fn has_str(v: Seq<String>, x: Seq<char>) -> bool {
    exists|i: int| 0 <= i < v.len() && (#[trigger] v[i])@ == x
}

fn contains_str(v: &Vec<String>, x: &String) -> (b: bool)
    ensures
        b == has_str(v@, x@),
{
    let mut i: usize = 0;
    while i < v.len()
        invariant
            0 <= i <= v@.len(),
            forall|j: int| 0 <= j < i ==> (#[trigger] v@[j])@ != x@,
        decreases v.len() - i,
    {
        if v[i] == *x {
            assert(v@[i as int]@ == x@);
            return true;
        }
        i += 1;
    }
    false
}

fn contains_i64(v: &Vec<i64>, x: i64) -> (b: bool)
    ensures
        b == v@.contains(x),
{
    let mut i: usize = 0;
    while i < v.len()
        invariant
            0 <= i <= v@.len(),
            forall|j: int| 0 <= j < i ==> v@[j] != x,
        decreases v.len() - i,
    {
        if v[i] == x {
            assert(v@[i as int] == x);
            return true;
        }
        i += 1;
    }
    false
}

/// `current` when `options` lists it, else the first option, else `fallback`.
pub open spec fn keep_or_first(options: Seq<String>, current: Seq<char>, fallback: Seq<char>) -> Seq<char> {
    if has_str(options, current) {
        current
    } else if options.len() > 0 {
        options[0]@
    } else {
        fallback
    }
}

/// `current` when `options` lists it, else the last option, else `fallback`.
pub open spec fn keep_or_last(options: Seq<String>, current: Seq<char>, fallback: Seq<char>) -> Seq<char> {
    if has_str(options, current) {
        current
    } else if options.len() > 0 {
        options.last()@
    } else {
        fallback
    }
}

/// `current` when `options` lists it, else the first option, else `fallback`.
pub open spec fn keep_or_first_int(options: Seq<i64>, current: i64, fallback: i64) -> i64 {
    if options.contains(current) {
        current
    } else if options.len() > 0 {
        options[0]
    } else {
        fallback
    }
}

fn pick_str(options: &Vec<String>, current: &String, fallback: &str, from_end: bool) -> (r: String)
    ensures
        !from_end ==> r@ == keep_or_first(options@, current@, fallback@),
        from_end ==> r@ == keep_or_last(options@, current@, fallback@),
{
    if contains_str(options, current) {
        current.clone()
    } else if options.len() > 0 {
        if from_end {
            options[options.len() - 1].clone()
        } else {
            options[0].clone()
        }
    } else {
        String::from_str(fallback)
    }
}

fn pick_i64(options: &Vec<i64>, current: i64, fallback: i64) -> (r: i64)
    ensures
        r == keep_or_first_int(options@, current, fallback),
{
    if contains_i64(options, current) {
        current
    } else if options.len() > 0 {
        options[0]
    } else {
        fallback
    }
}

/// Generation parameters of the panel, shared across models.
#[derive(Debug, Clone, PartialEq)]
pub struct GenParams {
    pub duration: i64,
    pub aspect_ratio: String,
    pub resolution: String,
    pub quality: String,
    pub num_images: i64,
    pub voice: String,
    pub instrumental: bool,
    pub audio_duration: i64,
    pub generate_audio: bool,
}

/// Generation parameters as plain values.
#[verifier::ext_equal]
pub struct GenParamsView {
    pub duration: i64,
    pub aspect_ratio: Seq<char>,
    pub resolution: Seq<char>,
    pub quality: Seq<char>,
    pub num_images: i64,
    pub voice: Seq<char>,
    pub instrumental: bool,
    pub audio_duration: i64,
    pub generate_audio: bool,
}

impl View for GenParams {
    type V = GenParamsView;

    open spec fn view(&self) -> GenParamsView {
        GenParamsView {
            duration: self.duration,
            aspect_ratio: self.aspect_ratio@,
            resolution: self.resolution@,
            quality: self.quality@,
            num_images: self.num_images,
            voice: self.voice@,
            instrumental: self.instrumental,
            audio_duration: self.audio_duration,
            generate_audio: self.generate_audio,
        }
    }
}

/// The parameters of a fresh panel.
pub open spec fn default_params() -> GenParamsView {
    GenParamsView {
        duration: 5,
        aspect_ratio: "16:9"@,
        resolution: "1080p"@,
        quality: "high"@,
        num_images: 1,
        voice: Seq::empty(),
        instrumental: false,
        audio_duration: 30,
        generate_audio: true,
    }
}

pub open spec fn clamp_int(x: i64, lo: i64, hi: i64) -> i64 {
    if x < lo {
        lo
    } else if x > hi {
        hi
    } else {
        x
    }
}

/// `p` corrected against `caps`: a value the caps do not list falls back to
/// the model's default for it.
pub open spec fn sanitized(p: GenParamsView, caps: ModelCaps) -> GenParamsView {
    match caps {
        ModelCaps::Video(c) => GenParamsView {
            aspect_ratio: keep_or_first(c.aspect_ratios@, p.aspect_ratio, "16:9"@),
            resolution: match c.resolutions {
                Some(rs) => keep_or_first(rs@, p.resolution, "1080p"@),
                None => p.resolution,
            },
            duration: keep_or_first_int(c.durations@, p.duration, 5),
            generate_audio: true,
            ..p
        },
        ModelCaps::Image(c) => GenParamsView {
            aspect_ratio: keep_or_first(c.aspect_ratios@, p.aspect_ratio, "16:9"@),
            resolution: match c.resolutions {
                Some(rs) => keep_or_first(rs@, p.resolution, "1080p"@),
                None => p.resolution,
            },
            quality: match c.qualities {
                Some(qs) => keep_or_last(qs@, p.quality, "high"@),
                None => p.quality,
            },
            num_images: clamp_int(p.num_images, 1, if c.max_images > 1 { c.max_images } else { 1 }),
            ..p
        },
        ModelCaps::Audio(c) => GenParamsView {
            voice: match c.default_voice {
                Some(v) => v@,
                None => Seq::empty(),
            },
            instrumental: if c.supports_instrumental { p.instrumental } else { false },
            audio_duration: match c.durations {
                Some(ds) => keep_or_first_int(ds@, p.audio_duration, 30),
                None => p.audio_duration,
            },
            ..p
        },
    }
}

impl GenParams {
    pub fn new() -> (p: Self)
        ensures
            p@ == default_params(),
    {
        GenParams {
            duration: 5,
            aspect_ratio: String::from_str("16:9"),
            resolution: String::from_str("1080p"),
            quality: String::from_str("high"),
            num_images: 1,
            voice: String::new(),
            instrumental: false,
            audio_duration: 30,
            generate_audio: true,
        }
    }

    /// Correct every value the model's caps do not list to that model's
    /// default for it.
    pub fn sanitize_for(&mut self, model: &ModelConfig)
        ensures
            final(self)@ == sanitized(old(self)@, model.caps),
    {
        match &model.caps {
            ModelCaps::Video(c) => {
                self.aspect_ratio = pick_str(&c.aspect_ratios, &self.aspect_ratio, "16:9", false);
                proof {
                    reveal_strlit("16:9");
                    reveal_strlit("1080p");
                }
                if let Some(resolutions) = &c.resolutions {
                    self.resolution = pick_str(resolutions, &self.resolution, "1080p", false);
                }
                self.duration = pick_i64(&c.durations, self.duration, 5);
                self.generate_audio = true;
            },
            ModelCaps::Image(c) => {
                proof {
                    reveal_strlit("16:9");
                    reveal_strlit("1080p");
                    reveal_strlit("high");
                }
                self.aspect_ratio = pick_str(&c.aspect_ratios, &self.aspect_ratio, "16:9", false);
                if let Some(resolutions) = &c.resolutions {
                    self.resolution = pick_str(resolutions, &self.resolution, "1080p", false);
                }
                if let Some(qualities) = &c.qualities {
                    self.quality = pick_str(qualities, &self.quality, "high", true);
                }
                let hi: i64 = if c.max_images > 1 { c.max_images } else { 1 };
                self.num_images = if self.num_images < 1 {
                    1
                } else if self.num_images > hi {
                    hi
                } else {
                    self.num_images
                };
            },
            ModelCaps::Audio(c) => {
                self.voice = match &c.default_voice {
                    Some(v) => v.clone(),
                    None => String::new(),
                };
                if !c.supports_instrumental {
                    self.instrumental = false;
                }
                proof {
                    reveal_strlit("");
                }
                if let Some(durations) = &c.durations {
                    self.audio_duration = pick_i64(durations, self.audio_duration, 30);
                }
            },
        }
    }
}

impl Default for GenParams {
    fn default() -> (p: Self)
        ensures
            p@ == default_params(),
    {
        GenParams::new()
    }
}

/// Index of the first catalog entry with id `id`.
pub open spec fn first_id_index(c: Seq<ModelConfig>, id: Seq<char>) -> Option<int>
    decreases c.len(),
{
    if c.len() == 0 {
        None
    } else {
        match first_id_index(c.drop_last(), id) {
            Some(i) => Some(i),
            None => if c.last().id@ == id {
                Some(c.len() - 1)
            } else {
                None
            },
        }
    }
}

/// Index of the first catalog entry of kind `kind`.
pub open spec fn first_kind_index(c: Seq<ModelConfig>, kind: ModelKind) -> Option<int>
    decreases c.len(),
{
    if c.len() == 0 {
        None
    } else {
        match first_kind_index(c.drop_last(), kind) {
            Some(i) => Some(i),
            None => if c.last().kind == kind {
                Some(c.len() - 1)
            } else {
                None
            },
        }
    }
}

/// Whether the catalog holds a model of `kind`.
pub open spec fn covers_kind(c: Seq<ModelConfig>, kind: ModelKind) -> bool {
    exists|j: int| 0 <= j < c.len() && (#[trigger] c[j]).kind == kind
}

/// `first_id_index` finds the first entry with the id, and only when there is one.
pub proof fn lemma_first_id_index(c: Seq<ModelConfig>, id: Seq<char>)
    ensures
        match first_id_index(c, id) {
            Some(i) => 0 <= i < c.len() && c[i].id@ == id && forall|j: int| 0 <= j < i ==> (#[trigger] c[j]).id@ != id,
            None => forall|j: int| 0 <= j < c.len() ==> (#[trigger] c[j]).id@ != id,
        },
    decreases c.len(),
{
    if c.len() > 0 {
        lemma_first_id_index(c.drop_last(), id);
        assert(forall|j: int| 0 <= j < c.len() - 1 ==> c.drop_last()[j] == #[trigger] c[j]);
    }
}

/// `first_kind_index` finds the first entry of the kind, and only when there is one.
pub proof fn lemma_first_kind_index(c: Seq<ModelConfig>, kind: ModelKind)
    ensures
        match first_kind_index(c, kind) {
            Some(i) => 0 <= i < c.len() && c[i].kind == kind && forall|j: int| 0 <= j < i ==> (#[trigger] c[j]).kind != kind,
            None => forall|j: int| 0 <= j < c.len() ==> (#[trigger] c[j]).kind != kind,
        },
        covers_kind(c, kind) <==> first_kind_index(c, kind) is Some,
    decreases c.len(),
{
    if c.len() > 0 {
        lemma_first_kind_index(c.drop_last(), kind);
        assert(forall|j: int| 0 <= j < c.len() - 1 ==> c.drop_last()[j] == #[trigger] c[j]);
    }
}

pub open spec fn kind_index_or_first(c: Seq<ModelConfig>, kind: ModelKind) -> int {
    match first_kind_index(c, kind) {
        Some(k) => k,
        None => 0,
    }
}

/// The model a selection resolves to: the first entry with the id when it
/// is of the wanted kind, else the first entry of that kind.
pub open spec fn resolved_index(c: Seq<ModelConfig>, id: Seq<char>, kind: ModelKind) -> int {
    match first_id_index(c, id) {
        Some(i) => if c[i].kind == kind {
            i
        } else {
            kind_index_or_first(c, kind)
        },
        None => kind_index_or_first(c, kind),
    }
}

fn find_by_id(catalog: &[ModelConfig], id: &str) -> (r: Option<usize>)
    ensures
        match r {
            Some(i) => first_id_index(catalog@, id@) == Some(i as int),
            None => first_id_index(catalog@, id@) is None,
        },
{
    let key = String::from_str(id);
    let mut i: usize = 0;
    while i < catalog.len()
        invariant
            0 <= i <= catalog@.len(),
            key@ == id@,
            forall|j: int| 0 <= j < i ==> (#[trigger] catalog@[j]).id@ != id@,
        decreases catalog.len() - i,
    {
        if catalog[i].id == key {
            proof {
                lemma_first_id_index(catalog@, id@);
                assert(catalog@[i as int].id@ == id@);
            }
            return Some(i);
        }
        i += 1;
    }
    proof {
        lemma_first_id_index(catalog@, id@);
    }
    None
}

fn find_by_kind(catalog: &[ModelConfig], kind: ModelKind) -> (r: usize)
    requires
        covers_kind(catalog@, kind),
    ensures
        first_kind_index(catalog@, kind) == Some(r as int),
        r < catalog@.len(),
{
    proof {
        lemma_first_kind_index(catalog@, kind);
    }
    let mut i: usize = 0;
    while i < catalog.len()
        invariant
            0 <= i <= catalog@.len(),
            covers_kind(catalog@, kind),
            forall|j: int| 0 <= j < i ==> (#[trigger] catalog@[j]).kind != kind,
        decreases catalog.len() - i,
    {
        if catalog[i].kind == kind {
            proof {
                lemma_first_kind_index(catalog@, kind);
                assert(catalog@[i as int].kind == kind);
            }
            return i;
        }
        i += 1;
    }
    proof {
        lemma_first_kind_index(catalog@, kind);
    }
    0
}

fn resolve_index(catalog: &[ModelConfig], id: &str, kind: ModelKind) -> (r: usize)
    requires
        covers_kind(catalog@, kind),
    ensures
        r as int == resolved_index(catalog@, id@, kind),
        r < catalog@.len(),
{
    proof {
        lemma_first_kind_index(catalog@, kind);
    }
    match find_by_id(catalog, id) {
        Some(i) => {
            proof {
                lemma_first_id_index(catalog@, id@);
            }
            if catalog[i].kind == kind {
                i
            } else {
                find_by_kind(catalog, kind)
            }
        },
        None => find_by_kind(catalog, kind),
    }
}

/// A referenced media-library asset, kind captured at assignment time.
#[derive(Debug, Clone, PartialEq)]
pub struct RefAsset {
    pub id: String,
    pub kind: ClipType,
}

/// Which reference slot an asset-picker click targets.
#[derive(Debug, Clone, Copy, PartialEq, Eq, Structural)]
pub enum RefSlot {
    FirstFrame,
    LastFrame,
    Reference,
}

/// State of the generation panel's form.
#[derive(Debug, Clone)]
pub struct GenerationState {
    pub selected_type: GenerationType,
    pub prompt: String,
    pub lyrics: String,
    pub style_instructions: String,
    /// Whether the user is on a paid plan.
    pub is_paid_plan: bool,
    pub video_model_id: String,
    pub image_model_id: String,
    pub audio_model_id: String,
    pub params: GenParams,
    /// Frames vs references mode for models that take only one of them.
    pub use_first_last: bool,
    pub first_frame: Option<String>,
    pub last_frame: Option<String>,
    pub references: Vec<RefAsset>,
    /// Panel status line (submission failures, rejected references).
    pub status: Option<String>,
    pub show_model_picker: bool,
    pub show_voice_picker: bool,
    pub show_settings: bool,
    pub show_credit_popover: bool,
    pub asset_picker: Option<RefSlot>,
}

/// The form as plain values.
#[verifier::ext_equal]
pub struct FormView {
    pub selected_type: GenerationType,
    pub prompt: Seq<char>,
    pub lyrics: Seq<char>,
    pub style_instructions: Seq<char>,
    pub is_paid_plan: bool,
    pub video_model_id: Seq<char>,
    pub image_model_id: Seq<char>,
    pub audio_model_id: Seq<char>,
    pub params: GenParamsView,
    pub use_first_last: bool,
    pub first_frame: Option<Seq<char>>,
    pub last_frame: Option<Seq<char>>,
    pub references: Seq<(Seq<char>, ClipType)>,
    pub status: Option<Seq<char>>,
    pub show_model_picker: bool,
    pub show_voice_picker: bool,
    pub show_settings: bool,
    pub show_credit_popover: bool,
    pub asset_picker: Option<RefSlot>,
}

/// References as (id, kind) pairs.
pub open spec fn ref_views(refs: Seq<RefAsset>) -> Seq<(Seq<char>, ClipType)> {
    refs.map_values(|r: RefAsset| (r.id@, r.kind))
}

impl View for GenerationState {
    type V = FormView;

    open spec fn view(&self) -> FormView {
        FormView {
            selected_type: self.selected_type,
            prompt: self.prompt@,
            lyrics: self.lyrics@,
            style_instructions: self.style_instructions@,
            is_paid_plan: self.is_paid_plan,
            video_model_id: self.video_model_id@,
            image_model_id: self.image_model_id@,
            audio_model_id: self.audio_model_id@,
            params: self.params@,
            use_first_last: self.use_first_last,
            first_frame: opt_view(self.first_frame),
            last_frame: opt_view(self.last_frame),
            references: ref_views(self.references@),
            status: opt_view(self.status),
            show_model_picker: self.show_model_picker,
            show_voice_picker: self.show_voice_picker,
            show_settings: self.show_settings,
            show_credit_popover: self.show_credit_popover,
            asset_picker: self.asset_picker,
        }
    }
}

/// The model id kept for models of `kind`.
pub open spec fn slot_id(f: FormView, kind: ModelKind) -> Seq<char> {
    match kind {
        ModelKind::Video => f.video_model_id,
        ModelKind::Image => f.image_model_id,
        _ => f.audio_model_id,
    }
}

/// The model id of the selected generation type.
pub open spec fn selected_id(f: FormView) -> Seq<char> {
    slot_id(f, kind_of_type(f.selected_type))
}

pub open spec fn selected_index(c: Seq<ModelConfig>, f: FormView) -> int {
    resolved_index(c, selected_id(f), kind_of_type(f.selected_type))
}

/// The model the form works with.
pub open spec fn selected_model_of(c: Seq<ModelConfig>, f: FormView) -> ModelConfig {
    c[selected_index(c, f)]
}

pub open spec fn any_popover_open(f: FormView) -> bool {
    f.show_model_picker || f.show_voice_picker || f.show_settings || f.show_credit_popover || f.asset_picker is Some
}

pub open spec fn popovers_closed(f: FormView) -> FormView {
    FormView {
        show_model_picker: false,
        show_voice_picker: false,
        show_settings: false,
        show_credit_popover: false,
        asset_picker: None,
        ..f
    }
}

pub open spec fn references_cleared(f: FormView) -> FormView {
    FormView { first_frame: None, last_frame: None, references: Seq::empty(), ..f }
}

/// A form with the given model ids and nothing else filled in.
pub open spec fn fresh_form(video: Seq<char>, image: Seq<char>, audio: Seq<char>) -> FormView {
    FormView {
        selected_type: GenerationType::Video,
        prompt: Seq::empty(),
        lyrics: Seq::empty(),
        style_instructions: Seq::empty(),
        is_paid_plan: false,
        video_model_id: video,
        image_model_id: image,
        audio_model_id: audio,
        params: default_params(),
        use_first_last: true,
        first_frame: None,
        last_frame: None,
        references: Seq::empty(),
        status: None,
        show_model_picker: false,
        show_voice_picker: false,
        show_settings: false,
        show_credit_popover: false,
        asset_picker: None,
    }
}

/// The opening form: video selected, parameters corrected for its model.
pub open spec fn initial_form(video: Seq<char>, image: Seq<char>, audio: Seq<char>, c: Seq<ModelConfig>) -> FormView {
    let f = fresh_form(video, image, audio);
    FormView { params: sanitized(f.params, selected_model_of(c, f).caps), ..f }
}

/// Switching to tab `t`: a new tab re-derives the parameters for its model,
/// clears references and status, and closes popovers; the active tab
/// changes nothing.
pub open spec fn after_type_switch(c: Seq<ModelConfig>, f: FormView, t: GenerationType) -> FormView {
    if t == f.selected_type {
        f
    } else {
        let g = FormView { selected_type: t, ..f };
        let h = FormView { params: sanitized(g.params, selected_model_of(c, g).caps), ..g };
        popovers_closed(FormView { status: None, ..references_cleared(h) })
    }
}

/// `f` with the model id for `kind` set to `id`.
pub open spec fn with_slot(f: FormView, kind: ModelKind, id: Seq<char>) -> FormView {
    match kind {
        ModelKind::Video => FormView { video_model_id: id, ..f },
        ModelKind::Image => FormView { image_model_id: id, ..f },
        _ => FormView { audio_model_id: id, ..f },
    }
}

/// Picking model `m`, which is of the selected tab's kind: the parameters
/// are re-derived for it; a video model resets the reference mode and
/// pool, an image model without reference support drops references.
pub open spec fn with_picked_caps(g: FormView, m: ModelConfig) -> FormView {
    let h = FormView { params: sanitized(g.params, m.caps), ..g };
    match m.caps {
        ModelCaps::Video(_) => FormView { use_first_last: true, references: Seq::empty(), ..h },
        ModelCaps::Image(ic) => if !ic.supports_image_reference {
            FormView { references: Seq::empty(), ..h }
        } else {
            h
        },
        ModelCaps::Audio(_) => h,
    }
}

/// Picking the model with id `id`: unknown ids, upscale models and the
/// model already kept for its kind change nothing; otherwise the id is
/// kept for its kind, and a model of the selected tab's kind takes effect.
pub open spec fn after_model_pick(c: Seq<ModelConfig>, f: FormView, id: Seq<char>) -> FormView {
    match first_id_index(c, id) {
        None => f,
        Some(i) => {
            let m = c[i];
            if m.kind == ModelKind::Upscale || slot_id(f, m.kind) == id {
                f
            } else {
                let g = with_slot(f, m.kind, id);
                if m.kind == kind_of_type(f.selected_type) {
                    with_picked_caps(g, m)
                } else {
                    g
                }
            }
        },
    }
}

impl GenerationState {
    /// A fresh form that keeps the given model ids; the video tab is
    /// selected and the parameters fit its model.
    pub fn new(video_model_id: &str, image_model_id: &str, audio_model_id: &str, catalog: &[ModelConfig]) -> (s: Self)
        requires
            covers_kind(catalog@, ModelKind::Video),
        ensures
            s@ == initial_form(video_model_id@, image_model_id@, audio_model_id@, catalog@),
    {
        let mut state = GenerationState {
            selected_type: GenerationType::Video,
            prompt: String::new(),
            lyrics: String::new(),
            style_instructions: String::new(),
            is_paid_plan: false,
            video_model_id: String::from_str(video_model_id),
            image_model_id: String::from_str(image_model_id),
            audio_model_id: String::from_str(audio_model_id),
            params: GenParams::new(),
            use_first_last: true,
            first_frame: None,
            last_frame: None,
            references: Vec::new(),
            status: None,
            show_model_picker: false,
            show_voice_picker: false,
            show_settings: false,
            show_credit_popover: false,
            asset_picker: None,
        };
        proof {
            reveal_strlit("");
            assert(state@ =~= fresh_form(video_model_id@, image_model_id@, audio_model_id@));
        }
        let m = state.selected_model(catalog);
        state.params.sanitize_for(m);
        proof {
            assert(state@ =~= initial_form(video_model_id@, image_model_id@, audio_model_id@, catalog@));
        }
        state
    }

    pub fn selected_model_id(&self) -> (r: &str)
        ensures
            r@ == selected_id(self@),
    {
        match self.selected_type {
            GenerationType::Video => self.video_model_id.as_str(),
            GenerationType::Image => self.image_model_id.as_str(),
            GenerationType::Audio => self.audio_model_id.as_str(),
        }
    }

    /// The selected model, falling back to the first catalog entry of the
    /// selected kind.
    pub fn selected_model<'a>(&self, catalog: &'a [ModelConfig]) -> (m: &'a ModelConfig)
        requires
            covers_kind(catalog@, kind_of_type(self.selected_type)),
        ensures
            *m == selected_model_of(catalog@, self@),
            selected_index(catalog@, self@) < catalog@.len(),
            0 <= selected_index(catalog@, self@),
    {
        let i = resolve_index(catalog, self.selected_model_id(), self.selected_type.kind());
        &catalog[i]
    }

    /// Switch the tab; see `after_type_switch`.
    pub fn select_type(&mut self, t: GenerationType, catalog: &[ModelConfig])
        requires
            t != old(self).selected_type ==> covers_kind(catalog@, kind_of_type(t)),
        ensures
            final(self)@ == after_type_switch(catalog@, old(self)@, t),
    {
        if t == self.selected_type {
            return;
        }
        self.selected_type = t;
        let m = self.selected_model(catalog);
        self.params.sanitize_for(m);
        self.clear_references();
        self.status = None;
        self.close_popovers();
        proof {
            assert(final(self)@ =~= after_type_switch(catalog@, old(self)@, t));
        }
    }

    /// Pick a model by id; see `after_model_pick`.
    #[verifier::rlimit(40)]
    pub fn select_model(&mut self, id: &str, catalog: &[ModelConfig])
        ensures
            final(self)@ == after_model_pick(catalog@, old(self)@, id@),
    {
        proof {
            lemma_first_id_index(catalog@, id@);
        }
        let i = match find_by_id(catalog, id) {
            Some(i) => i,
            None => {
                return;
            },
        };
        let model = &catalog[i];
        let key = String::from_str(id);
        match model.kind {
            ModelKind::Video => {
                if self.video_model_id == key {
                    return;
                }
                self.video_model_id = key;
            },
            ModelKind::Image => {
                if self.image_model_id == key {
                    return;
                }
                self.image_model_id = key;
            },
            ModelKind::Audio => {
                if self.audio_model_id == key {
                    return;
                }
                self.audio_model_id = key;
            },
            ModelKind::Upscale => {
                return;
            },
        }
        let ghost g = self@;
        if model.kind == self.selected_type.kind() {
            self.params.sanitize_for(model);
            match &model.caps {
                ModelCaps::Video(_) => {
                    self.use_first_last = true;
                    self.references = Vec::new();
                },
                ModelCaps::Image(c) => {
                    if !c.supports_image_reference {
                        self.references = Vec::new();
                    }
                },
                ModelCaps::Audio(_) => {},
            }
            proof {
                assert(self@ =~= with_picked_caps(g, *model));
            }
        }
        proof {
            assert(final(self)@ =~= after_model_pick(catalog@, old(self)@, id@));
        }
    }

    pub fn clear_references(&mut self)
        ensures
            final(self)@ == references_cleared(old(self)@),
    {
        self.first_frame = None;
        self.last_frame = None;
        self.references = Vec::new();
        proof {
            assert(final(self)@ =~= references_cleared(old(self)@));
        }
    }

    /// Close every open popover; true when one was open.
    pub fn close_popovers(&mut self) -> (was_open: bool)
        ensures
            was_open == any_popover_open(old(self)@),
            final(self)@ == popovers_closed(old(self)@),
    {
        let was_open = self.show_model_picker || self.show_voice_picker || self.show_settings
            || self.show_credit_popover || self.asset_picker.is_some();
        self.show_model_picker = false;
        self.show_voice_picker = false;
        self.show_settings = false;
        self.show_credit_popover = false;
        self.asset_picker = None;
        proof {
            assert(final(self)@ =~= popovers_closed(old(self)@));
        }
        was_open
    }
}

/// Only models with a resolutions list have a resolution in effect.
pub open spec fn effective_resolution_spec(m: ModelConfig, p: GenParamsView) -> Option<Seq<char>> {
    let has = match m.caps {
        ModelCaps::Video(c) => c.resolutions is Some,
        ModelCaps::Image(c) => c.resolutions is Some,
        ModelCaps::Audio(_) => false,
    };
    if has {
        Some(p.resolution)
    } else {
        None
    }
}

/// Video models that price audio separately offer an audio toggle.
pub open spec fn supports_audio_toggle_spec(m: ModelConfig) -> bool {
    match m.caps {
        ModelCaps::Video(c) => c.has_audio_discount,
        _ => false,
    }
}

/// Whether the form can be submitted: the model must be on the plan and
/// the estimate affordable; video needs a prompt (and references in
/// reference-only mode) and no source video; audio needs a prompt of the
/// model's minimum length; image needs a prompt.
pub open spec fn can_submit_spec(f: FormView, m: ModelConfig, model_available: bool, affordable: bool) -> bool {
    let t = trim_spec(f.prompt);
    if !model_available || !affordable {
        false
    } else {
        match m.caps {
            ModelCaps::Video(c) => {
                if c.requires_source_video {
                    false
                } else if c.frames_and_references_exclusive && !f.use_first_last && f.references.len() == 0 {
                    false
                } else {
                    t.len() > 0
                }
            },
            ModelCaps::Audio(c) => t.len() >= c.min_prompt_length,
            ModelCaps::Image(_) => t.len() > 0,
        }
    }
}

pub open spec fn shows_mode_toggle_spec(m: ModelConfig) -> bool {
    match m.caps {
        ModelCaps::Video(c) => c.frames_and_references_exclusive && !c.requires_source_video,
        _ => false,
    }
}

pub open spec fn shows_frame_strip_spec(f: FormView, m: ModelConfig) -> bool {
    match m.caps {
        ModelCaps::Video(c) => c.supports_first_frame && !c.requires_source_video && (!c.frames_and_references_exclusive
            || f.use_first_last),
        _ => false,
    }
}

pub open spec fn shows_ref_sections_spec(f: FormView, m: ModelConfig) -> bool {
    match m.caps {
        ModelCaps::Video(c) => c.supports_references && !c.requires_source_video && (!c.frames_and_references_exclusive
            || !f.use_first_last),
        _ => false,
    }
}

pub open spec fn shows_image_refs_spec(m: ModelConfig) -> bool {
    match m.caps {
        ModelCaps::Image(c) => c.supports_image_reference,
        _ => false,
    }
}

pub open spec fn kind_label_spec(k: ClipType) -> Seq<char> {
    match k {
        ClipType::Image => "image"@,
        ClipType::Video => "video"@,
        ClipType::Audio => "audio"@,
        _ => "media"@,
    }
}

/// `seq![x]` when `b`, else empty.
pub open spec fn opt_item<T>(b: bool, x: T) -> Seq<T> {
    if b {
        seq![x]
    } else {
        Seq::empty()
    }
}

/// Media kinds a slot accepts for model `m`: frames take images; the
/// reference pool takes the kinds the model has a cap for.
pub open spec fn accepted_kinds_spec(m: ModelConfig, slot: RefSlot) -> Seq<ClipType> {
    match slot {
        RefSlot::Reference => match m.caps {
            ModelCaps::Video(c) => opt_item(c.max_reference_images > 0, ClipType::Image) + opt_item(
                c.max_reference_videos > 0,
                ClipType::Video,
            ) + opt_item(c.max_reference_audios > 0, ClipType::Audio),
            ModelCaps::Image(c) => opt_item(c.supports_image_reference, ClipType::Image),
            ModelCaps::Audio(_) => Seq::empty(),
        },
        _ => seq![ClipType::Image],
    }
}

/// `parts` joined with `sep` between neighbours.
pub open spec fn join_with(parts: Seq<Seq<char>>, sep: Seq<char>) -> Seq<char>
    decreases parts.len(),
{
    if parts.len() == 0 {
        Seq::empty()
    } else if parts.len() == 1 {
        parts[0]
    } else {
        join_with(parts.drop_last(), sep) + sep + parts.last()
    }
}

/// Kind labels joined with " or ".
pub open spec fn join_or(kinds: Seq<ClipType>) -> Seq<char> {
    join_with(kinds.map_values(|k: ClipType| kind_label_spec(k)), " or "@)
}

/// Status line for dropping a `kind` asset on `slot`; `None` when the slot
/// accepts it.
pub open spec fn drop_rejection_spec(m: ModelConfig, slot: RefSlot, kind: ClipType) -> Option<Seq<char>> {
    let accepted = accepted_kinds_spec(m, slot);
    if accepted.contains(kind) {
        None
    } else if accepted.len() == 0 {
        Some(m.display_name@ + " doesn't accept references."@)
    } else {
        Some("Drop "@ + join_or(accepted) + " here."@)
    }
}

/// Number of references of `kind`.
pub open spec fn count_kind(refs: Seq<(Seq<char>, ClipType)>, kind: ClipType) -> nat
    decreases refs.len(),
{
    if refs.len() == 0 {
        0
    } else {
        count_kind(refs.drop_last(), kind) + if refs.last().1 == kind {
            1nat
        } else {
            0nat
        }
    }
}

pub open spec fn has_ref_id(refs: Seq<(Seq<char>, ClipType)>, id: Seq<char>) -> bool {
    exists|j: int| 0 <= j < refs.len() && (#[trigger] refs[j]).0 == id
}

/// A video model's cap for references of `kind` (0 for kinds it has none for).
pub open spec fn kind_cap(c: VideoCaps, kind: ClipType) -> i64 {
    match kind {
        ClipType::Image => c.max_reference_images,
        ClipType::Video => c.max_reference_videos,
        ClipType::Audio => c.max_reference_audios,
        _ => 0,
    }
}

/// Whether `n` references reach the model's total cap, where it has one.
pub open spec fn total_reached(c: VideoCaps, n: int) -> bool {
    match c.max_total_references {
        Some(t) => n >= t,
        None => false,
    }
}

pub open spec fn total_cap(c: VideoCaps) -> i64 {
    match c.max_total_references {
        Some(t) => t,
        None => 0,
    }
}

/// Whether `id` may join the reference pool as a `kind` asset, and the
/// status line when it may not.
pub open spec fn add_reference_spec(f: FormView, m: ModelConfig, id: Seq<char>, kind: ClipType) -> Result<(), Seq<char>> {
    if has_ref_id(f.references, id) {
        Err("Already a reference."@)
    } else {
        match m.caps {
            ModelCaps::Video(c) => {
                if total_reached(c, f.references.len() as int) {
                    Err("Reference limit reached ("@ + signed_decimal(total_cap(c) as int) + ")."@)
                } else if kind_cap(c, kind) == 0 {
                    Err(m.display_name@ + " doesn't accept "@ + kind_label_spec(kind) + " references."@)
                } else if count_kind(f.references, kind) >= kind_cap(c, kind) {
                    Err(kind_label_spec(kind) + " reference limit reached ("@ + signed_decimal(kind_cap(c, kind) as int)
                        + ")."@)
                } else {
                    Ok(())
                }
            },
            ModelCaps::Image(c) => {
                if !c.supports_image_reference {
                    Err(m.display_name@ + " doesn't accept reference images."@)
                } else if kind != ClipType::Image {
                    Err("Reference expects an image."@)
                } else {
                    Ok(())
                }
            },
            ModelCaps::Audio(_) => Err("Audio generation doesn't take references."@),
        }
    }
}

pub open spec fn unit_result_view(r: Result<(), String>) -> Result<(), Seq<char>> {
    match r {
        Ok(_) => Ok(()),
        Err(e) => Err(e@),
    }
}

/// Whether a kind's cap is used up (or the model takes none of it).
pub open spec fn kind_full(c: VideoCaps, refs: Seq<(Seq<char>, ClipType)>, kind: ClipType) -> bool {
    kind_cap(c, kind) == 0 || count_kind(refs, kind) >= kind_cap(c, kind)
}

/// Whether nothing more fits in the reference pool.
pub open spec fn ref_cap_reached_spec(f: FormView, m: ModelConfig) -> bool {
    match m.caps {
        ModelCaps::Video(c) => total_reached(c, f.references.len() as int) || (kind_full(c, f.references, ClipType::Image)
            && kind_full(c, f.references, ClipType::Video) && kind_full(c, f.references, ClipType::Audio)),
        _ => false,
    }
}

/// "n/capacity" for video models, "n" otherwise.
pub open spec fn ref_counter_spec(f: FormView, m: ModelConfig) -> Seq<char> {
    match m.caps {
        ModelCaps::Video(c) => decimal(f.references.len()) + "/"@ + signed_decimal(c.max_references as int),
        _ => decimal(f.references.len()),
    }
}

/// The form after assigning asset `id` of `kind` to `slot`: frames take it
/// as is; the reference pool takes it when the caps allow, else the
/// status line says why not.
pub open spec fn after_assign(f: FormView, m: ModelConfig, slot: RefSlot, id: Seq<char>, kind: ClipType) -> FormView {
    match slot {
        RefSlot::FirstFrame => FormView { first_frame: Some(id), ..f },
        RefSlot::LastFrame => FormView { last_frame: Some(id), ..f },
        RefSlot::Reference => match add_reference_spec(f, m, id, kind) {
            Ok(_) => FormView { references: f.references.push((id, kind)), ..f },
            Err(e) => FormView { status: Some(e), ..f },
        },
    }
}

fn count_refs_of(refs: &Vec<RefAsset>, kind: ClipType) -> (n: usize)
    ensures
        n == count_kind(ref_views(refs@), kind),
{
    let mut n: usize = 0;
    let mut i: usize = 0;
    while i < refs.len()
        invariant
            0 <= i <= refs@.len(),
            n <= i,
            n == count_kind(ref_views(refs@).take(i as int), kind),
        decreases refs.len() - i,
    {
        assert(ref_views(refs@).take(i + 1).drop_last() =~= ref_views(refs@).take(i as int));
        if refs[i].kind == kind {
            n += 1;
        }
        i += 1;
    }
    assert(ref_views(refs@).take(i as int) =~= ref_views(refs@));
    n
}

fn has_ref(refs: &Vec<RefAsset>, id: &str) -> (b: bool)
    ensures
        b == has_ref_id(ref_views(refs@), id@),
{
    let key = String::from_str(id);
    let mut i: usize = 0;
    while i < refs.len()
        invariant
            0 <= i <= refs@.len(),
            key@ == id@,
            forall|j: int| 0 <= j < i ==> (#[trigger] ref_views(refs@)[j]).0 != id@,
        decreases refs.len() - i,
    {
        if refs[i].id == key {
            assert(ref_views(refs@)[i as int].0 == id@);
            return true;
        }
        i += 1;
    }
    false
}

pub fn kind_label(kind: ClipType) -> (s: &'static str)
    ensures
        s@ == kind_label_spec(kind),
{
    proof {
        reveal_strlit("image");
        reveal_strlit("video");
        reveal_strlit("audio");
        reveal_strlit("media");
    }
    match kind {
        ClipType::Image => "image",
        ClipType::Video => "video",
        ClipType::Audio => "audio",
        _ => "media",
    }
}

/// The resolution in effect: only models with a resolutions list get one.
pub fn effective_resolution(state: &GenerationState, catalog: &[ModelConfig]) -> (r: Option<String>)
    requires
        covers_kind(catalog@, kind_of_type(state.selected_type)),
    ensures
        opt_view(r) == effective_resolution_spec(selected_model_of(catalog@, state@), state.params@),
{
    let m = state.selected_model(catalog);
    let has = match &m.caps {
        ModelCaps::Video(c) => c.resolutions.is_some(),
        ModelCaps::Image(c) => c.resolutions.is_some(),
        ModelCaps::Audio(_) => false,
    };
    if has {
        Some(state.params.resolution.clone())
    } else {
        None
    }
}

pub fn supports_audio_toggle(state: &GenerationState, catalog: &[ModelConfig]) -> (b: bool)
    requires
        covers_kind(catalog@, kind_of_type(state.selected_type)),
    ensures
        b == supports_audio_toggle_spec(selected_model_of(catalog@, state@)),
{
    match &state.selected_model(catalog).caps {
        ModelCaps::Video(c) => c.has_audio_discount,
        _ => false,
    }
}

/// Whether the request asks for audio: the toggle's value where the model
/// offers one, else always.
pub fn effective_generate_audio(state: &GenerationState, catalog: &[ModelConfig]) -> (b: bool)
    requires
        covers_kind(catalog@, kind_of_type(state.selected_type)),
    ensures
        b == (if supports_audio_toggle_spec(selected_model_of(catalog@, state@)) {
            state.params.generate_audio
        } else {
            true
        }),
{
    if supports_audio_toggle(state, catalog) {
        state.params.generate_audio
    } else {
        true
    }
}

/// Whether Generate is enabled. Plan gating and the credit estimate are
/// decided outside (`model_available`, `affordable`).
pub fn can_submit(state: &GenerationState, catalog: &[ModelConfig], model_available: bool, affordable: bool) -> (b: bool)
    requires
        covers_kind(catalog@, kind_of_type(state.selected_type)),
    ensures
        b == can_submit_spec(state@, selected_model_of(catalog@, state@), model_available, affordable),
{
    if !model_available || !affordable {
        return false;
    }
    let trimmed = trim(state.prompt.as_str());
    let n = trimmed.unicode_len();
    match &state.selected_model(catalog).caps {
        ModelCaps::Video(c) => {
            if c.requires_source_video {
                false
            } else if c.frames_and_references_exclusive && !state.use_first_last && state.references.len() == 0 {
                false
            } else {
                n > 0
            }
        },
        ModelCaps::Audio(c) => c.min_prompt_length <= 0 || (n as u128) >= (c.min_prompt_length as u128),
        ModelCaps::Image(_) => n > 0,
    }
}

pub fn shows_mode_toggle(state: &GenerationState, catalog: &[ModelConfig]) -> (b: bool)
    requires
        covers_kind(catalog@, kind_of_type(state.selected_type)),
    ensures
        b == shows_mode_toggle_spec(selected_model_of(catalog@, state@)),
{
    match &state.selected_model(catalog).caps {
        ModelCaps::Video(c) => c.frames_and_references_exclusive && !c.requires_source_video,
        _ => false,
    }
}

pub fn shows_frame_strip(state: &GenerationState, catalog: &[ModelConfig]) -> (b: bool)
    requires
        covers_kind(catalog@, kind_of_type(state.selected_type)),
    ensures
        b == shows_frame_strip_spec(state@, selected_model_of(catalog@, state@)),
{
    match &state.selected_model(catalog).caps {
        ModelCaps::Video(c) => c.supports_first_frame && !c.requires_source_video && (!c.frames_and_references_exclusive
            || state.use_first_last),
        _ => false,
    }
}

pub fn shows_ref_sections(state: &GenerationState, catalog: &[ModelConfig]) -> (b: bool)
    requires
        covers_kind(catalog@, kind_of_type(state.selected_type)),
    ensures
        b == shows_ref_sections_spec(state@, selected_model_of(catalog@, state@)),
{
    match &state.selected_model(catalog).caps {
        ModelCaps::Video(c) => c.supports_references && !c.requires_source_video && (!c.frames_and_references_exclusive
            || !state.use_first_last),
        _ => false,
    }
}

pub fn shows_image_refs(state: &GenerationState, catalog: &[ModelConfig]) -> (b: bool)
    requires
        covers_kind(catalog@, kind_of_type(state.selected_type)),
    ensures
        b == shows_image_refs_spec(selected_model_of(catalog@, state@)),
{
    match &state.selected_model(catalog).caps {
        ModelCaps::Image(c) => c.supports_image_reference,
        _ => false,
    }
}

/// Media kinds the picker offers for a slot.
pub fn accepted_kinds(state: &GenerationState, catalog: &[ModelConfig], slot: RefSlot) -> (r: Vec<ClipType>)
    requires
        covers_kind(catalog@, kind_of_type(state.selected_type)),
    ensures
        r@ == accepted_kinds_spec(selected_model_of(catalog@, state@), slot),
{
    match slot {
        RefSlot::Reference => {
            let mut kinds: Vec<ClipType> = Vec::new();
            match &state.selected_model(catalog).caps {
                ModelCaps::Video(c) => {
                    if c.max_reference_images > 0 {
                        kinds.push(ClipType::Image);
                    }
                    if c.max_reference_videos > 0 {
                        kinds.push(ClipType::Video);
                    }
                    if c.max_reference_audios > 0 {
                        kinds.push(ClipType::Audio);
                    }
                },
                ModelCaps::Image(c) => {
                    if c.supports_image_reference {
                        kinds.push(ClipType::Image);
                    }
                },
                ModelCaps::Audio(_) => {},
            }
            assert(kinds@ =~= accepted_kinds_spec(selected_model_of(catalog@, state@), slot));
            kinds
        },
        _ => {
            let kinds = vec![ClipType::Image];
            assert(kinds@ =~= seq![ClipType::Image]);
            kinds
        },
    }
}

fn vec_has_kind(kinds: &Vec<ClipType>, kind: ClipType) -> (b: bool)
    ensures
        b == kinds@.contains(kind),
{
    let mut i: usize = 0;
    while i < kinds.len()
        invariant
            0 <= i <= kinds@.len(),
            forall|j: int| 0 <= j < i ==> kinds@[j] != kind,
        decreases kinds.len() - i,
    {
        if kinds[i] == kind {
            assert(kinds@[i as int] == kind);
            return true;
        }
        i += 1;
    }
    false
}

/// Join strings with a separator.
pub fn join_parts(parts: &Vec<String>, sep: &str) -> (r: String)
    ensures
        r@ == join_with(strs(parts@), sep@),
{
    let mut r = String::new();
    let mut i: usize = 0;
    proof {
        reveal_strlit("");
    }
    while i < parts.len()
        invariant
            0 <= i <= parts@.len(),
            r@ == join_with(strs(parts@).take(i as int), sep@),
        decreases parts.len() - i,
    {
        let ghost before = r@;
        assert(strs(parts@).take(i + 1).drop_last() =~= strs(parts@).take(i as int));
        if i > 0 {
            r.append(sep);
        }
        r.append(parts[i].as_str());
        proof {
            if i == 0 {
                assert(r@ =~= strs(parts@).take(1)[0]);
            } else {
                assert(r@ =~= before + sep@ + strs(parts@).take(i + 1).last());
            }
        }
        i += 1;
    }
    assert(strs(parts@).take(i as int) =~= strs(parts@));
    r
}

/// Status line for a drop on a slot that does not take the asset's kind;
/// `None` when it does.
pub fn drop_rejection_message(state: &GenerationState, catalog: &[ModelConfig], slot: RefSlot, kind: ClipType) -> (r: Option<String>)
    requires
        covers_kind(catalog@, kind_of_type(state.selected_type)),
    ensures
        opt_view(r) == drop_rejection_spec(selected_model_of(catalog@, state@), slot, kind),
{
    let accepted = accepted_kinds(state, catalog, slot);
    if vec_has_kind(&accepted, kind) {
        return None;
    }
    let m = state.selected_model(catalog);
    if accepted.len() == 0 {
        let mut s = m.display_name.clone();
        s.append(" doesn't accept references.");
        return Some(s);
    }
    let mut labels: Vec<String> = Vec::new();
    let mut i: usize = 0;
    while i < accepted.len()
        invariant
            0 <= i <= accepted@.len(),
            strs(labels@) =~= accepted@.take(i as int).map_values(|k: ClipType| kind_label_spec(k)),
        decreases accepted.len() - i,
    {
        let ghost before = labels@;
        labels.push(String::from_str(kind_label(accepted[i])));
        assert(strs(labels@) =~= strs(before).push(kind_label_spec(accepted@[i as int])));
        assert(accepted@.take(i + 1) =~= accepted@.take(i as int).push(accepted@[i as int]));
        i += 1;
    }
    assert(accepted@.take(i as int) =~= accepted@);
    let joined = join_parts(&labels, " or ");
    let mut s = String::from_str("Drop ");
    s.append(joined.as_str());
    s.append(" here.");
    assert(s@ =~= "Drop "@ + join_or(accepted@) + " here."@);
    Some(s)
}

/// Whether asset `id` of `kind` may join the reference pool; the error is
/// the status line that says why not.
pub fn can_add_reference(state: &GenerationState, catalog: &[ModelConfig], id: &str, kind: ClipType) -> (r: Result<(), String>)
    requires
        covers_kind(catalog@, kind_of_type(state.selected_type)),
    ensures
        unit_result_view(r) == add_reference_spec(state@, selected_model_of(catalog@, state@), id@, kind),
{
    if has_ref(&state.references, id) {
        return Err(String::from_str("Already a reference."));
    }
    let m = state.selected_model(catalog);
    let n = state.references.len();
    assert(state@.references.len() == n);
    match &m.caps {
        ModelCaps::Video(c) => {
            if let Some(total) = c.max_total_references {
                if (n as i128) >= (total as i128) {
                    let mut s = String::from_str("Reference limit reached (");
                    append_i64(&mut s, total);
                    s.append(").");
                    return Err(s);
                }
            }
            let cap: i64 = match kind {
                ClipType::Image => c.max_reference_images,
                ClipType::Video => c.max_reference_videos,
                ClipType::Audio => c.max_reference_audios,
                _ => 0,
            };
            if cap == 0 {
                let mut s = m.display_name.clone();
                s.append(" doesn't accept ");
                s.append(kind_label(kind));
                s.append(" references.");
                assert(s@ =~= m.display_name@ + " doesn't accept "@ + kind_label_spec(kind) + " references."@);
                return Err(s);
            }
            let count = count_refs_of(&state.references, kind);
            if (count as i128) >= (cap as i128) {
                let mut s = String::from_str(kind_label(kind));
                s.append(" reference limit reached (");
                append_i64(&mut s, cap);
                s.append(").");
                assert(s@ =~= kind_label_spec(kind) + " reference limit reached ("@ + signed_decimal(cap as int) + ")."@);
                return Err(s);
            }
            Ok(())
        },
        ModelCaps::Image(c) => {
            if !c.supports_image_reference {
                let mut s = m.display_name.clone();
                s.append(" doesn't accept reference images.");
                return Err(s);
            }
            if kind != ClipType::Image {
                return Err(String::from_str("Reference expects an image."));
            }
            Ok(())
        },
        ModelCaps::Audio(_) => Err(String::from_str("Audio generation doesn't take references.")),
    }
}

/// Whether nothing more fits in the reference pool (hides the "+" tile).
pub fn ref_cap_reached(state: &GenerationState, catalog: &[ModelConfig]) -> (b: bool)
    requires
        covers_kind(catalog@, kind_of_type(state.selected_type)),
    ensures
        b == ref_cap_reached_spec(state@, selected_model_of(catalog@, state@)),
{
    let n = state.references.len();
    match &state.selected_model(catalog).caps {
        ModelCaps::Video(c) => {
            if let Some(total) = c.max_total_references {
                if (n as i128) >= (total as i128) {
                    return true;
                }
            }
            let images = count_refs_of(&state.references, ClipType::Image);
            let videos = count_refs_of(&state.references, ClipType::Video);
            let audios = count_refs_of(&state.references, ClipType::Audio);
            (c.max_reference_images == 0 || (images as i128) >= (c.max_reference_images as i128)) && (
            c.max_reference_videos == 0 || (videos as i128) >= (c.max_reference_videos as i128)) && (
            c.max_reference_audios == 0 || (audios as i128) >= (c.max_reference_audios as i128))
        },
        _ => false,
    }
}

/// "n/capacity" for video models, "n" otherwise.
pub fn ref_counter_label(state: &GenerationState, catalog: &[ModelConfig]) -> (s: String)
    requires
        covers_kind(catalog@, kind_of_type(state.selected_type)),
    ensures
        s@ == ref_counter_spec(state@, selected_model_of(catalog@, state@)),
{
    let mut s = String::new();
    proof {
        reveal_strlit("");
    }
    append_decimal(&mut s, state.references.len() as u128);
    match &state.selected_model(catalog).caps {
        ModelCaps::Video(c) => {
            s.append("/");
            append_i64(&mut s, c.max_references);
            assert(s@ =~= decimal(state@.references.len()) + "/"@ + signed_decimal(c.max_references as int));
        },
        _ => {
            assert(s@ =~= decimal(state@.references.len()));
        },
    }
    s
}

impl GenerationState {
    /// Assign a picked asset to a slot; see `after_assign`.
    pub fn assign_reference(&mut self, slot: RefSlot, id: &str, kind: ClipType, catalog: &[ModelConfig])
        requires
            covers_kind(catalog@, kind_of_type(old(self).selected_type)),
        ensures
            final(self)@ == after_assign(old(self)@, selected_model_of(catalog@, old(self)@), slot, id@, kind),
    {
        match slot {
            RefSlot::FirstFrame => {
                self.first_frame = Some(String::from_str(id));
            },
            RefSlot::LastFrame => {
                self.last_frame = Some(String::from_str(id));
            },
            RefSlot::Reference => match can_add_reference(self, catalog, id, kind) {
                Ok(()) => {
                    let ghost before = self.references@;
                    self.references.push(RefAsset { id: String::from_str(id), kind });
                    assert(ref_views(self.references@) =~= ref_views(before).push((id@, kind)));
                },
                Err(reason) => {
                    self.status = Some(reason);
                },
            },
        }
        proof {
            assert(final(self)@ =~= after_assign(old(self)@, selected_model_of(catalog@, old(self)@), slot, id@, kind));
        }
    }
}

/// A picker of the settings popover.
#[derive(Debug, Clone, Copy, PartialEq, Eq, Structural)]
pub enum SettingField {
    Duration,
    AudioDuration,
    AspectRatio,
    Resolution,
    Quality,
    Count,
}

pub open spec fn setting_field_label(f: SettingField) -> Seq<char> {
    match f {
        SettingField::Duration | SettingField::AudioDuration => "Duration"@,
        SettingField::AspectRatio => "Aspect Ratio"@,
        SettingField::Resolution => "Resolution"@,
        SettingField::Quality => "Quality"@,
        SettingField::Count => "Count"@,
    }
}

impl SettingField {
    pub fn label(&self) -> (s: &'static str)
        ensures
            s@ == setting_field_label(*self),
    {
        proof {
            reveal_strlit("Duration");
            reveal_strlit("Aspect Ratio");
            reveal_strlit("Resolution");
            reveal_strlit("Quality");
            reveal_strlit("Count");
        }
        match self {
            SettingField::Duration | SettingField::AudioDuration => "Duration",
            SettingField::AspectRatio => "Aspect Ratio",
            SettingField::Resolution => "Resolution",
            SettingField::Quality => "Quality",
            SettingField::Count => "Count",
        }
    }
}

/// A switch of the settings popover.
#[derive(Debug, Clone, Copy, PartialEq, Eq, Structural)]
pub enum SettingToggle {
    Instrumental,
    GenerateAudio,
}

pub open spec fn setting_toggle_label(t: SettingToggle) -> Seq<char> {
    match t {
        SettingToggle::Instrumental => "Instrumental"@,
        SettingToggle::GenerateAudio => "Generate audio"@,
    }
}

impl SettingToggle {
    pub fn label(&self) -> (s: &'static str)
        ensures
            s@ == setting_toggle_label(*self),
    {
        proof {
            reveal_strlit("Instrumental");
            reveal_strlit("Generate audio");
        }
        match self {
            SettingToggle::Instrumental => "Instrumental",
            SettingToggle::GenerateAudio => "Generate audio",
        }
    }
}

/// The pickers a model's caps produce, in popover order.
pub open spec fn setting_fields_spec(m: ModelConfig) -> Seq<SettingField> {
    match m.caps {
        ModelCaps::Video(c) => opt_item(c.durations.len() > 0, SettingField::Duration) + opt_item(
            c.aspect_ratios.len() > 0,
            SettingField::AspectRatio,
        ) + opt_item(c.resolutions is Some, SettingField::Resolution),
        ModelCaps::Image(c) => opt_item(c.aspect_ratios.len() > 0, SettingField::AspectRatio) + opt_item(
            c.resolutions is Some,
            SettingField::Resolution,
        ) + opt_item(c.qualities is Some, SettingField::Quality) + opt_item(c.max_images > 1, SettingField::Count),
        ModelCaps::Audio(c) => opt_item(c.durations is Some, SettingField::AudioDuration),
    }
}

/// The switches a model's caps produce.
pub open spec fn setting_toggles_spec(m: ModelConfig) -> Seq<SettingToggle> {
    match m.caps {
        ModelCaps::Audio(c) => opt_item(c.supports_instrumental, SettingToggle::Instrumental),
        ModelCaps::Video(c) => opt_item(c.has_audio_discount, SettingToggle::GenerateAudio),
        ModelCaps::Image(_) => Seq::empty(),
    }
}

pub fn visible_setting_fields(state: &GenerationState, catalog: &[ModelConfig]) -> (r: Vec<SettingField>)
    requires
        covers_kind(catalog@, kind_of_type(state.selected_type)),
    ensures
        r@ == setting_fields_spec(selected_model_of(catalog@, state@)),
{
    let mut fields: Vec<SettingField> = Vec::new();
    match &state.selected_model(catalog).caps {
        ModelCaps::Video(c) => {
            if c.durations.len() > 0 {
                fields.push(SettingField::Duration);
            }
            if c.aspect_ratios.len() > 0 {
                fields.push(SettingField::AspectRatio);
            }
            if c.resolutions.is_some() {
                fields.push(SettingField::Resolution);
            }
        },
        ModelCaps::Image(c) => {
            if c.aspect_ratios.len() > 0 {
                fields.push(SettingField::AspectRatio);
            }
            if c.resolutions.is_some() {
                fields.push(SettingField::Resolution);
            }
            if c.qualities.is_some() {
                fields.push(SettingField::Quality);
            }
            if c.max_images > 1 {
                fields.push(SettingField::Count);
            }
        },
        ModelCaps::Audio(c) => {
            if c.durations.is_some() {
                fields.push(SettingField::AudioDuration);
            }
        },
    }
    assert(fields@ =~= setting_fields_spec(selected_model_of(catalog@, state@)));
    fields
}

pub fn visible_setting_toggles(state: &GenerationState, catalog: &[ModelConfig]) -> (r: Vec<SettingToggle>)
    requires
        covers_kind(catalog@, kind_of_type(state.selected_type)),
    ensures
        r@ == setting_toggles_spec(selected_model_of(catalog@, state@)),
{
    let mut toggles: Vec<SettingToggle> = Vec::new();
    match &state.selected_model(catalog).caps {
        ModelCaps::Audio(c) => {
            if c.supports_instrumental {
                toggles.push(SettingToggle::Instrumental);
            }
        },
        ModelCaps::Video(c) => {
            if c.has_audio_discount {
                toggles.push(SettingToggle::GenerateAudio);
            }
        },
        ModelCaps::Image(_) => {},
    }
    assert(toggles@ =~= setting_toggles_spec(selected_model_of(catalog@, state@)));
    toggles
}

/// Whether the gear button shows: the model has a picker or a switch.
pub fn has_any_settings(state: &GenerationState, catalog: &[ModelConfig]) -> (b: bool)
    requires
        covers_kind(catalog@, kind_of_type(state.selected_type)),
    ensures
        b == (setting_fields_spec(selected_model_of(catalog@, state@)).len() > 0 || setting_toggles_spec(
            selected_model_of(catalog@, state@),
        ).len() > 0),
{
    visible_setting_fields(state, catalog).len() > 0 || visible_setting_toggles(state, catalog).len() > 0
}

/// The value a picker shows as selected.
pub open spec fn setting_value_spec(p: GenParamsView, field: SettingField) -> Seq<char> {
    match field {
        SettingField::Duration => signed_decimal(p.duration as int),
        SettingField::AudioDuration => signed_decimal(p.audio_duration as int),
        SettingField::AspectRatio => p.aspect_ratio,
        SettingField::Resolution => p.resolution,
        SettingField::Quality => p.quality,
        SettingField::Count => signed_decimal(p.num_images as int),
    }
}

pub fn setting_value(state: &GenerationState, field: SettingField) -> (s: String)
    ensures
        s@ == setting_value_spec(state.params@, field),
{
    let p = &state.params;
    let mut s = String::new();
    proof {
        reveal_strlit("");
    }
    match field {
        SettingField::Duration => {
            append_i64(&mut s, p.duration);
        },
        SettingField::AudioDuration => {
            append_i64(&mut s, p.audio_duration);
        },
        SettingField::AspectRatio => {
            s = p.aspect_ratio.clone();
        },
        SettingField::Resolution => {
            s = p.resolution.clone();
        },
        SettingField::Quality => {
            s = p.quality.clone();
        },
        SettingField::Count => {
            append_i64(&mut s, p.num_images);
        },
    }
    assert(s@ =~= setting_value_spec(state.params@, field));
    s
}

/// Parameters after picking `value` for `field`: numbers that do not parse
/// leave the field as it was; text fields take the value as is.
pub open spec fn applied_setting(p: GenParamsView, field: SettingField, value: Seq<char>) -> GenParamsView {
    match field {
        SettingField::Duration => match parse_i64_spec(value) {
            Some(v) => GenParamsView { duration: v, ..p },
            None => p,
        },
        SettingField::AudioDuration => match parse_i64_spec(value) {
            Some(v) => GenParamsView { audio_duration: v, ..p },
            None => p,
        },
        SettingField::AspectRatio => GenParamsView { aspect_ratio: value, ..p },
        SettingField::Resolution => GenParamsView { resolution: value, ..p },
        SettingField::Quality => GenParamsView { quality: value, ..p },
        SettingField::Count => match parse_i64_spec(value) {
            Some(v) => GenParamsView { num_images: v, ..p },
            None => p,
        },
    }
}

impl FormView {
    pub open spec fn with_params(self, p: GenParamsView) -> FormView {
        FormView { params: p, ..self }
    }
}

/// Apply a picked option value to the form.
pub fn apply_setting(state: &mut GenerationState, field: SettingField, value: &str)
    ensures
        final(state)@ == old(state)@.with_params(applied_setting(old(state)@.params, field, value@)),
{
    match field {
        SettingField::Duration => {
            if let Some(v) = parse_i64(value) {
                state.params.duration = v;
            }
        },
        SettingField::AudioDuration => {
            if let Some(v) = parse_i64(value) {
                state.params.audio_duration = v;
            }
        },
        SettingField::AspectRatio => {
            state.params.aspect_ratio = String::from_str(value);
        },
        SettingField::Resolution => {
            state.params.resolution = String::from_str(value);
        },
        SettingField::Quality => {
            state.params.quality = String::from_str(value);
        },
        SettingField::Count => {
            if let Some(v) = parse_i64(value) {
                state.params.num_images = v;
            }
        },
    }
    proof {
        assert(final(state)@ =~= old(state)@.with_params(applied_setting(old(state)@.params, field, value@)));
    }
}

/// `signed_decimal(n)` followed by `suffix`.
fn number_with_suffix(n: i64, suffix: &str) -> (s: String)
    ensures
        s@ == signed_decimal(n as int) + suffix@,
{
    let mut s = String::new();
    proof {
        reveal_strlit("");
    }
    append_i64(&mut s, n);
    s.append(suffix);
    assert(s@ =~= signed_decimal(n as int) + suffix@);
    s
}

/// The parts of the gear button label. `resolution_label` is the display
/// label of an image model's resolution.
pub open spec fn summary_parts(p: GenParamsView, m: ModelConfig, resolution_label: Seq<char>) -> Seq<Seq<char>> {
    match m.caps {
        ModelCaps::Audio(c) => opt_item(c.durations is Some, signed_decimal(p.audio_duration as int) + "s"@) + opt_item(
            c.supports_instrumental && p.instrumental,
            "Instrumental"@,
        ),
        ModelCaps::Video(c) => opt_item(c.resolutions is Some, p.resolution) + seq![
            signed_decimal(p.duration as int) + "s"@,
        ] + opt_item(p.aspect_ratio.len() > 0 && c.aspect_ratios.len() > 0, p.aspect_ratio),
        ModelCaps::Image(c) => opt_item(c.resolutions is Some, resolution_label) + opt_item(
            c.qualities is Some,
            p.quality,
        ) + opt_item(p.aspect_ratio.len() > 0 && c.aspect_ratios.len() > 0, p.aspect_ratio) + opt_item(
            c.max_images > 1 && p.num_images > 1,
            "×"@ + signed_decimal(p.num_images as int),
        ),
    }
}

/// The gear button label: the parts joined with " · "; an audio model
/// with none says "Settings".
pub open spec fn settings_summary_spec(p: GenParamsView, m: ModelConfig, resolution_label: Seq<char>) -> Seq<char> {
    let parts = summary_parts(p, m, resolution_label);
    if m.caps is Audio && parts.len() == 0 {
        "Settings"@
    } else {
        join_with(parts, " · "@)
    }
}

/// The gear button label; `resolution_label` is the display label of an
/// image model's selected resolution.
pub fn settings_summary(state: &GenerationState, catalog: &[ModelConfig], resolution_label: &str) -> (s: String)
    requires
        covers_kind(catalog@, kind_of_type(state.selected_type)),
    ensures
        s@ == settings_summary_spec(state.params@, selected_model_of(catalog@, state@), resolution_label@),
{
    let p = &state.params;
    let m = state.selected_model(catalog);
    let mut parts: Vec<String> = Vec::new();
    proof {
        reveal_strlit("s");
        reveal_strlit("Instrumental");
        reveal_strlit("×");
    }
    match &m.caps {
        ModelCaps::Audio(c) => {
            if c.durations.is_some() {
                parts.push(number_with_suffix(p.audio_duration, "s"));
            }
            if c.supports_instrumental && p.instrumental {
                parts.push(String::from_str("Instrumental"));
            }
            assert(strs(parts@) =~= summary_parts(state.params@, *m, resolution_label@));
            if parts.len() == 0 {
                return String::from_str("Settings");
            }
        },
        ModelCaps::Video(c) => {
            if c.resolutions.is_some() {
                parts.push(p.resolution.clone());
            }
            parts.push(number_with_suffix(p.duration, "s"));
            if p.aspect_ratio.unicode_len() > 0 && c.aspect_ratios.len() > 0 {
                parts.push(p.aspect_ratio.clone());
            }
            assert(strs(parts@) =~= summary_parts(state.params@, *m, resolution_label@));
        },
        ModelCaps::Image(c) => {
            if c.resolutions.is_some() {
                parts.push(String::from_str(resolution_label));
            }
            if c.qualities.is_some() {
                parts.push(p.quality.clone());
            }
            if p.aspect_ratio.unicode_len() > 0 && c.aspect_ratios.len() > 0 {
                parts.push(p.aspect_ratio.clone());
            }
            if c.max_images > 1 && p.num_images > 1 {
                let mut x = String::from_str("×");
                append_i64(&mut x, p.num_images);
                parts.push(x);
            }
            assert(strs(parts@) =~= summary_parts(state.params@, *m, resolution_label@));
        },
    }
    join_parts(&parts, " · ")
}

/// The first character upper-cased (Unicode mapping), the rest kept.
pub open spec fn capitalized_spec(s: Seq<char>) -> Seq<char> {
    if s.len() == 0 {
        Seq::empty()
    } else {
        uppercase_of_char(s[0]) + s.drop_first()
    }
}

fn capitalized(s: &str) -> (r: String)
    ensures
        r@ == capitalized_spec(s@),
{
    let n = s.unicode_len();
    if n == 0 {
        return String::new();
    }
    let mut r = char_uppercase(s.get_char(0));
    r.append(s.substring_char(1, n));
    assert(s@.subrange(1, n as int) =~= s@.drop_first());
    r
}

/// Options as (value, label) views.
pub open spec fn pair_views(v: Seq<(String, String)>) -> Seq<(Seq<char>, Seq<char>)> {
    v.map_values(|p: (String, String)| (p.0@, p.1@))
}

/// A duration option: the number, and the number with "s".
pub open spec fn seconds_option(d: i64) -> (Seq<char>, Seq<char>) {
    (signed_decimal(d as int), signed_decimal(d as int) + "s"@)
}

/// Values paired with their labels.
pub open spec fn labelled(values: Seq<Seq<char>>, labels: Seq<Seq<char>>) -> Seq<(Seq<char>, Seq<char>)> {
    Seq::new(values.len(), |i: int| (values[i], labels[i]))
}

/// Options of a picker as (value, label) pairs. Aspect ratios and image
/// resolutions take their labels from `aspect_labels` and
/// `resolution_labels`, one per option in the model's order.
pub open spec fn setting_options_spec(
    m: ModelConfig,
    field: SettingField,
    aspect_labels: Seq<Seq<char>>,
    resolution_labels: Seq<Seq<char>>,
) -> Seq<(Seq<char>, Seq<char>)> {
    match field {
        SettingField::Duration => match m.caps {
            ModelCaps::Video(c) => Seq::new(c.durations@.len(), |i: int| seconds_option(c.durations@[i])),
            _ => Seq::empty(),
        },
        SettingField::AudioDuration => match m.caps {
            ModelCaps::Audio(c) => match c.durations {
                Some(ds) => Seq::new(ds@.len(), |i: int| seconds_option(ds@[i])),
                None => Seq::empty(),
            },
            _ => Seq::empty(),
        },
        SettingField::AspectRatio => match m.caps {
            ModelCaps::Video(c) => labelled(strs(c.aspect_ratios@), aspect_labels),
            ModelCaps::Image(c) => labelled(strs(c.aspect_ratios@), aspect_labels),
            _ => Seq::empty(),
        },
        SettingField::Resolution => match m.caps {
            ModelCaps::Video(c) => match c.resolutions {
                Some(rs) => labelled(strs(rs@), strs(rs@)),
                None => Seq::empty(),
            },
            ModelCaps::Image(c) => match c.resolutions {
                Some(rs) => labelled(strs(rs@), resolution_labels),
                None => Seq::empty(),
            },
            _ => Seq::empty(),
        },
        SettingField::Quality => match m.caps {
            ModelCaps::Image(c) => match c.qualities {
                Some(qs) => Seq::new(qs@.len(), |i: int| (qs@[i]@, capitalized_spec(qs@[i]@))),
                None => Seq::empty(),
            },
            _ => Seq::empty(),
        },
        SettingField::Count => match m.caps {
            ModelCaps::Image(c) => {
                let hi: int = if c.max_images > 1 {
                    c.max_images as int
                } else {
                    1
                };
                Seq::new(hi as nat, |i: int| (decimal((i + 1) as nat), decimal((i + 1) as nat)))
            },
            _ => Seq::empty(),
        },
    }
}

/// The label lists have one label per option they are for.
pub open spec fn labels_fit(
    m: ModelConfig,
    field: SettingField,
    aspect_labels: Seq<Seq<char>>,
    resolution_labels: Seq<Seq<char>>,
) -> bool {
    match field {
        SettingField::AspectRatio => match m.caps {
            ModelCaps::Video(c) => aspect_labels.len() == c.aspect_ratios@.len(),
            ModelCaps::Image(c) => aspect_labels.len() == c.aspect_ratios@.len(),
            _ => true,
        },
        SettingField::Resolution => match m.caps {
            ModelCaps::Image(c) => match c.resolutions {
                Some(rs) => resolution_labels.len() == rs@.len(),
                None => true,
            },
            _ => true,
        },
        _ => true,
    }
}

fn seconds_options(ds: &Vec<i64>) -> (r: Vec<(String, String)>)
    ensures
        pair_views(r@) == Seq::new(ds@.len(), |i: int| seconds_option(ds@[i])),
{
    let mut r: Vec<(String, String)> = Vec::new();
    let mut i: usize = 0;
    while i < ds.len()
        invariant
            0 <= i <= ds@.len(),
            pair_views(r@) =~= Seq::new(i as nat, |k: int| seconds_option(ds@[k])),
        decreases ds.len() - i,
    {
        let ghost before = r@;
        let mut v = String::new();
        proof {
            reveal_strlit("");
        }
        append_i64(&mut v, ds[i]);
        let l = number_with_suffix(ds[i], "s");
        r.push((v, l));
        assert(pair_views(r@) =~= pair_views(before).push(seconds_option(ds@[i as int])));
        i += 1;
    }
    r
}

fn labelled_options(values: &Vec<String>, labels: &[String]) -> (r: Vec<(String, String)>)
    requires
        labels@.len() == values@.len(),
    ensures
        pair_views(r@) == labelled(strs(values@), strs(labels@)),
{
    let mut r: Vec<(String, String)> = Vec::new();
    let mut i: usize = 0;
    while i < values.len()
        invariant
            0 <= i <= values@.len(),
            labels@.len() == values@.len(),
            pair_views(r@) =~= labelled(strs(values@).take(i as int), strs(labels@).take(i as int)),
        decreases values.len() - i,
    {
        let ghost before = r@;
        r.push((values[i].clone(), labels[i].clone()));
        assert(pair_views(r@) =~= pair_views(before).push((values@[i as int]@, labels@[i as int]@)));
        assert(labelled(strs(values@).take(i + 1), strs(labels@).take(i + 1)) =~= labelled(
            strs(values@).take(i as int),
            strs(labels@).take(i as int),
        ).push((values@[i as int]@, labels@[i as int]@)));
        i += 1;
    }
    assert(strs(values@).take(i as int) =~= strs(values@));
    assert(strs(labels@).take(i as int) =~= strs(labels@));
    r
}

/// The options of picker `field` for the selected model.
pub fn setting_options(
    state: &GenerationState,
    catalog: &[ModelConfig],
    field: SettingField,
    aspect_labels: &[String],
    resolution_labels: &[String],
) -> (r: Vec<(String, String)>)
    requires
        covers_kind(catalog@, kind_of_type(state.selected_type)),
        labels_fit(selected_model_of(catalog@, state@), field, strs(aspect_labels@), strs(resolution_labels@)),
    ensures
        pair_views(r@) == setting_options_spec(
            selected_model_of(catalog@, state@),
            field,
            strs(aspect_labels@),
            strs(resolution_labels@),
        ),
{
    let m = state.selected_model(catalog);
    let empty: Vec<(String, String)> = Vec::new();
    assert(pair_views(empty@) =~= Seq::<(Seq<char>, Seq<char>)>::empty());
    match field {
        SettingField::Duration => match &m.caps {
            ModelCaps::Video(c) => seconds_options(&c.durations),
            _ => empty,
        },
        SettingField::AudioDuration => match &m.caps {
            ModelCaps::Audio(c) => match &c.durations {
                Some(ds) => seconds_options(ds),
                None => empty,
            },
            _ => empty,
        },
        SettingField::AspectRatio => match &m.caps {
            ModelCaps::Video(c) => labelled_options(&c.aspect_ratios, aspect_labels),
            ModelCaps::Image(c) => labelled_options(&c.aspect_ratios, aspect_labels),
            _ => empty,
        },
        SettingField::Resolution => match &m.caps {
            ModelCaps::Video(c) => match &c.resolutions {
                Some(rs) => labelled_options(rs, rs.as_slice()),
                None => empty,
            },
            ModelCaps::Image(c) => match &c.resolutions {
                Some(rs) => labelled_options(rs, resolution_labels),
                None => empty,
            },
            _ => empty,
        },
        SettingField::Quality => match &m.caps {
            ModelCaps::Image(c) => match &c.qualities {
                Some(qs) => {
                    let mut r: Vec<(String, String)> = Vec::new();
                    let mut i: usize = 0;
                    while i < qs.len()
                        invariant
                            0 <= i <= qs@.len(),
                            pair_views(r@) =~= Seq::new(i as nat, |k: int| (qs@[k]@, capitalized_spec(qs@[k]@))),
                        decreases qs.len() - i,
                    {
                        let ghost before = r@;
                        r.push((qs[i].clone(), capitalized(qs[i].as_str())));
                        assert(pair_views(r@) =~= pair_views(before).push((qs@[i as int]@, capitalized_spec(qs@[i as int]@))));
                        i += 1;
                    }
                    r
                },
                None => empty,
            },
            _ => empty,
        },
        SettingField::Count => match &m.caps {
            ModelCaps::Image(c) => {
                let hi: i64 = if c.max_images > 1 {
                    c.max_images
                } else {
                    1
                };
                let mut r: Vec<(String, String)> = Vec::new();
                let mut n: i128 = 1;
                while n <= hi as i128
                    invariant
                        1 <= n <= hi + 1,
                        hi >= 1,
                        pair_views(r@) =~= Seq::new((n - 1) as nat, |i: int| (decimal((i + 1) as nat), decimal((i + 1) as nat))),
                    decreases hi - n + 1,
                {
                    let ghost before = r@;
                    let mut v = String::new();
                    let mut l = String::new();
                    proof {
                        reveal_strlit("");
                    }
                    append_decimal(&mut v, n as u128);
                    append_decimal(&mut l, n as u128);
                    r.push((v, l));
                    assert(pair_views(r@) =~= pair_views(before).push((decimal(n as nat), decimal(n as nat))));
                    n += 1;
                }
                r
            },
            _ => empty,
        },
    }
}

/// What a submission asks the generation service for.
#[derive(Debug, Clone, PartialEq, Default)]
pub struct GenerationInput {
    pub prompt: String,
    pub model: String,
    pub duration: i64,
    pub aspect_ratio: String,
    pub resolution: Option<String>,
    pub quality: Option<String>,
    pub num_images: Option<i64>,
    pub voice: Option<String>,
    pub lyrics: Option<String>,
    pub style_instructions: Option<String>,
    pub instrumental: Option<bool>,
    pub generate_audio: Option<bool>,
    pub image_url_asset_ids: Option<Vec<String>>,
    pub reference_image_asset_ids: Option<Vec<String>>,
    pub reference_video_asset_ids: Option<Vec<String>>,
    pub reference_audio_asset_ids: Option<Vec<String>>,
}

/// A generation request as plain values.
#[verifier::ext_equal]
pub struct InputView {
    pub prompt: Seq<char>,
    pub model: Seq<char>,
    pub duration: i64,
    pub aspect_ratio: Seq<char>,
    pub resolution: Option<Seq<char>>,
    pub quality: Option<Seq<char>>,
    pub num_images: Option<i64>,
    pub voice: Option<Seq<char>>,
    pub lyrics: Option<Seq<char>>,
    pub style_instructions: Option<Seq<char>>,
    pub instrumental: Option<bool>,
    pub generate_audio: Option<bool>,
    pub image_url_asset_ids: Option<Seq<Seq<char>>>,
    pub reference_image_asset_ids: Option<Seq<Seq<char>>>,
    pub reference_video_asset_ids: Option<Seq<Seq<char>>>,
    pub reference_audio_asset_ids: Option<Seq<Seq<char>>>,
}

pub open spec fn opt_strs(o: Option<Vec<String>>) -> Option<Seq<Seq<char>>> {
    match o {
        Some(v) => Some(strs(v@)),
        None => None,
    }
}

impl View for GenerationInput {
    type V = InputView;

    open spec fn view(&self) -> InputView {
        InputView {
            prompt: self.prompt@,
            model: self.model@,
            duration: self.duration,
            aspect_ratio: self.aspect_ratio@,
            resolution: opt_view(self.resolution),
            quality: opt_view(self.quality),
            num_images: self.num_images,
            voice: opt_view(self.voice),
            lyrics: opt_view(self.lyrics),
            style_instructions: opt_view(self.style_instructions),
            instrumental: self.instrumental,
            generate_audio: self.generate_audio,
            image_url_asset_ids: opt_strs(self.image_url_asset_ids),
            reference_image_asset_ids: opt_strs(self.reference_image_asset_ids),
            reference_video_asset_ids: opt_strs(self.reference_video_asset_ids),
            reference_audio_asset_ids: opt_strs(self.reference_audio_asset_ids),
        }
    }
}

/// Ids of the references of `kind`, in pool order.
pub open spec fn ids_of_kind(refs: Seq<(Seq<char>, ClipType)>, kind: ClipType) -> Seq<Seq<char>>
    decreases refs.len(),
{
    if refs.len() == 0 {
        Seq::empty()
    } else {
        let rest = ids_of_kind(refs.drop_last(), kind);
        if refs.last().1 == kind {
            rest.push(refs.last().0)
        } else {
            rest
        }
    }
}

pub open spec fn all_ids(refs: Seq<(Seq<char>, ClipType)>) -> Seq<Seq<char>> {
    refs.map_values(|r: (Seq<char>, ClipType)| r.0)
}

/// `Some(ids)` unless there are none.
pub open spec fn nonempty(ids: Seq<Seq<char>>) -> Option<Seq<Seq<char>>> {
    if ids.len() > 0 {
        Some(ids)
    } else {
        None
    }
}

pub open spec fn opt_seq(o: Option<Seq<char>>) -> Seq<Seq<char>> {
    match o {
        Some(x) => seq![x],
        None => Seq::empty(),
    }
}

/// The frame ids a video request carries: the first frame, then the last
/// frame where the model takes one, when the frame strip shows.
pub open spec fn frame_ids(f: FormView, m: ModelConfig) -> Seq<Seq<char>> {
    match m.caps {
        ModelCaps::Video(c) => if shows_frame_strip_spec(f, m) {
            opt_seq(f.first_frame) + if c.supports_last_frame {
                opt_seq(f.last_frame)
            } else {
                Seq::empty()
            }
        } else {
            Seq::empty()
        },
        _ => Seq::empty(),
    }
}

pub open spec fn kind_ids_if(show: bool, refs: Seq<(Seq<char>, ClipType)>, kind: ClipType) -> Option<Seq<Seq<char>>> {
    if show {
        nonempty(ids_of_kind(refs, kind))
    } else {
        None
    }
}

/// The request for the form: prompt, model id, the aspect ratio where the
/// model lists some, the resolution in effect, and per type the values
/// its caps make meaningful. Video carries the frames or references its
/// layout shows; image models that take references carry them all.
pub open spec fn build_input_spec(f: FormView, m: ModelConfig) -> InputView {
    let p = f.params;
    let has_aspect = match m.caps {
        ModelCaps::Video(c) => c.aspect_ratios@.len() > 0,
        ModelCaps::Image(c) => c.aspect_ratios@.len() > 0,
        ModelCaps::Audio(_) => false,
    };
    let base = InputView {
        prompt: f.prompt,
        model: m.id@,
        duration: 0,
        aspect_ratio: if has_aspect {
            p.aspect_ratio
        } else {
            Seq::empty()
        },
        resolution: effective_resolution_spec(m, p),
        quality: None,
        num_images: None,
        voice: None,
        lyrics: None,
        style_instructions: None,
        instrumental: None,
        generate_audio: None,
        image_url_asset_ids: None,
        reference_image_asset_ids: None,
        reference_video_asset_ids: None,
        reference_audio_asset_ids: None,
    };
    match m.caps {
        ModelCaps::Video(c) => {
            let refs = shows_ref_sections_spec(f, m);
            InputView {
                duration: if c.requires_source_video {
                    0
                } else {
                    p.duration
                },
                generate_audio: if c.has_audio_discount {
                    Some(p.generate_audio)
                } else {
                    None
                },
                image_url_asset_ids: nonempty(frame_ids(f, m)),
                reference_image_asset_ids: kind_ids_if(refs, f.references, ClipType::Image),
                reference_video_asset_ids: kind_ids_if(refs, f.references, ClipType::Video),
                reference_audio_asset_ids: kind_ids_if(refs, f.references, ClipType::Audio),
                ..base
            }
        },
        ModelCaps::Image(c) => {
            let clamped = clamp_int(p.num_images, 1, c.max_images);
            InputView {
                quality: if c.qualities is Some {
                    Some(p.quality)
                } else {
                    None
                },
                num_images: if c.max_images > 1 && clamped > 1 {
                    Some(clamped)
                } else {
                    None
                },
                image_url_asset_ids: if c.supports_image_reference {
                    nonempty(all_ids(f.references))
                } else {
                    None
                },
                ..base
            }
        },
        ModelCaps::Audio(c) => InputView {
            duration: if c.durations is Some {
                p.audio_duration
            } else {
                0
            },
            voice: if c.voices is Some && p.voice.len() > 0 {
                Some(p.voice)
            } else {
                None
            },
            lyrics: if c.supports_lyrics && f.lyrics.len() > 0 {
                Some(f.lyrics)
            } else {
                None
            },
            style_instructions: if c.supports_style_instructions && f.style_instructions.len() > 0 {
                Some(f.style_instructions)
            } else {
                None
            },
            instrumental: if c.supports_instrumental {
                Some(p.instrumental)
            } else {
                None
            },
            ..base
        },
    }
}

fn ids_by_kind(refs: &Vec<RefAsset>, kind: ClipType) -> (r: Vec<String>)
    ensures
        strs(r@) == ids_of_kind(ref_views(refs@), kind),
{
    let mut r: Vec<String> = Vec::new();
    let mut i: usize = 0;
    while i < refs.len()
        invariant
            0 <= i <= refs@.len(),
            strs(r@) == ids_of_kind(ref_views(refs@).take(i as int), kind),
        decreases refs.len() - i,
    {
        assert(ref_views(refs@).take(i + 1).drop_last() =~= ref_views(refs@).take(i as int));
        let ghost before = r@;
        if refs[i].kind == kind {
            r.push(refs[i].id.clone());
            assert(strs(r@) =~= strs(before).push(refs@[i as int].id@));
        }
        i += 1;
    }
    assert(ref_views(refs@).take(i as int) =~= ref_views(refs@));
    r
}

fn ref_ids(refs: &Vec<RefAsset>) -> (r: Vec<String>)
    ensures
        strs(r@) == all_ids(ref_views(refs@)),
{
    let mut r: Vec<String> = Vec::new();
    let mut i: usize = 0;
    while i < refs.len()
        invariant
            0 <= i <= refs@.len(),
            r@.len() == i,
            forall|k: int| 0 <= k < i ==> (#[trigger] r@[k])@ == refs@[k].id@,
        decreases refs.len() - i,
    {
        r.push(refs[i].id.clone());
        i += 1;
    }
    assert(strs(r@) =~= all_ids(ref_views(refs@)));
    r
}

/// The request the form submits.
pub fn build_generation_input(state: &GenerationState, catalog: &[ModelConfig]) -> (r: GenerationInput)
    requires
        covers_kind(catalog@, kind_of_type(state.selected_type)),
    ensures
        r@ == build_input_spec(state@, selected_model_of(catalog@, state@)),
{
    let m = state.selected_model(catalog);
    let p = &state.params;
    let has_aspect = match &m.caps {
        ModelCaps::Video(c) => c.aspect_ratios.len() > 0,
        ModelCaps::Image(c) => c.aspect_ratios.len() > 0,
        ModelCaps::Audio(_) => false,
    };
    proof {
        reveal_strlit("");
    }
    let mut input = GenerationInput {
        prompt: state.prompt.clone(),
        model: m.id.clone(),
        duration: 0,
        aspect_ratio: if has_aspect {
            p.aspect_ratio.clone()
        } else {
            String::new()
        },
        resolution: effective_resolution(state, catalog),
        quality: None,
        num_images: None,
        voice: None,
        lyrics: None,
        style_instructions: None,
        instrumental: None,
        generate_audio: None,
        image_url_asset_ids: None,
        reference_image_asset_ids: None,
        reference_video_asset_ids: None,
        reference_audio_asset_ids: None,
    };
    match &m.caps {
        ModelCaps::Video(c) => {
            input.duration = if c.requires_source_video {
                0
            } else {
                p.duration
            };
            if c.has_audio_discount {
                input.generate_audio = Some(p.generate_audio);
            }
            let mut primary: Vec<String> = Vec::new();
            if shows_frame_strip(state, catalog) {
                if let Some(f) = &state.first_frame {
                    primary.push(f.clone());
                }
                if c.supports_last_frame {
                    if let Some(l) = &state.last_frame {
                        primary.push(l.clone());
                    }
                }
            }
            assert(strs(primary@) =~= frame_ids(state@, *m));
            if primary.len() > 0 {
                input.image_url_asset_ids = Some(primary);
            }
            if shows_ref_sections(state, catalog) {
                let images = ids_by_kind(&state.references, ClipType::Image);
                let videos = ids_by_kind(&state.references, ClipType::Video);
                let audios = ids_by_kind(&state.references, ClipType::Audio);
                if images.len() > 0 {
                    input.reference_image_asset_ids = Some(images);
                }
                if videos.len() > 0 {
                    input.reference_video_asset_ids = Some(videos);
                }
                if audios.len() > 0 {
                    input.reference_audio_asset_ids = Some(audios);
                }
            }
        },
        ModelCaps::Image(c) => {
            if c.qualities.is_some() {
                input.quality = Some(p.quality.clone());
            }
            if c.max_images > 1 {
                let clamped = if p.num_images < 1 {
                    1
                } else if p.num_images > c.max_images {
                    c.max_images
                } else {
                    p.num_images
                };
                if clamped > 1 {
                    input.num_images = Some(clamped);
                }
            }
            if c.supports_image_reference {
                let ids = ref_ids(&state.references);
                if ids.len() > 0 {
                    input.image_url_asset_ids = Some(ids);
                }
            }
        },
        ModelCaps::Audio(c) => {
            input.duration = if c.durations.is_some() {
                p.audio_duration
            } else {
                0
            };
            if c.voices.is_some() && p.voice.unicode_len() > 0 {
                input.voice = Some(p.voice.clone());
            }
            if c.supports_lyrics && state.lyrics.unicode_len() > 0 {
                input.lyrics = Some(state.lyrics.clone());
            }
            if c.supports_style_instructions && state.style_instructions.unicode_len() > 0 {
                input.style_instructions = Some(state.style_instructions.clone());
            }
            if c.supports_instrumental {
                input.instrumental = Some(p.instrumental);
            }
        },
    }
    assert(input@ =~= build_input_spec(state@, selected_model_of(catalog@, state@)));
    input
}

/// Strings as JSON strings.
pub open spec fn str_array(ids: Seq<Seq<char>>) -> Seq<Json> {
    ids.map_values(|x: Seq<char>| Json::Str(x))
}

pub open spec fn opt_member(b: bool, key: Seq<char>, v: Json) -> Seq<(Seq<char>, Json)> {
    if b {
        seq![(key, v)]
    } else {
        Seq::empty()
    }
}

pub open spec fn opt_str_json(key: Seq<char>, o: Option<Seq<char>>) -> Seq<(Seq<char>, Json)> {
    match o {
        Some(x) => seq![(key, Json::Str(x))],
        None => Seq::empty(),
    }
}

pub open spec fn opt_bool_json(key: Seq<char>, o: Option<bool>) -> Seq<(Seq<char>, Json)> {
    match o {
        Some(b) => seq![(key, Json::Bool(b))],
        None => Seq::empty(),
    }
}

pub open spec fn opt_ids_json(key: Seq<char>, o: Option<Seq<Seq<char>>>) -> Seq<(Seq<char>, Json)> {
    match o {
        Some(ids) => seq![(key, Json::Array(str_array(ids)))],
        None => Seq::empty(),
    }
}

/// The members of the generate tool's arguments: prompt and model, then
/// each value the request carries. A duration is sent as a JSON float
/// (`5.0`), an image count as an integer.
pub open spec fn tool_members(i: InputView) -> Seq<(Seq<char>, Json)> {
    seq![("prompt"@, Json::Str(i.prompt)), ("model"@, Json::Str(i.model))]
        + opt_member(i.duration > 0, "duration"@, Json::Number(signed_decimal(i.duration as int) + ".0"@))
        + opt_member(i.aspect_ratio.len() > 0, "aspectRatio"@, Json::Str(i.aspect_ratio))
        + opt_str_json("resolution"@, i.resolution)
        + opt_str_json("quality"@, i.quality)
        + match i.num_images {
            Some(n) => seq![("numImages"@, Json::Number(signed_decimal(n as int)))],
            None => Seq::empty(),
        }
        + opt_str_json("voice"@, i.voice)
        + opt_str_json("lyrics"@, i.lyrics)
        + opt_str_json("style"@, i.style_instructions)
        + opt_bool_json("instrumental"@, i.instrumental)
        + opt_bool_json("generateAudio"@, i.generate_audio)
        + opt_ids_json("imageURLAssetIds"@, i.image_url_asset_ids)
        + opt_ids_json("referenceImageAssetIds"@, i.reference_image_asset_ids)
        + opt_ids_json("referenceVideoAssetIds"@, i.reference_video_asset_ids)
        + opt_ids_json("referenceAudioAssetIds"@, i.reference_audio_asset_ids)
}

pub open spec fn tool_args_spec(i: InputView) -> Json {
    Json::Object(tool_members(i))
}

/// The generate tool for a model's type.
pub open spec fn tool_name_spec(m: ModelConfig) -> Seq<char> {
    match m.caps {
        ModelCaps::Video(_) => "generate_video"@,
        ModelCaps::Image(_) => "generate_image"@,
        ModelCaps::Audio(_) => "generate_audio"@,
    }
}

fn push_opt_str(entries: &mut Vec<(String, JsonValue)>, key: &str, o: &Option<String>)
    ensures
        members_of(final(entries)@) == members_of(old(entries)@) + opt_str_json(key@, opt_view(*o)),
{
    match o {
        Some(x) => {
            push_member(entries, key, JsonValue::Str(x.clone()));
        },
        None => {},
    }
    assert(members_of(final(entries)@) =~= members_of(old(entries)@) + opt_str_json(key@, opt_view(*o)));
}

fn push_opt_bool(entries: &mut Vec<(String, JsonValue)>, key: &str, o: Option<bool>)
    ensures
        members_of(final(entries)@) == members_of(old(entries)@) + opt_bool_json(key@, o),
{
    match o {
        Some(b) => {
            push_member(entries, key, JsonValue::Bool(b));
        },
        None => {},
    }
    assert(members_of(final(entries)@) =~= members_of(old(entries)@) + opt_bool_json(key@, o));
}

/// The strings as a JSON array.
fn str_array_value(ids: &Vec<String>) -> (v: JsonValue)
    ensures
        json_of(v) == Json::Array(str_array(strs(ids@))),
{
    let mut items: Vec<JsonValue> = Vec::new();
    let mut i: usize = 0;
    while i < ids.len()
        invariant
            0 <= i <= ids@.len(),
            jsons_of(items@) == str_array(strs(ids@)).take(i as int),
        decreases ids.len() - i,
    {
        let ghost before = items@;
        let c = ids[i].clone();
        let item = JsonValue::Str(c);
        assert(json_of(item) == Json::Str(ids@[i as int]@));
        items.push(item);
        assert(items@.drop_last() =~= before);
        assert(jsons_of(items@) == jsons_of(before).push(json_of(item)));
        assert(str_array(strs(ids@)).take(i + 1) =~= str_array(strs(ids@)).take(i as int).push(Json::Str(ids@[i as int]@)));
        i += 1;
    }
    assert(str_array(strs(ids@)).take(i as int) =~= str_array(strs(ids@)));
    JsonValue::Array(items)
}

fn push_opt_ids(entries: &mut Vec<(String, JsonValue)>, key: &str, o: &Option<Vec<String>>)
    ensures
        members_of(final(entries)@) == members_of(old(entries)@) + opt_ids_json(key@, opt_strs(*o)),
{
    match o {
        Some(ids) => {
            push_member(entries, key, str_array_value(ids));
        },
        None => {},
    }
    assert(members_of(final(entries)@) =~= members_of(old(entries)@) + opt_ids_json(key@, opt_strs(*o)));
}

/// The arguments of the generate tool for a request.
pub fn tool_args(input: &GenerationInput) -> (v: JsonValue)
    ensures
        json_of(v) == tool_args_spec(input@),
{
    let i = input;
    let mut m: Vec<(String, JsonValue)> = Vec::new();
    assert(members_of(m@) =~= Seq::<(Seq<char>, Json)>::empty());
    push_member(&mut m, "prompt", JsonValue::Str(i.prompt.clone()));
    push_member(&mut m, "model", JsonValue::Str(i.model.clone()));
    let ghost s0 = members_of(m@);
    assert(s0 =~= seq![("prompt"@, Json::Str(i@.prompt)), ("model"@, Json::Str(i@.model))]);
    if i.duration > 0 {
        let mut d = String::new();
        proof {
            reveal_strlit("");
        }
        append_i64(&mut d, i.duration);
        d.append(".0");
        push_member(&mut m, "duration", JsonValue::Number(d));
    }
    let ghost s1 = members_of(m@);
    assert(s1 =~= s0 + opt_member(i@.duration > 0, "duration"@, Json::Number(signed_decimal(i@.duration as int) + ".0"@)));
    if i.aspect_ratio.unicode_len() > 0 {
        push_member(&mut m, "aspectRatio", JsonValue::Str(i.aspect_ratio.clone()));
    }
    let ghost s2 = members_of(m@);
    assert(s2 =~= s1 + opt_member(i@.aspect_ratio.len() > 0, "aspectRatio"@, Json::Str(i@.aspect_ratio)));
    push_opt_str(&mut m, "resolution", &i.resolution);
    push_opt_str(&mut m, "quality", &i.quality);
    let ghost s3 = members_of(m@);
    match i.num_images {
        Some(n) => {
            let mut t = String::new();
            proof {
                reveal_strlit("");
            }
            append_i64(&mut t, n);
            push_member(&mut m, "numImages", JsonValue::Number(t));
        },
        None => {},
    }
    let ghost s4 = members_of(m@);
    assert(s4 =~= s3 + match i@.num_images {
        Some(n) => seq![("numImages"@, Json::Number(signed_decimal(n as int)))],
        None => Seq::empty(),
    });
    push_opt_str(&mut m, "voice", &i.voice);
    push_opt_str(&mut m, "lyrics", &i.lyrics);
    push_opt_str(&mut m, "style", &i.style_instructions);
    push_opt_bool(&mut m, "instrumental", i.instrumental);
    push_opt_bool(&mut m, "generateAudio", i.generate_audio);
    push_opt_ids(&mut m, "imageURLAssetIds", &i.image_url_asset_ids);
    push_opt_ids(&mut m, "referenceImageAssetIds", &i.reference_image_asset_ids);
    push_opt_ids(&mut m, "referenceVideoAssetIds", &i.reference_video_asset_ids);
    push_opt_ids(&mut m, "referenceAudioAssetIds", &i.reference_audio_asset_ids);
    assert(members_of(m@) =~= tool_members(input@));
    JsonValue::Object(m)
}

/// The generate tool and its arguments for the form.
pub fn generation_tool_call(state: &GenerationState, catalog: &[ModelConfig]) -> (r: (&'static str, JsonValue))
    requires
        covers_kind(catalog@, kind_of_type(state.selected_type)),
    ensures
        r.0@ == tool_name_spec(selected_model_of(catalog@, state@)),
        json_of(r.1) == tool_args_spec(build_input_spec(state@, selected_model_of(catalog@, state@))),
{
    let input = build_generation_input(state, catalog);
    let args = tool_args(&input);
    proof {
        reveal_strlit("generate_video");
        reveal_strlit("generate_image");
        reveal_strlit("generate_audio");
    }
    let tool = match &state.selected_model(catalog).caps {
        ModelCaps::Video(_) => "generate_video",
        ModelCaps::Image(_) => "generate_image",
        ModelCaps::Audio(_) => "generate_audio",
    };
    (tool, args)
}

/// Statuses of a generation still under way.
pub open spec fn is_inflight_status(s: Seq<char>) -> bool {
    s == "preparing"@ || s == "generating"@ || s == "downloading"@
}

pub open spec fn status_inflight(o: Option<Seq<char>>) -> bool {
    match o {
        Some(s) => is_inflight_status(s),
        None => false,
    }
}

/// Whether any media entry's generation status says a generation is
/// still under way; `statuses` holds each entry's status.
pub fn has_inflight_generation(statuses: &[Option<String>]) -> (b: bool)
    ensures
        b == exists|j: int| 0 <= j < statuses@.len() && status_inflight(opt_view(#[trigger] statuses@[j])),
{
    let preparing = String::from_str("preparing");
    let generating = String::from_str("generating");
    let downloading = String::from_str("downloading");
    let mut i: usize = 0;
    while i < statuses.len()
        invariant
            0 <= i <= statuses@.len(),
            preparing@ == "preparing"@,
            generating@ == "generating"@,
            downloading@ == "downloading"@,
            forall|j: int| 0 <= j < i ==> !status_inflight(opt_view(#[trigger] statuses@[j])),
        decreases statuses.len() - i,
    {
        if let Some(s) = &statuses[i] {
            if *s == preparing || *s == generating || *s == downloading {
                assert(status_inflight(opt_view(statuses@[i as int])));
                return true;
            }
        }
        i += 1;
    }
    false
}

/// The form after dropping asset `id` of `kind` on `slot`: a kind the slot
/// does not accept only sets the status line; otherwise the drop assigns
/// as a pick does.
pub open spec fn after_drop(f: FormView, m: ModelConfig, slot: RefSlot, id: Seq<char>, kind: ClipType) -> FormView {
    match drop_rejection_spec(m, slot, kind) {
        Some(reason) => FormView { status: Some(reason), ..f },
        None => after_assign(f, m, slot, id, kind),
    }
}

/// The form after a submission's outcome: a queued job clears the texts,
/// frames, references and status; otherwise the status line reports.
pub open spec fn after_outcome(f: FormView, o: SubmitOutcomeView) -> FormView {
    match o {
        SubmitOutcomeView::Queued(_) => FormView {
            prompt: Seq::empty(),
            lyrics: Seq::empty(),
            style_instructions: Seq::empty(),
            status: None,
            ..references_cleared(f)
        },
        SubmitOutcomeView::Unavailable => FormView {
            status: Some("Generation unavailable — no backend is connected."@),
            ..f
        },
        SubmitOutcomeView::Failed(reason) => FormView { status: Some(reason), ..f },
    }
}

impl GenerationState {
    /// Drop an asset on a slot; see `after_drop`.
    pub fn handle_asset_drop(&mut self, slot: RefSlot, id: &str, kind: ClipType, catalog: &[ModelConfig])
        requires
            covers_kind(catalog@, kind_of_type(old(self).selected_type)),
        ensures
            final(self)@ == after_drop(old(self)@, selected_model_of(catalog@, old(self)@), slot, id@, kind),
    {
        match drop_rejection_message(self, catalog, slot, kind) {
            Some(reason) => {
                self.status = Some(reason);
                proof {
                    assert(final(self)@ =~= after_drop(old(self)@, selected_model_of(catalog@, old(self)@), slot, id@, kind));
                }
            },
            None => {
                self.assign_reference(slot, id, kind, catalog);
            },
        }
    }

    /// Open the asset picker for a slot, closing any other popover.
    pub fn open_asset_picker(&mut self, slot: RefSlot)
        ensures
            final(self)@ == (FormView { asset_picker: Some(slot), ..popovers_closed(old(self)@) }),
    {
        self.close_popovers();
        self.asset_picker = Some(slot);
        proof {
            assert(final(self)@ =~= (FormView { asset_picker: Some(slot), ..popovers_closed(old(self)@) }));
        }
    }

    /// Reflect a submission's outcome; see `after_outcome`.
    pub fn apply_submit_outcome(&mut self, outcome: &SubmitOutcome)
        ensures
            final(self)@ == after_outcome(old(self)@, submit_outcome_view(*outcome)),
    {
        match outcome {
            SubmitOutcome::Queued(_) => {
                self.prompt = String::new();
                self.lyrics = String::new();
                self.style_instructions = String::new();
                self.clear_references();
                self.status = None;
            },
            SubmitOutcome::Unavailable => {
                self.status = Some(String::from_str("Generation unavailable — no backend is connected."));
            },
            SubmitOutcome::Failed(reason) => {
                self.status = Some(reason.clone());
            },
        }
        proof {
            reveal_strlit("");
            assert(final(self)@ =~= after_outcome(old(self)@, submit_outcome_view(*outcome)));
        }
    }
}

/// A value is listed when the list has any entry.
pub open spec fn opt_list_fits(o: Option<Vec<String>>, x: Seq<char>) -> bool {
    match o {
        Some(v) => v@.len() > 0 ==> has_str(v@, x),
        None => true,
    }
}

/// Parameters a model's caps accept: every listed choice is one of the
/// model's options, the image count is within the model's range, and an
/// audio model's voice is its default.
pub open spec fn params_fit(p: GenParamsView, caps: ModelCaps) -> bool {
    match caps {
        ModelCaps::Video(c) => {
            &&& c.aspect_ratios@.len() > 0 ==> has_str(c.aspect_ratios@, p.aspect_ratio)
            &&& opt_list_fits(c.resolutions, p.resolution)
            &&& c.durations@.len() > 0 ==> c.durations@.contains(p.duration)
            &&& p.generate_audio
        },
        ModelCaps::Image(c) => {
            &&& c.aspect_ratios@.len() > 0 ==> has_str(c.aspect_ratios@, p.aspect_ratio)
            &&& opt_list_fits(c.resolutions, p.resolution)
            &&& opt_list_fits(c.qualities, p.quality)
            &&& 1 <= p.num_images
            &&& (p.num_images <= c.max_images || p.num_images == 1)
        },
        ModelCaps::Audio(c) => {
            &&& p.voice == match c.default_voice {
                Some(v) => v@,
                None => Seq::<char>::empty(),
            }
            &&& !c.supports_instrumental ==> !p.instrumental
            &&& match c.durations {
                Some(ds) => ds@.len() > 0 ==> ds@.contains(p.audio_duration),
                None => true,
            }
        },
    }
}

proof fn lemma_keep_or_first(options: Seq<String>, current: Seq<char>, fallback: Seq<char>)
    ensures
        options.len() > 0 ==> has_str(options, keep_or_first(options, current, fallback)),
        options.len() > 0 ==> has_str(options, keep_or_last(options, current, fallback)),
        keep_or_first(options, keep_or_first(options, current, fallback), fallback) == keep_or_first(options, current, fallback),
        keep_or_last(options, keep_or_last(options, current, fallback), fallback) == keep_or_last(options, current, fallback),
{
    if options.len() > 0 {
        assert(options[0]@ == options[0]@);
        assert(options[options.len() - 1]@ == options.last()@);
    }
}

proof fn lemma_keep_or_first_int(options: Seq<i64>, current: i64, fallback: i64)
    ensures
        options.len() > 0 ==> options.contains(keep_or_first_int(options, current, fallback)),
        keep_or_first_int(options, keep_or_first_int(options, current, fallback), fallback) == keep_or_first_int(options, current, fallback),
{
    if options.len() > 0 {
        assert(options[0] == options[0]);
    }
}

/// Correcting parameters against a model's caps gives parameters the caps
/// accept, and correcting them again changes nothing.
pub proof fn lemma_sanitized_fits_caps(p: GenParamsView, caps: ModelCaps)
    ensures
        params_fit(sanitized(p, caps), caps),
        sanitized(sanitized(p, caps), caps) == sanitized(p, caps),
{
    match caps {
        ModelCaps::Video(c) => {
            lemma_keep_or_first(c.aspect_ratios@, p.aspect_ratio, "16:9"@);
            match c.resolutions {
                Some(rs) => lemma_keep_or_first(rs@, p.resolution, "1080p"@),
                None => {},
            }
            lemma_keep_or_first_int(c.durations@, p.duration, 5);
        },
        ModelCaps::Image(c) => {
            lemma_keep_or_first(c.aspect_ratios@, p.aspect_ratio, "16:9"@);
            match c.resolutions {
                Some(rs) => lemma_keep_or_first(rs@, p.resolution, "1080p"@),
                None => {},
            }
            match c.qualities {
                Some(qs) => lemma_keep_or_first(qs@, p.quality, "high"@),
                None => {},
            }
        },
        ModelCaps::Audio(c) => {
            match c.durations {
                Some(ds) => lemma_keep_or_first_int(ds@, p.audio_duration, 30),
                None => {},
            }
        },
    }
    assert(sanitized(sanitized(p, caps), caps) =~= sanitized(p, caps));
}

/// Adding a reference of kind `k` raises the count of `k` by one and no other.
pub proof fn lemma_count_kind_push(refs: Seq<(Seq<char>, ClipType)>, id: Seq<char>, k: ClipType, kind: ClipType)
    ensures
        count_kind(refs.push((id, k)), kind) == count_kind(refs, kind) + if k == kind {
            1nat
        } else {
            0nat
        },
{
    assert(refs.push((id, k)).drop_last() =~= refs);
}

/// The most references of `kind` a video model takes.
pub open spec fn kind_bound(c: VideoCaps, kind: ClipType) -> int {
    if kind_cap(c, kind) > 0 {
        kind_cap(c, kind) as int
    } else {
        0
    }
}

/// The reference pool respects the model: ids are distinct; a video
/// model's per-kind and total caps hold; an image model's references are
/// images.
pub open spec fn refs_within_caps(refs: Seq<(Seq<char>, ClipType)>, m: ModelConfig) -> bool {
    &&& forall|i: int, j: int| 0 <= i < j < refs.len() ==> (#[trigger] refs[i]).0 != (#[trigger] refs[j]).0
    &&& match m.caps {
        ModelCaps::Video(c) => {
            &&& forall|k: ClipType| #[trigger] count_kind(refs, k) <= kind_bound(c, k)
            &&& match c.max_total_references {
                Some(t) => t >= 0 ==> refs.len() <= t,
                None => true,
            }
        },
        ModelCaps::Image(_) => forall|i: int| 0 <= i < refs.len() ==> (#[trigger] refs[i]).1 == ClipType::Image,
        ModelCaps::Audio(_) => true,
    }
}

/// Assigning an asset, by pick or by drop, never takes the reference pool
/// past what the model accepts.
pub proof fn lemma_assign_keeps_caps(f: FormView, m: ModelConfig, slot: RefSlot, id: Seq<char>, kind: ClipType)
    requires
        refs_within_caps(f.references, m),
    ensures
        refs_within_caps(after_assign(f, m, slot, id, kind).references, m),
        refs_within_caps(after_drop(f, m, slot, id, kind).references, m),
{
    let refs = f.references;
    let n = refs.push((id, kind));
    if slot == RefSlot::Reference && add_reference_spec(f, m, id, kind) is Ok {
        assert(!has_ref_id(refs, id));
        assert forall|i: int, j: int| 0 <= i < j < n.len() implies (#[trigger] n[i]).0 != (#[trigger] n[j]).0 by {
            if j == refs.len() {
                assert(refs[i].0 != id);
            } else {
                assert(n[i] == refs[i] && n[j] == refs[j]);
            }
        }
        match m.caps {
            ModelCaps::Video(c) => {
                assert forall|k: ClipType| #[trigger] count_kind(n, k) <= kind_bound(c, k) by {
                    lemma_count_kind_push(refs, id, kind, k);
                    assert(count_kind(refs, k) <= kind_bound(c, k));
                }
            },
            ModelCaps::Image(_) => {
                assert forall|i: int| 0 <= i < n.len() implies (#[trigger] n[i]).1 == ClipType::Image by {
                    if i < refs.len() {
                        assert(n[i] == refs[i]);
                    }
                }
            },
            ModelCaps::Audio(_) => {},
        }
    }
}

/// When the pool is full, no asset can join it.
pub proof fn lemma_cap_reached_blocks_adding(f: FormView, m: ModelConfig, id: Seq<char>, kind: ClipType)
    requires
        ref_cap_reached_spec(f, m),
    ensures
        add_reference_spec(f, m, id, kind) is Err,
{
}

/// With frames and references exclusive, a request carries only the side
/// the form shows: no reference ids in frames mode, no frame ids in
/// references mode.
pub proof fn lemma_exclusive_mode_sends_one_side(f: FormView, m: ModelConfig)
    requires
        m.caps matches ModelCaps::Video(c) && c.frames_and_references_exclusive,
    ensures
        f.use_first_last ==> {
            let i = build_input_spec(f, m);
            &&& i.reference_image_asset_ids is None
            &&& i.reference_video_asset_ids is None
            &&& i.reference_audio_asset_ids is None
        },
        !f.use_first_last ==> build_input_spec(f, m).image_url_asset_ids is None,
{
}

/// A drop of a kind the slot does not accept leaves frames and references
/// as they were and reports on the status line.
pub proof fn lemma_drop_respects_accepted_kinds(f: FormView, m: ModelConfig, slot: RefSlot, id: Seq<char>, kind: ClipType)
    requires
        !accepted_kinds_spec(m, slot).contains(kind),
    ensures
        after_drop(f, m, slot, id, kind).references == f.references,
        after_drop(f, m, slot, id, kind).first_frame == f.first_frame,
        after_drop(f, m, slot, id, kind).last_frame == f.last_frame,
        after_drop(f, m, slot, id, kind).status is Some,
{
}

/// Picking the model that was just picked changes nothing.
pub proof fn lemma_model_pick_twice(c: Seq<ModelConfig>, f: FormView, id: Seq<char>)
    ensures
        after_model_pick(c, after_model_pick(c, f, id), id) == after_model_pick(c, f, id),
{
}

/// Choosing the tab that is already active keeps the whole form.
pub proof fn lemma_reselect_type_keeps_form(c: Seq<ModelConfig>, f: FormView)
    ensures
        after_type_switch(c, f, f.selected_type) == f,
{
}

/// Correcting parameters for a video model: the aspect ratio, the
/// resolution (where the model lists resolutions) and the duration are
/// each kept when the model lists them, else become the model's first
/// listed value, else the panel's default; audio generation is switched
/// on; the image and audio settings stay as they were.
pub proof fn lemma_sanitize_for_video_model(p: GenParamsView, c: VideoCaps)
    ensures
        ({
            let q = sanitized(p, ModelCaps::Video(c));
            &&& has_str(c.aspect_ratios@, p.aspect_ratio) ==> q.aspect_ratio == p.aspect_ratio
            &&& !has_str(c.aspect_ratios@, p.aspect_ratio) && c.aspect_ratios@.len() > 0 ==> q.aspect_ratio == c.aspect_ratios@[0]@
            &&& c.aspect_ratios@.len() == 0 ==> q.aspect_ratio == "16:9"@
            &&& c.resolutions is None ==> q.resolution == p.resolution
            &&& c.resolutions matches Some(rs) ==> (has_str(rs@, p.resolution) ==> q.resolution == p.resolution)
            &&& c.resolutions matches Some(rs) ==> (!has_str(rs@, p.resolution) && rs@.len() > 0 ==> q.resolution == rs@[0]@)
            &&& c.resolutions matches Some(rs) ==> (rs@.len() == 0 ==> q.resolution == "1080p"@)
            &&& c.durations@.contains(p.duration) ==> q.duration == p.duration
            &&& !c.durations@.contains(p.duration) && c.durations@.len() > 0 ==> q.duration == c.durations@[0]
            &&& c.durations@.len() == 0 ==> q.duration == 5
            &&& q.generate_audio
            &&& q.quality == p.quality && q.num_images == p.num_images
            &&& q.voice == p.voice && q.instrumental == p.instrumental && q.audio_duration == p.audio_duration
        }),
{
}

/// Correcting parameters for an image model: the aspect ratio and the
/// resolution (where listed) are kept when listed, else become the first
/// listed value, else the default; the quality (where listed) is kept when
/// listed, else becomes the last listed value, else "high"; the image
/// count is clamped into one to the model's maximum (at least one); the
/// video and audio settings stay as they were.
pub proof fn lemma_sanitize_for_image_model(p: GenParamsView, c: ImageCaps)
    ensures
        ({
            let q = sanitized(p, ModelCaps::Image(c));
            let hi: int = if c.max_images > 1 { c.max_images as int } else { 1 };
            &&& has_str(c.aspect_ratios@, p.aspect_ratio) ==> q.aspect_ratio == p.aspect_ratio
            &&& !has_str(c.aspect_ratios@, p.aspect_ratio) && c.aspect_ratios@.len() > 0 ==> q.aspect_ratio == c.aspect_ratios@[0]@
            &&& c.aspect_ratios@.len() == 0 ==> q.aspect_ratio == "16:9"@
            &&& c.resolutions is None ==> q.resolution == p.resolution
            &&& c.resolutions matches Some(rs) ==> (has_str(rs@, p.resolution) ==> q.resolution == p.resolution)
            &&& c.resolutions matches Some(rs) ==> (!has_str(rs@, p.resolution) && rs@.len() > 0 ==> q.resolution == rs@[0]@)
            &&& c.resolutions matches Some(rs) ==> (rs@.len() == 0 ==> q.resolution == "1080p"@)
            &&& c.qualities is None ==> q.quality == p.quality
            &&& c.qualities matches Some(qs) ==> (has_str(qs@, p.quality) ==> q.quality == p.quality)
            &&& c.qualities matches Some(qs) ==> (!has_str(qs@, p.quality) && qs@.len() > 0 ==> q.quality == qs@[qs@.len() - 1]@)
            &&& c.qualities matches Some(qs) ==> (qs@.len() == 0 ==> q.quality == "high"@)
            &&& 1 <= q.num_images <= hi
            &&& 1 <= p.num_images <= hi ==> q.num_images == p.num_images
            &&& p.num_images < 1 ==> q.num_images == 1
            &&& p.num_images > hi ==> q.num_images == hi
            &&& q.duration == p.duration && q.generate_audio == p.generate_audio
            &&& q.voice == p.voice && q.instrumental == p.instrumental && q.audio_duration == p.audio_duration
        }),
{
}

/// Correcting parameters for an audio model: the voice becomes the
/// model's default voice (empty without one); instrumental stays only where
/// the model supports it; the audio duration, where the model lists
/// durations, is kept when listed, else becomes the first listed duration,
/// else thirty seconds; the video and image settings stay as they were.
pub proof fn lemma_sanitize_for_audio_model(p: GenParamsView, c: AudioCaps)
    ensures
        ({
            let q = sanitized(p, ModelCaps::Audio(c));
            &&& c.default_voice matches Some(v) ==> q.voice == v@
            &&& c.default_voice is None ==> q.voice.len() == 0
            &&& c.supports_instrumental ==> q.instrumental == p.instrumental
            &&& !c.supports_instrumental ==> !q.instrumental
            &&& c.durations is None ==> q.audio_duration == p.audio_duration
            &&& c.durations matches Some(ds) ==> (ds@.contains(p.audio_duration) ==> q.audio_duration == p.audio_duration)
            &&& c.durations matches Some(ds) ==> (!ds@.contains(p.audio_duration) && ds@.len() > 0 ==> q.audio_duration == ds@[0])
            &&& c.durations matches Some(ds) ==> (ds@.len() == 0 ==> q.audio_duration == 30)
            &&& q.duration == p.duration && q.aspect_ratio == p.aspect_ratio && q.resolution == p.resolution
            &&& q.quality == p.quality && q.num_images == p.num_images && q.generate_audio == p.generate_audio
        }),
{
}

/// The resolution in effect, and the one a request carries, is the form's
/// resolution for a video or image model that lists resolutions, and none
/// for any other model.
pub proof fn lemma_request_resolution(f: FormView, m: ModelConfig)
    ensures
        m.caps matches ModelCaps::Video(c) ==> (c.resolutions is Some ==> effective_resolution_spec(m, f.params) == Some(f.params.resolution)),
        m.caps matches ModelCaps::Image(c) ==> (c.resolutions is Some ==> effective_resolution_spec(m, f.params) == Some(f.params.resolution)),
        m.caps matches ModelCaps::Video(c) ==> (c.resolutions is None ==> effective_resolution_spec(m, f.params) is None),
        m.caps matches ModelCaps::Image(c) ==> (c.resolutions is None ==> effective_resolution_spec(m, f.params) is None),
        m.caps is Audio ==> effective_resolution_spec(m, f.params) is None,
        m.caps matches ModelCaps::Video(c) ==> (c.resolutions is Some ==> build_input_spec(f, m).resolution == Some(f.params.resolution)),
        m.caps matches ModelCaps::Image(c) ==> (c.resolutions is Some ==> build_input_spec(f, m).resolution == Some(f.params.resolution)),
        m.caps matches ModelCaps::Video(c) ==> (c.resolutions is None ==> build_input_spec(f, m).resolution is None),
        m.caps matches ModelCaps::Image(c) ==> (c.resolutions is None ==> build_input_spec(f, m).resolution is None),
        m.caps is Audio ==> build_input_spec(f, m).resolution is None,
{
}

/// Picking `c[i]`, the first catalog entry with id `id`, of the selected
/// tab's kind and not the model already kept: its id is kept for the tab,
/// the tab then works with it, and the parameters are corrected for it; a
/// video model restores frames mode and empties the reference pool, an
/// image model that takes no image references empties the pool, and any
/// other model keeps the pool; the other kinds' ids, the tab, the prompt,
/// the frames and the status stay.
pub proof fn lemma_pick_model_of_selected_kind(c: Seq<ModelConfig>, f: FormView, id: Seq<char>, i: int)
    requires
        0 <= i < c.len(),
        c[i].id@ == id,
        forall|j: int| 0 <= j < i ==> (#[trigger] c[j]).id@ != id,
        c[i].kind == kind_of_type(f.selected_type),
        slot_id(f, c[i].kind) != id,
    ensures
        ({
            let g = after_model_pick(c, f, id);
            let m = c[i];
            &&& selected_id(g) == id
            &&& selected_model_of(c, g) == m
            &&& g.params == sanitized(f.params, m.caps)
            &&& params_fit(g.params, m.caps)
            &&& m.caps is Video ==> g.use_first_last && g.references.len() == 0
            &&& m.caps matches ModelCaps::Image(ic) ==> (!ic.supports_image_reference ==> g.references.len() == 0)
            &&& m.caps matches ModelCaps::Image(ic) ==> (ic.supports_image_reference ==> g.references == f.references)
            &&& m.caps is Audio ==> g.references == f.references
            &&& !(m.caps is Video) ==> g.use_first_last == f.use_first_last
            &&& m.kind != ModelKind::Video ==> g.video_model_id == f.video_model_id
            &&& m.kind != ModelKind::Image ==> g.image_model_id == f.image_model_id
            &&& m.kind != ModelKind::Audio ==> g.audio_model_id == f.audio_model_id
            &&& g.selected_type == f.selected_type && g.prompt == f.prompt
            &&& g.first_frame == f.first_frame && g.last_frame == f.last_frame && g.status == f.status
        }),
{
    lemma_first_id_index(c, id);
    match first_id_index(c, id) {
        Some(k) => {
            if k < i {
                assert(c[k].id@ != id);
            } else if k > i {
                assert(c[i].id@ != id);
            }
        },
        None => {
            assert(c[i].id@ != id);
        },
    }
    lemma_sanitized_fits_caps(f.params, c[i].caps);
}

/// Picking a model by an id the catalog does not list, of the upscale kind,
/// or already kept for its kind changes nothing; picking a model of
/// another kind than the selected tab's only keeps its id for that kind.
pub proof fn lemma_pick_model_elsewhere(c: Seq<ModelConfig>, f: FormView, id: Seq<char>)
    ensures
        (forall|j: int| 0 <= j < c.len() ==> (#[trigger] c[j]).id@ != id) ==> after_model_pick(c, f, id) == f,
        forall|i: int|
            0 <= i < c.len() && (#[trigger] c[i]).id@ == id && (forall|j: int| 0 <= j < i ==> (#[trigger] c[j]).id@ != id)
                ==> {
                    let m = c[i];
                    let g = after_model_pick(c, f, id);
                    &&& m.kind == ModelKind::Upscale || slot_id(f, m.kind) == id ==> g == f
                    &&& m.kind != ModelKind::Upscale && m.kind != kind_of_type(f.selected_type) ==> g == with_slot(f, m.kind, id)
                },
{
    lemma_first_id_index(c, id);
    assert forall|i: int|
        0 <= i < c.len() && (#[trigger] c[i]).id@ == id && (forall|j: int| 0 <= j < i ==> (#[trigger] c[j]).id@ != id)
            implies first_id_index(c, id) == Some(i) by {
        match first_id_index(c, id) {
            Some(k) => {
                if k < i {
                    assert(c[k].id@ != id);
                } else if k > i {
                    assert(c[i].id@ != id);
                }
            },
            None => {
                assert(c[i].id@ != id);
            },
        }
    }
}

/// When an asset may join the reference pool: never when the pool already
/// holds its id; for a video model, when the pool is under the model's
/// total cap (where it has one) and holds fewer assets of that kind than
/// the model takes; for an image model, when the model takes image
/// references and the asset is an image; for an audio model, never.
pub proof fn lemma_add_reference_rules(f: FormView, m: ModelConfig, id: Seq<char>, kind: ClipType)
    ensures
        has_ref_id(f.references, id) ==> add_reference_spec(f, m, id, kind) == Err::<(), Seq<char>>("Already a reference."@),
        m.caps matches ModelCaps::Video(c) ==> (add_reference_spec(f, m, id, kind) is Ok <==> {
            &&& !has_ref_id(f.references, id)
            &&& (c.max_total_references matches Some(t) ==> f.references.len() < t)
            &&& kind == ClipType::Image ==> count_kind(f.references, kind) < c.max_reference_images
            &&& kind == ClipType::Video ==> count_kind(f.references, kind) < c.max_reference_videos
            &&& kind == ClipType::Audio ==> count_kind(f.references, kind) < c.max_reference_audios
            &&& kind == ClipType::Image || kind == ClipType::Video || kind == ClipType::Audio
        }),
        m.caps matches ModelCaps::Image(c) ==> (add_reference_spec(f, m, id, kind) is Ok <==> {
            &&& !has_ref_id(f.references, id)
            &&& c.supports_image_reference
            &&& kind == ClipType::Image
        }),
        m.caps is Audio ==> add_reference_spec(f, m, id, kind) is Err,
{
}

/// Assigning an asset: a frame slot takes the id and nothing else
/// changes; the reference pool gains the asset at its end when it may
/// join, and otherwise stays while the status line gives the reason.
pub proof fn lemma_assign_rules(f: FormView, m: ModelConfig, slot: RefSlot, id: Seq<char>, kind: ClipType)
    ensures
        slot == RefSlot::FirstFrame ==> after_assign(f, m, slot, id, kind) == (FormView { first_frame: Some(id), ..f }),
        slot == RefSlot::LastFrame ==> after_assign(f, m, slot, id, kind) == (FormView { last_frame: Some(id), ..f }),
        slot == RefSlot::Reference && (add_reference_spec(f, m, id, kind) is Ok) ==> {
            let g = after_assign(f, m, slot, id, kind);
            &&& g.references.len() == f.references.len() + 1
            &&& g.references.last() == (id, kind)
            &&& g.references.drop_last() == f.references
            &&& g.status == f.status
        },
        slot == RefSlot::Reference && (add_reference_spec(f, m, id, kind) is Err) ==> {
            let g = after_assign(f, m, slot, id, kind);
            &&& g.references == f.references
            &&& g.status == Some(add_reference_spec(f, m, id, kind)->Err_0)
            &&& g.first_frame == f.first_frame && g.last_frame == f.last_frame
        },
{
    assert(f.references.push((id, kind)).drop_last() =~= f.references);
}

/// Which kinds a slot takes and what a drop says: frames take images only;
/// the reference pool of a video model takes each kind it has a cap for,
/// that of an image model images where it takes image references, that of
/// an audio model nothing; a drop is rejected exactly when its kind is not
/// taken, naming the model when the slot takes nothing.
pub proof fn lemma_drop_rules(m: ModelConfig, slot: RefSlot, kind: ClipType)
    ensures
        slot != RefSlot::Reference ==> (accepted_kinds_spec(m, slot).contains(kind) <==> kind == ClipType::Image),
        slot == RefSlot::Reference ==> (m.caps matches ModelCaps::Video(c) ==> (accepted_kinds_spec(m, slot).contains(kind) <==> {
            ||| kind == ClipType::Image && c.max_reference_images > 0
            ||| kind == ClipType::Video && c.max_reference_videos > 0
            ||| kind == ClipType::Audio && c.max_reference_audios > 0
        })),
        slot == RefSlot::Reference ==> (m.caps matches ModelCaps::Image(c) ==> (accepted_kinds_spec(m, slot).contains(kind) <==> (
            kind == ClipType::Image && c.supports_image_reference))),
        slot == RefSlot::Reference && m.caps is Audio ==> accepted_kinds_spec(m, slot).len() == 0,
        drop_rejection_spec(m, slot, kind) is None <==> accepted_kinds_spec(m, slot).contains(kind),
        accepted_kinds_spec(m, slot).len() == 0 ==> drop_rejection_spec(m, slot, kind) == Some(m.display_name@ + " doesn't accept references."@),
{
    let a = accepted_kinds_spec(m, slot);
    match slot {
        RefSlot::Reference => match m.caps {
            ModelCaps::Video(c) => {
                let s1 = opt_item(c.max_reference_images > 0, ClipType::Image);
                let s2 = opt_item(c.max_reference_videos > 0, ClipType::Video);
                let s3 = opt_item(c.max_reference_audios > 0, ClipType::Audio);
                assert(a == s1 + s2 + s3);
                if a.contains(kind) {
                    let j = choose|j: int| 0 <= j < a.len() && a[j] == kind;
                    if j < s1.len() {
                        assert(a[j] == s1[j]);
                    } else if j < s1.len() + s2.len() {
                        assert(a[j] == s2[j - s1.len()]);
                    } else {
                        assert(a[j] == s3[j - s1.len() - s2.len()]);
                    }
                }
                if kind == ClipType::Image && c.max_reference_images > 0 {
                    assert(a[0] == kind);
                }
                if kind == ClipType::Video && c.max_reference_videos > 0 {
                    assert(a[s1.len() as int] == kind);
                }
                if kind == ClipType::Audio && c.max_reference_audios > 0 {
                    assert(a[(s1.len() + s2.len()) as int] == kind);
                }
            },
            ModelCaps::Image(c) => {
                if kind == ClipType::Image && c.supports_image_reference {
                    assert(a[0] == kind);
                }
            },
            ModelCaps::Audio(_) => {},
        },
        _ => {
            assert(a[0] == ClipType::Image);
        },
    }
}

/// When the form can be submitted: only with the model on the plan and
/// the estimate affordable; an image model then needs a prompt that is not
/// blank, an audio model a trimmed prompt of at least its minimum length,
/// and a video model a prompt that is not blank, no source video, and at
/// least one reference when it is in references mode of a model that takes
/// frames or references but not both.
pub proof fn lemma_submit_rules(f: FormView, m: ModelConfig, model_available: bool, affordable: bool)
    ensures
        can_submit_spec(f, m, model_available, affordable) ==> model_available && affordable,
        m.caps is Image ==> (can_submit_spec(f, m, model_available, affordable) <==> (model_available && affordable
            && trim_spec(f.prompt).len() > 0)),
        m.caps matches ModelCaps::Audio(c) ==> (can_submit_spec(f, m, model_available, affordable) <==> (model_available
            && affordable && trim_spec(f.prompt).len() >= c.min_prompt_length)),
        m.caps matches ModelCaps::Video(c) ==> (can_submit_spec(f, m, model_available, affordable) <==> {
            &&& model_available && affordable
            &&& trim_spec(f.prompt).len() > 0
            &&& !c.requires_source_video
            &&& c.frames_and_references_exclusive && !f.use_first_last ==> f.references.len() > 0
        }),
{
}

/// Switching to another tab selects it, corrects the parameters for the
/// model that tab resolves to, empties frames, references and the status
/// line, and closes every popover; the prompt texts, the kept model ids
/// and the reference mode stay.
pub proof fn lemma_switch_type_rules(c: Seq<ModelConfig>, f: FormView, t: GenerationType)
    requires
        t != f.selected_type,
    ensures
        ({
            let g = after_type_switch(c, f, t);
            let k = kind_of_type(t);
            &&& g.selected_type == t
            &&& g.params == sanitized(f.params, c[resolved_index(c, slot_id(f, k), k)].caps)
            &&& g.first_frame is None && g.last_frame is None && g.references.len() == 0
            &&& g.status is None
            &&& !any_popover_open(g)
            &&& g.prompt == f.prompt && g.lyrics == f.lyrics && g.style_instructions == f.style_instructions
            &&& g.video_model_id == f.video_model_id && g.image_model_id == f.image_model_id && g.audio_model_id == f.audio_model_id
            &&& g.use_first_last == f.use_first_last && g.is_paid_plan == f.is_paid_plan
        }),
{
}

/// A submission's outcome: a queued job empties the prompt texts, frames,
/// references and status line; no backend, or a failure, leaves the form
/// and reports on the status line.
pub proof fn lemma_outcome_rules(f: FormView, o: SubmitOutcomeView)
    ensures
        (o is Queued) ==> {
            let g = after_outcome(f, o);
            &&& g.prompt.len() == 0 && g.lyrics.len() == 0 && g.style_instructions.len() == 0
            &&& g.first_frame is None && g.last_frame is None && g.references.len() == 0
            &&& g.status is None
            &&& g.params == f.params && g.selected_type == f.selected_type
        },
        o matches SubmitOutcomeView::Failed(r) ==> after_outcome(f, o) == (FormView { status: Some(r), ..f }),
        (o is Unavailable) ==> after_outcome(f, o).status is Some && after_outcome(f, o).references == f.references
            && after_outcome(f, o).prompt == f.prompt,
{
}

/// What a request carries: the prompt and the model's id; the aspect
/// ratio where the model lists aspect ratios (else nothing); for a video
/// model its duration (none with a source video) and, where it prices
/// audio separately, the audio switch; for an image model the quality
/// where it lists qualities, an image count above one clamped to its
/// maximum, and every reference id in pool order where it takes image
/// references; for an audio model the audio duration where it lists
/// durations, a chosen voice where it offers voices, lyrics and style
/// where it takes them and they are not empty, and the instrumental
/// switch where it supports one.
pub proof fn lemma_request_fields(f: FormView, m: ModelConfig)
    ensures
        ({
            let i = build_input_spec(f, m);
            let p = f.params;
            &&& i.prompt == f.prompt && i.model == m.id@
            &&& m.caps matches ModelCaps::Video(c) ==> {
                &&& i.aspect_ratio == if c.aspect_ratios@.len() > 0 { p.aspect_ratio } else { Seq::<char>::empty() }
                &&& i.duration == if c.requires_source_video { 0 } else { p.duration }
                &&& i.generate_audio == if c.has_audio_discount { Some(p.generate_audio) } else { None }
                &&& i.quality is None && i.num_images is None && i.voice is None && i.lyrics is None
                &&& i.style_instructions is None && i.instrumental is None
            }
            &&& m.caps matches ModelCaps::Image(c) ==> {
                &&& i.aspect_ratio == if c.aspect_ratios@.len() > 0 { p.aspect_ratio } else { Seq::<char>::empty() }
                &&& i.duration == 0
                &&& i.quality == if c.qualities is Some { Some(p.quality) } else { None }
                &&& (c.max_images <= 1 || p.num_images <= 1) ==> i.num_images is None
                &&& (c.max_images > 1 && 1 < p.num_images <= c.max_images) ==> i.num_images == Some(p.num_images)
                &&& (c.max_images > 1 && p.num_images > c.max_images) ==> i.num_images == Some(c.max_images)
                &&& !c.supports_image_reference || f.references.len() == 0 ==> i.image_url_asset_ids is None
                &&& (c.supports_image_reference && f.references.len() > 0) ==> {
                    &&& i.image_url_asset_ids is Some
                    &&& i.image_url_asset_ids->0.len() == f.references.len()
                    &&& forall|j: int| 0 <= j < f.references.len() ==> i.image_url_asset_ids->0[j] == (#[trigger] f.references[j]).0
                }
                &&& i.reference_image_asset_ids is None && i.reference_video_asset_ids is None
                &&& i.reference_audio_asset_ids is None && i.generate_audio is None
                &&& i.voice is None && i.lyrics is None && i.instrumental is None
            }
            &&& m.caps matches ModelCaps::Audio(c) ==> {
                &&& i.aspect_ratio.len() == 0
                &&& i.duration == if c.durations is Some { p.audio_duration } else { 0 }
                &&& i.voice == if c.voices is Some && p.voice.len() > 0 { Some(p.voice) } else { None }
                &&& i.lyrics == if c.supports_lyrics && f.lyrics.len() > 0 { Some(f.lyrics) } else { None }
                &&& i.style_instructions == if c.supports_style_instructions && f.style_instructions.len() > 0 {
                    Some(f.style_instructions)
                } else {
                    None
                }
                &&& i.instrumental == if c.supports_instrumental { Some(p.instrumental) } else { None }
                &&& i.quality is None && i.num_images is None && i.generate_audio is None
                &&& i.image_url_asset_ids is None && i.reference_image_asset_ids is None
            }
        }),
{
}

/// Picking an option and reading the picker back: a text setting shows
/// the value picked, a number setting shows the number a valid pick
/// parses to, an invalid number leaves the parameters as they were, and a
/// pick changes no other setting.
pub proof fn lemma_setting_pick_then_value(p: GenParamsView, field: SettingField, value: Seq<char>)
    ensures
        (field == SettingField::AspectRatio || field == SettingField::Resolution || field == SettingField::Quality)
            ==> setting_value_spec(applied_setting(p, field, value), field) == value,
        (field == SettingField::Duration || field == SettingField::AudioDuration || field == SettingField::Count)
            ==> (parse_i64_spec(value) matches Some(n) ==> setting_value_spec(applied_setting(p, field, value), field) == signed_decimal(n as int)),
        (field == SettingField::Duration || field == SettingField::AudioDuration || field == SettingField::Count)
            ==> ((parse_i64_spec(value) is None) ==> applied_setting(p, field, value) == p),
        forall|other: SettingField| other != field ==> setting_value_spec(applied_setting(p, field, value), other) == #[trigger] setting_value_spec(p, other),
        applied_setting(p, field, value).voice == p.voice && applied_setting(p, field, value).instrumental == p.instrumental,
        applied_setting(p, field, value).generate_audio == p.generate_audio,
{
}

/// Whether `c[j]` is the first catalog entry with id `id`.
pub open spec fn first_with_id(c: Seq<ModelConfig>, id: Seq<char>, j: int) -> bool {
    0 <= j < c.len() && c[j].id@ == id && forall|q: int| 0 <= q < j ==> (#[trigger] c[q]).id@ != id
}

/// The model a tab works with is always one of the catalog's models of
/// the tab's kind: the first entry with the kept id when that entry is of
/// the kind, and otherwise the catalog's first model of the kind.
pub proof fn lemma_selected_model_resolution(c: Seq<ModelConfig>, f: FormView)
    requires
        covers_kind(c, kind_of_type(f.selected_type)),
    ensures
        ({
            let k = kind_of_type(f.selected_type);
            let i = selected_index(c, f);
            &&& 0 <= i < c.len()
            &&& selected_model_of(c, f) == c[i]
            &&& c[i].kind == k
            &&& forall|j: int| #[trigger] first_with_id(c, selected_id(f), j) && c[j].kind == k ==> i == j
            &&& (forall|j: int| #[trigger] first_with_id(c, selected_id(f), j) ==> c[j].kind != k) ==> forall|q: int| 0 <= q < i
                ==> (#[trigger] c[q]).kind != k
        }),
{
    let k = kind_of_type(f.selected_type);
    let id = selected_id(f);
    lemma_first_id_index(c, id);
    lemma_first_kind_index(c, k);
    assert forall|j: int| #[trigger] first_with_id(c, id, j) && c[j].kind == k implies selected_index(c, f) == j by {
        match first_id_index(c, id) {
            Some(t) => {
                if t < j {
                    assert(c[t].id@ != id);
                } else if t > j {
                    assert(c[j].id@ != id);
                }
            },
            None => {
                assert(c[j].id@ != id);
            },
        }
    }
    if forall|j: int| #[trigger] first_with_id(c, id, j) ==> c[j].kind != k {
        match first_id_index(c, id) {
            Some(t) => {
                assert(first_with_id(c, id, t));
            },
            None => {},
        }
    }
}

/// The models offered for a kind are exactly the catalog's models of
/// that kind, in catalog order.
pub proof fn lemma_models_for_kind_exact(c: Seq<ModelConfig>, kind: ModelKind)
    ensures
        forall|j: int| 0 <= j < models_of_kind(c, kind).len() ==> (#[trigger] models_of_kind(c, kind)[j]).kind == kind,
        forall|m: ModelConfig| #[trigger] models_of_kind(c, kind).contains(m) <==> (c.contains(m) && m.kind == kind),
    decreases c.len(),
{
    if c.len() > 0 {
        let init = c.drop_last();
        lemma_models_for_kind_exact(init, kind);
        let r = models_of_kind(c, kind);
        let rest = models_of_kind(init, kind);
        assert forall|j: int| 0 <= j < r.len() implies (#[trigger] r[j]).kind == kind by {
            if j < rest.len() {
                assert(r[j] == rest[j]);
            }
        }
        assert forall|m: ModelConfig| #[trigger] models_of_kind(c, kind).contains(m) <==> (c.contains(m) && m.kind == kind) by {
            if r.contains(m) {
                let j = choose|j: int| 0 <= j < r.len() && r[j] == m;
                if j < rest.len() {
                    assert(rest[j] == m);
                    assert(rest.contains(m));
                    let q = choose|q: int| 0 <= q < init.len() && init[q] == m;
                    assert(c[q] == m);
                } else {
                    assert(c[c.len() - 1] == m);
                }
            }
            if c.contains(m) && m.kind == kind {
                let q = choose|q: int| 0 <= q < c.len() && c[q] == m;
                if q < init.len() {
                    assert(init[q] == m);
                    assert(init.contains(m));
                    assert(models_of_kind(init, kind).contains(m));
                    let j = choose|j: int| 0 <= j < rest.len() && rest[j] == m;
                    assert(r[j] == m);
                } else {
                    assert(r[rest.len() as int] == m);
                }
            }
        }
    }
}

/// The generate tool follows the model's type, and its arguments always
/// carry the prompt and the model id first; a duration is sent only when
/// positive, as a float.
pub proof fn lemma_tool_call_shape(i: InputView, m: ModelConfig)
    ensures
        m.caps is Video ==> tool_name_spec(m) == "generate_video"@,
        m.caps is Image ==> tool_name_spec(m) == "generate_image"@,
        m.caps is Audio ==> tool_name_spec(m) == "generate_audio"@,
        tool_members(i).len() >= 2,
        tool_members(i)[0] == ("prompt"@, Json::Str(i.prompt)),
        tool_members(i)[1] == ("model"@, Json::Str(i.model)),
        i.duration > 0 ==> tool_members(i)[2] == ("duration"@, Json::Number(signed_decimal(i.duration as int) + ".0"@)),
{
}

/// Picking any option a picker offers and then correcting the parameters
/// for the same model keeps the pick, and the picker then shows it: every
/// option offered is one the model accepts.
pub proof fn lemma_offered_option_survives_correction(
    p: GenParamsView,
    m: ModelConfig,
    field: SettingField,
    aspect_labels: Seq<Seq<char>>,
    resolution_labels: Seq<Seq<char>>,
    j: int,
)
    requires
        labels_fit(m, field, aspect_labels, resolution_labels),
        0 <= j < setting_options_spec(m, field, aspect_labels, resolution_labels).len(),
    ensures
        ({
            let v = setting_options_spec(m, field, aspect_labels, resolution_labels)[j].0;
            setting_value_spec(sanitized(applied_setting(p, field, v), m.caps), field) == v
        }),
{
    let v = setting_options_spec(m, field, aspect_labels, resolution_labels)[j].0;
    match m.caps {
        ModelCaps::Video(c) => {
            if field == SettingField::Duration {
                let d = c.durations@[j];
                lemma_signed_decimal_parses_back(d);
                assert(v == signed_decimal(d as int));
                assert(c.durations@.contains(d));
            } else if field == SettingField::AspectRatio {
                assert(c.aspect_ratios@[j]@ == v);
                assert(has_str(c.aspect_ratios@, v));
            } else if field == SettingField::Resolution {
                let rs = c.resolutions->0;
                assert(rs@[j]@ == v);
                assert(has_str(rs@, v));
            }
        },
        ModelCaps::Image(c) => {
            if field == SettingField::Count {
                let n: i64 = (j + 1) as i64;
                lemma_signed_decimal_parses_back(n);
                assert(v == signed_decimal(n as int));
            } else if field == SettingField::AspectRatio {
                assert(c.aspect_ratios@[j]@ == v);
                assert(has_str(c.aspect_ratios@, v));
            } else if field == SettingField::Resolution {
                let rs = c.resolutions->0;
                assert(rs@[j]@ == v);
                assert(has_str(rs@, v));
            } else if field == SettingField::Quality {
                let qs = c.qualities->0;
                assert(qs@[j]@ == v);
                assert(has_str(qs@, v));
            }
        },
        ModelCaps::Audio(c) => {
            if field == SettingField::AudioDuration {
                let ds = c.durations->0;
                let d = ds@[j];
                lemma_signed_decimal_parses_back(d);
                assert(v == signed_decimal(d as int));
                assert(ds@.contains(d));
            }
        },
    }
}

/// Picking the value a picker already shows changes no parameter.
pub proof fn lemma_picking_shown_value_changes_nothing(p: GenParamsView, field: SettingField)
    ensures
        applied_setting(p, field, setting_value_spec(p, field)) == p,
{
    lemma_signed_decimal_parses_back(p.duration);
    lemma_signed_decimal_parses_back(p.audio_duration);
    lemma_signed_decimal_parses_back(p.num_images);
    assert(applied_setting(p, field, setting_value_spec(p, field)) =~= p);
}

/// A fresh form, and a form just switched to another tab, holds
/// parameters that the model its tab works with accepts.
pub proof fn lemma_params_fit_selected_model(c: Seq<ModelConfig>, video: Seq<char>, image: Seq<char>, audio: Seq<char>, f: FormView, t: GenerationType)
    ensures
        params_fit(initial_form(video, image, audio, c).params, selected_model_of(c, initial_form(video, image, audio, c)).caps),
        t != f.selected_type ==> params_fit(after_type_switch(c, f, t).params, selected_model_of(c, after_type_switch(c, f, t)).caps),
{
    let g = fresh_form(video, image, audio);
    lemma_sanitized_fits_caps(g.params, selected_model_of(c, g).caps);
    assert(selected_model_of(c, initial_form(video, image, audio, c)) == selected_model_of(c, g));
    if t != f.selected_type {
        let h = FormView { selected_type: t, ..f };
        lemma_sanitized_fits_caps(h.params, selected_model_of(c, h).caps);
        assert(selected_model_of(c, after_type_switch(c, f, t)) == selected_model_of(c, h));
    }
}

} // verus!
