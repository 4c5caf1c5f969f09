//! The application settings: their types, their defaults, the upgrades that
//! run whenever they are loaded, and lookups of model environments.
//!
//! Floating-point settings are held as their IEEE-754 bit patterns, so that a
//! value read from the store comes back out unchanged.

use vstd::prelude::*;
use crate::ids::{is_uuid_v4_text, new_uuid_v4};
use crate::json::JsonValue;
use crate::text::{
    first_index, lemma_first_index_at, lemma_first_index_none, push_str, str_eq, string_of,
};

verus! {

// ---------------------------------------------------------------------------
// Log level
// ---------------------------------------------------------------------------

/// How verbose the file log is.
#[derive(Clone, Copy, Debug, PartialEq, Eq, Structural)]
pub enum LogLevel {
    Trace,
    Debug,
    Info,
    Warn,
    Error,
}

/// `c` with ASCII upper-case letters made lower-case.
pub open spec fn ascii_lower_char(c: char) -> char {
    if 'A' <= c && c <= 'Z' {
        ((c as int) + 32) as char
    } else {
        c
    }
}

/// `s` with ASCII upper-case letters made lower-case.
pub open spec fn ascii_lower(s: Seq<char>) -> Seq<char> {
    s.map_values(|c: char| ascii_lower_char(c))
}

/// The level a stored name denotes, ignoring case. (For these names, ignoring
/// ASCII case and comparing after Unicode lower-casing agree: no other
/// character lower-cases to one of their letters.)
pub open spec fn log_level_named(name: Seq<char>) -> Option<LogLevel> {
    let n = ascii_lower(name);
    if n == "trace"@ {
        Some(LogLevel::Trace)
    } else if n == "debug"@ {
        Some(LogLevel::Debug)
    } else if n == "info"@ {
        Some(LogLevel::Info)
    } else if n == "warn"@ {
        Some(LogLevel::Warn)
    } else if n == "error"@ {
        Some(LogLevel::Error)
    } else {
        None
    }
}

/// The level a stored number denotes (the older format, 1 to 5).
pub open spec fn log_level_numbered(n: u64) -> Option<LogLevel> {
    if n == 1 {
        Some(LogLevel::Trace)
    } else if n == 2 {
        Some(LogLevel::Debug)
    } else if n == 3 {
        Some(LogLevel::Info)
    } else if n == 4 {
        Some(LogLevel::Warn)
    } else if n == 5 {
        Some(LogLevel::Error)
    } else {
        None
    }
}

/// The number the file-log filter stores for a level (Error 1 up to Trace 5).
pub open spec fn spec_filter_value(l: LogLevel) -> u8 {
    match l {
        LogLevel::Error => 1,
        LogLevel::Warn => 2,
        LogLevel::Info => 3,
        LogLevel::Debug => 4,
        LogLevel::Trace => 5,
    }
}

fn lower_chars(s: &str) -> (r: Vec<char>)
    ensures
        r@ == ascii_lower(s@),
{
    let cs = crate::text::chars_of(s);
    let mut r: Vec<char> = Vec::new();
    let mut i: usize = 0;
    while i < cs.len()
        invariant
            i <= cs.len(),
            cs@ == s@,
            r@ == ascii_lower(s@).take(i as int),
        decreases cs.len() - i,
    {
        let c = cs[i];
        let l = if 'A' <= c && c <= 'Z' {
            let b: u32 = (c as u32) + 32;
            let lc: char = (b as u8) as char;
            lc
        } else {
            c
        };
        r.push(l);
        i = i + 1;
        assert(ascii_lower(s@).take(i as int) == ascii_lower(s@).take((i - 1) as int).push(l));
    }
    assert(ascii_lower(s@).take(cs.len() as int) == ascii_lower(s@));
    r
}

fn chars_eq_str(a: &Vec<char>, b: &str) -> (r: bool)
    ensures
        r == (a@ == b@),
{
    let s = crate::text::string_from_chars(a);
    str_eq(s.as_str(), b)
}

impl LogLevel {
    /// Reads a level stored by name (`"trace"` .. `"error"`, any case).
    pub fn from_name(value: &str) -> (r: Option<LogLevel>)
        ensures
            r == log_level_named(value@),
    {
        let l = lower_chars(value);
        if chars_eq_str(&l, "trace") {
            Some(LogLevel::Trace)
        } else if chars_eq_str(&l, "debug") {
            Some(LogLevel::Debug)
        } else if chars_eq_str(&l, "info") {
            Some(LogLevel::Info)
        } else if chars_eq_str(&l, "warn") {
            Some(LogLevel::Warn)
        } else if chars_eq_str(&l, "error") {
            Some(LogLevel::Error)
        } else {
            None
        }
    }

    /// Reads a level stored as a number (1 Trace .. 5 Error).
    pub fn from_number(value: u64) -> (r: Option<LogLevel>)
        ensures
            r == log_level_numbered(value),
    {
        match value {
            1 => Some(LogLevel::Trace),
            2 => Some(LogLevel::Debug),
            3 => Some(LogLevel::Info),
            4 => Some(LogLevel::Warn),
            5 => Some(LogLevel::Error),
            _ => None,
        }
    }

    /// The number the file-log filter stores for this level.
    pub fn filter_value(self) -> (r: u8)
        ensures
            r == spec_filter_value(self),
    {
        match self {
            LogLevel::Error => 1,
            LogLevel::Warn => 2,
            LogLevel::Info => 3,
            LogLevel::Debug => 4,
            LogLevel::Trace => 5,
        }
    }
}

// ---------------------------------------------------------------------------
// Small enums
// ---------------------------------------------------------------------------

/// When an idle transcription model is unloaded.
#[derive(Clone, Copy, Debug, PartialEq, Eq, Structural)]
pub enum ModelUnloadTimeout {
    Never,
    Immediately,
    Min2,
    Min5,
    Min10,
    Min15,
    Hour1,
    Sec5,
}

impl Default for ModelUnloadTimeout {
    fn default() -> (r: Self)
        ensures
            r == ModelUnloadTimeout::Min5,
    {
        ModelUnloadTimeout::Min5
    }
}

/// How long recordings are kept.
#[derive(Clone, Copy, Debug, PartialEq, Eq, Structural)]
pub enum RecordingRetentionPeriod {
    Never,
    PreserveLimit,
    Days3,
    Weeks2,
    Months3,
}

/// The interface font size.
#[derive(Clone, Copy, Debug, PartialEq, Eq, Structural)]
pub enum FontSize {
    Small,
    Medium,
    Large,
}

impl Default for FontSize {
    fn default() -> (r: Self)
        ensures
            r == FontSize::Large,
    {
        FontSize::Large
    }
}

/// Minutes before unloading; `Sec5` and `Immediately` count as 0 here.
pub open spec fn spec_to_minutes(t: ModelUnloadTimeout) -> Option<u64> {
    match t {
        ModelUnloadTimeout::Never => None,
        ModelUnloadTimeout::Immediately => Some(0),
        ModelUnloadTimeout::Min2 => Some(2),
        ModelUnloadTimeout::Min5 => Some(5),
        ModelUnloadTimeout::Min10 => Some(10),
        ModelUnloadTimeout::Min15 => Some(15),
        ModelUnloadTimeout::Hour1 => Some(60),
        ModelUnloadTimeout::Sec5 => Some(0),
    }
}

/// Seconds before unloading.
pub open spec fn spec_to_seconds(t: ModelUnloadTimeout) -> Option<u64> {
    match t {
        ModelUnloadTimeout::Never => None,
        ModelUnloadTimeout::Immediately => Some(0),
        ModelUnloadTimeout::Sec5 => Some(5),
        _ => match spec_to_minutes(t) {
            Some(m) => Some((m * 60) as u64),
            None => None,
        },
    }
}

impl ModelUnloadTimeout {
    /// The timeout in minutes (`None`: never unload).
    pub fn to_minutes(self) -> (r: Option<u64>)
        ensures
            r == spec_to_minutes(self),
    {
        match self {
            ModelUnloadTimeout::Never => None,
            ModelUnloadTimeout::Immediately => Some(0),
            ModelUnloadTimeout::Min2 => Some(2),
            ModelUnloadTimeout::Min5 => Some(5),
            ModelUnloadTimeout::Min10 => Some(10),
            ModelUnloadTimeout::Min15 => Some(15),
            ModelUnloadTimeout::Hour1 => Some(60),
            ModelUnloadTimeout::Sec5 => Some(0),
        }
    }

    /// The timeout in seconds (`None`: never unload).
    pub fn to_seconds(self) -> (r: Option<u64>)
        ensures
            r == spec_to_seconds(self),
    {
        match self {
            ModelUnloadTimeout::Never => None,
            ModelUnloadTimeout::Immediately => Some(0),
            ModelUnloadTimeout::Sec5 => Some(5),
            _ => match self.to_minutes() {
                Some(m) => Some(m * 60),
                None => None,
            },
        }
    }
}

/// Every timeout other than the two special ones lasts sixty times as many
/// seconds as minutes; "never" has neither.
pub proof fn law_seconds_are_sixty_minutes(t: ModelUnloadTimeout)
    ensures
        t != ModelUnloadTimeout::Sec5 ==> match (spec_to_minutes(t), spec_to_seconds(t)) {
            (Some(m), Some(s)) => s == m * 60,
            (None, None) => t == ModelUnloadTimeout::Never,
            _ => false,
        },
{
}

// ---------------------------------------------------------------------------
// Records held in the settings
// ---------------------------------------------------------------------------

/// A saved post-processing prompt.
#[derive(Clone, Debug)]
pub struct LLMPrompt {
    pub id: String,
    pub name: String,
    pub prompt: String,
}

/// An LLM provider offered for post-processing.
#[derive(Clone, Debug)]
pub struct PostProcessProvider {
    pub id: String,
    pub label: String,
    pub base_url: String,
    pub allow_base_url_edit: bool,
    pub models_endpoint: Option<String>,
}

/// A word proposed for the custom vocabulary, with the note it came from.
#[derive(Clone, Debug)]
pub struct WordSuggestion {
    pub word: String,
    pub source_session_title: String,
    pub source_session_id: String,
}

/// A named model configuration (endpoint, key and models).
#[derive(Clone, Debug)]
pub struct ModelEnvironment {
    pub id: String,
    pub name: String,
    pub color: String,
    pub base_url: String,
    pub api_key: String,
    pub summarisation_model: String,
    pub chat_model: String,
    /// Deprecated single model, read only to migrate older settings.
    pub model: String,
}

impl LLMPrompt {
    /// An equal copy.
    pub fn duplicate(&self) -> (r: Self)
        ensures
            r == *self,
    {
        LLMPrompt { id: self.id.clone(), name: self.name.clone(), prompt: self.prompt.clone() }
    }
}

impl PostProcessProvider {
    /// An equal copy.
    pub fn duplicate(&self) -> (r: Self)
        ensures
            r == *self,
    {
        PostProcessProvider {
            id: self.id.clone(),
            label: self.label.clone(),
            base_url: self.base_url.clone(),
            allow_base_url_edit: self.allow_base_url_edit,
            models_endpoint: match &self.models_endpoint {
                Some(e) => Some(e.clone()),
                None => None,
            },
        }
    }
}

impl ModelEnvironment {
    /// An equal copy.
    pub fn duplicate(&self) -> (r: Self)
        ensures
            r == *self,
    {
        ModelEnvironment {
            id: self.id.clone(),
            name: self.name.clone(),
            color: self.color.clone(),
            base_url: self.base_url.clone(),
            api_key: self.api_key.clone(),
            summarisation_model: self.summarisation_model.clone(),
            chat_model: self.chat_model.clone(),
            model: self.model.clone(),
        }
    }
}

/// The ids of a list of environments.
pub open spec fn env_ids(envs: Seq<ModelEnvironment>) -> Seq<Seq<char>> {
    envs.map_values(|e: ModelEnvironment| e.id@)
}

/// Whether the default environment, when one is set, is one of the
/// environments.
pub open spec fn default_env_valid(s: AppSettings) -> bool {
    match s.default_environment_id {
        Some(d) => env_ids(s.model_environments@).contains(d@),
        None => true,
    }
}

/// A default naming the environment at `i` is valid.
pub(crate) proof fn lemma_default_at(s: AppSettings, i: int)
    requires
        0 <= i < s.model_environments@.len(),
        s.default_environment_id matches Some(d) && d@ == s.model_environments@[i].id@,
    ensures
        default_env_valid(s),
{
    assert(env_ids(s.model_environments@)[i] == s.model_environments@[i].id@);
}

/// Environments with the same ids keep a valid default valid.
pub(crate) proof fn lemma_default_same_ids(old: AppSettings, new: AppSettings)
    requires
        default_env_valid(old),
        new.default_environment_id == old.default_environment_id,
        new.model_environments@.len() == old.model_environments@.len(),
        forall|i: int|
            0 <= i < old.model_environments@.len() ==> #[trigger] new.model_environments@[i].id
                == old.model_environments@[i].id,
    ensures
        default_env_valid(new),
{
    assert(env_ids(new.model_environments@) =~= env_ids(old.model_environments@)) by {
        assert forall|i: int| 0 <= i < old.model_environments@.len() implies env_ids(
            new.model_environments@,
        )[i] == env_ids(old.model_environments@)[i] by {
            assert(new.model_environments@[i].id == old.model_environments@[i].id);
        }
    }
}

/// The ids of a list of providers.
pub open spec fn provider_ids(ps: Seq<PostProcessProvider>) -> Seq<Seq<char>> {
    ps.map_values(|p: PostProcessProvider| p.id@)
}

/// The ids of a list of prompts.
pub open spec fn prompt_ids(ps: Seq<LLMPrompt>) -> Seq<Seq<char>> {
    ps.map_values(|p: LLMPrompt| p.id@)
}

// ---------------------------------------------------------------------------
// The settings record
// ---------------------------------------------------------------------------

/// Everything the application persists as its settings.
#[derive(Debug)]
pub struct AppSettings {
    pub user_name: String,
    /// Custom directory for user data; `None` means the app data directory.
    pub data_directory: Option<String>,
    pub font_size: FontSize,
    pub autostart_enabled: bool,
    pub update_checks_enabled: bool,
    pub selected_model: String,
    pub selected_microphone: Option<String>,
    pub selected_output_device: Option<String>,
    pub translate_to_english: bool,
    pub selected_language: String,
    pub debug_mode: bool,
    pub log_level: LogLevel,
    pub custom_words: Vec<String>,
    pub model_unload_timeout: ModelUnloadTimeout,
    /// IEEE-754 bits of an `f64`.
    pub word_correction_threshold: u64,
    pub history_limit: usize,
    pub recording_retention_period: RecordingRetentionPeriod,
    pub post_process_enabled: bool,
    pub post_process_providers: Vec<PostProcessProvider>,
    pub post_process_prompts: Vec<LLMPrompt>,
    pub post_process_selected_prompt_id: Option<String>,
    pub app_language: String,
    pub experimental_enabled: bool,
    pub copy_as_bullets_enabled: bool,
    pub word_suggestions: Vec<WordSuggestion>,
    pub dismissed_suggestions: Vec<String>,
    pub word_suggestions_enabled: bool,
    /// IEEE-754 bits of an `f32`.
    pub speaker_energy_threshold: u32,
    /// IEEE-754 bits of an `f32`.
    pub mic_energy_threshold: u32,
    pub skip_mic_on_speaker_energy: bool,
    pub model_environments: Vec<ModelEnvironment>,
    pub default_environment_id: Option<String>,
    pub new_recording_shortcut: Option<String>,
    pub meeting_end_action: String,
    pub meeting_start_action: String,
    pub debug_disable_speaker_capture: bool,
    pub debug_disable_model_loading: bool,
    pub debug_disable_pill_window: bool,
    pub save_debug_recordings: bool,
    pub debug_recordings_max_count: u8,
    pub coreml_model_ready: bool,
    pub last_run_version: Option<String>,
    /// Set when startup promoted the selected model; read and cleared once.
    pub pending_promotion: bool,
    pub mcp_enabled: bool,
    pub mcp_port: u16,
    pub mcp_exposed_label_ids: Vec<String>,
    pub mcp_expose_untagged: bool,
}

// ---------------------------------------------------------------------------
// Defaults
// ---------------------------------------------------------------------------

/// Default port of the local MCP server.
pub fn default_mcp_port() -> (r: u16)
    ensures
        r == 47823,
{
    47823
}

/// Default action when a meeting ends.
pub fn default_meeting_end_action() -> (r: String)
    ensures
        r@ == "stop_recording"@,
{
    string_of("stop_recording")
}

/// Default action when a meeting starts.
pub fn default_meeting_start_action() -> (r: String)
    ensures
        r@ == "disabled"@,
{
    string_of("disabled")
}

/// The pill window is off by default on Windows, where it fights for focus.
/// `target_os` is the platform name (`std::env::consts::OS`).
pub fn default_debug_disable_pill_window(target_os: &str) -> (r: bool)
    ensures
        r == (target_os@ == "windows"@),
{
    str_eq(target_os, "windows")
}

/// Default number of debug recordings kept.
pub fn default_debug_recordings_max_count() -> (r: u8)
    ensures
        r == 5,
{
    5
}

/// Word suggestions are on by default.
pub fn default_word_suggestions_enabled() -> (r: bool)
    ensures
        r,
{
    true
}

/// Bits of the default speaker energy threshold, 0.04 as `f32`.
pub fn default_speaker_energy_threshold() -> (r: u32)
    ensures
        r == 0x3d23d70au32,
{
    0x3d23d70au32
}

/// Bits of the default microphone energy threshold, 0.02 as `f32`.
pub fn default_mic_energy_threshold() -> (r: u32)
    ensures
        r == 0x3ca3d70au32,
{
    0x3ca3d70au32
}

/// The microphone is skipped while the speaker is loud, by default.
pub fn default_skip_mic_on_speaker_energy() -> (r: bool)
    ensures
        r,
{
    true
}

/// No model is selected by default.
pub fn default_model() -> (r: String)
    ensures
        r@ == Seq::<char>::empty(),
{
    String::new()
}

/// Translation to English is off by default.
pub fn default_translate_to_english() -> (r: bool)
    ensures
        !r,
{
    false
}

/// Autostart is off by default.
pub fn default_autostart_enabled() -> (r: bool)
    ensures
        !r,
{
    false
}

/// Update checks are on by default.
pub fn default_update_checks_enabled() -> (r: bool)
    ensures
        r,
{
    true
}

/// The transcription language is detected by default.
pub fn default_selected_language() -> (r: String)
    ensures
        r@ == "auto"@,
{
    string_of("auto")
}

/// Debug mode is off by default.
pub fn default_debug_mode() -> (r: bool)
    ensures
        !r,
{
    false
}

/// The file log records `Info` and above by default.
pub fn default_log_level() -> (r: LogLevel)
    ensures
        r == LogLevel::Info,
{
    LogLevel::Info
}

/// Bits of the default word-correction threshold, 0.21 as `f64`.
pub fn default_word_correction_threshold() -> (r: u64)
    ensures
        r == 0x3fcae147ae147ae1u64,
{
    0x3fcae147ae147ae1u64
}

/// Five history entries are kept by default.
pub fn default_history_limit() -> (r: usize)
    ensures
        r == 5,
{
    5
}

/// Recordings follow the history limit by default.
pub fn default_recording_retention_period() -> (r: RecordingRetentionPeriod)
    ensures
        r == RecordingRetentionPeriod::PreserveLimit,
{
    RecordingRetentionPeriod::PreserveLimit
}

/// Post-processing is off by default.
pub fn default_post_process_enabled() -> (r: bool)
    ensures
        !r,
{
    false
}

/// The language part of a locale tag: everything before the first `-` or `_`.
pub open spec fn locale_language(locale: Seq<char>) -> Seq<char>
    decreases locale.len(),
{
    if locale.len() == 0 || locale[0] == '-' || locale[0] == '_' {
        Seq::empty()
    } else {
        seq![locale[0]] + locale_language(locale.drop_first())
    }
}

/// The interface language: the language part of the system locale, or
/// `"en"` when the locale is unknown.
pub open spec fn spec_app_language(locale: Option<Seq<char>>) -> Seq<char> {
    match locale {
        Some(l) => locale_language(l),
        None => "en"@,
    }
}

/// Default interface language, from the system locale (`None`: unknown).
pub fn default_app_language(locale: Option<&str>) -> (r: String)
    ensures
        r@ == spec_app_language(
            match locale {
                Some(l) => Some(l@),
                None => None,
            },
        ),
{
    match locale {
        None => string_of("en"),
        Some(l) => {
            let cs = crate::text::chars_of(l);
            let mut r = String::new();
            let mut i: usize = 0;
            assert(l@.skip(0) == l@);
            while i < cs.len() && cs[i] != '-' && cs[i] != '_'
                invariant
                    i <= cs.len(),
                    cs@ == l@,
                    forall|j: int| 0 <= j < i ==> cs@[j] != '-' && cs@[j] != '_',
                    locale_language(l@) == r@ + locale_language(l@.skip(i as int)),
                decreases cs.len() - i,
            {
                assert(l@.skip(i as int).drop_first() == l@.skip(i + 1));
                crate::text::push_char(&mut r, cs[i]);
                i = i + 1;
            }
            r
        },
    }
}

/// The providers every installation offers: id, label, base URL and whether
/// the URL may be edited, in the order they are listed.
pub open spec fn default_provider(i: int) -> (Seq<char>, Seq<char>, Seq<char>, bool) {
    if i == 0 {
        ("openai"@, "OpenAI"@, "https://api.openai.com/v1"@, false)
    } else if i == 1 {
        ("openrouter"@, "OpenRouter"@, "https://openrouter.ai/api/v1"@, false)
    } else if i == 2 {
        ("anthropic"@, "Anthropic"@, "https://api.anthropic.com/v1"@, false)
    } else if i == 3 {
        ("groq"@, "Groq"@, "https://api.groq.com/openai/v1"@, false)
    } else if i == 4 {
        ("cerebras"@, "Cerebras"@, "https://api.cerebras.ai/v1"@, false)
    } else if i == 5 {
        ("ollama"@, "Ollama (Local)"@, "http://localhost:11434/v1"@, true)
    } else {
        ("custom"@, "Custom"@, "http://localhost:11434/v1"@, true)
    }
}

/// Number of default providers.
pub open spec fn default_provider_count() -> int {
    7
}

/// Whether `p` is the `i`-th default provider (all of them list models at
/// `/models`).
pub open spec fn is_default_provider(p: PostProcessProvider, i: int) -> bool {
    &&& p.id@ == default_provider(i).0
    &&& p.label@ == default_provider(i).1
    &&& p.base_url@ == default_provider(i).2
    &&& p.allow_base_url_edit == default_provider(i).3
    &&& p.models_endpoint matches Some(e) && e@ == "/models"@
}

/// Whether `p` is one of the default providers.
pub open spec fn is_some_default_provider(p: PostProcessProvider) -> bool {
    exists|i: int| 0 <= i < default_provider_count() && is_default_provider(p, i)
}

/// The ids of the default providers, in order.
pub open spec fn default_provider_ids() -> Seq<Seq<char>> {
    Seq::new(7, |i: int| default_provider(i).0)
}

/// Whether `ps` is exactly the list of default providers.
pub open spec fn is_default_provider_list(ps: Seq<PostProcessProvider>) -> bool {
    &&& ps.len() == default_provider_count()
    &&& forall|i: int| 0 <= i < ps.len() ==> is_default_provider(#[trigger] ps[i], i)
}

fn provider(id: &str, label: &str, base_url: &str, edit: bool) -> (p: PostProcessProvider)
    ensures
        p.id@ == id@,
        p.label@ == label@,
        p.base_url@ == base_url@,
        p.allow_base_url_edit == edit,
        p.models_endpoint matches Some(e) && e@ == "/models"@,
{
    PostProcessProvider {
        id: string_of(id),
        label: string_of(label),
        base_url: string_of(base_url),
        allow_base_url_edit: edit,
        models_endpoint: Some(string_of("/models")),
    }
}

/// The built-in provider list; the custom provider always comes last.
pub fn default_post_process_providers() -> (r: Vec<PostProcessProvider>)
    ensures
        is_default_provider_list(r@),
{
    let mut providers: Vec<PostProcessProvider> = Vec::new();
    providers.push(provider("openai", "OpenAI", "https://api.openai.com/v1", false));
    providers.push(provider("openrouter", "OpenRouter", "https://openrouter.ai/api/v1", false));
    providers.push(provider("anthropic", "Anthropic", "https://api.anthropic.com/v1", false));
    providers.push(provider("groq", "Groq", "https://api.groq.com/openai/v1", false));
    providers.push(provider("cerebras", "Cerebras", "https://api.cerebras.ai/v1", false));
    providers.push(provider("ollama", "Ollama (Local)", "http://localhost:11434/v1", true));
    providers.push(provider("custom", "Custom", "http://localhost:11434/v1", true));
    providers
}

/// No prompts exist by default.
pub fn default_post_process_prompts() -> (r: Vec<LLMPrompt>)
    ensures
        r@.len() == 0,
{
    Vec::new()
}

/// Whether `s` holds the defaults, given the system locale and platform.
pub open spec fn is_default_settings(
    s: AppSettings,
    locale: Option<Seq<char>>,
    target_os: Seq<char>,
) -> bool {
    &&& s.user_name@.len() == 0
    &&& s.data_directory is None
    &&& s.font_size == FontSize::Large
    &&& !s.autostart_enabled
    &&& s.update_checks_enabled
    &&& s.selected_model@.len() == 0
    &&& s.selected_microphone is None
    &&& s.selected_output_device is None
    &&& !s.translate_to_english
    &&& s.selected_language@ == "auto"@
    &&& !s.debug_mode
    &&& s.log_level == LogLevel::Info
    &&& s.custom_words@.len() == 0
    &&& s.model_unload_timeout == ModelUnloadTimeout::Min5
    &&& s.word_correction_threshold == 0x3fcae147ae147ae1u64
    &&& s.history_limit == 5
    &&& s.recording_retention_period == RecordingRetentionPeriod::PreserveLimit
    &&& !s.post_process_enabled
    &&& is_default_provider_list(s.post_process_providers@)
    &&& s.post_process_prompts@.len() == 0
    &&& s.post_process_selected_prompt_id is None
    &&& s.app_language@ == spec_app_language(locale)
    &&& !s.experimental_enabled
    &&& !s.copy_as_bullets_enabled
    &&& s.word_suggestions@.len() == 0
    &&& s.dismissed_suggestions@.len() == 0
    &&& s.word_suggestions_enabled
    &&& s.speaker_energy_threshold == 0x3d23d70au32
    &&& s.mic_energy_threshold == 0x3ca3d70au32
    &&& s.skip_mic_on_speaker_energy
    &&& s.model_environments@.len() == 0
    &&& s.default_environment_id is None
    &&& s.new_recording_shortcut is None
    &&& s.meeting_end_action@ == "stop_recording"@
    &&& s.meeting_start_action@ == "disabled"@
    &&& !s.debug_disable_speaker_capture
    &&& !s.debug_disable_model_loading
    &&& s.debug_disable_pill_window == (target_os == "windows"@)
    &&& !s.save_debug_recordings
    &&& s.debug_recordings_max_count == 5
    &&& !s.coreml_model_ready
    &&& s.last_run_version is None
    &&& !s.pending_promotion
    &&& !s.mcp_enabled
    &&& s.mcp_port == 47823
    &&& s.mcp_exposed_label_ids@.len() == 0
    &&& !s.mcp_expose_untagged
}

/// The settings of a fresh installation. `locale` is the system locale and
/// `target_os` the platform name, which two of the defaults depend on.
pub fn get_default_settings(locale: Option<&str>, target_os: &str) -> (s: AppSettings)
    ensures
        is_default_settings(
            s,
            match locale {
                Some(l) => Some(l@),
                None => None,
            },
            target_os@,
        ),
{
    AppSettings {
        user_name: String::new(),
        data_directory: None,
        font_size: FontSize::default(),
        autostart_enabled: default_autostart_enabled(),
        update_checks_enabled: default_update_checks_enabled(),
        selected_model: String::new(),
        selected_microphone: None,
        selected_output_device: None,
        translate_to_english: false,
        selected_language: string_of("auto"),
        debug_mode: false,
        log_level: default_log_level(),
        custom_words: Vec::new(),
        model_unload_timeout: ModelUnloadTimeout::default(),
        word_correction_threshold: default_word_correction_threshold(),
        history_limit: default_history_limit(),
        recording_retention_period: default_recording_retention_period(),
        post_process_enabled: default_post_process_enabled(),
        post_process_providers: default_post_process_providers(),
        post_process_prompts: default_post_process_prompts(),
        post_process_selected_prompt_id: None,
        app_language: default_app_language(locale),
        experimental_enabled: false,
        copy_as_bullets_enabled: false,
        word_suggestions: Vec::new(),
        dismissed_suggestions: Vec::new(),
        word_suggestions_enabled: true,
        speaker_energy_threshold: default_speaker_energy_threshold(),
        mic_energy_threshold: default_mic_energy_threshold(),
        skip_mic_on_speaker_energy: default_skip_mic_on_speaker_energy(),
        model_environments: Vec::new(),
        default_environment_id: None,
        new_recording_shortcut: None,
        meeting_end_action: default_meeting_end_action(),
        meeting_start_action: default_meeting_start_action(),
        debug_disable_speaker_capture: false,
        debug_disable_model_loading: false,
        debug_disable_pill_window: default_debug_disable_pill_window(target_os),
        save_debug_recordings: false,
        debug_recordings_max_count: default_debug_recordings_max_count(),
        coreml_model_ready: false,
        last_run_version: None,
        pending_promotion: false,
        mcp_enabled: false,
        mcp_port: default_mcp_port(),
        mcp_exposed_label_ids: Vec::new(),
        mcp_expose_untagged: false,
    }
}

} // verus!

verus! {

// ---------------------------------------------------------------------------
// Upgrades applied when settings are loaded
// ---------------------------------------------------------------------------

/// The ids in `existing`, followed by each id of `candidates` that is not yet
/// present, in order.
pub open spec fn ids_with_missing(existing: Seq<Seq<char>>, candidates: Seq<Seq<char>>) -> Seq<
    Seq<char>,
>
    decreases candidates.len(),
{
    if candidates.len() == 0 {
        existing
    } else {
        let prev = ids_with_missing(existing, candidates.drop_last());
        if prev.contains(candidates.last()) {
            prev
        } else {
            prev.push(candidates.last())
        }
    }
}

fn has_provider_id(ps: &Vec<PostProcessProvider>, id: &str) -> (r: bool)
    ensures
        r == provider_ids(ps@).contains(id@),
{
    let mut i: usize = 0;
    while i < ps.len()
        invariant
            i <= ps.len(),
            forall|j: int| 0 <= j < i ==> ps@[j].id@ != id@,
        decreases ps.len() - i,
    {
        if str_eq(ps[i].id.as_str(), id) {
            assert(provider_ids(ps@)[i as int] == id@);
            return true;
        }
        i = i + 1;
    }
    assert forall|j: int| 0 <= j < provider_ids(ps@).len() implies provider_ids(ps@)[j] != id@ by {}
    false
}

fn add_missing_default_providers(providers: &mut Vec<PostProcessProvider>) -> (changed: bool)
    ensures
        final(providers)@.len() >= old(providers)@.len(),
        final(providers)@.take(old(providers)@.len() as int) == old(providers)@,
        forall|k: int|
            old(providers)@.len() <= k < final(providers)@.len() ==> is_some_default_provider(
                #[trigger] final(providers)@[k],
            ),
        provider_ids(final(providers)@) == ids_with_missing(
            provider_ids(old(providers)@),
            default_provider_ids(),
        ),
        changed == (final(providers)@.len() > old(providers)@.len()),
{
    let defaults = default_post_process_providers();
    let ghost old_ps = providers@;
    let mut changed = false;
    let mut i: usize = 0;
    assert(default_provider_ids().take(0) =~= Seq::<Seq<char>>::empty());
    while i < defaults.len()
        invariant
            i <= defaults.len(),
            is_default_provider_list(defaults@),
            providers@.len() >= old_ps.len(),
            providers@.take(old_ps.len() as int) == old_ps,
            forall|k: int|
                old_ps.len() <= k < providers@.len() ==> is_some_default_provider(
                    #[trigger] providers@[k],
                ),
            provider_ids(providers@) == ids_with_missing(
                provider_ids(old_ps),
                default_provider_ids().take(i as int),
            ),
            changed == (providers@.len() > old_ps.len()),
        decreases defaults.len() - i,
    {
        let ghost before = providers@;
        let candidate = &defaults[i];
        assert(is_default_provider(defaults@[i as int], i as int));
        let present = has_provider_id(providers, candidate.id.as_str());
        assert(default_provider_ids().take(i + 1).drop_last() =~= default_provider_ids().take(
            i as int,
        ));
        assert(default_provider_ids().take(i + 1).last() == candidate.id@);
        if !present {
            let p = candidate.duplicate();
            providers.push(p);
            changed = true;
            assert(provider_ids(providers@) =~= provider_ids(before).push(p.id@));
            assert(providers@.take(old_ps.len() as int) =~= before.take(old_ps.len() as int));
            assert forall|k: int|
                old_ps.len() <= k < providers@.len() implies is_some_default_provider(
                    #[trigger] providers@[k],
                ) by {
                if k == providers@.len() - 1 {
                    assert(is_default_provider(providers@[k], i as int));
                } else {
                    assert(providers@[k] == before[k]);
                }
            }
        }
        i = i + 1;
    }
    assert(default_provider_ids().take(7) =~= default_provider_ids());
    changed
}

/// Adds every built-in provider whose id the settings lack (for instance one
/// introduced by a newer release), after the existing ones and in the
/// built-in order. Reports whether anything was added.
pub fn ensure_post_process_defaults(settings: &mut AppSettings) -> (changed: bool)
    ensures
        *final(settings) == (AppSettings {
            post_process_providers: final(settings).post_process_providers,
            ..*old(settings)
        }),
        final(settings).post_process_providers@.len() >= old(settings).post_process_providers@.len(),
        final(settings).post_process_providers@.take(
            old(settings).post_process_providers@.len() as int,
        ) == old(settings).post_process_providers@,
        forall|k: int|
            old(settings).post_process_providers@.len() <= k < final(settings).post_process_providers@.len() ==> is_some_default_provider(
                #[trigger] final(settings).post_process_providers@[k],
            ),
        provider_ids(final(settings).post_process_providers@) == ids_with_missing(
            provider_ids(old(settings).post_process_providers@),
            default_provider_ids(),
        ),
        changed == (final(settings).post_process_providers@.len() > old(settings).post_process_providers@.len()),
{
    add_missing_default_providers(&mut settings.post_process_providers)
}

/// Whether `e` is the starter environment "General" (green) with the given
/// id, endpoint, key and models, and no legacy model.
pub open spec fn is_general_environment(
    e: ModelEnvironment,
    id: Seq<char>,
    base_url: Seq<char>,
    api_key: Seq<char>,
    summarisation_model: Seq<char>,
    chat_model: Seq<char>,
) -> bool {
    &&& e.id@ == id
    &&& e.name@ == "General"@
    &&& e.color@ == "#22c55e"@
    &&& e.base_url@ == base_url
    &&& e.api_key@ == api_key
    &&& e.summarisation_model@ == summarisation_model
    &&& e.chat_model@ == chat_model
    &&& e.model@.len() == 0
}

fn general_environment(
    id: String,
    base_url: String,
    api_key: String,
    summarisation_model: String,
    chat_model: String,
) -> (e: ModelEnvironment)
    ensures
        e.id == id,
        is_general_environment(e, id@, base_url@, api_key@, summarisation_model@, chat_model@),
{
    ModelEnvironment {
        id,
        name: string_of("General"),
        color: string_of("#22c55e"),
        base_url,
        api_key,
        summarisation_model,
        chat_model,
        model: String::new(),
    }
}

/// Gives a settings record without environments the starter environment,
/// under the id `id`, and makes it the default. Reports whether it did.
pub fn create_default_environment_with_id(settings: &mut AppSettings, id: String) -> (created: bool)
    ensures
        default_env_valid(*old(settings)) ==> default_env_valid(*final(settings)),
        created == (old(settings).model_environments@.len() == 0),
        !created ==> *final(settings) == *old(settings),
        created ==> {
            &&& only_environments_changed(*final(settings), *old(settings), Some(id))
            &&& final(settings).model_environments@.len() == 1
            &&& final(settings).model_environments@[0].id == id
            &&& is_general_environment(
                final(settings).model_environments@[0],
                id@,
                Seq::empty(),
                Seq::empty(),
                Seq::empty(),
                Seq::empty(),
            )
        },
{
    if settings.model_environments.len() > 0 {
        return false;
    }
    let env = general_environment(
        id.clone(),
        String::new(),
        String::new(),
        String::new(),
        String::new(),
    );
    install_environment_as_default(settings, env, id);
    proof {
        lemma_default_at(*settings, 0);
    }
    true
}

/// Gives a settings record without environments a starter environment
/// "General" under a fresh random id, and makes it the default, so new users
/// have one to configure. Reports whether it did.
pub fn create_default_environment_if_needed(settings: &mut AppSettings) -> (created: bool)
    ensures
        created ==> is_uuid_v4_text(final(settings).model_environments@[0].id@),
        default_env_valid(*old(settings)) ==> default_env_valid(*final(settings)),
        created == (old(settings).model_environments@.len() == 0),
        !created ==> *final(settings) == *old(settings),
        created ==> {
            &&& final(settings).model_environments@.len() == 1
            &&& only_environments_changed(
                *final(settings),
                *old(settings),
                Some(final(settings).model_environments@[0].id),
            )
            &&& is_general_environment(
                final(settings).model_environments@[0],
                final(settings).model_environments@[0].id@,
                Seq::empty(),
                Seq::empty(),
                Seq::empty(),
                Seq::empty(),
            )
        },
{
    if settings.model_environments.len() > 0 {
        return false;
    }
    create_default_environment_with_id(settings, new_uuid_v4())
}

// --- legacy post-processing settings -----------------------------------------

/// The provider the legacy settings had active (`"custom"` if unrecorded).
pub open spec fn legacy_provider_id(raw: JsonValue) -> Seq<char> {
    match raw.spec_member_str("post_process_provider_id"@) {
        Some(p) => p,
        None => "custom"@,
    }
}

/// Whether the raw settings still hold legacy keys or models.
pub open spec fn has_legacy_data(raw: JsonValue) -> bool {
    raw.spec_member("post_process_api_keys"@) is Some || raw.spec_member(
        "post_process_models"@,
    ) is Some
}

/// The string stored under `key` in the member `table` of `raw`, or empty.
pub open spec fn legacy_lookup(raw: JsonValue, table: Seq<char>, key: Seq<char>) -> Option<
    Seq<char>,
> {
    match raw.spec_member(table) {
        Some(t) => t.spec_member_str(key),
        None => None,
    }
}

/// The value of an optional string, or empty.
pub open spec fn or_empty(s: Option<Seq<char>>) -> Seq<char> {
    match s {
        Some(v) => v,
        None => Seq::empty(),
    }
}

/// The legacy API key of the active provider.
pub open spec fn legacy_api_key(raw: JsonValue) -> Seq<char> {
    or_empty(legacy_lookup(raw, "post_process_api_keys"@, legacy_provider_id(raw)))
}

/// The legacy model of the active provider.
pub open spec fn legacy_summarisation_model(raw: JsonValue) -> Seq<char> {
    or_empty(legacy_lookup(raw, "post_process_models"@, legacy_provider_id(raw)))
}

/// The base URL of the provider with id `pid`, or empty.
pub open spec fn provider_base_url(ps: Seq<PostProcessProvider>, pid: Seq<char>) -> Seq<char> {
    match first_index(provider_ids(ps), pid) {
        Some(i) => ps[i].base_url@,
        None => Seq::empty(),
    }
}

/// The legacy chat provider (the active provider if unrecorded).
pub open spec fn legacy_chat_provider_id(raw: JsonValue) -> Seq<char> {
    match raw.spec_member_str("chat_provider_id"@) {
        Some(p) => p,
        None => legacy_provider_id(raw),
    }
}

/// The legacy chat model (the summarisation model if unrecorded).
pub open spec fn legacy_chat_model(raw: JsonValue) -> Seq<char> {
    match legacy_lookup(raw, "chat_models"@, legacy_chat_provider_id(raw)) {
        Some(m) => m,
        None => legacy_summarisation_model(raw),
    }
}

/// The migrated chat model is the one the legacy document records for its
/// chat provider (`chat_provider_id`) whenever it records both; without a
/// recorded chat provider, the one recorded for the active post-processing
/// provider; and without either, the summarisation model.
pub proof fn law_legacy_chat_model_follows_chat_provider(
    raw: JsonValue,
    chat_provider: Seq<char>,
    models: JsonValue,
    m: Seq<char>,
)
    ensures
        raw.spec_member_str("chat_provider_id"@) == Some(chat_provider) && raw.spec_member(
            "chat_models"@,
        ) == Some(models) && models.spec_member_str(chat_provider) == Some(m) ==> legacy_chat_model(raw)
            == m,
        raw.spec_member_str("chat_provider_id"@) is None && raw.spec_member("chat_models"@) == Some(
            models,
        ) && models.spec_member_str(
            match raw.spec_member_str("post_process_provider_id"@) {
                Some(p) => p,
                None => "custom"@,
            },
        ) == Some(m) ==> legacy_chat_model(raw) == m,
        raw.spec_member("chat_models"@) is None ==> legacy_chat_model(raw) == legacy_summarisation_model(
            raw,
        ),
{
}

/// The migrated key and summarisation model are the ones the legacy
/// document records for its active post-processing provider
/// (`post_process_provider_id`, "custom" when unrecorded), and empty when it
/// records none.
pub proof fn law_legacy_key_and_model_follow_active_provider(
    raw: JsonValue,
    keys: JsonValue,
    models: JsonValue,
    k: Seq<char>,
    m: Seq<char>,
)
    ensures
        ({
            let active = match raw.spec_member_str("post_process_provider_id"@) {
                Some(p) => p,
                None => "custom"@,
            };
            &&& raw.spec_member("post_process_api_keys"@) == Some(keys) && keys.spec_member_str(active)
                == Some(k) ==> legacy_api_key(raw) == k
            &&& raw.spec_member("post_process_models"@) == Some(models) && models.spec_member_str(active)
                == Some(m) ==> legacy_summarisation_model(raw) == m
            &&& raw.spec_member("post_process_api_keys"@) is None ==> legacy_api_key(raw).len() == 0
            &&& raw.spec_member("post_process_models"@) is None ==> legacy_summarisation_model(raw).len()
                == 0
        }),
{
}

fn str_or_empty(s: Option<&str>) -> (r: String)
    ensures
        r@ == or_empty(
            match s {
                Some(v) => Some(v@),
                None => None,
            },
        ),
{
    match s {
        Some(v) => string_of(v),
        None => String::new(),
    }
}

fn lookup_in<'a>(raw: &'a JsonValue, table: &str, key: &str) -> (r: Option<&'a str>)
    ensures
        match r {
            Some(v) => legacy_lookup(*raw, table@, key@) == Some(v@),
            None => legacy_lookup(*raw, table@, key@) is None,
        },
{
    match raw.get(table) {
        Some(t) => t.member_str(key),
        None => None,
    }
}

fn find_provider_base_url(ps: &Vec<PostProcessProvider>, pid: &str) -> (r: String)
    ensures
        r@ == provider_base_url(ps@, pid@),
{
    let mut i: usize = 0;
    while i < ps.len()
        invariant
            i <= ps.len(),
            forall|j: int| 0 <= j < i ==> provider_ids(ps@)[j] != pid@,
        decreases ps.len() - i,
    {
        if str_eq(ps[i].id.as_str(), pid) {
            proof {
                lemma_first_index_at(provider_ids(ps@), pid@, i as int);
            }
            return ps[i].base_url.clone();
        }
        i = i + 1;
    }
    proof {
        lemma_first_index_none(provider_ids(ps@), pid@);
    }
    String::new()
}

/// `new` differs from `old` at most in its environments, and its default
/// environment is `default_id`.
pub open spec fn only_environments_changed(
    new: AppSettings,
    old: AppSettings,
    default_id: Option<String>,
) -> bool {
    new == (AppSettings {
        model_environments: new.model_environments,
        default_environment_id: default_id,
        ..old
    })
}

/// Appends `env` to the environments and makes `id` the default.
fn install_environment_as_default(settings: &mut AppSettings, env: ModelEnvironment, id: String)
    ensures
        only_environments_changed(*final(settings), *old(settings), Some(id)),
        final(settings).model_environments@ == old(settings).model_environments@.push(env),
{
    settings.model_environments.push(env);
    settings.default_environment_id = Some(id);
}

fn legacy_environment(raw: &JsonValue, providers: &Vec<PostProcessProvider>, id: String) -> (e: ModelEnvironment)
    ensures
        e.id == id,
        is_general_environment(
            e,
            id@,
            provider_base_url(providers@, legacy_provider_id(*raw)),
            legacy_api_key(*raw),
            legacy_summarisation_model(*raw),
            legacy_chat_model(*raw),
        ),
{
    let provider_id: &str = match raw.member_str("post_process_provider_id") {
        Some(p) => p,
        None => "custom",
    };
    let api_key = str_or_empty(lookup_in(raw, "post_process_api_keys", provider_id));
    let summarisation_model = str_or_empty(lookup_in(raw, "post_process_models", provider_id));
    let base_url = find_provider_base_url(providers, provider_id);
    let chat_provider_id: &str = match raw.member_str("chat_provider_id") {
        Some(p) => p,
        None => provider_id,
    };
    let chat_model = match lookup_in(raw, "chat_models", chat_provider_id) {
        Some(m) => string_of(m),
        None => summarisation_model.clone(),
    };
    general_environment(id, base_url, api_key, summarisation_model, chat_model)
}

/// Moves post-processing settings of releases before model environments
/// into a first environment "General" under the id `id`, read from the raw
/// stored JSON (`raw`), and makes it the default. Nothing happens when
/// environments already exist or no legacy keys or models are stored.
/// Reports whether it migrated.
pub fn migrate_legacy_settings_with_id(raw: &JsonValue, settings: &mut AppSettings, id: String) -> (migrated: bool)
    ensures
        default_env_valid(*old(settings)) ==> default_env_valid(*final(settings)),
        migrated == (old(settings).model_environments@.len() == 0 && has_legacy_data(*raw)),
        !migrated ==> *final(settings) == *old(settings),
        migrated ==> {
            &&& only_environments_changed(*final(settings), *old(settings), Some(id))
            &&& final(settings).model_environments@.len() == 1
            &&& final(settings).model_environments@[0].id == id
            &&& is_general_environment(
                final(settings).model_environments@[0],
                id@,
                provider_base_url(old(settings).post_process_providers@, legacy_provider_id(*raw)),
                legacy_api_key(*raw),
                legacy_summarisation_model(*raw),
                legacy_chat_model(*raw),
            )
        },
{
    if settings.model_environments.len() > 0 {
        return false;
    }
    if raw.get("post_process_api_keys").is_none() && raw.get("post_process_models").is_none() {
        return false;
    }
    let env = legacy_environment(raw, &settings.post_process_providers, id.clone());
    install_environment_as_default(settings, env, id);
    proof {
        lemma_default_at(*settings, 0);
    }
    true
}

/// As `migrate_legacy_settings_with_id`, under a fresh random id.
pub fn migrate_legacy_settings_from_json(raw: &JsonValue, settings: &mut AppSettings) -> (migrated: bool)
    ensures
        migrated ==> is_uuid_v4_text(final(settings).model_environments@[0].id@),
        default_env_valid(*old(settings)) ==> default_env_valid(*final(settings)),
        migrated == (old(settings).model_environments@.len() == 0 && has_legacy_data(*raw)),
        !migrated ==> *final(settings) == *old(settings),
        migrated ==> {
            &&& final(settings).model_environments@.len() == 1
            &&& only_environments_changed(
                *final(settings),
                *old(settings),
                Some(final(settings).model_environments@[0].id),
            )
            &&& is_general_environment(
                final(settings).model_environments@[0],
                final(settings).model_environments@[0].id@,
                provider_base_url(old(settings).post_process_providers@, legacy_provider_id(*raw)),
                legacy_api_key(*raw),
                legacy_summarisation_model(*raw),
                legacy_chat_model(*raw),
            )
        },
{
    if settings.model_environments.len() > 0 {
        return false;
    }
    if raw.get("post_process_api_keys").is_none() && raw.get("post_process_models").is_none() {
        return false;
    }
    migrate_legacy_settings_with_id(raw, settings, new_uuid_v4())
}

// --- single model to summarisation + chat models ------------------------------

/// `new` is `old` after moving its legacy single model into whichever of the
/// two model fields is empty, and clearing the legacy field.
pub open spec fn env_models_migrated(old: ModelEnvironment, new: ModelEnvironment) -> bool {
    if old.model@.len() == 0 {
        new == old
    } else {
        &&& new.id == old.id
        &&& new.name == old.name
        &&& new.color == old.color
        &&& new.base_url == old.base_url
        &&& new.api_key == old.api_key
        &&& new.summarisation_model@ == (if old.summarisation_model@.len() == 0 {
            old.model@
        } else {
            old.summarisation_model@
        })
        &&& new.chat_model@ == (if old.chat_model@.len() == 0 {
            old.model@
        } else {
            old.chat_model@
        })
        &&& new.model@.len() == 0
    }
}

/// Whether migrating `e` fills one of its model fields.
pub open spec fn env_needs_model_migration(e: ModelEnvironment) -> bool {
    e.model@.len() > 0 && (e.summarisation_model@.len() == 0 || e.chat_model@.len() == 0)
}

fn migrate_env_list(envs: &mut Vec<ModelEnvironment>) -> (changed: bool)
    ensures
        final(envs)@.len() == old(envs)@.len(),
        forall|i: int|
            0 <= i < old(envs)@.len() ==> env_models_migrated(
                #[trigger] old(envs)@[i],
                final(envs)@[i],
            ),
        changed == exists|i: int|
            0 <= i < old(envs)@.len() && env_needs_model_migration(#[trigger] old(envs)@[i]),
{
    let ghost start = envs@;
    let mut changed = false;
    let mut i: usize = 0;
    while i < envs.len()
        invariant
            i <= envs.len(),
            envs@.len() == start.len(),
            forall|j: int| 0 <= j < i ==> env_models_migrated(#[trigger] start[j], envs@[j]),
            forall|j: int| i <= j < envs@.len() ==> envs@[j] == start[j],
            changed == exists|j: int| 0 <= j < i && env_needs_model_migration(#[trigger] start[j]),
        decreases envs.len() - i,
    {
        let e = &envs[i];
        if !e.model.as_str().is_empty() {
            let summ_empty = e.summarisation_model.as_str().is_empty();
            let chat_empty = e.chat_model.as_str().is_empty();
            let new_env = ModelEnvironment {
                id: e.id.clone(),
                name: e.name.clone(),
                color: e.color.clone(),
                base_url: e.base_url.clone(),
                api_key: e.api_key.clone(),
                summarisation_model: if summ_empty {
                    e.model.clone()
                } else {
                    e.summarisation_model.clone()
                },
                chat_model: if chat_empty {
                    e.model.clone()
                } else {
                    e.chat_model.clone()
                },
                model: String::new(),
            };
            if summ_empty || chat_empty {
                changed = true;
            }
            envs.set(i, new_env);
        }
        proof {
            if env_needs_model_migration(start[i as int]) {
                assert(exists|j: int| 0 <= j < i + 1 && env_needs_model_migration(#[trigger] start[j]));
            }
        }
        i = i + 1;
    }
    changed
}

/// Moves each environment's legacy single model into whichever of its
/// summarisation and chat models is empty, and clears the legacy field.
/// Reports whether a model field was filled.
pub fn migrate_environment_models(settings: &mut AppSettings) -> (changed: bool)
    ensures
        default_env_valid(*old(settings)) ==> default_env_valid(*final(settings)),
        *final(settings) == (AppSettings {
            model_environments: final(settings).model_environments,
            ..*old(settings)
        }),
        final(settings).model_environments@.len() == old(settings).model_environments@.len(),
        forall|i: int|
            0 <= i < old(settings).model_environments@.len() ==> env_models_migrated(
                #[trigger] old(settings).model_environments@[i],
                final(settings).model_environments@[i],
            ),
        changed == exists|i: int|
            0 <= i < old(settings).model_environments@.len() && env_needs_model_migration(
                #[trigger] old(settings).model_environments@[i],
            ),
{
    let ghost before = *settings;
    let changed = migrate_env_list(&mut settings.model_environments);
    proof {
        if default_env_valid(before) {
            assert forall|i: int| 0 <= i < before.model_environments@.len() implies #[trigger] settings.model_environments@[i].id
                == before.model_environments@[i].id by {
                assert(env_models_migrated(before.model_environments@[i], settings.model_environments@[i]));
            }
            lemma_default_same_ids(before, *settings);
        }
    }
    changed
}

/// Whether `new` differs from `old` at most in its providers and
/// environments (and the default environment).
#[verifier::opaque]
pub open spec fn only_normalized_fields_changed(new: AppSettings, old: AppSettings) -> bool {
    new == (AppSettings {
        post_process_providers: new.post_process_providers,
        model_environments: new.model_environments,
        default_environment_id: new.default_environment_id,
        ..old
    })
}

proof fn lemma_providers_step(a: AppSettings, b: AppSettings)
    requires
        b == (AppSettings { post_process_providers: b.post_process_providers, ..a }),
    ensures
        only_normalized_fields_changed(b, a),
{
    reveal(only_normalized_fields_changed);
}

proof fn lemma_environments_step(a: AppSettings, b: AppSettings, d: Option<String>)
    requires
        only_environments_changed(b, a, d),
    ensures
        only_normalized_fields_changed(b, a),
{
    reveal(only_normalized_fields_changed);
}

proof fn lemma_models_step(a: AppSettings, b: AppSettings)
    requires
        b == (AppSettings { model_environments: b.model_environments, ..a }),
    ensures
        only_normalized_fields_changed(b, a),
{
    reveal(only_normalized_fields_changed);
}

proof fn lemma_normalized_unchanged(a: AppSettings)
    ensures
        only_normalized_fields_changed(a, a),
{
    reveal(only_normalized_fields_changed);
}

proof fn lemma_normalized_trans(a: AppSettings, b: AppSettings, c: AppSettings)
    requires
        only_normalized_fields_changed(b, a),
        only_normalized_fields_changed(c, b),
    ensures
        only_normalized_fields_changed(c, a),
{
    reveal(only_normalized_fields_changed);
}

/// The endpoint, key, summarisation and chat model of the environment given
/// to settings that have none: taken from the legacy post-processing keys of
/// the stored document `raw` when it has them (the endpoint from
/// `providers`), and empty otherwise.
pub open spec fn starter_fields(providers: Seq<PostProcessProvider>, raw: Option<JsonValue>) -> (
    Seq<char>,
    Seq<char>,
    Seq<char>,
    Seq<char>,
) {
    match raw {
        Some(r) => if has_legacy_data(r) {
            (
                provider_base_url(providers, legacy_provider_id(r)),
                legacy_api_key(r),
                legacy_summarisation_model(r),
                legacy_chat_model(r),
            )
        } else {
            (Seq::empty(), Seq::empty(), Seq::empty(), Seq::empty())
        },
        None => (Seq::empty(), Seq::empty(), Seq::empty(), Seq::empty()),
    }
}

/// Whether `e` is the "General" environment given to settings without
/// environments, for the providers `providers` and stored document `raw`.
pub open spec fn is_starter_environment(
    e: ModelEnvironment,
    providers: Seq<PostProcessProvider>,
    raw: Option<JsonValue>,
) -> bool {
    let f = starter_fields(providers, raw);
    is_general_environment(e, e.id@, f.0, f.1, f.2, f.3)
}

/// An optional borrowed document as an optional document.
pub open spec fn opt_doc(raw: Option<&JsonValue>) -> Option<JsonValue> {
    match raw {
        Some(r) => Some(*r),
        None => None,
    }
}

/// Every id of `candidates` is among `ids_with_missing(existing, candidates)`.
proof fn lemma_ids_with_missing_has_all(existing: Seq<Seq<char>>, candidates: Seq<Seq<char>>)
    ensures
        forall|k: int|
            0 <= k < candidates.len() ==> ids_with_missing(existing, candidates).contains(
                #[trigger] candidates[k],
            ),
    decreases candidates.len(),
{
    if candidates.len() > 0 {
        let init = candidates.drop_last();
        lemma_ids_with_missing_has_all(existing, init);
        let prev = ids_with_missing(existing, init);
        let last = candidates.last();
        assert forall|k: int| 0 <= k < candidates.len() implies ids_with_missing(
            existing,
            candidates,
        ).contains(#[trigger] candidates[k]) by {
            let out = ids_with_missing(existing, candidates);
            if k < init.len() {
                assert(candidates[k] == init[k]);
                assert(prev.contains(init[k]));
                if !prev.contains(last) {
                    let j = choose|j: int| 0 <= j < prev.len() && prev[j] == init[k];
                    assert(out == prev.push(last));
                    assert(out[j] == init[k]);
                }
            } else {
                if !prev.contains(last) {
                    assert(out == prev.push(last));
                    assert(out[prev.len() as int] == last);
                }
            }
        }
    }
}

proof fn lemma_ids_with_missing_present(existing: Seq<Seq<char>>, candidates: Seq<Seq<char>>)
    requires
        forall|k: int| 0 <= k < candidates.len() ==> existing.contains(#[trigger] candidates[k]),
    ensures
        ids_with_missing(existing, candidates) == existing,
    decreases candidates.len(),
{
    if candidates.len() > 0 {
        let init = candidates.drop_last();
        assert forall|k: int| 0 <= k < init.len() implies existing.contains(#[trigger] init[k]) by {
            assert(init[k] == candidates[k]);
        }
        lemma_ids_with_missing_present(existing, init);
        assert(existing.contains(candidates[candidates.len() - 1]));
    }
}

/// Adding the missing default providers a second time changes nothing:
/// the first pass left none missing. `p1` is the list after a first pass
/// over `p0` and `p2` the list after a second pass over `p1`, each as
/// `normalize_loaded_settings` states its pass (the earlier list kept as a
/// prefix, the ids those of `ids_with_missing`).
pub proof fn law_default_providers_are_added_once(
    p0: Seq<PostProcessProvider>,
    p1: Seq<PostProcessProvider>,
    p2: Seq<PostProcessProvider>,
)
    requires
        provider_ids(p1) == ids_with_missing(provider_ids(p0), default_provider_ids()),
        p1.take(p0.len() as int) == p0,
        provider_ids(p2) == ids_with_missing(provider_ids(p1), default_provider_ids()),
        p2.take(p1.len() as int) == p1,
    ensures
        ids_with_missing(
            ids_with_missing(provider_ids(p0), default_provider_ids()),
            default_provider_ids(),
        ) == ids_with_missing(provider_ids(p0), default_provider_ids()),
        p2 == p1,
{
    let once = ids_with_missing(provider_ids(p0), default_provider_ids());
    lemma_ids_with_missing_has_all(provider_ids(p0), default_provider_ids());
    lemma_ids_with_missing_present(once, default_provider_ids());
    assert(provider_ids(p2).len() == p2.len());
    assert(provider_ids(p1).len() == p1.len());
    assert(p2 =~= p2.take(p1.len() as int));
}

/// What filling in a starter environment leaves behind.
pub open spec fn filled_with_one_environment(new: AppSettings, old: AppSettings) -> bool {
    &&& only_normalized_fields_changed(new, old)
    &&& new.post_process_providers == old.post_process_providers
    &&& new.model_environments@.len() == 1
    &&& new.default_environment_id == Some(new.model_environments@[0].id)
    &&& new.model_environments@[0].name@ == "General"@
    &&& new.model_environments@[0].model@.len() == 0
}

fn fill_from_legacy(settings: &mut AppSettings, raw: &JsonValue) -> (migrated: bool)
    ensures
        migrated == (old(settings).model_environments@.len() == 0 && has_legacy_data(*raw)),
        migrated ==> is_starter_environment(
            final(settings).model_environments@[0],
            old(settings).post_process_providers@,
            Some(*raw),
        ),
        migrated ==> filled_with_one_environment(*final(settings), *old(settings)),
        !migrated ==> *final(settings) == *old(settings),
        migrated ==> old(settings).model_environments@.len() == 0,
{
    let ghost s0 = *settings;
    let migrated = migrate_legacy_settings_from_json(raw, settings);
    proof {
        if migrated {
            lemma_environments_step(s0, *settings, settings.default_environment_id);
        }
    }
    migrated
}

fn fill_with_default(settings: &mut AppSettings) -> (created: bool)
    ensures
        created ==> is_starter_environment(
            final(settings).model_environments@[0],
            old(settings).post_process_providers@,
            None,
        ),
        created == (old(settings).model_environments@.len() == 0),
        created ==> filled_with_one_environment(*final(settings), *old(settings)),
        !created ==> *final(settings) == *old(settings),
{
    let ghost s0 = *settings;
    let created = create_default_environment_if_needed(settings);
    proof {
        if created {
            lemma_environments_step(s0, *settings, settings.default_environment_id);
        }
    }
    created
}

fn fill_environments(settings: &mut AppSettings, raw: Option<&JsonValue>) -> (changed: bool)
    ensures
        old(settings).model_environments@.len() > 0 ==> *final(settings) == *old(settings),
        old(settings).model_environments@.len() == 0 ==> filled_with_one_environment(
            *final(settings),
            *old(settings),
        ),
        old(settings).model_environments@.len() == 0 ==> is_starter_environment(
            final(settings).model_environments@[0],
            old(settings).post_process_providers@,
            opt_doc(raw),
        ),
        changed == (old(settings).model_environments@.len() == 0),
{
    if settings.model_environments.len() > 0 {
        return false;
    }
    let migrated = match raw {
        Some(r) => fill_from_legacy(settings, r),
        None => false,
    };
    if migrated {
        return true;
    }
    fill_with_default(settings)
}

fn migrate_models_step(settings: &mut AppSettings) -> (changed: bool)
    ensures
        only_normalized_fields_changed(*final(settings), *old(settings)),
        final(settings).post_process_providers == old(settings).post_process_providers,
        final(settings).default_environment_id == old(settings).default_environment_id,
        final(settings).model_environments@.len() == old(settings).model_environments@.len(),
        forall|i: int|
            0 <= i < old(settings).model_environments@.len() ==> env_models_migrated(
                #[trigger] old(settings).model_environments@[i],
                final(settings).model_environments@[i],
            ),
        changed == exists|i: int|
            0 <= i < old(settings).model_environments@.len() && env_needs_model_migration(
                #[trigger] old(settings).model_environments@[i],
            ),
{
    let ghost s0 = *settings;
    let moved = migrate_environment_models(settings);
    proof {
        lemma_models_step(s0, *settings);
    }
    moved
}

fn add_providers_step(settings: &mut AppSettings) -> (changed: bool)
    ensures
        only_normalized_fields_changed(*final(settings), *old(settings)),
        final(settings).model_environments == old(settings).model_environments,
        final(settings).default_environment_id == old(settings).default_environment_id,
        provider_ids(final(settings).post_process_providers@) == ids_with_missing(
            provider_ids(old(settings).post_process_providers@),
            default_provider_ids(),
        ),
        final(settings).post_process_providers@.take(
            old(settings).post_process_providers@.len() as int,
        ) == old(settings).post_process_providers@,
        changed == (final(settings).post_process_providers@.len() > old(settings).post_process_providers@.len()),
{
    let ghost s0 = *settings;
    let added = ensure_post_process_defaults(settings);
    proof {
        lemma_providers_step(s0, *settings);
    }
    added
}

/// Brings settings just read from the store up to date, `raw` being the
/// stored document they were read from (if any): adds the built-in
/// providers they lack, gives a record without environments one (from the
/// legacy post-processing keys when `raw` has them, else an empty "General"
/// one) as its default, and moves legacy single models into the
/// summarisation and chat models. Reports whether anything changed and the
/// settings must be written back.
/// What bringing loaded settings up to date does, `old` being the settings
/// as read and `new` as brought up to date, `raw` the stored document and
/// `needs_save` whether they must be stored back: the missing default
/// providers are appended, a record without environments gets a "General"
/// one (from the legacy keys when the document has them, blank otherwise)
/// as its default, every environment's single model moves to the two model
/// fields, and nothing else changes.
pub open spec fn normalized_from(new: AppSettings, old: AppSettings, raw: Option<JsonValue>, needs_save: bool) -> bool {
    &&& old.model_environments@.len() == 0 ==> is_starter_environment(
        new.model_environments@[0],
        new.post_process_providers@,
        raw,
    )
    &&& new.model_environments@.len() >= 1
    &&& forall|i: int|
        0 <= i < new.model_environments@.len() ==> (#[trigger] new.model_environments@[i]).model@.len() == 0
    &&& forall|k: int|
        0 <= k < default_provider_ids().len() ==> provider_ids(new.post_process_providers@).contains(
            #[trigger] default_provider_ids()[k],
        )
    &&& default_env_valid(old) ==> default_env_valid(new)
    &&& only_normalized_fields_changed(new, old)
    &&& provider_ids(new.post_process_providers@) == ids_with_missing(
        provider_ids(old.post_process_providers@),
        default_provider_ids(),
    )
    &&& new.post_process_providers@.take(old.post_process_providers@.len() as int)
        == old.post_process_providers@
    &&& old.model_environments@.len() > 0 ==> {
        &&& new.default_environment_id == old.default_environment_id
        &&& new.model_environments@.len() == old.model_environments@.len()
        &&& forall|i: int|
            0 <= i < old.model_environments@.len() ==> env_models_migrated(
                #[trigger] old.model_environments@[i],
                new.model_environments@[i],
            )
    }
    &&& old.model_environments@.len() == 0 ==> {
        &&& new.model_environments@.len() == 1
        &&& new.default_environment_id == Some(new.model_environments@[0].id)
        &&& new.model_environments@[0].name@ == "General"@
    }
    &&& needs_save == (new.post_process_providers@.len() > old.post_process_providers@.len()
        || old.model_environments@.len() == 0 || exists|i: int|
        0 <= i < old.model_environments@.len() && env_needs_model_migration(
            #[trigger] old.model_environments@[i],
        ))
}

/// Brings loaded settings up to date; see `normalized_from`.
pub fn normalize_loaded_settings(settings: &mut AppSettings, raw: Option<&JsonValue>) -> (needs_save: bool)
    ensures
        normalized_from(*final(settings), *old(settings), opt_doc(raw), needs_save),
{
    let ghost s0 = *settings;
    let added = add_providers_step(settings);
    let ghost s1 = *settings;
    let filled = fill_environments(settings, raw);
    let ghost s2 = *settings;
    let moved = migrate_models_step(settings);
    proof {
        if s1.model_environments@.len() > 0 {
            lemma_normalized_unchanged(s1);
        }
        lemma_normalized_trans(s0, s1, s2);
        lemma_normalized_trans(s0, s2, *settings);
        if s0.model_environments@.len() == 0 {
            assert(!env_needs_model_migration(s2.model_environments@[0]));
            assert(env_models_migrated(s2.model_environments@[0], settings.model_environments@[0]));
            assert(!(exists|i: int|
                0 <= i < s0.model_environments@.len() && env_needs_model_migration(
                    #[trigger] s0.model_environments@[i],
                )));
            assert(!(exists|i: int|
                0 <= i < s2.model_environments@.len() && env_needs_model_migration(
                    #[trigger] s2.model_environments@[i],
                )));
        } else {
            assert(s2 == s1);
        }
        if s0.model_environments@.len() == 0 {
            lemma_default_at(*settings, 0);
        } else if default_env_valid(s0) {
            assert forall|i: int| 0 <= i < s0.model_environments@.len() implies #[trigger] settings.model_environments@[i].id
                == s0.model_environments@[i].id by {
                assert(env_models_migrated(s0.model_environments@[i], settings.model_environments@[i]));
            }
            lemma_default_same_ids(s0, *settings);
        }
    }
    proof {
        lemma_ids_with_missing_has_all(provider_ids(s0.post_process_providers@), default_provider_ids());
        assert forall|i: int| 0 <= i < settings.model_environments@.len() implies (
        #[trigger] settings.model_environments@[i]).model@.len() == 0 by {
            assert(env_models_migrated(s2.model_environments@[i], settings.model_environments@[i]));
            if s0.model_environments@.len() == 0 {
                assert(i == 0);
            }
        }
    }
    added || filled || moved
}

/// What reading the stored settings gives.
pub struct LoadedSettings {
    /// The settings, brought up to date.
    pub settings: AppSettings,
    /// Whether nothing readable was stored, so that the defaults are stored
    /// before anything else.
    pub store_defaults: bool,
    /// Whether bringing the settings up to date changed them, so that they
    /// are stored back.
    pub needs_save: bool,
}

/// The locale as an optional character sequence.
pub open spec fn opt_locale(locale: Option<&str>) -> Option<Seq<char>> {
    match locale {
        Some(l) => Some(l@),
        None => None,
    }
}

/// The settings as the store holds them: `stored` is the record under
/// "settings" when it reads as settings, `raw` the document stored there, if
/// any. Without a readable record the defaults of this machine (`locale`,
/// `target_os`) stand in for it; either way the settings are then brought up
/// to date (`normalized_from`), with `raw` as the source of legacy keys.
/// On a fresh install they are the defaults with one blank "General"
/// environment as the default one.
pub fn load_settings(stored: Option<AppSettings>, raw: Option<&JsonValue>, locale: Option<&str>, target_os: &str) -> (r: LoadedSettings)
    ensures
        r.store_defaults == stored is None,
        exists|start: AppSettings|
            {
                &&& match stored {
                    Some(s) => start == s,
                    None => is_default_settings(start, opt_locale(locale), target_os@),
                }
                &&& #[trigger] normalized_from(r.settings, start, opt_doc(raw), r.needs_save)
            },
        stored is None && raw is None ==> {
            &&& r.needs_save
            &&& r.settings.model_environments@.len() == 1
            &&& r.settings.default_environment_id == Some(r.settings.model_environments@[0].id)
            &&& is_general_environment(
                r.settings.model_environments@[0],
                r.settings.model_environments@[0].id@,
                Seq::empty(),
                Seq::empty(),
                Seq::empty(),
                Seq::empty(),
            )
        },
{
    let store_defaults = stored.is_none();
    let ghost given = stored;
    let mut settings = match stored {
        Some(s) => s,
        None => get_default_settings(locale, target_os),
    };
    let ghost start = settings;
    assert(match given {
        Some(s) => start == s,
        None => is_default_settings(start, opt_locale(locale), target_os@),
    });
    let needs_save = normalize_loaded_settings(&mut settings, raw);
    let r = LoadedSettings { settings, store_defaults, needs_save };
    assert(normalized_from(r.settings, start, opt_doc(raw), r.needs_save));
    r
}

// ---------------------------------------------------------------------------
// Environment lookups
// ---------------------------------------------------------------------------

/// The environment an optional id designates: the named one, else the
/// default one.
pub open spec fn effective_environment(s: AppSettings, id: Option<Seq<char>>) -> Option<
    ModelEnvironment,
> {
    let wanted = match id {
        Some(i) => Some(i),
        None => match s.default_environment_id {
            Some(d) => Some(d@),
            None => None,
        },
    };
    match wanted {
        Some(w) => match first_index(env_ids(s.model_environments@), w) {
            Some(k) => Some(s.model_environments@[k]),
            None => None,
        },
        None => None,
    }
}

fn find_environment(envs: &Vec<ModelEnvironment>, id: &str) -> (r: Option<usize>)
    ensures
        match r {
            Some(i) => i < envs@.len() && first_index(env_ids(envs@), id@) == Some(i as int),
            None => first_index(env_ids(envs@), id@) is None,
        },
{
    let mut i: usize = 0;
    while i < envs.len()
        invariant
            i <= envs.len(),
            forall|j: int| 0 <= j < i ==> env_ids(envs@)[j] != id@,
        decreases envs.len() - i,
    {
        if str_eq(envs[i].id.as_str(), id) {
            proof {
                lemma_first_index_at(env_ids(envs@), id@, i as int);
            }
            return Some(i);
        }
        i = i + 1;
    }
    proof {
        lemma_first_index_none(env_ids(envs@), id@);
    }
    None
}

impl AppSettings {
    /// The first environment with id `environment_id`.
    pub fn get_environment(&self, environment_id: &str) -> (r: Option<&ModelEnvironment>)
        ensures
            match first_index(env_ids(self.model_environments@), environment_id@) {
                Some(i) => r == Some(&self.model_environments@[i]),
                None => r is None,
            },
    {
        match find_environment(&self.model_environments, environment_id) {
            Some(i) => Some(&self.model_environments[i]),
            None => None,
        }
    }

    /// The position of the first environment with id `environment_id`.
    pub fn environment_index(&self, environment_id: &str) -> (r: Option<usize>)
        ensures
            match r {
                Some(i) => i < self.model_environments@.len() && first_index(
                    env_ids(self.model_environments@),
                    environment_id@,
                ) == Some(i as int),
                None => first_index(env_ids(self.model_environments@), environment_id@) is None,
            },
    {
        find_environment(&self.model_environments, environment_id)
    }

    /// The first environment with id `environment_id`, for changing it.
    pub fn get_environment_mut(&mut self, environment_id: &str) -> (r: Option<&mut ModelEnvironment>)
        ensures
            match first_index(env_ids(old(self).model_environments@), environment_id@) {
                Some(i) => r matches Some(e) && *e == old(self).model_environments@[i]
                    && *final(self) == (AppSettings {
                    model_environments: final(self).model_environments,
                    ..*old(self)
                }) && final(self).model_environments@ == old(self).model_environments@.update(
                    i,
                    *final(e),
                ),
                None => r is None && *final(self) == *old(self),
            },
    {
        match find_environment(&self.model_environments, environment_id) {
            Some(i) => Some(&mut self.model_environments[i]),
            None => None,
        }
    }

    /// The default environment, if one is set and exists.
    pub fn get_default_environment(&self) -> (r: Option<&ModelEnvironment>)
        ensures
            match effective_environment(*self, None) {
                Some(e) => r matches Some(x) && *x == e,
                None => r is None,
            },
    {
        match &self.default_environment_id {
            Some(id) => self.get_environment(id.as_str()),
            None => None,
        }
    }

    /// The environment for a session: the one it names, else the default.
    pub fn get_effective_environment(&self, environment_id: Option<&str>) -> (r: Option<&ModelEnvironment>)
        ensures
            match effective_environment(
                *self,
                match environment_id {
                    Some(i) => Some(i@),
                    None => None,
                },
            ) {
                Some(e) => r matches Some(x) && *x == e,
                None => r is None,
            },
    {
        match environment_id {
            Some(id) => self.get_environment(id),
            None => self.get_default_environment(),
        }
    }

    /// Base URL, API key and summarisation model of the effective
    /// environment, when it exists and names a summarisation model.
    pub fn get_summarisation_config(&self, environment_id: Option<&str>) -> (r: Option<(String, String, String)>)
        ensures
            match effective_environment(
                *self,
                match environment_id {
                    Some(i) => Some(i@),
                    None => None,
                },
            ) {
                Some(e) => if e.summarisation_model@.len() == 0 {
                    r is None
                } else {
                    r == Some((e.base_url, e.api_key, e.summarisation_model))
                },
                None => r is None,
            },
    {
        let env = match self.get_effective_environment(environment_id) {
            Some(e) => e,
            None => return None,
        };
        if env.summarisation_model.as_str().is_empty() {
            return None;
        }
        Some((env.base_url.clone(), env.api_key.clone(), env.summarisation_model.clone()))
    }
}

} // verus!
