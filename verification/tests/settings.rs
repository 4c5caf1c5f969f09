use talky::json::JsonValue;
use talky::settings::{
    create_default_environment_with_id, default_app_language, default_debug_disable_pill_window,
    default_history_limit, default_log_level, default_mcp_port, default_meeting_end_action,
    default_meeting_start_action, default_model, default_post_process_prompts,
    default_post_process_providers, default_recording_retention_period, default_selected_language,
    ensure_post_process_defaults, get_default_settings, migrate_environment_models,
    load_settings, migrate_legacy_settings_with_id, normalize_loaded_settings, AppSettings, FontSize, LogLevel,
    ModelEnvironment, ModelUnloadTimeout, RecordingRetentionPeriod,
};

fn settings() -> AppSettings {
    get_default_settings(Some("en-US"), "macos")
}

fn env(id: &str, model: &str, summ: &str, chat: &str) -> ModelEnvironment {
    ModelEnvironment {
        id: id.to_string(),
        name: format!("env {id}"),
        color: "#000000".to_string(),
        base_url: format!("https://{id}.example"),
        api_key: format!("key-{id}"),
        summarisation_model: summ.to_string(),
        chat_model: chat.to_string(),
        model: model.to_string(),
    }
}

fn s(v: &str) -> String {
    v.to_string()
}

fn obj(entries: Vec<(&str, JsonValue)>) -> JsonValue {
    JsonValue::Object(entries.into_iter().map(|(k, v)| (k.to_string(), v)).collect())
}

#[test]
fn log_level_names_are_case_insensitive() {
    assert_eq!(LogLevel::from_name("DEBUG"), Some(LogLevel::Debug));
    assert_eq!(LogLevel::from_name("Warn"), Some(LogLevel::Warn));
    assert_eq!(LogLevel::from_name("trace"), Some(LogLevel::Trace));
    assert_eq!(LogLevel::from_name("verbose"), None);
    assert_eq!(LogLevel::from_name(""), None);
}

#[test]
fn log_level_numbers_of_old_settings() {
    assert_eq!(LogLevel::from_number(1), Some(LogLevel::Trace));
    assert_eq!(LogLevel::from_number(2), Some(LogLevel::Debug));
    assert_eq!(LogLevel::from_number(3), Some(LogLevel::Info));
    assert_eq!(LogLevel::from_number(4), Some(LogLevel::Warn));
    assert_eq!(LogLevel::from_number(5), Some(LogLevel::Error));
    assert_eq!(LogLevel::from_number(0), None);
    assert_eq!(LogLevel::from_number(6), None);
}

#[test]
fn log_level_filter_values() {
    assert_eq!(LogLevel::Error.filter_value(), 1);
    assert_eq!(LogLevel::Warn.filter_value(), 2);
    assert_eq!(LogLevel::Info.filter_value(), 3);
    assert_eq!(LogLevel::Debug.filter_value(), 4);
    assert_eq!(LogLevel::Trace.filter_value(), 5);
}

#[test]
fn unload_timeouts_in_minutes_and_seconds() {
    assert_eq!(ModelUnloadTimeout::Never.to_minutes(), None);
    assert_eq!(ModelUnloadTimeout::Never.to_seconds(), None);
    assert_eq!(ModelUnloadTimeout::Immediately.to_minutes(), Some(0));
    assert_eq!(ModelUnloadTimeout::Immediately.to_seconds(), Some(0));
    assert_eq!(ModelUnloadTimeout::Min2.to_seconds(), Some(120));
    assert_eq!(ModelUnloadTimeout::Min5.to_minutes(), Some(5));
    assert_eq!(ModelUnloadTimeout::Min5.to_seconds(), Some(300));
    assert_eq!(ModelUnloadTimeout::Min10.to_seconds(), Some(600));
    assert_eq!(ModelUnloadTimeout::Min15.to_seconds(), Some(900));
    assert_eq!(ModelUnloadTimeout::Hour1.to_minutes(), Some(60));
    assert_eq!(ModelUnloadTimeout::Hour1.to_seconds(), Some(3600));
    assert_eq!(ModelUnloadTimeout::Sec5.to_minutes(), Some(0));
    assert_eq!(ModelUnloadTimeout::Sec5.to_seconds(), Some(5));
}

#[test]
fn seconds_are_sixty_times_minutes_except_the_debug_timeout() {
    for t in [
        ModelUnloadTimeout::Immediately,
        ModelUnloadTimeout::Min2,
        ModelUnloadTimeout::Min5,
        ModelUnloadTimeout::Min10,
        ModelUnloadTimeout::Min15,
        ModelUnloadTimeout::Hour1,
    ] {
        assert_eq!(t.to_seconds(), t.to_minutes().map(|m| m * 60));
    }
}

#[test]
fn enum_defaults() {
    assert_eq!(ModelUnloadTimeout::default(), ModelUnloadTimeout::Min5);
    assert_eq!(FontSize::default(), FontSize::Large);
}

#[test]
fn scalar_defaults() {
    assert_eq!(default_mcp_port(), 47823);
    assert_eq!(default_meeting_end_action(), "stop_recording");
    assert_eq!(default_meeting_start_action(), "disabled");
    assert_eq!(default_model(), "");
    assert_eq!(default_selected_language(), "auto");
    assert_eq!(default_log_level(), LogLevel::Info);
    assert_eq!(default_history_limit(), 5);
    assert_eq!(default_recording_retention_period(), RecordingRetentionPeriod::PreserveLimit);
    assert!(default_post_process_prompts().is_empty());
    assert!(default_debug_disable_pill_window("windows"));
    assert!(!default_debug_disable_pill_window("macos"));
    assert!(!default_debug_disable_pill_window("linux"));
}

#[test]
fn float_defaults_keep_their_bits() {
    assert_eq!(
        f32::from_bits(talky::settings::default_speaker_energy_threshold()),
        0.04f32
    );
    assert_eq!(f32::from_bits(talky::settings::default_mic_energy_threshold()), 0.02f32);
    assert_eq!(
        f64::from_bits(talky::settings::default_word_correction_threshold()),
        0.21f64
    );
}

#[test]
fn app_language_from_locale() {
    assert_eq!(default_app_language(Some("de-DE")), "de");
    assert_eq!(default_app_language(Some("pt_BR")), "pt");
    assert_eq!(default_app_language(Some("fr")), "fr");
    assert_eq!(default_app_language(Some("")), "");
    assert_eq!(default_app_language(None), "en");
}

#[test]
fn built_in_providers_in_order() {
    let ps = default_post_process_providers();
    let ids: Vec<&str> = ps.iter().map(|p| p.id.as_str()).collect();
    assert_eq!(ids, vec!["openai", "openrouter", "anthropic", "groq", "cerebras", "ollama", "custom"]);
    assert_eq!(ps[0].label, "OpenAI");
    assert_eq!(ps[0].base_url, "https://api.openai.com/v1");
    assert!(!ps[0].allow_base_url_edit);
    assert_eq!(ps[3].base_url, "https://api.groq.com/openai/v1");
    assert_eq!(ps[5].label, "Ollama (Local)");
    assert_eq!(ps[5].base_url, "http://localhost:11434/v1");
    assert!(ps[5].allow_base_url_edit);
    assert_eq!(ps[6].label, "Custom");
    assert!(ps[6].allow_base_url_edit);
    for p in &ps {
        assert_eq!(p.models_endpoint.as_deref(), Some("/models"));
    }
}

#[test]
fn default_settings_record() {
    let st = get_default_settings(Some("nl-NL"), "windows");
    assert_eq!(st.user_name, "");
    assert_eq!(st.data_directory, None);
    assert_eq!(st.font_size, FontSize::Large);
    assert!(!st.autostart_enabled);
    assert!(st.update_checks_enabled);
    assert_eq!(st.selected_model, "");
    assert_eq!(st.selected_language, "auto");
    assert_eq!(st.log_level, LogLevel::Info);
    assert_eq!(st.model_unload_timeout, ModelUnloadTimeout::Min5);
    assert_eq!(st.history_limit, 5);
    assert_eq!(st.post_process_providers.len(), 7);
    assert_eq!(st.app_language, "nl");
    assert!(st.word_suggestions_enabled);
    assert!(st.skip_mic_on_speaker_energy);
    assert!(st.model_environments.is_empty());
    assert_eq!(st.default_environment_id, None);
    assert_eq!(st.meeting_end_action, "stop_recording");
    assert_eq!(st.meeting_start_action, "disabled");
    assert!(st.debug_disable_pill_window);
    assert_eq!(st.debug_recordings_max_count, 5);
    assert!(!st.coreml_model_ready);
    assert_eq!(st.last_run_version, None);
    assert!(!st.pending_promotion);
    assert!(!st.mcp_enabled);
    assert_eq!(st.mcp_port, 47823);
    assert!(st.mcp_exposed_label_ids.is_empty());
    assert!(!st.mcp_expose_untagged);
}

#[test]
fn missing_built_in_providers_are_appended() {
    let mut st = settings();
    st.post_process_providers.retain(|p| p.id == "groq" || p.id == "openai");
    st.post_process_providers.reverse();
    assert!(ensure_post_process_defaults(&mut st));
    let ids: Vec<&str> = st.post_process_providers.iter().map(|p| p.id.as_str()).collect();
    assert_eq!(ids, vec!["groq", "openai", "openrouter", "anthropic", "cerebras", "ollama", "custom"]);
    assert!(!ensure_post_process_defaults(&mut st));
    assert_eq!(st.post_process_providers.len(), 7);
}

#[test]
fn starter_environment_only_when_none_exist() {
    let mut st = settings();
    assert!(create_default_environment_with_id(&mut st, s("env-1")));
    assert_eq!(st.model_environments.len(), 1);
    let e = &st.model_environments[0];
    assert_eq!(e.id, "env-1");
    assert_eq!(e.name, "General");
    assert_eq!(e.color, "#22c55e");
    assert_eq!(e.base_url, "");
    assert_eq!(e.summarisation_model, "");
    assert_eq!(st.default_environment_id.as_deref(), Some("env-1"));
    assert!(!create_default_environment_with_id(&mut st, s("env-2")));
    assert_eq!(st.model_environments.len(), 1);
}

#[test]
fn legacy_post_processing_keys_become_an_environment() {
    let raw = obj(vec![
        ("post_process_provider_id", JsonValue::Str(s("openai"))),
        (
            "post_process_api_keys",
            obj(vec![("openai", JsonValue::Str(s("sk-1"))), ("groq", JsonValue::Str(s("gk")))]),
        ),
        ("post_process_models", obj(vec![("openai", JsonValue::Str(s("gpt-4o")))])),
        ("chat_models", obj(vec![("openai", JsonValue::Str(s("gpt-chat")))])),
    ]);
    let mut st = settings();
    assert!(migrate_legacy_settings_with_id(&raw, &mut st, s("legacy")));
    let e = &st.model_environments[0];
    assert_eq!(e.id, "legacy");
    assert_eq!(e.name, "General");
    assert_eq!(e.base_url, "https://api.openai.com/v1");
    assert_eq!(e.api_key, "sk-1");
    assert_eq!(e.summarisation_model, "gpt-4o");
    assert_eq!(e.chat_model, "gpt-chat");
    assert_eq!(st.default_environment_id.as_deref(), Some("legacy"));
}

#[test]
fn legacy_migration_defaults() {
    // No provider id: the custom provider; no chat model: the summarisation model.
    let raw = obj(vec![("post_process_models", obj(vec![("custom", JsonValue::Str(s("llama")))]))]);
    let mut st = settings();
    assert!(migrate_legacy_settings_with_id(&raw, &mut st, s("l2")));
    let e = &st.model_environments[0];
    assert_eq!(e.base_url, "http://localhost:11434/v1");
    assert_eq!(e.api_key, "");
    assert_eq!(e.summarisation_model, "llama");
    assert_eq!(e.chat_model, "llama");
}

#[test]
fn legacy_migration_needs_legacy_data_and_no_environment() {
    let mut st = settings();
    let raw = obj(vec![("user_name", JsonValue::Str(s("x")))]);
    assert!(!migrate_legacy_settings_with_id(&raw, &mut st, s("a")));
    assert!(st.model_environments.is_empty());
    st.model_environments.push(env("e", "", "", ""));
    let legacy = obj(vec![("post_process_api_keys", obj(vec![]))]);
    assert!(!migrate_legacy_settings_with_id(&legacy, &mut st, s("b")));
    assert_eq!(st.model_environments.len(), 1);
}

#[test]
fn single_models_move_to_both_model_fields() {
    let mut st = settings();
    st.model_environments.push(env("a", "m", "", "chat"));
    st.model_environments.push(env("b", "", "", ""));
    st.model_environments.push(env("c", "old", "s", "c"));
    assert!(migrate_environment_models(&mut st));
    let a = &st.model_environments[0];
    assert_eq!((a.summarisation_model.as_str(), a.chat_model.as_str(), a.model.as_str()), ("m", "chat", ""));
    let b = &st.model_environments[1];
    assert_eq!((b.summarisation_model.as_str(), b.chat_model.as_str()), ("", ""));
    let c = &st.model_environments[2];
    assert_eq!((c.summarisation_model.as_str(), c.chat_model.as_str(), c.model.as_str()), ("s", "c", ""));
    assert!(!migrate_environment_models(&mut st));
}

#[test]
fn loaded_settings_are_normalized() {
    let mut st = settings();
    st.post_process_providers.truncate(2);
    assert!(normalize_loaded_settings(&mut st, None));
    assert_eq!(st.post_process_providers.len(), 7);
    assert_eq!(st.model_environments.len(), 1);
    assert_eq!(st.model_environments[0].name, "General");
    assert_eq!(st.default_environment_id.as_ref(), Some(&st.model_environments[0].id));
    assert!(!normalize_loaded_settings(&mut st, None));
}

#[test]
fn loaded_settings_with_legacy_document() {
    let raw = obj(vec![("post_process_api_keys", obj(vec![("custom", JsonValue::Str(s("k")))]))]);
    let mut st = settings();
    assert!(normalize_loaded_settings(&mut st, Some(&raw)));
    assert_eq!(st.model_environments.len(), 1);
    assert_eq!(st.model_environments[0].api_key, "k");
}

#[test]
fn environment_lookups() {
    let mut st = settings();
    st.model_environments.push(env("a", "", "sum-a", "chat-a"));
    st.model_environments.push(env("b", "", "", "chat-b"));
    st.default_environment_id = Some(s("a"));
    assert_eq!(st.get_environment("b").map(|e| e.id.as_str()), Some("b"));
    assert!(st.get_environment("z").is_none());
    assert_eq!(st.environment_index("b"), Some(1));
    assert_eq!(st.get_default_environment().map(|e| e.id.as_str()), Some("a"));
    assert_eq!(st.get_effective_environment(Some("b")).map(|e| e.id.as_str()), Some("b"));
    assert_eq!(st.get_effective_environment(None).map(|e| e.id.as_str()), Some("a"));
    assert!(st.get_effective_environment(Some("z")).is_none());
    assert_eq!(
        st.get_summarisation_config(None),
        Some((s("https://a.example"), s("key-a"), s("sum-a")))
    );
    // An environment without a summarisation model gives no configuration.
    assert_eq!(st.get_summarisation_config(Some("b")), None);
    if let Some(e) = st.get_environment_mut("b") {
        e.summarisation_model = s("sum-b");
    }
    assert_eq!(st.get_summarisation_config(Some("b")).map(|c| c.2), Some(s("sum-b")));
    st.default_environment_id = Some(s("gone"));
    assert!(st.get_default_environment().is_none());
    assert_eq!(st.get_summarisation_config(None), None);
}

#[test]
fn loaded_settings_without_legacy_get_a_blank_general_environment() {
    let mut st = settings();
    let raw = obj(vec![("user_name", JsonValue::Str(s("x")))]);
    assert!(normalize_loaded_settings(&mut st, Some(&raw)));
    let e = &st.model_environments[0];
    assert_eq!(e.name, "General");
    assert_eq!(
        (e.base_url.as_str(), e.api_key.as_str(), e.summarisation_model.as_str(), e.chat_model.as_str(), e.model.as_str()),
        ("", "", "", "", "")
    );
}

#[test]
fn loaded_settings_take_the_legacy_provider_model_and_key() {
    let raw = obj(vec![
        ("post_process_provider_id", JsonValue::Str(s("openai"))),
        ("post_process_api_keys", obj(vec![("openai", JsonValue::Str(s("sk-9")))])),
        ("post_process_models", obj(vec![("openai", JsonValue::Str(s("gpt-4o")))])),
    ]);
    let mut st = settings();
    assert!(normalize_loaded_settings(&mut st, Some(&raw)));
    let e = &st.model_environments[0];
    assert_eq!(e.base_url, "https://api.openai.com/v1");
    assert_eq!(e.api_key, "sk-9");
    assert_eq!(e.summarisation_model, "gpt-4o");
    assert_eq!(e.chat_model, "gpt-4o");
    assert_eq!(e.model, "");
}

#[test]
fn default_providers_are_added_once() {
    let mut st = settings();
    st.post_process_providers.truncate(3);
    assert!(normalize_loaded_settings(&mut st, None));
    let once = format!("{:?}", st.post_process_providers);
    assert!(!normalize_loaded_settings(&mut st, None));
    assert_eq!(format!("{:?}", st.post_process_providers), once);
}

#[test]
fn fresh_install_loads_defaults_with_a_general_environment() {
    let loaded = load_settings(None, None, Some("en-US"), "macos");
    assert!(loaded.store_defaults);
    assert!(loaded.needs_save);
    let st = loaded.settings;
    assert_eq!(st.model_environments.len(), 1);
    let e = &st.model_environments[0];
    assert_eq!(e.name, "General");
    assert_eq!((e.base_url.as_str(), e.api_key.as_str(), e.model.as_str()), ("", "", ""));
    assert_eq!(st.default_environment_id.as_ref(), Some(&e.id));
    assert_eq!(st.post_process_providers.len(), settings().post_process_providers.len());
}

#[test]
fn stored_settings_are_loaded_and_brought_up_to_date() {
    let mut stored = settings();
    stored.user_name = s("ada");
    stored.model_environments.push(env("e", "m", "", ""));
    stored.default_environment_id = Some(s("e"));
    let loaded = load_settings(Some(stored), None, None, "linux");
    assert!(!loaded.store_defaults);
    assert!(loaded.needs_save);
    assert_eq!(loaded.settings.user_name, "ada");
    let e = &loaded.settings.model_environments[0];
    assert_eq!((e.summarisation_model.as_str(), e.chat_model.as_str(), e.model.as_str()), ("m", "m", ""));
    let again = load_settings(Some(loaded.settings), None, None, "linux");
    assert!(!again.needs_save);
}
