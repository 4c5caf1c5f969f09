use talky::commands::settings::{
    add_post_process_prompt, add_post_process_prompt_with_id, add_word_suggestion,
    approve_word_suggestion, change_mcp_port_setting, consume_pending_promotion,
    create_environment, create_environment_with_id, delete_environment,
    delete_post_process_prompt, dismiss_word_suggestion, message, set_default_environment,
    set_post_process_selected_prompt, update_environment, update_post_process_prompt,
    user_data_directory,
};
use talky::settings::{get_default_settings, AppSettings};

fn settings() -> AppSettings {
    get_default_settings(Some("en"), "macos")
}

fn s(v: &str) -> String {
    v.to_string()
}

fn with_envs(ids: &[&str]) -> AppSettings {
    let mut st = settings();
    for id in ids {
        create_environment_with_id(
            &mut st,
            s(id),
            format!("name {id}"),
            s("#fff"),
            s("http://x"),
            s("k"),
            s("sum"),
            s("chat"),
        )
        .unwrap();
    }
    st
}

#[test]
fn message_joins_prefix_and_detail() {
    assert_eq!(message("Prompt not found: ", "p1"), "Prompt not found: p1");
}

#[test]
fn prompts_are_added_updated_and_deleted() {
    let mut st = settings();
    let p = add_post_process_prompt_with_id(&mut st, s("p1"), s("Summary"), s("Summarise"));
    assert_eq!((p.id.as_str(), p.name.as_str(), p.prompt.as_str()), ("p1", "Summary", "Summarise"));
    add_post_process_prompt_with_id(&mut st, s("p2"), s("Bullets"), s("List"));
    assert_eq!(update_post_process_prompt(&mut st, "p1", s("Short"), s("Shorten")), Ok(()));
    assert_eq!(st.post_process_prompts[0].name, "Short");
    assert_eq!(st.post_process_prompts[0].prompt, "Shorten");
    assert_eq!(st.post_process_prompts[0].id, "p1");
    assert_eq!(
        update_post_process_prompt(&mut st, "nope", s("a"), s("b")),
        Err(s("Prompt not found: nope"))
    );
    set_post_process_selected_prompt(&mut st, s("p1"));
    assert_eq!(st.post_process_selected_prompt_id.as_deref(), Some("p1"));
    assert_eq!(delete_post_process_prompt(&mut st, "p1"), Ok(()));
    assert_eq!(st.post_process_prompts.len(), 1);
    assert_eq!(st.post_process_selected_prompt_id, None);
    assert_eq!(delete_post_process_prompt(&mut st, "p1"), Err(s("Prompt not found: p1")));
}

#[test]
fn deleting_an_unselected_prompt_keeps_the_selection() {
    let mut st = settings();
    add_post_process_prompt_with_id(&mut st, s("a"), s("A"), s("a"));
    add_post_process_prompt_with_id(&mut st, s("b"), s("B"), s("b"));
    set_post_process_selected_prompt(&mut st, s("b"));
    assert_eq!(delete_post_process_prompt(&mut st, "a"), Ok(()));
    assert_eq!(st.post_process_selected_prompt_id.as_deref(), Some("b"));
}

#[test]
fn empty_prompt_id_clears_the_selection() {
    let mut st = settings();
    set_post_process_selected_prompt(&mut st, s("x"));
    set_post_process_selected_prompt(&mut st, s(""));
    assert_eq!(st.post_process_selected_prompt_id, None);
}

#[test]
fn new_prompts_get_fresh_ids() {
    let mut st = settings();
    let a = add_post_process_prompt(&mut st, s("A"), s("a"));
    let b = add_post_process_prompt(&mut st, s("B"), s("b"));
    assert_eq!(a.id.len(), 36);
    assert_ne!(a.id, b.id);
    assert_eq!(st.post_process_prompts.len(), 2);
}

#[test]
fn word_suggestions_lifecycle() {
    let mut st = settings();
    assert!(add_word_suggestion(&mut st, s("Verus"), s("Standup"), s("sess-1")));
    assert!(!add_word_suggestion(&mut st, s("Verus"), s("Other"), s("sess-2")));
    assert!(add_word_suggestion(&mut st, s("Tauri"), s("Standup"), s("sess-1")));
    assert_eq!(st.word_suggestions.len(), 2);
    assert_eq!(st.word_suggestions[0].source_session_id, "sess-1");

    approve_word_suggestion(&mut st, s("Verus"));
    assert_eq!(st.custom_words, vec![s("Verus")]);
    assert_eq!(st.word_suggestions.len(), 1);
    approve_word_suggestion(&mut st, s("Verus"));
    assert_eq!(st.custom_words, vec![s("Verus")]);
    assert!(!add_word_suggestion(&mut st, s("Verus"), s("t"), s("i")));

    dismiss_word_suggestion(&mut st, s("Tauri"));
    assert_eq!(st.dismissed_suggestions, vec![s("Tauri")]);
    assert!(st.word_suggestions.is_empty());
    assert!(!add_word_suggestion(&mut st, s("Tauri"), s("t"), s("i")));
}

#[test]
fn environments_are_limited_to_three() {
    let mut st = with_envs(&["a", "b", "c"]);
    assert_eq!(st.default_environment_id.as_deref(), Some("a"));
    let r = create_environment_with_id(&mut st, s("d"), s("n"), s("c"), s("u"), s("k"), s("m"), s("m"));
    assert_eq!(r.unwrap_err(), "Maximum of 3 environments allowed");
    assert_eq!(st.model_environments.len(), 3);
    let r2 = create_environment(&mut st, s("n"), s("c"), s("u"), s("k"), s("m"), s("m"));
    assert!(r2.is_err());
}

#[test]
fn created_environment_gets_a_fresh_id() {
    let mut st = settings();
    let e = create_environment(&mut st, s("Work"), s("#f00"), s("http://h"), s("key"), s("s"), s("c")).unwrap();
    assert_eq!(e.id.len(), 36);
    assert_eq!(e.name, "Work");
    assert_eq!(e.model, "");
    assert_eq!(st.default_environment_id.as_ref(), Some(&e.id));
}

#[test]
fn environments_are_updated_field_by_field() {
    let mut st = with_envs(&["a", "b"]);
    let e = update_environment(&mut st, "b", Some(s("Renamed")), None, None, Some(s("new-key")), None, Some(s("chat2"))).unwrap();
    assert_eq!(e.name, "Renamed");
    assert_eq!(e.color, "#fff");
    assert_eq!(e.api_key, "new-key");
    assert_eq!(e.summarisation_model, "sum");
    assert_eq!(e.chat_model, "chat2");
    assert_eq!(st.model_environments[1].name, "Renamed");
    let err = update_environment(&mut st, "zz", None, None, None, None, None, None).unwrap_err();
    assert_eq!(err, "Environment not found: zz");
}

#[test]
fn environment_deletion_rules() {
    let mut single = with_envs(&["only"]);
    assert_eq!(delete_environment(&mut single, "only", 0), Err(s("Cannot delete the last environment")));

    let mut st = with_envs(&["a", "b", "c"]);
    assert_eq!(
        delete_environment(&mut st, "b", 2),
        Err(s("Cannot delete environment: 2 note(s) are using it. Reassign them first."))
    );
    assert_eq!(delete_environment(&mut st, "zz", 0), Err(s("Environment not found: zz")));
    assert_eq!(st.model_environments.len(), 3);

    assert_eq!(delete_environment(&mut st, "a", 0), Ok(()));
    let ids: Vec<&str> = st.model_environments.iter().map(|e| e.id.as_str()).collect();
    assert_eq!(ids, vec!["b", "c"]);
    // The deleted one was the default: the first remaining one takes over.
    assert_eq!(st.default_environment_id.as_deref(), Some("b"));

    assert_eq!(delete_environment(&mut st, "c", 0), Ok(()));
    assert_eq!(st.default_environment_id.as_deref(), Some("b"));
}

#[test]
fn default_environment_must_exist() {
    let mut st = with_envs(&["a", "b"]);
    assert_eq!(set_default_environment(&mut st, s("b")), Ok(()));
    assert_eq!(st.default_environment_id.as_deref(), Some("b"));
    assert_eq!(set_default_environment(&mut st, s("x")), Err(s("Environment not found: x")));
    assert_eq!(st.default_environment_id.as_deref(), Some("b"));
}

#[test]
fn mcp_port_below_1024_is_refused() {
    let mut st = settings();
    assert_eq!(change_mcp_port_setting(&mut st, 1023), Err(s("Port must be >= 1024")));
    assert_eq!(st.mcp_port, 47823);
    assert_eq!(change_mcp_port_setting(&mut st, 1024), Ok(()));
    assert_eq!(st.mcp_port, 1024);
}

#[test]
fn pending_promotion_reads_true_once() {
    let mut st = settings();
    st.pending_promotion = true;
    assert!(consume_pending_promotion(&mut st));
    assert!(!consume_pending_promotion(&mut st));
    assert!(!st.pending_promotion);
}

#[test]
fn user_data_directory_prefers_the_custom_one() {
    let mut st = settings();
    assert_eq!(user_data_directory(&st, "/app/data"), "/app/data");
    st.data_directory = Some(s("/Users/me/iCloud/Talky"));
    assert_eq!(user_data_directory(&st, "/app/data"), "/Users/me/iCloud/Talky");
}
