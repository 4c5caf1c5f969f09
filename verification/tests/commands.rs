use talky::commands::mcp::mcp_list_clients;
use talky::commands::{
    logs_mailto, logs_subject, migration_steps, ollama_base, ollama_model_names,
    ollama_tags_url, percent_encode_mailto_component, ErrorKind,
};
use talky::json::JsonValue;
use talky::mcp::oauth::store::OAuthStore;

fn s(v: &str) -> String {
    v.to_string()
}

#[test]
fn unreserved_bytes_pass_through() {
    assert_eq!(percent_encode_mailto_component("AZaz09-_.~"), "AZaz09-_.~");
    assert_eq!(percent_encode_mailto_component(""), "");
}

#[test]
fn other_bytes_become_upper_case_escapes() {
    assert_eq!(percent_encode_mailto_component("a b&c=d?"), "a%20b%26c%3Dd%3F");
    assert_eq!(percent_encode_mailto_component("line\n"), "line%0A");
    assert_eq!(percent_encode_mailto_component("—"), "%E2%80%94");
    assert_eq!(percent_encode_mailto_component("é"), "%C3%A9");
}

#[test]
fn encoded_components_hold_only_unreserved_characters() {
    let out = percent_encode_mailto_component("Ünïcödé / spaces & ☃ \"quotes\"");
    assert!(out
        .chars()
        .all(|c| c.is_ascii_alphanumeric() || "-_.~%".contains(c)));
}

#[test]
fn report_subjects() {
    assert_eq!(logs_subject(None, "0.13.1"), "Talky logs — v0.13.1");
    assert_eq!(logs_subject(Some(ErrorKind::NativeCrash), "1.0"), "Talky crash — native — v1.0");
    assert_eq!(
        logs_subject(Some(ErrorKind::SidecarCrashed), "1.0"),
        "Talky crash — Core ML sidecar — v1.0"
    );
    assert_eq!(
        logs_subject(Some(ErrorKind::ModelLoadFailed), "1.0"),
        "Talky — model load failure — v1.0"
    );
}

#[test]
fn report_mailto_url() {
    let url = logs_mailto("dev@example.com", "2.1.0", None);
    assert_eq!(
        url,
        "mailto:dev@example.com?subject=Talky%20logs%20%E2%80%94%20v2.1.0&body=Please%20attach%20the%20talky.log%20file%20from%20the%20Finder%20window%20that%20just%20opened.%0A%0AShort%20description%20of%20what%20happened%3A%0A"
    );
}

#[test]
fn ollama_base_url_is_trimmed() {
    assert_eq!(ollama_base(None), "http://localhost:11434");
    assert_eq!(ollama_base(Some(s("http://host:11434/v1/"))), "http://host:11434");
    assert_eq!(ollama_base(Some(s("http://host:11434///"))), "http://host:11434");
    assert_eq!(ollama_base(Some(s("http://h/v1/v1"))), "http://h");
    assert_eq!(ollama_base(Some(s("http://h/v2"))), "http://h/v2");
    assert_eq!(ollama_base(Some(s(""))), "");
    assert_eq!(ollama_tags_url(None), "http://localhost:11434/api/tags");
    assert_eq!(ollama_tags_url(Some(s("http://10.0.0.2:11434/v1"))), "http://10.0.0.2:11434/api/tags");
}

#[test]
fn ollama_model_names_are_read_from_the_listing() {
    let model = |name: Option<&str>| {
        let mut entries = vec![(s("size"), JsonValue::Number(s("123")))];
        if let Some(n) = name {
            entries.push((s("name"), JsonValue::Str(s(n))));
        }
        JsonValue::Object(entries)
    };
    let listing = JsonValue::Object(vec![(
        s("models"),
        JsonValue::Array(vec![model(Some("llama3.1:8b")), model(None), model(Some("qwen2.5:7b"))]),
    )]);
    assert_eq!(ollama_model_names(&listing), vec![s("llama3.1:8b"), s("qwen2.5:7b")]);
    let no_models = JsonValue::Object(vec![(s("models"), JsonValue::Null)]);
    assert!(ollama_model_names(&no_models).is_empty());
    assert!(ollama_model_names(&JsonValue::Array(vec![])).is_empty());
}

#[test]
fn data_migration_copies_databases_then_journals() {
    let steps = migration_steps(true, false);
    let plan: Vec<(&str, bool)> = steps.iter().map(|st| (st.file_name.as_str(), st.database)).collect();
    assert_eq!(
        plan,
        vec![
            ("sessions.db", true),
            ("history.db", true),
            ("sessions.db-wal", false),
            ("history.db-wal", false),
            ("sessions.db-shm", false),
            ("history.db-shm", false),
        ]
    );
    assert!(migration_steps(false, false).is_empty());
    assert!(migration_steps(true, true).is_empty());
}

#[test]
fn listed_clients_are_live_and_newest_first() {
    let mut store = OAuthStore::new();
    let uris = vec![s("http://127.0.0.1:9000/cb")];
    store.register_client_at(s("old"), "Old", &uris, 100).unwrap();
    store.register_client_at(s("new"), "New", &uris, 300).unwrap();
    store.register_client_at(s("mid"), "Mid", &uris, 200).unwrap();
    store.register_client_at(s("gone"), "Gone", &uris, 400).unwrap();
    store.revoke_client("gone");
    store.touch_client_at("mid", 250);
    let infos = mcp_list_clients(&store);
    let ids: Vec<&str> = infos.iter().map(|c| c.id.as_str()).collect();
    assert_eq!(ids, vec!["new", "mid", "old"]);
    assert_eq!(infos[1].name, "Mid");
    assert_eq!(infos[1].last_used_at, Some(250));
    assert_eq!(infos[0].last_used_at, None);
    assert_eq!(infos[2].redirect_uris, uris);
    assert_eq!(infos[2].created_at, 100);
}

fn percent_decode(s: &str) -> Vec<u8> {
    let b = s.as_bytes();
    let mut out = Vec::new();
    let mut i = 0;
    while i < b.len() {
        if b[i] == b'%' {
            out.push(u8::from_str_radix(&s[i + 1..i + 3], 16).unwrap());
            i += 3;
        } else {
            out.push(b[i]);
            i += 1;
        }
    }
    out
}

#[test]
fn percent_encoding_decodes_back() {
    for text in ["", "plain", "a b&c=d?%", "Ünïcödé / ☃ \"q\"\n", "100% ~ _-."] {
        let encoded = percent_encode_mailto_component(text);
        assert!(encoded.is_ascii());
        assert!(encoded.len() >= text.len());
        assert_eq!(percent_decode(&encoded), text.as_bytes());
    }
}
