use talky::mcp::service::{
    build_visibility, get_note, hidden_note_message, list_notes, note_is_visible, search_notes,
    server_instructions, LabelDto, NoteDetail, NoteLookup, NoteSummary, SearchHit, SearchResult,
    Visibility,
};
use talky::mcp::{port_after_attempt, public_url, reconcile_action, status_for, ReconcileAction};
use talky::settings::get_default_settings;

fn s(v: &str) -> String {
    v.to_string()
}

fn visibility(labels: &[&str], untagged: bool) -> Visibility {
    Visibility { exposed_label_ids: labels.iter().map(|l| s(l)).collect(), expose_untagged: untagged }
}

fn summary(id: &str, labels: &[&str]) -> NoteSummary {
    NoteSummary {
        id: s(id),
        title: format!("Note {id}"),
        started_at: 10,
        ended_at: Some(20),
        labels: labels.iter().map(|l| LabelDto { id: s(l), name: l.to_uppercase() }).collect(),
    }
}

fn detail(id: &str) -> NoteDetail {
    NoteDetail {
        id: s(id),
        title: s("t"),
        started_at: 1,
        ended_at: None,
        labels: vec![],
        summary: Some(s("sum")),
        action_items: None,
        decisions: None,
        user_notes: None,
        enhanced_notes: None,
        transcript: vec![],
    }
}

#[test]
fn advertised_url() {
    assert_eq!(public_url(47823), "http://127.0.0.1:47823");
    assert_eq!(public_url(0), "http://127.0.0.1:0");
    assert_eq!(public_url(65535), "http://127.0.0.1:65535");
}

#[test]
fn server_status() {
    let running = status_for(Some(8080));
    assert!(running.running);
    assert_eq!(running.port, Some(8080));
    assert_eq!(running.url.as_deref(), Some("http://127.0.0.1:8080"));
    let stopped = status_for(None);
    assert!(!stopped.running);
    assert_eq!(stopped.port, None);
    assert_eq!(stopped.url, None);
}

#[test]
fn reconciling_with_the_settings() {
    assert_eq!(reconcile_action(None, false, 47823), ReconcileAction::Keep);
    assert_eq!(reconcile_action(None, true, 47823), ReconcileAction::Start(47823));
    assert_eq!(reconcile_action(Some(47823), true, 47823), ReconcileAction::Keep);
    assert_eq!(reconcile_action(Some(5000), true, 47823), ReconcileAction::Start(47823));
    assert_eq!(reconcile_action(Some(5000), false, 47823), ReconcileAction::Stop);
}

#[test]
fn reconciling_twice_changes_nothing_the_second_time() {
    for running in [None, Some(1u16), Some(47823u16)] {
        for enabled in [false, true] {
            let first = reconcile_action(running, enabled, 47823);
            let after = match first {
                ReconcileAction::Keep => running,
                ReconcileAction::Stop => None,
                ReconcileAction::Start(p) => Some(p),
            };
            assert_eq!(after, if enabled { Some(47823) } else { None });
            assert_eq!(reconcile_action(after, enabled, 47823), ReconcileAction::Keep);
        }
    }
}

#[test]
fn visibility_rule() {
    let v = visibility(&["work", "team"], false);
    assert!(note_is_visible(&vec![s("home"), s("team")], &v));
    assert!(!note_is_visible(&vec![s("home")], &v));
    assert!(!note_is_visible(&vec![], &v));
    let open = visibility(&[], true);
    assert!(note_is_visible(&vec![], &open));
    assert!(!note_is_visible(&vec![s("work")], &open));
}

#[test]
fn visibility_from_settings() {
    let mut st = get_default_settings(None, "macos");
    st.mcp_exposed_label_ids = vec![s("a"), s("b")];
    st.mcp_expose_untagged = true;
    let v = build_visibility(&st);
    assert_eq!(v.exposed_label_ids, vec![s("a"), s("b")]);
    assert!(v.expose_untagged);
}

#[test]
fn listing_keeps_visible_notes_in_order() {
    let v = visibility(&["work"], true);
    let notes = vec![
        summary("1", &["work"]),
        summary("2", &["home"]),
        summary("3", &[]),
        summary("4", &["home", "work"]),
    ];
    let listed = list_notes(notes, &v);
    let ids: Vec<&str> = listed.iter().map(|n| n.id.as_str()).collect();
    assert_eq!(ids, vec!["1", "3", "4"]);
    assert_eq!(listed[2].labels[1].name, "WORK");
    assert!(list_notes(vec![summary("x", &[])], &visibility(&[], false)).is_empty());
}

#[test]
fn search_keeps_hits_on_visible_notes() {
    let v = visibility(&["work"], false);
    let hit = |id: &str, tags: &[&str]| SearchHit {
        result: SearchResult {
            id: s(id),
            title: s("t"),
            started_at: 5,
            matched_field: s("title"),
            snippet: s("…budget…"),
        },
        tag_ids: tags.iter().map(|t| s(t)).collect(),
    };
    let results = search_notes(vec![hit("a", &["work"]), hit("b", &[]), hit("c", &["x", "work"])], &v);
    let ids: Vec<&str> = results.iter().map(|r| r.id.as_str()).collect();
    assert_eq!(ids, vec!["a", "c"]);
    assert_eq!(results[0].snippet, "…budget…");
}

#[test]
fn fetching_never_reveals_hidden_notes() {
    let v = visibility(&["work"], false);
    assert!(matches!(get_note(&vec![s("home")], &v, Some(detail("n"))), NoteLookup::Hidden));
    assert!(matches!(get_note(&vec![s("home")], &v, None), NoteLookup::Hidden));
    assert!(matches!(get_note(&vec![s("work")], &v, None), NoteLookup::Hidden));
    let untagged = visibility(&[], true);
    assert!(matches!(get_note(&vec![], &untagged, None), NoteLookup::Hidden));
    assert!(matches!(get_note(&vec![s("home")], &untagged, Some(detail("n"))), NoteLookup::Hidden));
    match get_note(&vec![s("work")], &v, Some(detail("n"))) {
        NoteLookup::Found(d) => assert_eq!(d.summary.as_deref(), Some("sum")),
        other => panic!("unexpected {:?}", other),
    }
    assert_eq!(hidden_note_message(), "Note not found or not exposed via MCP");
}

#[test]
fn instructions_for_clients() {
    assert!(server_instructions().starts_with("Talky MCP server. Exposes a configurable subset"));
    assert!(server_instructions().ends_with("from the Talky settings page."));
}

#[test]
fn port_after_a_reconcile_attempt() {
    assert_eq!(port_after_attempt(Some(47823), ReconcileAction::Keep, false), Some(47823));
    assert_eq!(port_after_attempt(Some(5000), ReconcileAction::Stop, false), None);
    assert_eq!(port_after_attempt(Some(5000), ReconcileAction::Start(47823), true), Some(47823));
    assert_eq!(port_after_attempt(Some(5000), ReconcileAction::Start(47823), false), None);
    assert_eq!(port_after_attempt(None, ReconcileAction::Keep, false), None);
}
