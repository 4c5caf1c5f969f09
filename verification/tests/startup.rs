use talky::json::JsonValue;
use talky::settings::{get_default_settings, LogLevel};
use talky::startup::{
    apply_startup_upgrade, choose_pill_monitor, detect_upgrade_state, file_log_allows,
    is_position_on_valid_monitor, level_filter_from_u8, main_window_close_action,
    main_window_focus_action, panic_location, panic_log_line, pill_needs_reposition,
    pill_position, tray_menu_action, update_check_wanted, CloseAction, LevelFilter, MonitorRect,
    PillAction, TrayAction, UpgradeState,
};

const ONNX: &str = "parakeet-tdt-0.6b-v3";
const COREML: &str = "parakeet-tdt-0.6b-v3-coreml";

fn s(v: &str) -> String {
    v.to_string()
}

fn obj(entries: Vec<(&str, JsonValue)>) -> JsonValue {
    JsonValue::Object(entries.into_iter().map(|(k, v)| (k.to_string(), v)).collect())
}

fn rect(x: i32, y: i32, w: u32, h: u32) -> MonitorRect {
    MonitorRect { x, y, width: w, height: h }
}

#[test]
fn no_settings_document_means_nothing_to_do() {
    assert_eq!(detect_upgrade_state(None, ONNX), UpgradeState::NoAction);
    assert_eq!(detect_upgrade_state(Some(&obj(vec![])), ONNX), UpgradeState::NoAction);
}

#[test]
fn settings_without_a_recorded_version_are_an_old_upgrade() {
    let raw = obj(vec![("user_name", JsonValue::Str(s("Ann")))]);
    assert_eq!(detect_upgrade_state(Some(&raw), ONNX), UpgradeState::V012Upgrade);
}

#[test]
fn finished_core_ml_download_is_promoted_once() {
    let raw = obj(vec![
        ("last_run_version", JsonValue::Str(s("0.13.0"))),
        ("coreml_model_ready", JsonValue::Bool(true)),
        ("selected_model", JsonValue::Str(s(ONNX))),
    ]);
    assert_eq!(detect_upgrade_state(Some(&raw), ONNX), UpgradeState::PromoteReady);
    let promoted = obj(vec![
        ("last_run_version", JsonValue::Str(s("0.13.0"))),
        ("coreml_model_ready", JsonValue::Bool(true)),
        ("selected_model", JsonValue::Str(s(COREML))),
    ]);
    assert_eq!(detect_upgrade_state(Some(&promoted), ONNX), UpgradeState::NoAction);
    let not_ready = obj(vec![
        ("last_run_version", JsonValue::Str(s("0.13.0"))),
        ("coreml_model_ready", JsonValue::Bool(false)),
        ("selected_model", JsonValue::Str(s(ONNX))),
    ]);
    assert_eq!(detect_upgrade_state(Some(&not_ready), ONNX), UpgradeState::NoAction);
}

#[test]
fn startup_marks_an_old_upgrade_and_stamps_the_version() {
    let mut st = get_default_settings(None, "macos");
    st.coreml_model_ready = true;
    let dirty = apply_startup_upgrade(&mut st, UpgradeState::V012Upgrade, "0.13.2", COREML);
    assert!(dirty);
    assert!(!st.coreml_model_ready);
    assert_eq!(st.last_run_version.as_deref(), Some("0.13.2"));
    assert!(!st.pending_promotion);
}

#[test]
fn startup_promotes_the_core_ml_model() {
    let mut st = get_default_settings(None, "macos");
    st.selected_model = s(ONNX);
    st.last_run_version = Some(s("0.13.2"));
    let dirty = apply_startup_upgrade(&mut st, UpgradeState::PromoteReady, "0.13.2", COREML);
    assert!(dirty);
    assert_eq!(st.selected_model, COREML);
    assert!(st.pending_promotion);
}

#[test]
fn quiet_startup_changes_nothing() {
    let mut st = get_default_settings(None, "macos");
    st.last_run_version = Some(s("0.14.0"));
    assert!(!apply_startup_upgrade(&mut st, UpgradeState::NoAction, "0.14.0", COREML));
    assert_eq!(st.last_run_version.as_deref(), Some("0.14.0"));
    assert!(apply_startup_upgrade(&mut st, UpgradeState::NoAction, "0.14.1", COREML));
    assert_eq!(st.last_run_version.as_deref(), Some("0.14.1"));
}

#[test]
fn stored_filter_numbers() {
    assert_eq!(level_filter_from_u8(0), LevelFilter::Off);
    assert_eq!(level_filter_from_u8(1), LevelFilter::Error);
    assert_eq!(level_filter_from_u8(2), LevelFilter::Warn);
    assert_eq!(level_filter_from_u8(3), LevelFilter::Info);
    assert_eq!(level_filter_from_u8(4), LevelFilter::Debug);
    assert_eq!(level_filter_from_u8(5), LevelFilter::Trace);
    assert_eq!(level_filter_from_u8(200), LevelFilter::Trace);
}

#[test]
fn file_log_takes_the_chosen_level_and_more_severe() {
    let stored = LogLevel::Info.filter_value();
    assert!(file_log_allows(LogLevel::Error, stored));
    assert!(file_log_allows(LogLevel::Warn, stored));
    assert!(file_log_allows(LogLevel::Info, stored));
    assert!(!file_log_allows(LogLevel::Debug, stored));
    assert!(!file_log_allows(LogLevel::Trace, stored));
    assert!(!file_log_allows(LogLevel::Error, 0));
    assert!(file_log_allows(LogLevel::Trace, 9));
}

#[test]
fn positions_on_connected_monitors() {
    let monitors = vec![rect(0, 0, 1920, 1080), rect(1920, -200, 1280, 1024)];
    assert!(is_position_on_valid_monitor(&monitors, 0, 0));
    assert!(is_position_on_valid_monitor(&monitors, 1919, 1079));
    assert!(!is_position_on_valid_monitor(&monitors, 1919, 1080));
    assert!(is_position_on_valid_monitor(&monitors, 2000, -100));
    assert!(!is_position_on_valid_monitor(&monitors, 3200, 0));
    assert!(!is_position_on_valid_monitor(&vec![], 0, 0));
    assert!(pill_needs_reposition(None, &monitors));
    assert!(pill_needs_reposition(Some((-50, 10)), &monitors));
    assert!(!pill_needs_reposition(Some((100, 100)), &monitors));
}

#[test]
fn pill_goes_top_right_with_padding() {
    assert_eq!(pill_position(rect(0, 0, 1920, 1080), 300), (1600, 20));
    assert_eq!(pill_position(rect(-1280, 100, 1280, 1024), 200), (-220, 120));
}

#[test]
fn pill_monitor_preference() {
    let main = rect(1, 1, 10, 10);
    let primary = rect(2, 2, 10, 10);
    let others = vec![rect(3, 3, 10, 10), rect(4, 4, 10, 10)];
    assert_eq!(choose_pill_monitor(Some(main), Some(primary), &others).map(|m| m.x), Some(1));
    assert_eq!(choose_pill_monitor(None, Some(primary), &others).map(|m| m.x), Some(2));
    assert_eq!(choose_pill_monitor(None, None, &others).map(|m| m.x), Some(3));
    assert!(choose_pill_monitor(None, None, &vec![]).is_none());
}

#[test]
fn main_window_events() {
    assert_eq!(main_window_close_action(true, false, true), CloseAction::Exit);
    assert_eq!(main_window_close_action(false, false, true), CloseAction::Hide { show_pill: true });
    assert_eq!(main_window_close_action(false, true, true), CloseAction::Hide { show_pill: false });
    assert_eq!(main_window_close_action(false, false, false), CloseAction::Hide { show_pill: false });
    assert_eq!(main_window_focus_action(true, false, true), PillAction::Hide);
    assert_eq!(main_window_focus_action(false, false, true), PillAction::Show);
    assert_eq!(main_window_focus_action(false, true, true), PillAction::Leave);
    assert_eq!(main_window_focus_action(false, false, false), PillAction::Leave);
}

#[test]
fn tray_menu_entries() {
    assert_eq!(tray_menu_action("new_note"), TrayAction::NewNote);
    assert_eq!(tray_menu_action("stop_recording"), TrayAction::StopRecording);
    assert_eq!(tray_menu_action("quit"), TrayAction::Quit);
    assert_eq!(tray_menu_action("settings"), TrayAction::Ignore);
}

#[test]
fn update_checks_follow_the_setting() {
    let mut st = get_default_settings(None, "linux");
    assert!(update_check_wanted(&st));
    st.update_checks_enabled = false;
    assert!(!update_check_wanted(&st));
}

#[test]
fn panic_log_lines() {
    let loc = panic_location("src/lib.rs", 42, 7);
    assert_eq!(loc, "src/lib.rs:42:7");
    assert_eq!(
        panic_log_line(1700000000, &loc, "boom"),
        "[t=1700000000s][PANIC] at src/lib.rs:42:7: boom"
    );
}
