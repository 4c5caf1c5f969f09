//! What the application decides while it starts and runs, apart from the
//! windowing toolkit and the stores: upgrade detection on the raw settings
//! document, the settings changes made at startup, the file log filter, the
//! placement of the recording pill, and the answers to window and tray
//! events.

use vstd::prelude::*;
use crate::json::JsonValue;
use crate::mcp::oauth::store::opt_view;
use crate::settings::{spec_filter_value, AppSettings, LogLevel};
use crate::text::{push_str, str_eq, string_of, u64_to_decimal};

verus! {

// ---------------------------------------------------------------------------
// Upgrades
// ---------------------------------------------------------------------------

/// What startup has to do about an upgrade.
#[derive(Clone, Copy, Debug, PartialEq, Eq, Structural)]
pub enum UpgradeState {
    /// Fresh install, or an up-to-date user with nothing to do.
    NoAction,
    /// Settings written by a version that did not record the last run
    /// version: start the background download of the Core ML model and
    /// leave the selected model as it is.
    V012Upgrade,
    /// The Core ML model finished downloading: switch the selected model
    /// from the ONNX id to the Core ML id and show the promotion banner.
    PromoteReady,
}

/// The upgrade state read from the raw settings document `raw` (`None`
/// when the store could not be opened or holds no settings), where
/// `onnx_model_id` is the id of the ONNX build of the model.
pub open spec fn spec_upgrade_state(raw: Option<JsonValue>, onnx_model_id: Seq<char>) -> UpgradeState {
    match raw {
        None => UpgradeState::NoAction,
        Some(v) => {
            let has_last_run = v.spec_member("last_run_version"@) is Some;
            let populated = v matches JsonValue::Object(e) && e@.len() > 0;
            if populated && !has_last_run {
                UpgradeState::V012Upgrade
            } else {
                let ready = match v.spec_member("coreml_model_ready"@) {
                    Some(b) => b.spec_as_bool() == Some(true),
                    None => false,
                };
                let selected = match v.spec_member_str("selected_model"@) {
                    Some(s) => s,
                    None => Seq::empty(),
                };
                if ready && selected == onnx_model_id {
                    UpgradeState::PromoteReady
                } else {
                    UpgradeState::NoAction
                }
            }
        },
    }
}

/// Reads the upgrade state from the raw settings document before defaults
/// fill it in; see `spec_upgrade_state`.
pub fn detect_upgrade_state(raw: Option<&JsonValue>, onnx_model_id: &str) -> (r: UpgradeState)
    ensures
        r == spec_upgrade_state(
            match raw {
                Some(v) => Some(*v),
                None => None,
            },
            onnx_model_id@,
        ),
{
    let raw = match raw {
        Some(v) => v,
        None => return UpgradeState::NoAction,
    };
    let has_last_run = raw.get("last_run_version").is_some();
    let populated = raw.is_non_empty_object();
    if populated && !has_last_run {
        return UpgradeState::V012Upgrade;
    }
    let ready = match raw.get("coreml_model_ready") {
        Some(b) => match b.as_bool() {
            Some(x) => x,
            None => false,
        },
        None => false,
    };
    let selected = match raw.member_str("selected_model") {
        Some(s) => s,
        None => "",
    };
    proof {
        reveal_strlit("");
        let v = *raw;
        assert(ready == match v.spec_member("coreml_model_ready"@) {
            Some(b) => b.spec_as_bool() == Some(true),
            None => false,
        });
        assert(selected@ == match v.spec_member_str("selected_model"@) {
            Some(s) => s,
            None => Seq::<char>::empty(),
        });
    }
    if ready && str_eq(selected, onnx_model_id) {
        UpgradeState::PromoteReady
    } else {
        UpgradeState::NoAction
    }
}

/// Once a run has recorded its version in the settings document, later
/// starts never take that document for an upgrade from an old version; and
/// once the selected model is the Core ML one (distinct from the ONNX id),
/// the promotion is not offered again.
pub proof fn law_upgrade_is_detected_once(raw: JsonValue, onnx_model_id: Seq<char>, coreml_model_id: Seq<char>)
    ensures
        raw.spec_member("last_run_version"@) is Some ==> spec_upgrade_state(Some(raw), onnx_model_id)
            != UpgradeState::V012Upgrade,
        raw.spec_member_str("selected_model"@) == Some(coreml_model_id) && coreml_model_id
            != onnx_model_id ==> spec_upgrade_state(Some(raw), onnx_model_id)
            != UpgradeState::PromoteReady,
{
}

/// Whether `new` differs from `old` at most in the fields startup touches.
pub open spec fn only_startup_fields_changed(new: AppSettings, old: AppSettings) -> bool {
    new == (AppSettings {
        coreml_model_ready: new.coreml_model_ready,
        selected_model: new.selected_model,
        pending_promotion: new.pending_promotion,
        last_run_version: new.last_run_version,
        ..old
    })
}

fn set_coreml_not_ready(settings: &mut AppSettings)
    ensures
        only_startup_fields_changed(*final(settings), *old(settings)),
        final(settings).coreml_model_ready == false,
        final(settings).selected_model == old(settings).selected_model,
        final(settings).pending_promotion == old(settings).pending_promotion,
        final(settings).last_run_version == old(settings).last_run_version,
{
    settings.coreml_model_ready = false;
}

fn promote_model(settings: &mut AppSettings, coreml_model_id: &str)
    ensures
        only_startup_fields_changed(*final(settings), *old(settings)),
        final(settings).coreml_model_ready == old(settings).coreml_model_ready,
        final(settings).selected_model@ == coreml_model_id@,
        final(settings).pending_promotion == true,
        final(settings).last_run_version == old(settings).last_run_version,
{
    settings.selected_model = string_of(coreml_model_id);
    settings.pending_promotion = true;
}

fn stamp_version(settings: &mut AppSettings, version: &str)
    ensures
        only_startup_fields_changed(*final(settings), *old(settings)),
        final(settings).coreml_model_ready == old(settings).coreml_model_ready,
        final(settings).selected_model == old(settings).selected_model,
        final(settings).pending_promotion == old(settings).pending_promotion,
        opt_view(final(settings).last_run_version) == Some(version@),
{
    settings.last_run_version = Some(string_of(version));
}

/// Applies the upgrade state to the settings at startup and records
/// `current_version` as the last run version; returns whether anything
/// changed (and must be written back). An upgrade from a version that did
/// not record itself marks the Core ML model as not ready; a finished
/// download switches the selected model to `coreml_model_id` and sets the
/// promotion flag.
pub fn apply_startup_upgrade(
    settings: &mut AppSettings,
    state: UpgradeState,
    current_version: &str,
    coreml_model_id: &str,
) -> (dirty: bool)
    ensures
        only_startup_fields_changed(*final(settings), *old(settings)),
        final(settings).coreml_model_ready == (if state == UpgradeState::V012Upgrade {
            false
        } else {
            old(settings).coreml_model_ready
        }),
        final(settings).selected_model@ == (if state == UpgradeState::PromoteReady {
            coreml_model_id@
        } else {
            old(settings).selected_model@
        }),
        final(settings).pending_promotion == (state == UpgradeState::PromoteReady
            || old(settings).pending_promotion),
        opt_view(final(settings).last_run_version) == Some(current_version@),
        dirty == (state != UpgradeState::NoAction || opt_view(old(settings).last_run_version)
            != Some(current_version@)),
{
    let mut dirty = false;
    match state {
        UpgradeState::V012Upgrade => {
            set_coreml_not_ready(settings);
            dirty = true;
        },
        UpgradeState::PromoteReady => {
            promote_model(settings, coreml_model_id);
            dirty = true;
        },
        UpgradeState::NoAction => {},
    }
    let same = match &settings.last_run_version {
        Some(v) => str_eq(v.as_str(), current_version),
        None => false,
    };
    if !same {
        stamp_version(settings, current_version);
        dirty = true;
    }
    dirty
}

// ---------------------------------------------------------------------------
// File log filter
// ---------------------------------------------------------------------------

/// A log filter: the most verbose level that passes, or nothing.
#[derive(Clone, Copy, Debug, PartialEq, Eq, Structural)]
pub enum LevelFilter {
    Off,
    Error,
    Warn,
    Info,
    Debug,
    Trace,
}

/// A filter's place in the order `Off < Error < .. < Trace`.
pub open spec fn filter_rank(f: LevelFilter) -> u8 {
    match f {
        LevelFilter::Off => 0,
        LevelFilter::Error => 1,
        LevelFilter::Warn => 2,
        LevelFilter::Info => 3,
        LevelFilter::Debug => 4,
        LevelFilter::Trace => 5,
    }
}

/// The filter stored as the number `value`; numbers past the last level
/// mean the most verbose filter.
pub open spec fn spec_level_filter_from_u8(value: u8) -> LevelFilter {
    if value == 0 {
        LevelFilter::Off
    } else if value == 1 {
        LevelFilter::Error
    } else if value == 2 {
        LevelFilter::Warn
    } else if value == 3 {
        LevelFilter::Info
    } else if value == 4 {
        LevelFilter::Debug
    } else {
        LevelFilter::Trace
    }
}

/// The filter stored as the number `value`.
pub fn level_filter_from_u8(value: u8) -> (f: LevelFilter)
    ensures
        f == spec_level_filter_from_u8(value),
{
    match value {
        0 => LevelFilter::Off,
        1 => LevelFilter::Error,
        2 => LevelFilter::Warn,
        3 => LevelFilter::Info,
        4 => LevelFilter::Debug,
        5 => LevelFilter::Trace,
        _ => LevelFilter::Trace,
    }
}

/// Whether a record at `level` goes to the log file when the stored file
/// filter is `stored`: when the level is no more verbose than the filter.
pub fn file_log_allows(level: LogLevel, stored: u8) -> (r: bool)
    ensures
        r == (spec_filter_value(level) <= filter_rank(spec_level_filter_from_u8(stored))),
{
    let f = level_filter_from_u8(stored);
    let rank: u8 = match f {
        LevelFilter::Off => 0,
        LevelFilter::Error => 1,
        LevelFilter::Warn => 2,
        LevelFilter::Info => 3,
        LevelFilter::Debug => 4,
        LevelFilter::Trace => 5,
    };
    level.filter_value() <= rank
}

/// Storing the user's log level and reading it back gives the filter of
/// that level, and the file then takes exactly the records at that level
/// or more severe ones.
pub proof fn law_stored_log_level_round_trips(level: LogLevel, record: LogLevel)
    ensures
        filter_rank(spec_level_filter_from_u8(spec_filter_value(level))) == spec_filter_value(level),
        (spec_filter_value(record) <= filter_rank(spec_level_filter_from_u8(spec_filter_value(level))))
            <==> (spec_filter_value(record) <= spec_filter_value(level)),
{
}

// ---------------------------------------------------------------------------
// The recording pill
// ---------------------------------------------------------------------------

/// A monitor's area in physical pixels: its top-left corner and its size.
#[derive(Clone, Copy, Debug)]
pub struct MonitorRect {
    pub x: i32,
    pub y: i32,
    pub width: u32,
    pub height: u32,
}

/// Whether a monitor's far edges are representable.
pub open spec fn monitor_fits(m: MonitorRect) -> bool {
    &&& m.width <= i32::MAX
    &&& m.height <= i32::MAX
    &&& m.x + m.width <= i32::MAX
    &&& m.y + m.height <= i32::MAX
}

/// Whether the point `(x, y)` lies on monitor `m`.
pub open spec fn on_monitor(m: MonitorRect, x: int, y: int) -> bool {
    m.x <= x < m.x + m.width && m.y <= y < m.y + m.height
}

/// Whether `(x, y)` lies on one of `monitors`.
pub open spec fn on_some_monitor(monitors: Seq<MonitorRect>, x: int, y: int) -> bool {
    exists|i: int| 0 <= i < monitors.len() && on_monitor(#[trigger] monitors[i], x, y)
}

/// Whether a position lies on one of the connected monitors.
pub fn is_position_on_valid_monitor(monitors: &Vec<MonitorRect>, x: i32, y: i32) -> (r: bool)
    requires
        forall|i: int| 0 <= i < monitors@.len() ==> monitor_fits(#[trigger] monitors@[i]),
    ensures
        r == on_some_monitor(monitors@, x as int, y as int),
{
    let mut i: usize = 0;
    while i < monitors.len()
        invariant
            i <= monitors.len(),
            forall|j: int| 0 <= j < monitors@.len() ==> monitor_fits(#[trigger] monitors@[j]),
            forall|j: int| 0 <= j < i ==> !on_monitor(#[trigger] monitors@[j], x as int, y as int),
        decreases monitors.len() - i,
    {
        let m = monitors[i];
        assert(monitor_fits(monitors@[i as int]));
        if x >= m.x && x < m.x + (m.width as i32) && y >= m.y && y < m.y + (m.height as i32) {
            assert(on_monitor(monitors@[i as int], x as int, y as int));
            return true;
        }
        i = i + 1;
    }
    false
}

/// Whether the pill must be placed anew: its position is unknown or lies
/// on no connected monitor.
pub fn pill_needs_reposition(position: Option<(i32, i32)>, monitors: &Vec<MonitorRect>) -> (r: bool)
    requires
        forall|i: int| 0 <= i < monitors@.len() ==> monitor_fits(#[trigger] monitors@[i]),
    ensures
        r == match position {
            Some((x, y)) => !on_some_monitor(monitors@, x as int, y as int),
            None => true,
        },
{
    match position {
        Some((x, y)) => !is_position_on_valid_monitor(monitors, x, y),
        None => true,
    }
}

/// The monitor the pill goes to: the main window's, else the primary one,
/// else the first connected one.
pub fn choose_pill_monitor(
    main_window_monitor: Option<MonitorRect>,
    primary: Option<MonitorRect>,
    available: &Vec<MonitorRect>,
) -> (r: Option<MonitorRect>)
    ensures
        r == (match main_window_monitor {
            Some(m) => Some(m),
            None => match primary {
                Some(p) => Some(p),
                None => if available@.len() > 0 {
                    Some(available@[0])
                } else {
                    None
                },
            },
        }),
{
    match main_window_monitor {
        Some(m) => Some(m),
        None => match primary {
            Some(p) => Some(p),
            None => if available.len() > 0 {
                Some(available[0])
            } else {
                None
            },
        },
    }
}

/// Padding between the pill and the monitor's edges, in physical pixels.
pub open spec fn pill_padding() -> int {
    20
}

/// Whether the pill's place on `m` is representable.
pub open spec fn pill_fits(m: MonitorRect, pill_width: u32) -> bool {
    &&& m.width <= i32::MAX
    &&& pill_width <= i32::MAX
    &&& i32::MIN <= m.x + m.width - pill_width - pill_padding() <= i32::MAX
    &&& m.y + pill_padding() <= i32::MAX
}

/// The pill's top-left corner on monitor `m`: the top-right corner, inset
/// by the padding.
pub fn pill_position(m: MonitorRect, pill_width: u32) -> (p: (i32, i32))
    requires
        pill_fits(m, pill_width),
    ensures
        p.0 == m.x + m.width - pill_width - pill_padding(),
        p.1 == m.y + pill_padding(),
{
    let x: i64 = m.x as i64 + m.width as i64 - pill_width as i64 - 20;
    let y: i64 = m.y as i64 + 20;
    (x as i32, y as i32)
}

// ---------------------------------------------------------------------------
// Window and tray events
// ---------------------------------------------------------------------------

/// What to do with the pill.
#[derive(Clone, Copy, Debug, PartialEq, Eq, Structural)]
pub enum PillAction {
    Show,
    Hide,
    Leave,
}

/// What closing the main window does.
#[derive(Clone, Copy, Debug, PartialEq, Eq, Structural)]
pub enum CloseAction {
    /// Quit the application (Windows: the tray would keep it alive).
    Exit,
    /// Keep running with the main window hidden, and show the pill or not.
    Hide { show_pill: bool },
}

/// What closing the main window does: on Windows the application quits;
/// elsewhere the window hides, and the pill appears while recording unless
/// it is disabled.
pub fn main_window_close_action(on_windows: bool, pill_disabled: bool, recording: bool) -> (a: CloseAction)
    ensures
        a == (if on_windows {
            CloseAction::Exit
        } else {
            CloseAction::Hide { show_pill: !pill_disabled && recording }
        }),
{
    if on_windows {
        CloseAction::Exit
    } else {
        CloseAction::Hide { show_pill: !pill_disabled && recording }
    }
}

/// What a focus change of the main window does to the pill: gaining focus
/// hides it; losing focus shows it while recording unless it is disabled.
pub fn main_window_focus_action(focused: bool, pill_disabled: bool, recording: bool) -> (a: PillAction)
    ensures
        a == (if focused {
            PillAction::Hide
        } else if !pill_disabled && recording {
            PillAction::Show
        } else {
            PillAction::Leave
        }),
{
    if focused {
        PillAction::Hide
    } else if !pill_disabled && recording {
        PillAction::Show
    } else {
        PillAction::Leave
    }
}

/// What an entry of the tray menu does.
#[derive(Clone, Copy, Debug, PartialEq, Eq, Structural)]
pub enum TrayAction {
    /// Ask the interface for a new note and show the main window.
    NewNote,
    /// Ask the interface to stop recording and show the main window.
    StopRecording,
    Quit,
    Ignore,
}

/// The action of the tray menu entry with id `id`.
pub fn tray_menu_action(id: &str) -> (a: TrayAction)
    ensures
        a == (if id@ == "new_note"@ {
            TrayAction::NewNote
        } else if id@ == "stop_recording"@ {
            TrayAction::StopRecording
        } else if id@ == "quit"@ {
            TrayAction::Quit
        } else {
            TrayAction::Ignore
        }),
{
    if str_eq(id, "new_note") {
        TrayAction::NewNote
    } else if str_eq(id, "stop_recording") {
        TrayAction::StopRecording
    } else if str_eq(id, "quit") {
        TrayAction::Quit
    } else {
        TrayAction::Ignore
    }
}

/// Whether a requested update check goes ahead: only when the user has not
/// turned update checks off.
pub fn update_check_wanted(settings: &AppSettings) -> (r: bool)
    ensures
        r == settings.update_checks_enabled,
{
    settings.update_checks_enabled
}

// ---------------------------------------------------------------------------
// Crash log
// ---------------------------------------------------------------------------

/// Where a panic happened, as `file:line:column`.
pub fn panic_location(file: &str, line: u32, column: u32) -> (r: String)
    ensures
        r@ == file@ + ":"@ + crate::text::decimal(line as nat) + ":"@ + crate::text::decimal(
            column as nat,
        ),
{
    let mut r = string_of(file);
    push_str(&mut r, ":");
    let l = u64_to_decimal(line as u64);
    push_str(&mut r, l.as_str());
    push_str(&mut r, ":");
    let c = u64_to_decimal(column as u64);
    push_str(&mut r, c.as_str());
    r
}

/// The line written to the log file when the application panics, `secs`
/// seconds after the epoch.
pub fn panic_log_line(secs: u64, location: &str, message: &str) -> (r: String)
    ensures
        r@ == "[t="@ + crate::text::decimal(secs as nat) + "s][PANIC] at "@ + location@ + ": "@
            + message@,
{
    let mut r = string_of("[t=");
    let s = u64_to_decimal(secs);
    push_str(&mut r, s.as_str());
    push_str(&mut r, "s][PANIC] at ");
    push_str(&mut r, location);
    push_str(&mut r, ": ");
    push_str(&mut r, message);
    r
}

} // verus!
