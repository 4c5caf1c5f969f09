//! The local MCP server: the URL it advertises, its status, and how the
//! running server is brought in line with the settings.

pub mod oauth;
pub mod service;

use vstd::prelude::*;
use crate::text::{decimal, push_str, string_of, u64_to_decimal};

verus! {

/// The base URL the server advertises for `port`.
pub open spec fn spec_public_url(port: u16) -> Seq<char> {
    "http://127.0.0.1:"@ + decimal(port as nat)
}

/// Public-facing base URL the server advertises in OAuth metadata.
pub fn public_url(port: u16) -> (r: String)
    ensures
        r@ == spec_public_url(port),
{
    let mut r = string_of("http://127.0.0.1:");
    let p = u64_to_decimal(port as u64);
    push_str(&mut r, p.as_str());
    r
}

/// Whether the server runs, and where.
#[derive(Debug)]
pub struct McpStatus {
    pub running: bool,
    pub port: Option<u16>,
    pub url: Option<String>,
}

/// The status of a server running on `running_port` (`None`: stopped).
pub fn status_for(running_port: Option<u16>) -> (s: McpStatus)
    ensures
        s.running == running_port is Some,
        s.port == running_port,
        match running_port {
            Some(p) => s.url matches Some(u) && u@ == spec_public_url(p),
            None => s.url is None,
        },
{
    match running_port {
        Some(p) => McpStatus { running: true, port: Some(p), url: Some(public_url(p)) },
        None => McpStatus { running: false, port: None, url: None },
    }
}

/// What to do to the running server.
#[derive(Debug, Clone, Copy, PartialEq, Eq, Structural)]
pub enum ReconcileAction {
    /// Leave it as it is.
    Keep,
    /// Stop it.
    Stop,
    /// Start it on the given port (stopping it first if it runs).
    Start(u16),
}

/// What reconciling does, given the port the server runs on (`None`:
/// stopped) and the persisted settings.
pub open spec fn spec_reconcile_action(running_port: Option<u16>, enabled: bool, port: u16) -> ReconcileAction {
    match (running_port, enabled) {
        (None, false) => ReconcileAction::Keep,
        (Some(p), true) => if p == port {
            ReconcileAction::Keep
        } else {
            ReconcileAction::Start(port)
        },
        (Some(_), false) => ReconcileAction::Stop,
        (None, true) => ReconcileAction::Start(port),
    }
}

/// Decides how to bring the running server in line with the settings: a
/// stopped server stays stopped when disabled, a server on the configured
/// port keeps running, a disabled one is stopped, and otherwise the server
/// is (re)started on the configured port.
pub fn reconcile_action(running_port: Option<u16>, enabled: bool, port: u16) -> (a: ReconcileAction)
    ensures
        a == spec_reconcile_action(running_port, enabled, port),
{
    match (running_port, enabled) {
        (None, false) => ReconcileAction::Keep,
        (Some(p), true) => if p == port {
            ReconcileAction::Keep
        } else {
            ReconcileAction::Start(port)
        },
        (Some(_), false) => ReconcileAction::Stop,
        (None, true) => ReconcileAction::Start(port),
    }
}

/// The port the server runs on after an action succeeds.
pub open spec fn port_after(running_port: Option<u16>, a: ReconcileAction) -> Option<u16> {
    match a {
        ReconcileAction::Keep => running_port,
        ReconcileAction::Stop => None,
        ReconcileAction::Start(p) => Some(p),
    }
}

/// Reconciling brings the server to the settings: once the chosen action
/// succeeds, it runs exactly when enabled, and on the configured port.
pub proof fn law_reconcile_reaches_settings(running_port: Option<u16>, enabled: bool, port: u16)
    ensures
        port_after(running_port, spec_reconcile_action(running_port, enabled, port)) == (if enabled {
            Some(port)
        } else {
            None
        }),
{
}

/// Reconciling twice changes nothing the second time.
pub proof fn law_reconcile_is_idempotent(running_port: Option<u16>, enabled: bool, port: u16)
    ensures
        spec_reconcile_action(
            port_after(running_port, spec_reconcile_action(running_port, enabled, port)),
            enabled,
            port,
        ) == ReconcileAction::Keep,
{
}

/// The port the server runs on once an action was attempted, `started`
/// telling whether a start succeeded. A start first stops the running
/// server, so a failed start (the port could not be bound) leaves none.
pub open spec fn spec_port_after_attempt(running_port: Option<u16>, a: ReconcileAction, started: bool) -> Option<u16> {
    match a {
        ReconcileAction::Keep => running_port,
        ReconcileAction::Stop => None,
        ReconcileAction::Start(p) => if started {
            Some(p)
        } else {
            None
        },
    }
}

/// The port the server runs on once `a` was attempted; see
/// `spec_port_after_attempt`.
pub fn port_after_attempt(running_port: Option<u16>, a: ReconcileAction, started: bool) -> (r: Option<u16>)
    ensures
        r == spec_port_after_attempt(running_port, a, started),
{
    match a {
        ReconcileAction::Keep => running_port,
        ReconcileAction::Stop => None,
        ReconcileAction::Start(p) => if started {
            Some(p)
        } else {
            None
        },
    }
}

/// Whatever an attempt to reconcile gives: a server that already runs on
/// the configured port while enabled is kept (not restarted); otherwise the
/// server ends up running exactly when enabled, on the configured port,
/// unless the start failed, in which case none runs.
pub proof fn law_reconcile_attempt_outcome(running_port: Option<u16>, enabled: bool, port: u16, started: bool)
    ensures
        enabled && running_port == Some(port) ==> spec_reconcile_action(running_port, enabled, port)
            == ReconcileAction::Keep,
        spec_port_after_attempt(running_port, spec_reconcile_action(running_port, enabled, port), started)
            == (if !enabled {
            None
        } else if running_port == Some(port) || started {
            Some(port)
        } else {
            None
        }),
{
}

} // verus!
