//! What the daemon decides around its connection to the compositor: when a failure stops it and
//! when it only means trying again, and what each of those moments reports.
//!
//! The daemon's loop does the connecting, the waiting and the printing; every decision it takes
//! between those steps is here, as a function of what the step came back with.

use vstd::prelude::*;

use crate::cli::Stopping;
use crate::diag::{format_record, record, Condition, Diagnostic, Level};
use crate::text::{chars_of, decimal, find, push_decimal, push_str};

verus! {

/// Where bringing the connection up failed, with the system's or the library's words for it.
#[derive(Debug, Clone, PartialEq, Eq)]
pub enum ConnectFailure {
    /// The compositor's state could not be read.
    State(String),
    /// The Wayland client could not start. `missing` names the global the compositor did not
    /// offer, when that was the reason.
    Wayland { message: String, missing: Option<String> },
    /// The event socket could not be opened.
    Events(String),
}

/// How a connection failure reads after "cannot connect at start-up: ".
pub open spec fn failure_text(f: ConnectFailure) -> Seq<char> {
    match f {
        ConnectFailure::State(e) => e@,
        ConnectFailure::Wayland { message, missing: _ } => message@,
        ConnectFailure::Events(e) => "event socket: "@ + e@,
    }
}

/// What a failed connection attempt comes to: the report, if any, and whether the daemon stops.
///
/// At start-up every failure stops it, because there is no compositor to serve. Once it has
/// served, a failure is a compositor going away or restarting, and the daemon tries again; only a
/// compositor that came back without a protocol the daemon needs is worth a word then.
pub open spec fn connect_outcome(f: ConnectFailure, at_startup: bool) -> (
    Option<(Condition, Seq<char>, Seq<char>)>,
    Option<Stopping>,
) {
    if at_startup {
        (
            Some(
                (
                    Condition::CompositorUnreachableAtStartup,
                    "compositor"@,
                    "cannot connect at start-up: "@ + failure_text(f),
                ),
            ),
            Some(Stopping::NoCompositor),
        )
    } else {
        match f {
            ConnectFailure::Wayland { message: _, missing: Some(global) } => (
                Some(
                    (
                        Condition::CompositorConnection,
                        "compositor"@,
                        "reconnected without "@ + global@ + ", retrying"@,
                    ),
                ),
                None,
            ),
            _ => (None, None),
        }
    }
}

/// An optional report read as its view.
pub open spec fn report_view(d: Option<Diagnostic>) -> Option<(Condition, Seq<char>, Seq<char>)> {
    match d {
        Some(d) => Some((d.condition, d.subject@, d.message@)),
        None => None,
    }
}

fn diagnostic(condition: Condition, subject: &str, message: String) -> (d: Diagnostic)
    ensures
        d.condition == condition,
        d.subject@ == subject@,
        d.message@ == message@,
{
    let mut s = String::new();
    push_str(&mut s, subject);
    Diagnostic::new(condition, s, message)
}

/// Decide what a failed connection attempt comes to.
pub fn connect_failed(failure: &ConnectFailure, at_startup: bool) -> (r: (Option<Diagnostic>, Option<Stopping>))
    ensures
        (report_view(r.0), r.1) == connect_outcome(*failure, at_startup),
{
    if at_startup {
        let mut message = String::new();
        push_str(&mut message, "cannot connect at start-up: ");
        match failure {
            ConnectFailure::State(e) => push_str(&mut message, e.as_str()),
            ConnectFailure::Wayland { message: e, missing: _ } => push_str(&mut message, e.as_str()),
            ConnectFailure::Events(e) => {
                push_str(&mut message, "event socket: ");
                push_str(&mut message, e.as_str());
            },
        }
        return (
            Some(diagnostic(Condition::CompositorUnreachableAtStartup, "compositor", message)),
            Some(Stopping::NoCompositor),
        );
    }
    match failure {
        ConnectFailure::Wayland { message: _, missing: Some(global) } => {
            let mut message = String::new();
            push_str(&mut message, "reconnected without ");
            push_str(&mut message, global.as_str());
            push_str(&mut message, ", retrying");
            (Some(diagnostic(Condition::CompositorConnection, "compositor", message)), None)
        },
        _ => (None, None),
    }
}

/// Once the daemon has served, no connection failure stops it: it tries again, which is what
/// lets it survive a compositor restart. At start-up, every failure stops it as having no
/// compositor to serve.
pub proof fn law_only_a_failure_at_start_up_stops_the_daemon(failure: ConnectFailure)
    ensures
        connect_outcome(failure, false).1 is None,
        connect_outcome(failure, true).1 == Some(Stopping::NoCompositor),
{
}

// --- What the daemon reports between its steps -----------------------------------------------

/// The record the daemon prints once it serves for the first time.
pub fn started_record(version: &str) -> (r: String)
    ensures
        r@ == record(Level::Info, "daemon"@, "hypr-swap "@ + version@ + " started"@),
{
    let mut message = String::new();
    push_str(&mut message, "hypr-swap ");
    push_str(&mut message, version);
    push_str(&mut message, " started");
    format_record(Level::Info, "daemon", message.as_str())
}

/// The record the daemon prints as it stops, naming why.
pub fn stopping_record(stopping: Stopping) -> (r: String)
    ensures
        r@ == record(Level::Info, "daemon"@, "stopping: "@ + stopping.cause_text()),
{
    let mut message = String::new();
    push_str(&mut message, "stopping: ");
    push_str(&mut message, stopping.cause());
    format_record(Level::Info, "daemon", message.as_str())
}

/// The report once the daemon has reached the compositor again.
pub fn reconnected_report() -> (d: Diagnostic)
    ensures
        d.condition == Condition::CompositorConnection,
        d.subject@ == "compositor"@,
        d.message@ == "reconnected, state rebuilt, shortcuts re-registered"@,
{
    let mut message = String::new();
    push_str(&mut message, "reconnected, state rebuilt, shortcuts re-registered");
    diagnostic(Condition::CompositorConnection, "compositor", message)
}

/// The report when the compositor cannot be reached before the daemon has served at all;
/// `detail` says what was missing.
pub fn unreachable_report(detail: &str) -> (d: Diagnostic)
    ensures
        d.condition == Condition::CompositorUnreachableAtStartup,
        d.subject@ == "compositor"@,
        d.message@ == "cannot connect at start-up: "@ + detail@,
{
    let mut message = String::new();
    push_str(&mut message, "cannot connect at start-up: ");
    push_str(&mut message, detail);
    diagnostic(Condition::CompositorUnreachableAtStartup, "compositor", message)
}

/// The report when one of this daemon's shortcuts is already registered: another instance runs.
pub fn second_instance_report(name: &str) -> (d: Diagnostic)
    ensures
        d.condition == Condition::SecondInstance,
        d.subject@ == "shortcut"@,
        d.message@ == name@ + " is already registered; another hypr-swap is running"@,
{
    let mut message = String::new();
    push_str(&mut message, name);
    push_str(&mut message, " is already registered; another hypr-swap is running");
    diagnostic(Condition::SecondInstance, "shortcut", message)
}

/// The report when the connection is lost, naming the wait before the next attempt.
pub fn connection_lost_report(delay_ms: u64) -> (d: Diagnostic)
    ensures
        d.condition == Condition::CompositorConnection,
        d.subject@ == "compositor"@,
        d.message@ == "connection lost, reconnecting (next attempt in "@ + decimal(delay_ms as nat) + "ms)"@,
{
    let mut message = String::new();
    push_str(&mut message, "connection lost, reconnecting (next attempt in ");
    push_decimal(&mut message, delay_ms);
    push_str(&mut message, "ms)");
    diagnostic(Condition::CompositorConnection, "compositor", message)
}

/// Whether `s` contains `pattern` anywhere.
pub open spec fn contains_text(s: Seq<char>, pattern: Seq<char>) -> bool {
    exists|at: int| crate::text::occurs_at(s, pattern, at)
}

/// What a Wayland protocol error reports: a refused shortcut registration is told apart from
/// any other error by the interface of the object it was raised on.
pub open spec fn protocol_error_of(interface: Seq<char>, message: Seq<char>) -> (Condition, Seq<char>, Seq<char>) {
    if contains_text(interface, "global_shortcut"@) {
        (
            Condition::ShortcutRegistrationFailed,
            "shortcut"@,
            "the compositor refused a registration: "@ + message + " (object "@ + interface + ")"@,
        )
    } else {
        (Condition::CompositorConnection, "compositor"@, "protocol error on "@ + interface + ": "@ + message)
    }
}

/// Report the protocol error that ended a Wayland connection.
pub fn protocol_error_report(interface: &str, message: &str) -> (d: Diagnostic)
    ensures
        (d.condition, d.subject@, d.message@) == protocol_error_of(interface@, message@),
{
    let haystack = chars_of(interface);
    let needle = chars_of("global_shortcut");
    let found = find(&haystack, &needle);
    if found.is_some() {
        let mut text = String::new();
        push_str(&mut text, "the compositor refused a registration: ");
        push_str(&mut text, message);
        push_str(&mut text, " (object ");
        push_str(&mut text, interface);
        push_str(&mut text, ")");
        diagnostic(Condition::ShortcutRegistrationFailed, "shortcut", text)
    } else {
        let mut text = String::new();
        push_str(&mut text, "protocol error on ");
        push_str(&mut text, interface);
        push_str(&mut text, ": ");
        push_str(&mut text, message);
        diagnostic(Condition::CompositorConnection, "compositor", text)
    }
}

} // verus!
