//! What the daemon decides around its connection: when a failure stops it, and what it reports.

use hypr_swap::cli::Stopping;
use hypr_swap::daemon::{
    connect_failed, connection_lost_report, protocol_error_report, reconnected_report,
    second_instance_report, started_record, stopping_record, unreachable_report, ConnectFailure,
};
use hypr_swap::diag::Condition;

fn every_failure() -> Vec<ConnectFailure> {
    vec![
        ConnectFailure::State("/run/user/1000/hypr/x/.socket.sock: connection refused".to_owned()),
        ConnectFailure::Wayland {
            message: "cannot connect to the Wayland display: no such file".to_owned(),
            missing: None,
        },
        ConnectFailure::Wayland {
            message: "the compositor does not offer wp_viewporter: missing".to_owned(),
            missing: Some("wp_viewporter".to_owned()),
        },
        ConnectFailure::Events("connection refused".to_owned()),
    ]
}

#[test]
fn every_failure_at_start_up_stops_the_daemon_as_having_no_compositor() {
    for failure in every_failure() {
        let (report, stopping) = connect_failed(&failure, true);
        assert_eq!(stopping, Some(Stopping::NoCompositor));
        let report = report.expect("a start-up failure is reported");
        assert_eq!(report.condition, Condition::CompositorUnreachableAtStartup);
        assert_eq!(report.subject, "compositor");
        assert!(report.message.starts_with("cannot connect at start-up: "));
    }
}

#[test]
fn no_failure_after_start_up_stops_the_daemon() {
    for failure in every_failure() {
        assert_eq!(connect_failed(&failure, false).1, None);
    }
}

#[test]
fn an_event_socket_failure_at_start_up_names_the_event_socket() {
    let (report, _) = connect_failed(&ConnectFailure::Events("connection refused".to_owned()), true);
    assert_eq!(
        report.expect("reported").message,
        "cannot connect at start-up: event socket: connection refused"
    );
}

#[test]
fn a_reconnection_without_a_needed_protocol_is_reported_and_retried() {
    let failure = ConnectFailure::Wayland {
        message: "the compositor does not offer wp_viewporter: missing".to_owned(),
        missing: Some("wp_viewporter".to_owned()),
    };
    let (report, stopping) = connect_failed(&failure, false);
    assert_eq!(stopping, None);
    let report = report.expect("reported");
    assert_eq!(report.condition, Condition::CompositorConnection);
    assert_eq!(report.message, "reconnected without wp_viewporter, retrying");
}

#[test]
fn any_other_failure_after_start_up_retries_in_silence() {
    let (report, stopping) =
        connect_failed(&ConnectFailure::State("connection refused".to_owned()), false);
    assert_eq!((report, stopping), (None, None));
}

#[test]
fn the_start_and_stop_records_name_the_version_and_the_cause() {
    assert_eq!(started_record("0.3.0"), "INFO  daemon: hypr-swap 0.3.0 started");
    assert_eq!(
        stopping_record(Stopping::Signal("SIGTERM")),
        "INFO  daemon: stopping: SIGTERM"
    );
    assert_eq!(
        stopping_record(Stopping::SecondInstance),
        "INFO  daemon: stopping: another hypr-swap is already running"
    );
}

#[test]
fn the_reconnection_reports_read_as_documented() {
    assert_eq!(
        reconnected_report().message,
        "reconnected, state rebuilt, shortcuts re-registered"
    );
    let lost = connection_lost_report(400);
    assert_eq!(lost.condition, Condition::CompositorConnection);
    assert_eq!(lost.message, "connection lost, reconnecting (next attempt in 400ms)");
    assert!(!lost.condition.notifies(), "a self-recovering condition never notifies");
}

#[test]
fn start_up_reports_name_what_was_missing() {
    let report = unreachable_report("no HYPRLAND_INSTANCE_SIGNATURE in environment");
    assert_eq!(
        report.message,
        "cannot connect at start-up: no HYPRLAND_INSTANCE_SIGNATURE in environment"
    );
    let second = second_instance_report("hypr-swap:switcher");
    assert_eq!(second.condition, Condition::SecondInstance);
    assert_eq!(second.subject, "shortcut");
    assert_eq!(
        second.message,
        "hypr-swap:switcher is already registered; another hypr-swap is running"
    );
}

#[test]
fn a_refused_shortcut_registration_is_told_apart_from_other_protocol_errors() {
    let refused = protocol_error_report("hyprland_global_shortcut_v1", "already taken");
    assert_eq!(refused.condition, Condition::ShortcutRegistrationFailed);
    assert_eq!(refused.subject, "shortcut");
    assert_eq!(
        refused.message,
        "the compositor refused a registration: already taken (object hyprland_global_shortcut_v1)"
    );

    let other = protocol_error_report("wl_surface", "invalid size");
    assert_eq!(other.condition, Condition::CompositorConnection);
    assert_eq!(other.message, "protocol error on wl_surface: invalid size");
}
