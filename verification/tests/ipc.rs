//! The request socket's wire format: encoding dispatches, reading their answers, and what a
//! dispatch-verify-rollback sequence adds up to.

use std::path::PathBuf;

use hypr_swap::actions::ExpectedState;
use hypr_swap::hypr::ipc::{
    dispatch_request,
    after_attempt, after_locating, classify, classify_dispatch, encode_dispatch,
    event_socket_path, fault_applies, omit_step, read_back, report_whereabouts,
    request_socket_path, settle_dispatch, substitution, DispatchOutcome, DispatchStep, IpcError,
};
use hypr_swap::model::Workspace;

#[test]
fn socket_paths_follow_the_documented_layout() {
    let runtime = "/run/user/1000";
    assert_eq!(
        PathBuf::from(request_socket_path(runtime, "abc_123")),
        PathBuf::from("/run/user/1000/hypr/abc_123/.socket.sock")
    );
    assert_eq!(
        PathBuf::from(event_socket_path(runtime, "abc_123")),
        PathBuf::from("/run/user/1000/hypr/abc_123/.socket2.sock")
    );
}

#[test]
fn a_single_command_is_encoded_as_a_plain_dispatch() {
    assert_eq!(
        encode_dispatch(&["workspace 3".to_owned()]),
        "/dispatch workspace 3"
    );
}

#[test]
fn several_commands_are_encoded_as_one_batch() {
    let commands = vec![
        "swapactiveworkspaces eDP-1 HEADLESS-2".to_owned(),
        "focusmonitor eDP-1".to_owned(),
    ];
    assert_eq!(
        encode_dispatch(&commands),
        "[[BATCH]]/dispatch swapactiveworkspaces eDP-1 HEADLESS-2; /dispatch focusmonitor eDP-1"
    );
}

#[test]
fn an_empty_command_list_encodes_to_nothing() {
    assert_eq!(encode_dispatch(&[]), "");
}

#[test]
fn a_batch_of_three_keeps_every_step_in_order() {
    let commands = vec![
        "moveworkspacetomonitor 4 eDP-1".to_owned(),
        "moveworkspacetomonitor 2 HEADLESS-2".to_owned(),
        "focusworkspaceoncurrentmonitor 4".to_owned(),
    ];
    let encoded = encode_dispatch(&commands);
    assert!(encoded.starts_with("[[BATCH]]"));
    assert_eq!(encoded.matches("/dispatch ").count(), 3);
    let move_first = encoded
        .find("moveworkspacetomonitor 4")
        .expect("step 1 present");
    let move_second = encoded
        .find("moveworkspacetomonitor 2")
        .expect("step 2 present");
    let focus = encoded
        .find("focusworkspaceoncurrentmonitor")
        .expect("step 3 present");
    assert!(move_first < move_second && move_second < focus);
}

#[test]
fn a_single_ok_is_success() {
    assert!(classify_dispatch("ok", 1).is_ok());
    assert!(classify_dispatch("ok\n", 1).is_ok());
}

#[test]
fn concatenated_oks_are_success() {
    // The compositor separates batched results with a blank-line run.
    assert!(classify_dispatch("ok\n\n\nok", 2).is_ok());
    assert!(classify_dispatch("ok\n\n\nok\n\n\nok", 3).is_ok());
}

#[test]
fn an_error_string_names_the_step_that_failed() {
    let e = classify_dispatch("ok\n\n\nBad workspace", 2).expect_err("step 2 failed");
    let message = e.to_string();
    assert!(message.contains("step 2"), "{message}");
    assert!(message.contains("Bad workspace"), "{message}");
}

#[test]
fn a_first_step_failure_is_reported_as_step_one() {
    let e = classify_dispatch("Invalid dispatcher\n\n\nok", 2).expect_err("step 1 failed");
    assert!(e.to_string().contains("step 1"), "{e:?}");
}

#[test]
fn a_lone_error_response_is_a_failure_not_a_success() {
    assert!(classify_dispatch("Invalid dispatcher", 1).is_err());
    assert!(classify_dispatch("Bad workspace", 1).is_err());
}

#[test]
fn a_dropped_step_is_detected_by_the_result_count() {
    let e = classify_dispatch("ok", 2).expect_err("one result for two commands");
    assert!(e.to_string().contains("expected 2"), "{e:?}");
}

#[test]
fn an_empty_response_to_a_dispatch_is_a_failure() {
    assert!(classify_dispatch("", 1).is_err());
}

#[test]
fn a_failure_the_rollback_repaired_is_reported_as_rolled_back() {
    assert_eq!(
        classify("step 2 failed: Invalid dispatcher".to_owned(), None, None),
        DispatchOutcome::RolledBack {
            reason: "step 2 failed: Invalid dispatcher".to_owned()
        }
    );
}

#[test]
fn a_failure_the_rollback_could_not_repair_carries_the_resulting_state() {
    let outcome = classify(
        "step 2 failed".to_owned(),
        Some("workspace 1 is on eDP-1 rather than HEADLESS-2".to_owned()),
        Some("workspace 2 is on eDP-1 and workspace 1 is on eDP-1".to_owned()),
    );
    let DispatchOutcome::RollbackFailed { reason, resulting } = outcome else {
        panic!("a double failure is never reported as a rollback that worked");
    };
    assert!(reason.contains("step 2 failed"), "{reason}");
    assert!(reason.contains("the rollback failed too"), "{reason}");
    assert_eq!(
        resulting,
        "workspace 2 is on eDP-1 and workspace 1 is on eDP-1"
    );
}

#[test]
fn a_double_failure_with_nothing_readable_still_says_so() {
    let outcome = classify(
        "step 1 failed".to_owned(),
        Some("unreachable".to_owned()),
        None,
    );
    assert!(matches!(outcome, DispatchOutcome::RollbackFailed { .. }));
}

#[test]
fn the_version_gate_substitutes_only_when_it_is_given_something() {
    // Unset and empty are both "ask the compositor", which is what keeps the hook inert in
    // every ordinary run.
    assert_eq!(substitution(None), None);
    assert_eq!(substitution(Some("")), None);

    let substituted = substitution(Some("0.52.1")).expect("a value substitutes");
    assert_eq!(substituted.version, "0.52.1");
    assert_eq!(
        substituted.tag, None,
        "a substituted version has no tag to report"
    );

    // The value is passed through verbatim, unparsed: deciding what it means is
    // `CompositorVersion::supported`'s job, and the hook must be able to feed it nonsense.
    assert_eq!(
        substitution(Some("next")).map(|v| v.version),
        Some("next".to_owned())
    );
}


#[test]
fn a_fault_withholds_its_step_and_names_it_once_the_rest_went_through() {
    let commands = vec![
        "moveworkspacetomonitor 4 eDP-1".to_owned(),
        "moveworkspacetomonitor 1 HEADLESS-2".to_owned(),
        "focusmonitor eDP-1".to_owned(),
    ];
    assert!(fault_applies(2, 3));
    assert!(!fault_applies(0, 3));
    assert!(!fault_applies(4, 3));
    let (kept, dropped) = omit_step(&commands, 2);
    assert_eq!(kept, vec!["moveworkspacetomonitor 4 eDP-1", "focusmonitor eDP-1"]);
    assert_eq!(dropped, "moveworkspacetomonitor 1 HEADLESS-2");
    assert_eq!(
        settle_dispatch("ok\n\n\nok", kept.len(), Some((2, dropped))),
        Err(IpcError::Rejected(
            "injected failure at step 2 (moveworkspacetomonitor 1 HEADLESS-2)".to_owned()
        ))
    );
    assert_eq!(settle_dispatch("ok", 1, None), Ok(()));
    // A rejected response is reported as itself, not as the injected failure.
    assert!(settle_dispatch("ok", 2, Some((1, "x".to_owned())))
        .unwrap_err()
        .to_string()
        .contains("expected 2"));
}

#[test]
fn an_unreachable_socket_names_its_path_and_the_cause() {
    let e = IpcError::Unreachable("/run/user/1000/hypr/x/.socket.sock".to_owned(), "Connection refused".to_owned());
    assert_eq!(e.to_string(), "/run/user/1000/hypr/x/.socket.sock: Connection refused");
    assert_eq!(IpcError::Malformed("j/monitors did not deserialise".to_owned()).to_string(), "j/monitors did not deserialise");
}

#[test]
fn a_verified_dispatch_steps_from_forward_to_rollback_to_locating() {
    assert_eq!(after_attempt(DispatchStep::Forward, None), DispatchStep::Done(DispatchOutcome::Verified));
    let step = after_attempt(DispatchStep::Forward, Some("step 2 failed".to_owned()));
    assert_eq!(step, DispatchStep::Rollback { reason: "step 2 failed".to_owned() });
    assert_eq!(
        after_attempt(step.clone(), None),
        DispatchStep::Done(DispatchOutcome::RolledBack { reason: "step 2 failed".to_owned() })
    );
    let step = after_attempt(step, Some("workspace 1 is on eDP-1 rather than HEADLESS-2".to_owned()));
    let done = after_locating(step, "workspace 2 is on eDP-1 and workspace 1 is on eDP-1".to_owned());
    assert_eq!(
        done,
        DispatchStep::Done(DispatchOutcome::RollbackFailed {
            reason: "step 2 failed; the rollback failed too: workspace 1 is on eDP-1 rather than HEADLESS-2".to_owned(),
            resulting: "workspace 2 is on eDP-1 and workspace 1 is on eDP-1".to_owned(),
        })
    );
}

#[test]
fn reading_back_reports_a_mismatch_or_why_the_state_could_not_be_read() {
    let expected = ExpectedState {
        bindings: vec![(3, "eDP-1".to_owned())],
        active: vec![],
        focused: "eDP-1".to_owned(),
    };
    let gone = IpcError::Rejected("no answer".to_owned());
    assert_eq!(
        read_back(&expected, Err(gone.clone()), Ok(vec![])),
        Some("the resulting state could not be read: no answer".to_owned())
    );
    assert_eq!(
        read_back(&expected, Ok(vec![]), Ok(vec![])),
        Some("workspace 3 no longer exists".to_owned())
    );
    let workspaces = vec![Workspace { id: 3, name: "3".to_owned(), monitor: "HEADLESS-2".to_owned(), window_count: 0 }];
    assert_eq!(report_whereabouts(&expected, Ok(workspaces)), "workspace 3 is on HEADLESS-2");
    assert_eq!(
        report_whereabouts(&expected, Err(gone)),
        "the compositor could not be asked where they are: no answer"
    );
}

#[test]
fn a_runtime_dir_with_a_trailing_separator_does_not_double_it() {
    assert_eq!(request_socket_path("/run/user/1000/", "abc"), "/run/user/1000/hypr/abc/.socket.sock");
}

fn commands(list: &[&str]) -> Vec<String> {
    list.iter().map(|command| (*command).to_owned()).collect()
}

#[test]
fn an_empty_command_list_sends_nothing_and_is_already_done() {
    assert_eq!(dispatch_request(&[], None), None);
}

#[test]
fn a_dispatch_sends_every_command_as_one_request() {
    let batch = dispatch_request(&commands(&["workspace 3"]), None).expect("something to send");
    assert_eq!(batch.request, "/dispatch workspace 3");
    assert_eq!((batch.sent, batch.injected), (1, None));
}

#[test]
fn an_armed_fault_leaves_its_step_out_and_says_which() {
    let list = commands(&["moveworkspacetomonitor 3 eDP-1", "focusmonitor eDP-1", "workspace 3"]);
    let batch = dispatch_request(&list, Some(2)).expect("something to send");
    assert_eq!(
        batch.request,
        "[[BATCH]]/dispatch moveworkspacetomonitor 3 eDP-1; /dispatch workspace 3"
    );
    assert_eq!(batch.sent, 2);
    assert_eq!(batch.injected, Some((2, "focusmonitor eDP-1".to_owned())));
}
