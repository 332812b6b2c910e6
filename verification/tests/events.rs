//! The event stream: reading `EVENT>>DATA` lines, framing them out of the socket's bytes, and
//! pacing reconnection.

use hypr_swap::hypr::events::{parse_line, Backoff, Event, LineBuffer};

#[test]
fn workspace_activation_without_an_id() {
    assert_eq!(
        parse_line("workspace>>3"),
        Some(Event::WorkspaceActivated {
            id: None,
            name: "3".to_owned()
        })
    );
}

#[test]
fn workspace_activation_with_an_id() {
    assert_eq!(
        parse_line("workspacev2>>3,3"),
        Some(Event::WorkspaceActivated {
            id: Some(3),
            name: "3".to_owned()
        })
    );
    assert_eq!(
        parse_line("workspacev2>>7,mail"),
        Some(Event::WorkspaceActivated {
            id: Some(7),
            name: "mail".to_owned()
        })
    );
}

#[test]
fn a_special_workspace_activation_keeps_its_negative_id() {
    assert_eq!(
        parse_line("workspacev2>>-99,special:scratchpad"),
        Some(Event::WorkspaceActivated {
            id: Some(-99),
            name: "special:scratchpad".to_owned()
        })
    );
}

#[test]
fn focused_monitor_carries_the_monitor_and_its_workspace() {
    assert_eq!(
        parse_line("focusedmon>>HEADLESS-2,4"),
        Some(Event::MonitorFocused {
            monitor: "HEADLESS-2".to_owned(),
            workspace_name: "4".to_owned()
        })
    );
}

#[test]
fn workspace_lifecycle_events() {
    assert_eq!(
        parse_line("createworkspace>>5"),
        Some(Event::WorkspaceCreated {
            name: "5".to_owned()
        })
    );
    assert_eq!(
        parse_line("createworkspacev2>>5,5"),
        Some(Event::WorkspaceCreated {
            name: "5".to_owned()
        })
    );
    assert_eq!(
        parse_line("destroyworkspace>>5"),
        Some(Event::WorkspaceDestroyed {
            name: "5".to_owned()
        })
    );
    assert_eq!(
        parse_line("destroyworkspacev2>>5,5"),
        Some(Event::WorkspaceDestroyed {
            name: "5".to_owned()
        })
    );
}

#[test]
fn workspace_moves_carry_the_destination_monitor() {
    assert_eq!(
        parse_line("moveworkspace>>4,HEADLESS-2"),
        Some(Event::WorkspaceMoved {
            name: "4".to_owned(),
            monitor: "HEADLESS-2".to_owned()
        })
    );
    assert_eq!(
        parse_line("moveworkspacev2>>4,4,HEADLESS-2"),
        Some(Event::WorkspaceMoved {
            name: "4".to_owned(),
            monitor: "HEADLESS-2".to_owned()
        })
    );
}

#[test]
fn window_lifecycle_events() {
    assert_eq!(
        parse_line("openwindow>>55a0,3,foot,editor"),
        Some(Event::WindowOpened {
            address: "55a0".to_owned()
        })
    );
    assert_eq!(
        parse_line("closewindow>>55a0"),
        Some(Event::WindowClosed {
            address: "55a0".to_owned()
        })
    );
    assert_eq!(
        parse_line("movewindow>>55a0,3"),
        Some(Event::WindowMoved {
            address: "55a0".to_owned()
        })
    );
    assert_eq!(
        parse_line("movewindowv2>>55a0,3,3"),
        Some(Event::WindowMoved {
            address: "55a0".to_owned()
        })
    );
}

#[test]
fn title_changes_carry_the_new_title_only_in_the_v2_form() {
    assert_eq!(
        parse_line("windowtitle>>55a0"),
        Some(Event::WindowTitleChanged {
            address: "55a0".to_owned(),
            title: None
        })
    );
    assert_eq!(
        parse_line("windowtitlev2>>55a0,vim: main.rs"),
        Some(Event::WindowTitleChanged {
            address: "55a0".to_owned(),
            title: Some("vim: main.rs".to_owned())
        })
    );
}

#[test]
fn a_title_containing_commas_survives_intact() {
    assert_eq!(
        parse_line("windowtitlev2>>55a0,one, two, three"),
        Some(Event::WindowTitleChanged {
            address: "55a0".to_owned(),
            title: Some("one, two, three".to_owned())
        })
    );
}

#[test]
fn monitor_events_all_mean_rebuild() {
    for line in [
        "monitoradded>>HEADLESS-2",
        "monitorremoved>>HEADLESS-2",
        "monitoraddedv2>>1,HEADLESS-2,x",
    ] {
        assert_eq!(parse_line(line), Some(Event::MonitorsChanged), "{line}");
    }
}

#[test]
fn unknown_event_names_are_ignored() {
    // A Hyprland release that adds events must not break this application.
    assert_eq!(parse_line("activelayout>>keyboard,us"), None);
    assert_eq!(parse_line("submap>>resize"), None);
    assert_eq!(parse_line("somethingnew>>whatever,fields"), None);
}

#[test]
fn malformed_lines_are_ignored() {
    assert_eq!(parse_line(""), None);
    assert_eq!(parse_line("no separator here"), None);
    assert_eq!(
        parse_line(">>"),
        None,
        "an empty event name matches nothing"
    );
}

#[test]
fn a_trailing_newline_is_stripped() {
    assert_eq!(
        parse_line("workspace>>3\n"),
        Some(Event::WorkspaceActivated {
            id: None,
            name: "3".to_owned()
        })
    );
}

#[test]
fn backoff_doubles_from_100ms_to_a_5s_cap() {
    let mut backoff = Backoff::new();
    let observed: Vec<u128> = (0..9).map(|_| u128::from(backoff.take())).collect();
    assert_eq!(
        observed,
        vec![100, 200, 400, 800, 1600, 3200, 5000, 5000, 5000]
    );
}

#[test]
fn backoff_resets_after_a_successful_connection() {
    let mut backoff = Backoff::new();
    for _ in 0..5 {
        backoff.take();
    }
    backoff.reset();
    assert_eq!(backoff.take(), Backoff::INITIAL);
}

#[test]
fn backoff_never_retries_without_delay() {
    let mut backoff = Backoff::new();
    for _ in 0..100 {
        let delay = backoff.take();
        assert!(delay >= Backoff::INITIAL, "{delay:?}");
        assert!(delay <= Backoff::CAP, "{delay:?}");
    }
}

#[test]
fn complete_lines_become_events_and_a_partial_line_waits() {
    let mut buffer = LineBuffer::new();
    buffer.extend(b"workspace>>3\nopenwindow>>0xa,2,foot,title\nunknownevent>>x\nclosewin");
    assert_eq!(
        buffer.take_events(),
        vec![
            Event::WorkspaceActivated {
                id: None,
                name: "3".to_owned()
            },
            Event::WindowOpened {
                address: "0xa".to_owned()
            },
        ]
    );
    // The tail waits for its newline.
    assert_eq!(buffer.take_events(), vec![]);
    buffer.extend(b"dow>>0xa\n");
    assert_eq!(
        buffer.take_events(),
        vec![Event::WindowClosed {
            address: "0xa".to_owned()
        }]
    );
}

#[test]
fn a_line_that_is_not_utf8_is_skipped_without_losing_the_next() {
    let mut buffer = LineBuffer::new();
    buffer.extend(b"workspace>>\xff\xfe\nworkspace>>4\n");
    assert_eq!(
        buffer.take_events(),
        vec![Event::WorkspaceActivated {
            id: None,
            name: "4".to_owned()
        }]
    );
}

#[test]
fn the_events_are_the_same_however_the_stream_is_split_into_reads() {
    let stream: &[u8] = b"workspace>>3\nopenwindow>>0xa,2,foot,title\nclosewindow>>0xa\nfocusedmon>>DP-1,2\n";
    let mut whole = LineBuffer::new();
    whole.extend(stream);
    let expected = whole.take_events();
    assert_eq!(expected.len(), 4);

    for cut in 0..=stream.len() {
        let mut buffer = LineBuffer::new();
        buffer.extend(&stream[..cut]);
        let mut events = buffer.take_events();
        buffer.extend(&stream[cut..]);
        events.extend(buffer.take_events());
        assert_eq!(events, expected, "split at byte {cut}");
        assert_eq!(buffer.take_events(), vec![], "nothing is left over at {cut}");
    }
}

#[test]
fn after_a_wait_the_delay_starts_over_only_when_the_compositor_is_back() {
    let mut backoff = Backoff::new();
    assert_eq!(backoff.take(), 100);
    assert_eq!(backoff.take(), 200);
    backoff.after_wait(false);
    assert_eq!(backoff.take(), 400, "still away: the delay keeps growing");
    backoff.after_wait(true);
    assert_eq!(backoff.take(), 100, "back: the next failure is retried as briskly as the first");
}

#[test]
fn a_line_reads_the_same_with_or_without_its_newline() {
    for line in [
        "workspace>>3",
        "windowtitlev2>>0xa,a title, with commas",
        "focusedmon>>DP-1,2",
        "unknown>>x",
        "no separator",
        "",
    ] {
        assert_eq!(parse_line(&format!("{line}\n")), parse_line(line), "{line:?}");
    }
}

#[test]
fn the_backoff_waits_min_of_100_times_two_to_the_n_and_5000() {
    let mut backoff = Backoff::new();
    for n in 0..12u32 {
        let expected = (100u64 << n).min(5000);
        assert_eq!(backoff.take(), expected, "take {n}");
    }
}
