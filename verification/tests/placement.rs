//! Which monitors an opening session's overlay goes on, and which copy takes the keyboard.

use hypr_swap::config::Placement;
use hypr_swap::model::Monitor;
use hypr_swap::ui::placement::{overlay_targets, OverlayTargets};

fn monitor(id: i32, name: &str, focused: bool) -> Monitor {
    Monitor {
        id,
        name: name.to_owned(),
        position: (id * 1920, 0),
        size: (1920, 1080),
        scale_bits: 1.0f32.to_bits(),
        active_workspace: id + 1,
        focused,
    }
}

fn three() -> Vec<Monitor> {
    vec![
        monitor(0, "eDP-1", false),
        monitor(1, "DP-1", true),
        monitor(2, "HDMI-A-1", false),
    ]
}

#[test]
fn the_active_placement_is_one_copy_on_the_focused_monitor() {
    assert_eq!(
        overlay_targets(Placement::ActiveMonitor, &three(), &[true, true, true], "DP-1"),
        OverlayTargets::OnFocused(1)
    );
}

#[test]
fn the_all_placement_puts_a_copy_on_every_monitor_and_the_keyboard_on_the_origin() {
    assert_eq!(
        overlay_targets(Placement::AllMonitors, &three(), &[true, true, true], "eDP-1"),
        OverlayTargets::OnEvery(vec![(0, true), (1, false), (2, false)])
    );
}

#[test]
fn a_monitor_without_an_output_gets_no_copy() {
    assert_eq!(
        overlay_targets(Placement::AllMonitors, &three(), &[true, false, true], "HDMI-A-1"),
        OverlayTargets::OnEvery(vec![(0, false), (2, true)])
    );
}

#[test]
fn without_a_copy_for_the_origin_the_all_placement_falls_back_to_the_focused_monitor() {
    // The keyboard has to go somewhere: a set of passive copies would leave the session deaf.
    assert_eq!(
        overlay_targets(Placement::AllMonitors, &three(), &[true, true, false], "HDMI-A-1"),
        OverlayTargets::OnFocused(1)
    );
    assert_eq!(
        overlay_targets(Placement::AllMonitors, &three(), &[true, true, true], "DP-9"),
        OverlayTargets::OnFocused(1)
    );
}

#[test]
fn with_no_focused_monitor_there_is_nowhere_to_show_it() {
    let monitors = vec![monitor(0, "eDP-1", false)];
    assert_eq!(
        overlay_targets(Placement::ActiveMonitor, &monitors, &[true], "eDP-1"),
        OverlayTargets::Nowhere
    );
    assert_eq!(
        overlay_targets(Placement::AllMonitors, &[], &[], "eDP-1"),
        OverlayTargets::Nowhere
    );
}
