//! Plans: what a committed selection dispatches, what it expects, and what undoes it.

use hypr_swap::actions::{new_workspace_plan, plan, ExpectedState};
use hypr_swap::model::{Monitor, Window, Workspace};
use hypr_swap::state::World;

fn monitor(id: i32, name: &str, active: i32, focused: bool) -> Monitor {
    Monitor {
        id,
        name: name.to_owned(),
        position: (id * 1920, 0),
        size: (1920, 1080),
        scale_bits: 1.0f32.to_bits(),
        active_workspace: active,
        focused,
    }
}

fn workspace(id: i32, monitor: &str) -> Workspace {
    Workspace {
        id,
        name: id.to_string(),
        monitor: monitor.to_owned(),
        window_count: 0,
    }
}

/// One monitor, workspaces 1 (active), 2 and 3.
fn single_monitor() -> World {
    let mut world = World::default();
    world.rebuild(
        vec![monitor(0, "eDP-1", 1, true)],
        vec![
            workspace(1, "eDP-1"),
            workspace(2, "eDP-1"),
            workspace(3, "eDP-1"),
        ],
        vec![],
    );
    world
}

/// Two monitors: eDP-1 focused showing 1, HEADLESS-2 showing 2. Workspace 3 is bound to
/// eDP-1 and 4 to HEADLESS-2, neither of them on screen — which is what separates the two
/// cross-monitor plan shapes.
fn two_monitors() -> World {
    let mut world = World::default();
    world.rebuild(
        vec![
            monitor(0, "eDP-1", 1, true),
            monitor(1, "HEADLESS-2", 2, false),
        ],
        vec![
            workspace(1, "eDP-1"),
            workspace(2, "HEADLESS-2"),
            workspace(3, "eDP-1"),
            workspace(4, "HEADLESS-2"),
        ],
        vec![],
    );
    world
}

#[test]
fn selecting_another_workspace_on_the_same_monitor_activates_it() {
    let plan = plan(&single_monitor(), "eDP-1", 3).expect("a plan");
    assert_eq!(plan.commands, vec!["workspace 3"]);
}

#[test]
fn the_plan_records_the_state_it_expects_to_produce() {
    let plan = plan(&single_monitor(), "eDP-1", 3).expect("a plan");
    assert_eq!(
        plan.expected,
        ExpectedState {
            bindings: vec![(3, "eDP-1".to_owned())],
            active: vec![("eDP-1".to_owned(), 3)],
            focused: "eDP-1".to_owned(),
        }
    );
}

#[test]
fn the_rollback_returns_to_the_workspace_that_was_showing() {
    let plan = plan(&single_monitor(), "eDP-1", 3).expect("a plan");
    assert_eq!(
        plan.rollback.commands,
        vec!["workspace 1"],
        "computed from the pre-state, before anything is sent"
    );
}

#[test]
fn selecting_the_workspace_already_on_screen_is_a_no_op() {
    assert_eq!(plan(&single_monitor(), "eDP-1", 1), None);
}

#[test]
fn selecting_a_workspace_that_no_longer_exists_is_a_no_op() {
    assert_eq!(plan(&single_monitor(), "eDP-1", 9), None);
}

#[test]
fn a_special_workspace_is_never_a_target() {
    let mut world = single_monitor();
    world.workspaces.push(workspace(-99, "eDP-1"));
    assert_eq!(plan(&world, "eDP-1", -99), None);
}

#[test]
fn a_snapshot_monitor_that_has_gone_degrades_to_activation_on_the_focused_monitor() {
    let world = single_monitor();
    let plan = plan(&world, "DP-UNPLUGGED", 3).expect("a plan rather than a cancellation");
    assert_eq!(plan.commands, vec!["workspace 3"]);
    assert_eq!(
        plan.expected.focused, "eDP-1",
        "the currently focused monitor stands in for the one that went away"
    );
}

#[test]
fn the_degraded_case_still_honours_the_already_active_no_op() {
    // Falling back to the focused monitor must not turn a no-op into a dispatch.
    assert_eq!(plan(&single_monitor(), "DP-UNPLUGGED", 1), None);
}

#[test]
fn with_no_monitors_at_all_there_is_nothing_to_plan() {
    let mut world = World::default();
    world.rebuild(vec![], vec![workspace(1, "eDP-1")], vec![]);
    assert_eq!(plan(&world, "eDP-1", 1), None);
}

#[test]
fn selecting_the_other_monitors_active_workspace_swaps_the_two_monitors() {
    let plan = plan(&two_monitors(), "eDP-1", 2).expect("a plan");
    assert_eq!(
        plan.commands,
        vec![
            "swapactiveworkspaces eDP-1 HEADLESS-2",
            "focusmonitor eDP-1"
        ]
    );
    assert!(plan.is_swap());
}

#[test]
fn the_swap_expects_both_workspaces_to_change_monitors_and_focus_to_stay_put() {
    let plan = plan(&two_monitors(), "eDP-1", 2).expect("a plan");
    assert_eq!(
        plan.expected,
        ExpectedState {
            bindings: vec![(2, "eDP-1".to_owned()), (1, "HEADLESS-2".to_owned())],
            active: vec![("eDP-1".to_owned(), 2), ("HEADLESS-2".to_owned(), 1)],
            focused: "eDP-1".to_owned(),
        }
    );
}

#[test]
fn selecting_a_workspace_not_shown_on_the_other_monitor_moves_both_and_refocuses() {
    let plan = plan(&two_monitors(), "eDP-1", 4).expect("a plan");
    assert_eq!(
        plan.commands,
        vec![
            "moveworkspacetomonitor 4 eDP-1",
            "moveworkspacetomonitor 1 HEADLESS-2",
            "focusmonitor eDP-1",
            "focusworkspaceoncurrentmonitor 4",
        ]
    );
    assert!(plan.is_swap());
}

#[test]
fn the_inactive_target_shape_expects_the_same_end_state_as_the_active_one() {
    // The two shapes differ in how they get there, never in where they arrive — which is why
    // the verification path does not need to know which was used.
    let plan = plan(&two_monitors(), "eDP-1", 4).expect("a plan");
    assert_eq!(
        plan.expected,
        ExpectedState {
            bindings: vec![(4, "eDP-1".to_owned()), (1, "HEADLESS-2".to_owned())],
            active: vec![("eDP-1".to_owned(), 4), ("HEADLESS-2".to_owned(), 1)],
            focused: "eDP-1".to_owned(),
        }
    );
}

#[test]
fn the_swap_rollback_restores_the_pre_state_rather_than_inverting_the_commands() {
    let plan = plan(&two_monitors(), "eDP-1", 2).expect("a plan");
    assert_eq!(
        plan.rollback.commands,
        vec![
            "moveworkspacetomonitor 2 HEADLESS-2",
            "moveworkspacetomonitor 1 eDP-1",
            "focusmonitor eDP-1",
            "focusworkspaceoncurrentmonitor 1",
            "focusmonitor HEADLESS-2",
            "focusworkspaceoncurrentmonitor 2",
            "focusmonitor eDP-1",
        ]
    );
}

#[test]
fn the_rollback_restores_the_other_monitors_own_workspace_not_the_selection() {
    // Shape 3's other monitor was showing 2, not the selected 4; a rollback that put 4 back
    // on screen there would be a change the user never asked for.
    let plan = plan(&two_monitors(), "eDP-1", 4).expect("a plan");
    assert_eq!(
        plan.rollback.expected,
        ExpectedState {
            bindings: vec![(4, "HEADLESS-2".to_owned()), (1, "eDP-1".to_owned())],
            active: vec![("eDP-1".to_owned(), 1), ("HEADLESS-2".to_owned(), 2)],
            focused: "eDP-1".to_owned(),
        }
    );
    assert!(
        plan.rollback
            .commands
            .contains(&"focusworkspaceoncurrentmonitor 2".to_owned())
    );
}

#[test]
fn the_rollback_is_idempotent() {
    // It has to be: it runs against a state the application only partly knows.
    let plan = plan(&two_monitors(), "eDP-1", 2).expect("a plan");
    let mut restored = two_monitors();
    restored.rebuild(
        vec![
            monitor(0, "eDP-1", 1, true),
            monitor(1, "HEADLESS-2", 2, false),
        ],
        restored.workspaces.clone(),
        vec![],
    );
    assert_eq!(
        plan.rollback
            .expected
            .mismatch(&restored.monitors, &restored.workspaces),
        None,
        "the pre-state is what the rollback aims at, so it is already satisfied here"
    );
}

#[test]
fn with_one_monitor_a_cross_monitor_selection_degrades_to_plain_activation() {
    let plan = plan(&single_monitor(), "eDP-1", 3).expect("a plan");
    assert_eq!(plan.commands, vec!["workspace 3"]);
    assert!(!plan.is_swap());
}

#[test]
fn a_selection_bound_to_a_monitor_that_has_gone_degrades_to_activation() {
    let mut world = two_monitors();
    world.rebuild(
        vec![monitor(0, "eDP-1", 1, true)],
        world.workspaces.clone(),
        vec![],
    );
    let plan = plan(&world, "eDP-1", 2).expect("a plan");
    assert_eq!(plan.commands, vec!["workspace 2"]);
    assert!(!plan.is_swap());
}

/// The world a failed swap of 1 and 2 can leave behind: workspace 2 moved to eDP-1, but
/// workspace 1 never made it across.
fn half_swapped() -> World {
    let mut world = World::default();
    world.rebuild(
        vec![
            monitor(0, "eDP-1", 2, true),
            monitor(1, "HEADLESS-2", 4, false),
        ],
        vec![
            workspace(1, "eDP-1"),
            workspace(2, "eDP-1"),
            workspace(3, "eDP-1"),
            workspace(4, "HEADLESS-2"),
        ],
        vec![],
    );
    world
}

#[test]
fn a_state_that_matches_reports_no_mismatch() {
    let world = two_monitors();
    let plan = plan(&world, "eDP-1", 2).expect("a plan");
    assert_eq!(
        plan.rollback
            .expected
            .mismatch(&world.monitors, &world.workspaces),
        None
    );
}

#[test]
fn a_workspace_on_the_wrong_monitor_is_a_mismatch() {
    let plan = plan(&two_monitors(), "eDP-1", 2).expect("a plan");
    let world = half_swapped();
    let mismatch = plan
        .expected
        .mismatch(&world.monitors, &world.workspaces)
        .expect("workspace 1 never reached HEADLESS-2");
    assert!(mismatch.contains("workspace 1"), "{mismatch}");
    assert!(mismatch.contains("HEADLESS-2"), "{mismatch}");
}

#[test]
fn a_monitor_showing_the_wrong_workspace_is_a_mismatch() {
    let expected = ExpectedState {
        bindings: vec![],
        active: vec![("HEADLESS-2".to_owned(), 2)],
        focused: "eDP-1".to_owned(),
    };
    let world = half_swapped();
    let mismatch = expected
        .mismatch(&world.monitors, &world.workspaces)
        .expect("HEADLESS-2 is showing 4");
    assert!(
        mismatch.contains("HEADLESS-2 is showing workspace 4"),
        "{mismatch}"
    );
}

#[test]
fn keyboard_focus_on_the_wrong_monitor_is_a_mismatch() {
    let mut world = two_monitors();
    world.rebuild(
        vec![
            monitor(0, "eDP-1", 1, false),
            monitor(1, "HEADLESS-2", 2, true),
        ],
        world.workspaces.clone(),
        vec![],
    );
    let expected = ExpectedState {
        bindings: vec![],
        active: vec![],
        focused: "eDP-1".to_owned(),
    };
    let mismatch = expected
        .mismatch(&world.monitors, &world.workspaces)
        .expect("focus is on the wrong monitor");
    assert!(mismatch.contains("keyboard focus"), "{mismatch}");
}

#[test]
fn a_vanished_monitor_or_workspace_is_a_mismatch_rather_than_a_match() {
    let plan = plan(&two_monitors(), "eDP-1", 2).expect("a plan");
    let empty = World::default();
    assert!(
        plan.expected
            .mismatch(&empty.monitors, &empty.workspaces)
            .is_some()
    );
}

#[test]
fn a_double_failure_leaves_both_the_plan_and_its_rollback_unsatisfied() {
    let plan = plan(&two_monitors(), "eDP-1", 2).expect("a plan");
    let world = half_swapped();

    assert!(
        plan.expected
            .mismatch(&world.monitors, &world.workspaces)
            .is_some(),
        "the swap did not land"
    );
    assert!(
        plan.rollback
            .expected
            .mismatch(&world.monitors, &world.workspaces)
            .is_some(),
        "and neither did the rollback"
    );
    assert_eq!(
        plan.rollback.expected.describe_actual(&world.workspaces),
        "workspace 2 is on eDP-1 and workspace 1 is on eDP-1",
        "the resulting state, in the shape the double-failure report uses"
    );
}

#[test]
fn the_resulting_state_names_a_workspace_that_has_disappeared_entirely() {
    let plan = plan(&two_monitors(), "eDP-1", 2).expect("a plan");
    let empty = World::default();
    assert_eq!(
        plan.rollback.expected.describe_actual(&empty.workspaces),
        "workspace 2 is gone and workspace 1 is gone"
    );
}

#[test]
fn windows_on_a_workspace_do_not_affect_its_plan() {
    // The plan is about workspaces and monitors; window contents are the overlay's business.
    let mut world = single_monitor();
    world.windows.push(Window {
        address: "0xa".to_owned(),
        title: "editor".to_owned(),
        class: "foot".to_owned(),
        workspace: 3,
        at: (0, 0),
        size: (960, 1080),
        floating: false,
        mapped: true,
    });
    assert_eq!(
        plan(&world, "eDP-1", 3).map(|plan| plan.commands),
        Some(vec!["workspace 3".to_owned()])
    );
}

// --- The new-workspace shortcut ------------------------------------------------------

fn busy(id: i32, monitor: &str) -> Workspace {
    Workspace {
        window_count: 2,
        ..workspace(id, monitor)
    }
}

#[test]
fn the_new_workspace_shortcut_jumps_to_the_lowest_unused_number() {
    let mut world = World::default();
    world.rebuild(
        vec![monitor(0, "eDP-1", 1, true)],
        vec![busy(1, "eDP-1"), busy(2, "eDP-1"), busy(4, "eDP-1")],
        vec![],
    );
    let plan = new_workspace_plan(&world).expect("a plan");
    assert_eq!(plan.workspace, 3);
    assert_eq!(plan.commands, vec!["workspace 3"]);
}

#[test]
fn the_new_workspace_shortcut_counts_every_monitors_workspaces_as_used() {
    let mut world = World::default();
    world.rebuild(
        vec![
            monitor(0, "eDP-1", 2, true),
            monitor(1, "HEADLESS-2", 1, false),
        ],
        vec![busy(1, "HEADLESS-2"), busy(2, "eDP-1"), busy(-98, "eDP-1")],
        vec![],
    );
    let plan = new_workspace_plan(&world).expect("a plan");
    assert_eq!(plan.commands, vec!["workspace 3"]);
}

#[test]
fn the_new_workspace_shortcut_is_a_no_op_on_an_empty_workspace() {
    // Every workspace of `single_monitor` is empty, the active one included.
    assert_eq!(new_workspace_plan(&single_monitor()), None);
}

#[test]
fn the_new_workspace_shortcut_needs_a_focused_monitor() {
    let mut world = World::default();
    world.rebuild(
        vec![monitor(0, "eDP-1", 1, false)],
        vec![busy(1, "eDP-1")],
        vec![],
    );
    assert_eq!(new_workspace_plan(&world), None);
}
