//! The cached compositor view and the activation history.

use hypr_swap::hypr::events::Event;
use hypr_swap::model::{Monitor, Window, Workspace};
use hypr_swap::state::{ActivationHistory, Applied, World};

fn monitor(name: &str, active: i32, focused: bool) -> Monitor {
    Monitor {
        id: 0,
        name: name.to_owned(),
        position: (0, 0),
        size: (1920, 1080),
        scale_bits: 1.0f32.to_bits(),
        active_workspace: active,
        focused,
    }
}

fn workspace(id: i32, name: &str, monitor: &str, windows: u32) -> Workspace {
    Workspace {
        id,
        name: name.to_owned(),
        monitor: monitor.to_owned(),
        window_count: windows,
    }
}

fn window(address: &str, workspace: i32) -> Window {
    Window {
        address: address.to_owned(),
        title: "t".to_owned(),
        class: "c".to_owned(),
        workspace,
        at: (0, 0),
        size: (100, 100),
        floating: false,
        mapped: true,
    }
}

/// Two monitors, three ordinary workspaces and a scratchpad.
fn world() -> World {
    let mut world = World::default();
    world.rebuild(
        vec![monitor("eDP-1", 1, true), monitor("HEADLESS-2", 2, false)],
        vec![
            workspace(1, "1", "eDP-1", 2),
            workspace(2, "2", "HEADLESS-2", 1),
            workspace(4, "mail", "HEADLESS-2", 0),
            workspace(-99, "special:scratchpad", "eDP-1", 1),
        ],
        vec![window("0xa", 1), window("0xb", 1), window("0xc", 2)],
    );
    world
}

// --- Activation history ------------------------------------------------

#[test]
fn push_moves_an_id_to_the_front_without_duplicating_it() {
    let mut history = ActivationHistory::default();
    history.push(1);
    history.push(2);
    history.push(3);
    assert_eq!(history.order(), &[3, 2, 1]);

    history.push(1);
    assert_eq!(
        history.order(),
        &[1, 3, 2],
        "1 moved to the front, it did not appear twice"
    );
    assert_eq!(history.order().len(), 3);
}

#[test]
fn destroyed_ids_are_removed_from_the_history() {
    let mut history = ActivationHistory::default();
    history.push(1);
    history.push(2);
    history.remove(1);
    assert_eq!(history.order(), &[2]);
    history.remove(999);
    assert_eq!(history.order(), &[2], "removing an unknown id is harmless");
}

#[test]
fn a_workspace_never_active_this_session_has_no_position() {
    let mut history = ActivationHistory::default();
    history.push(7);
    assert_eq!(history.position(7), Some(0));
    assert_eq!(
        history.position(9),
        None,
        "never active, so it sorts last"
    );
}

#[test]
fn history_is_cleared_on_connection_loss() {
    let mut world = world();
    world.apply(&Event::WorkspaceActivated {
        id: Some(2),
        name: "2".to_owned(),
    });
    assert!(!world.history.order().is_empty());
    world.history.clear();
    assert!(world.history.order().is_empty());
}

#[test]
fn workspace_activation_sets_the_active_workspace_and_pushes_history() {
    let mut world = world();
    assert_eq!(
        world.apply(&Event::WorkspaceActivated {
            id: Some(4),
            name: "mail".into()
        }),
        Applied::Incrementally
    );
    assert_eq!(world.monitor("HEADLESS-2").unwrap().active_workspace, 4);
    assert_eq!(world.history.order(), &[4]);
}

#[test]
fn workspace_activation_without_an_id_resolves_the_name() {
    let mut world = world();
    assert_eq!(
        world.apply(&Event::WorkspaceActivated {
            id: None,
            name: "mail".into()
        }),
        Applied::Incrementally
    );
    assert_eq!(world.history.order(), &[4]);
}

#[test]
fn an_activation_naming_an_unknown_workspace_asks_for_a_rebuild() {
    let mut world = world();
    assert_eq!(
        world.apply(&Event::WorkspaceActivated {
            id: None,
            name: "brand-new".into()
        }),
        Applied::ByRebuilding
    );
}

#[test]
fn special_workspaces_never_enter_the_history() {
    let mut world = world();
    world.apply(&Event::WorkspaceActivated {
        id: Some(-99),
        name: "special:scratchpad".into(),
    });
    assert!(world.history.order().is_empty());
}

#[test]
fn focusing_a_monitor_moves_focus_and_pushes_its_workspace() {
    let mut world = world();
    let applied = world.apply(&Event::MonitorFocused {
        monitor: "HEADLESS-2".to_owned(),
        workspace_name: "2".to_owned(),
    });
    assert_eq!(applied, Applied::Incrementally);
    assert_eq!(world.focused_monitor().unwrap().name, "HEADLESS-2");
    assert_eq!(world.monitors.iter().filter(|m| m.focused).count(), 1);
    assert_eq!(world.history.order(), &[2]);
}

#[test]
fn focusing_an_unknown_monitor_asks_for_a_rebuild() {
    let mut world = world();
    let applied = world.apply(&Event::MonitorFocused {
        monitor: "DP-9".to_owned(),
        workspace_name: "2".to_owned(),
    });
    assert_eq!(applied, Applied::ByRebuilding);
    assert_eq!(
        world.focused_monitor().unwrap().name,
        "eDP-1",
        "focus is unchanged"
    );
}

#[test]
fn creating_a_workspace_asks_for_a_rebuild() {
    // The event carries no monitor binding, and guessing one would be wrong on the second
    // monitor.
    let mut world = world();
    assert_eq!(
        world.apply(&Event::WorkspaceCreated { name: "5".into() }),
        Applied::ByRebuilding
    );
}

#[test]
fn destroying_a_workspace_removes_it_its_windows_and_its_history_entry() {
    let mut world = world();
    world.apply(&Event::WorkspaceActivated {
        id: Some(2),
        name: "2".into(),
    });
    assert_eq!(world.history.order(), &[2]);

    let applied = world.apply(&Event::WorkspaceDestroyed {
        name: "2".to_owned(),
    });
    assert_eq!(applied, Applied::Incrementally);
    assert!(world.workspace(2).is_none());
    assert_eq!(world.windows_on(2).len(), 0);
    assert!(
        world.history.order().is_empty(),
        "no phantom entry survives"
    );
}

#[test]
fn destroying_an_unknown_workspace_is_harmless() {
    let mut world = world();
    let before = world.workspaces.len();
    assert_eq!(
        world.apply(&Event::WorkspaceDestroyed {
            name: "nope".into()
        }),
        Applied::Incrementally
    );
    assert_eq!(world.workspaces.len(), before);
}

#[test]
fn moving_a_workspace_rebinds_it_to_the_new_monitor() {
    let mut world = world();
    let applied = world.apply(&Event::WorkspaceMoved {
        name: "mail".to_owned(),
        monitor: "eDP-1".to_owned(),
    });
    assert_eq!(applied, Applied::Incrementally);
    assert_eq!(world.workspace(4).unwrap().monitor, "eDP-1");
}

#[test]
fn moving_a_workspace_to_an_unknown_monitor_asks_for_a_rebuild() {
    let mut world = world();
    let applied = world.apply(&Event::WorkspaceMoved {
        name: "mail".to_owned(),
        monitor: "DP-9".to_owned(),
    });
    assert_eq!(applied, Applied::ByRebuilding);
    assert_eq!(
        world.workspace(4).unwrap().monitor,
        "HEADLESS-2",
        "binding is unchanged"
    );
}

#[test]
fn opening_a_window_asks_for_a_rebuild_because_the_event_carries_no_geometry() {
    let mut world = world();
    assert_eq!(
        world.apply(&Event::WindowOpened {
            address: "0xz".into()
        }),
        Applied::ByRebuilding
    );
}

#[test]
fn closing_a_window_removes_it_and_updates_the_window_count() {
    let mut world = world();
    assert_eq!(world.workspace(1).unwrap().window_count, 2);
    let applied = world.apply(&Event::WindowClosed {
        address: "0xa".to_owned(),
    });
    assert_eq!(applied, Applied::Incrementally);
    assert_eq!(world.windows_on(1).len(), 1);
    assert_eq!(
        world.workspace(1).unwrap().window_count,
        1,
        "the emptiness check reads this count"
    );
}

#[test]
fn closing_the_last_window_leaves_an_empty_but_present_workspace() {
    let mut world = world();
    world.apply(&Event::WindowClosed {
        address: "0xc".to_owned(),
    });
    assert_eq!(world.workspace(2).unwrap().window_count, 0);
    assert!(
        world.workspace(2).is_some(),
        "empty workspaces are still listed"
    );
}

#[test]
fn moving_a_window_asks_for_a_rebuild() {
    let mut world = world();
    assert_eq!(
        world.apply(&Event::WindowMoved {
            address: "0xa".into()
        }),
        Applied::ByRebuilding
    );
}

#[test]
fn a_title_change_carrying_the_title_is_applied_in_place() {
    let mut world = world();
    let applied = world.apply(&Event::WindowTitleChanged {
        address: "0xa".to_owned(),
        title: Some("vim: main.rs".to_owned()),
    });
    assert_eq!(applied, Applied::Incrementally);
    assert_eq!(world.windows_on(1)[0].title, "vim: main.rs");
}

#[test]
fn a_title_change_without_the_title_asks_for_a_rebuild() {
    let mut world = world();
    assert_eq!(
        world.apply(&Event::WindowTitleChanged {
            address: "0xa".into(),
            title: None
        }),
        Applied::ByRebuilding
    );
}

#[test]
fn a_title_change_for_an_unknown_window_asks_for_a_rebuild() {
    let mut world = world();
    assert_eq!(
        world.apply(&Event::WindowTitleChanged {
            address: "0xz".into(),
            title: Some("t".into())
        }),
        Applied::ByRebuilding
    );
}

#[test]
fn monitor_changes_ask_for_a_rebuild() {
    let mut world = world();
    assert_eq!(world.apply(&Event::MonitorsChanged), Applied::ByRebuilding);
}

// --- Rebuild -----------------------------------------------------------

#[test]
fn a_rebuild_replaces_the_view_and_drops_history_for_workspaces_that_vanished() {
    let mut world = world();
    world.apply(&Event::WorkspaceActivated {
        id: Some(2),
        name: "2".into(),
    });
    world.apply(&Event::WorkspaceActivated {
        id: Some(1),
        name: "1".into(),
    });
    assert_eq!(world.history.order(), &[1, 2]);

    world.rebuild(
        vec![monitor("eDP-1", 1, true)],
        vec![workspace(1, "1", "eDP-1", 0)],
        vec![],
    );
    assert_eq!(world.monitors.len(), 1);
    assert_eq!(world.history.order(), &[1], "workspace 2 no longer exists");
}

#[test]
fn windows_on_a_workspace_come_back_in_compositor_order() {
    let world = world();
    let on_one = world.windows_on(1);
    let addresses: Vec<&str> = on_one
        .iter()
        .map(|window| window.address.as_str())
        .collect();
    assert_eq!(addresses, vec!["0xa", "0xb"]);
}
