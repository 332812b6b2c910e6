//! Sessions: opening, navigating, committing and cancelling.

use hypr_swap::config::Order;
use hypr_swap::model::{Monitor, Workspace};
use hypr_swap::ordering::Entry;
use hypr_swap::session::{action_for, keysyms, Action, FocusState, ModMask, Outcome, Session};
use hypr_swap::state::World;

/// An arbitrary non-empty mask standing in for "ALT is held".
const ALT: ModMask = 1 << 3;
const SHIFT: ModMask = 1 << 0;

fn entry(id: i32) -> Entry {
    Entry {
        workspace_id: id,
        label: id.to_string(),
        windows: Vec::new(),
        monitor: "eDP-1".to_owned(),
        monitor_position: (0, 0),
        monitor_size: (1920, 1080),
        is_active: id == 1,
    }
}

/// A session on three entries, highlight starting on the second, as MRU opens it.
fn session() -> Session {
    Session::open(vec![entry(1), entry(2), entry(3)], 1, "eDP-1".to_owned())
        .expect("three entries")
}

/// A focused session in the ordinary hold-a-modifier case.
fn held() -> Session {
    let mut session = session();
    session.focused(ALT);
    session
}

fn world_with(ids: &[i32]) -> World {
    let mut world = World::default();
    world.rebuild(
        vec![Monitor {
            id: 0,
            name: "eDP-1".to_owned(),
            position: (0, 0),
            size: (1920, 1080),
            scale_bits: 1.0f32.to_bits(),
            active_workspace: ids.first().copied().unwrap_or(1),
            focused: true,
        }],
        ids.iter()
            .map(|id| Workspace {
                id: *id,
                name: id.to_string(),
                monitor: "eDP-1".to_owned(),
                window_count: 0,
            })
            .collect(),
        vec![],
    );
    world
}

// --- Opening -----------------------------------------------------------

#[test]
fn opening_with_no_entries_yields_no_session() {
    assert_eq!(Session::open(Vec::new(), 0, "eDP-1".to_owned()), None);
}

#[test]
fn a_new_session_is_open_awaiting_focus_on_the_given_highlight() {
    let session = session();
    assert_eq!(session.outcome, Outcome::Open);
    assert_eq!(session.focus_state, FocusState::AwaitingFocus);
    assert_eq!(session.highlight, 1);
    assert_eq!(session.highlighted().workspace_id, 2);
    assert!(session.is_visible(), "an ordinary session paints");
}

#[test]
fn an_out_of_range_highlight_clamps_to_the_last_entry() {
    let session = Session::open(vec![entry(1), entry(2)], 9, "eDP-1".to_owned()).unwrap();
    assert_eq!(session.highlight, 1);
}

/// The ordering module produces the pair this consumes, so the two agree by construction.
#[test]
fn a_session_opens_on_whatever_ordering_chose() {
    let world = world_with(&[1, 2, 3]);
    let (entries, highlight) = hypr_swap::ordering::entries(&world, Order::Compositor);
    let session = Session::open(entries, highlight, "eDP-1".to_owned()).unwrap();
    assert_eq!(
        session.highlighted().workspace_id,
        1,
        "the active workspace"
    );
}

// --- Focus -------------------------------------------------------------

#[test]
fn keyboard_focus_records_the_modifiers_held_at_that_instant() {
    let session = held();
    assert_eq!(session.focus_state, FocusState::Focused);
    assert_eq!(session.initial_mods, ALT);
    assert!(!session.is_sticky());
}

#[test]
fn a_second_enter_does_not_re_record_the_initial_modifiers() {
    let mut session = held();
    session.focused(SHIFT);
    assert_eq!(session.initial_mods, ALT, "the first observation stands");
}

#[test]
fn no_modifier_held_at_focus_is_sticky_mode() {
    let mut session = session();
    session.focused(0);
    assert!(session.is_sticky());
}

#[test]
fn stickiness_is_unknown_before_focus_arrives() {
    assert!(!session().is_sticky(), "nothing has been observed yet");
}

// --- Navigation --------------------------------------------------------

#[test]
fn next_advances_and_wraps_to_the_first_entry() {
    let mut session = session();
    session.next();
    assert_eq!(session.highlighted().workspace_id, 3);
    session.next();
    assert_eq!(session.highlighted().workspace_id, 1, "wrapped");
}

#[test]
fn previous_steps_back_and_wraps_to_the_last_entry() {
    let mut session = session();
    session.previous();
    assert_eq!(session.highlighted().workspace_id, 1);
    session.previous();
    assert_eq!(session.highlighted().workspace_id, 3, "wrapped");
}

#[test]
fn tapping_past_the_end_and_reversing_returns_to_where_it_was() {
    let mut session = session();
    let start = session.highlight;
    for _ in 0..7 {
        session.next();
    }
    for _ in 0..7 {
        session.previous();
    }
    assert_eq!(session.highlight, start);
}

#[test]
fn navigation_on_a_single_entry_stays_put() {
    let mut session = Session::open(vec![entry(1)], 0, "eDP-1".to_owned()).unwrap();
    session.next();
    session.previous();
    assert_eq!(session.highlight, 0);
}

#[test]
fn a_closed_session_ignores_navigation() {
    let mut session = session();
    session.cancel();
    session.next();
    assert_eq!(session.highlight, 1, "unchanged after cancelling");
}

// --- Commit on release -------------------------------------------------

#[test]
fn releasing_a_modifier_held_at_focus_commits_the_highlighted_entry() {
    let mut session = held();
    session.next();
    session.modifiers_changed(0);
    assert_eq!(session.outcome, Outcome::Committed(3));
}

#[test]
fn releasing_only_one_of_several_held_modifiers_still_commits() {
    let mut session = session();
    session.focused(ALT | SHIFT);
    session.modifiers_changed(ALT);
    assert_eq!(
        session.outcome,
        Outcome::Committed(2),
        "any modifier from the initial set leaving is the release"
    );
}

#[test]
fn an_unrelated_modifier_arriving_does_not_commit() {
    // The user holding ALT and pressing SHIFT for Shift+Tab must not commit.
    let mut session = held();
    session.modifiers_changed(ALT | SHIFT);
    assert_eq!(session.outcome, Outcome::Open);
}

#[test]
fn the_same_modifier_state_arriving_twice_commits_once() {
    let mut session = held();
    session.modifiers_changed(0);
    assert_eq!(session.outcome, Outcome::Committed(2));
    session.next();
    session.modifiers_changed(0);
    assert_eq!(
        session.outcome,
        Outcome::Committed(2),
        "the second event changes nothing"
    );
}

#[test]
fn modifiers_before_focus_never_commit() {
    let mut session = session();
    session.modifiers_changed(0);
    assert_eq!(session.outcome, Outcome::Open);
}

#[test]
fn in_sticky_mode_no_modifier_event_can_commit() {
    let mut session = session();
    session.focused(0);
    session.modifiers_changed(0);
    session.modifiers_changed(ALT);
    assert_eq!(session.outcome, Outcome::Open);
}

// --- The fast-tap path -------------------------------------------------

#[test]
fn a_release_before_focus_commits_the_initial_highlight_without_showing_the_overlay() {
    let mut session = session();
    session.shortcut_released();
    assert_eq!(session.outcome, Outcome::Committed(2), "the initial entry");
    assert_eq!(session.focus_state, FocusState::NeverFocused);
    assert!(!session.is_visible(), "the overlay never appears");
}

#[test]
fn a_release_after_focus_is_ignored() {
    let mut session = held();
    session.next();
    session.shortcut_released();
    assert_eq!(
        session.outcome,
        Outcome::Open,
        "Alt-Tab-Tab must not commit on the first Tab release"
    );
    assert_eq!(session.focus_state, FocusState::Focused);
}

#[test]
fn focus_arriving_after_a_fast_tap_commit_does_not_reopen_anything() {
    let mut session = session();
    session.shortcut_released();
    session.focused(ALT);
    assert_eq!(session.outcome, Outcome::Committed(2));
    assert_eq!(session.focus_state, FocusState::NeverFocused);
}

// --- Cancelling --------------------------------------------------------

#[test]
fn escape_cancels_and_commits_nothing() {
    let mut session = held();
    session.apply(Action::Cancel);
    assert_eq!(session.outcome, Outcome::Cancelled);
    assert_eq!(session.target(&world_with(&[1, 2, 3])), None);
}

#[test]
fn a_modifier_release_after_escape_does_not_resurrect_the_commit() {
    let mut session = held();
    session.apply(Action::Cancel);
    session.modifiers_changed(0);
    assert_eq!(session.outcome, Outcome::Cancelled);
}

#[test]
fn losing_the_connection_cancels_without_committing() {
    let mut session = held();
    session.connection_lost();
    assert_eq!(session.outcome, Outcome::Cancelled);
}

// --- Enter -------------------------------------------------------------

#[test]
fn enter_commits_in_sticky_mode() {
    let mut session = session();
    session.focused(0);
    session.apply(Action::Next);
    session.apply(Action::Commit);
    assert_eq!(session.outcome, Outcome::Committed(3));
}

#[test]
fn enter_is_inert_while_a_modifier_is_held() {
    let mut session = held();
    session.apply(Action::Commit);
    assert_eq!(
        session.outcome,
        Outcome::Open,
        "the modifier release is what commits"
    );
}

#[test]
fn a_committed_target_that_still_exists_is_the_workspace_to_act_on() {
    let mut session = held();
    session.modifiers_changed(0);
    assert_eq!(session.target(&world_with(&[1, 2, 3])), Some(2));
}

#[test]
fn a_committed_target_destroyed_since_the_snapshot_resolves_to_nothing() {
    let mut session = held();
    session.modifiers_changed(0);
    assert_eq!(session.target(&world_with(&[1, 3])), None);
}

#[test]
fn an_open_session_has_no_target_yet() {
    assert_eq!(held().target(&world_with(&[1, 2, 3])), None);
}

#[test]
fn tab_right_and_down_advance() {
    for key in [keysyms::TAB, keysyms::RIGHT, keysyms::DOWN] {
        assert_eq!(action_for(key, false), Some(Action::Next), "{key:#x}");
    }
}

#[test]
fn shift_tab_left_and_up_step_back() {
    assert_eq!(action_for(keysyms::TAB, true), Some(Action::Previous));
    assert_eq!(
        action_for(keysyms::ISO_LEFT_TAB, false),
        Some(Action::Previous),
        "xkb reports Shift+Tab as ISO_Left_Tab on most layouts"
    );
    for key in [keysyms::LEFT, keysyms::UP] {
        assert_eq!(action_for(key, false), Some(Action::Previous), "{key:#x}");
    }
}

#[test]
fn escape_cancels_and_enter_commits() {
    assert_eq!(action_for(keysyms::ESCAPE, false), Some(Action::Cancel));
    assert_eq!(action_for(keysyms::RETURN, false), Some(Action::Commit));
    assert_eq!(action_for(keysyms::KP_ENTER, false), Some(Action::Commit));
}

#[test]
fn every_other_key_is_ignored() {
    for key in [0x0061, 0x0031, 0xffbe, 0xff50, 0x0020] {
        assert_eq!(action_for(key, false), None, "{key:#x}");
        assert_eq!(action_for(key, true), None, "{key:#x} with shift");
    }
}

#[test]
fn holding_shift_does_not_change_the_arrow_keys() {
    // Shift+Alt+Tab is the documented reverse gesture; the arrows keep their meaning.
    assert_eq!(action_for(keysyms::RIGHT, true), Some(Action::Next));
    assert_eq!(action_for(keysyms::UP, true), Some(Action::Previous));
}
