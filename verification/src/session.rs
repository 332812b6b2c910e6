//! The switcher session: one open overlay, from the shortcut that opened it to the commit or
//! cancel that closes it.
//!
//! Two properties are load-bearing and easy to lose:
//!
//! - **A session commits at most once.** Hyprland may emit the same `modifiers` state twice in a
//!   row, so every transition out of [`Outcome::Open`] is guarded rather than assumed to happen
//!   once.
//! - **The entries are a snapshot.** The world moves on while the overlay is open, which is why
//!   the committed target is re-checked against the live world at commit time.

pub mod keysyms;

use vstd::prelude::*;

use crate::model::MonitorName;
use crate::ordering::Entry;
use crate::state::{World, workspace_index};

verus! {

/// A depressed-modifier mask, as `wl_keyboard.modifiers` reports it.
pub type ModMask = u32;

/// Where a session ended up. `Open` until exactly one of the other two is reached.
#[derive(Debug, Clone, Copy, PartialEq, Eq, Structural)]
pub enum Outcome {
    Open,
    /// The user selected this workspace id.
    Committed(i32),
    /// Escape, a lost connection, or an empty entry list. Dispatches nothing and leaves the
    /// activation history untouched.
    Cancelled,
}

/// Whether the overlay has keyboard focus yet, which is what distinguishes the ordinary
/// hold-and-release path from the fast tap.
#[derive(Debug, Clone, Copy, PartialEq, Eq, Structural)]
pub enum FocusState {
    /// Opened; keyboard focus has not arrived. The overlay may not be painted yet.
    AwaitingFocus,
    /// Focused, `initial_mods` recorded.
    Focused,
    /// The shortcut was released before focus ever arrived — the fast-tap path. The overlay
    /// never maps at all.
    NeverFocused,
}

/// One thing an in-overlay key press asks for.
#[derive(Debug, Clone, Copy, PartialEq, Eq, Structural)]
pub enum Action {
    Next,
    Previous,
    Cancel,
    /// Only reachable in sticky mode; harmless otherwise.
    Commit,
}

/// The transient state of one open overlay. At most one exists at a time.
#[derive(Debug, PartialEq, Eq)]
pub struct Session {
    /// Snapshot taken when the session opened; never refreshed while open.
    pub entries: Vec<Entry>,
    /// Index into `entries`. Wraps in both directions.
    pub highlight: usize,
    /// The focused monitor when the session opened.
    pub origin_monitor: MonitorName,
    /// Modifiers depressed at keyboard focus. Empty means sticky mode.
    pub initial_mods: ModMask,
    pub focus_state: FocusState,
    pub outcome: Outcome,
}

/// One step forward, wrapping to the first entry.
pub open spec fn advanced(highlight: int, count: int) -> int {
    (highlight + 1) % count
}

/// One step back, wrapping to the last entry.
pub open spec fn stepped_back(highlight: int, count: int) -> int {
    (highlight + count - 1) % count
}

impl Session {
    /// The session's shape: at least one entry, and the highlight on one of them.
    pub open spec fn wf(&self) -> bool {
        0 < self.entries@.len() && self.highlight < self.entries@.len()
    }

    pub open spec fn open_now(&self) -> bool {
        self.outcome == Outcome::Open
    }

    pub open spec fn sticky_now(&self) -> bool {
        self.focus_state == FocusState::Focused && self.initial_mods == 0
    }

    /// What committing now would record: the highlighted entry's workspace.
    pub open spec fn selection(&self) -> Outcome {
        Outcome::Committed(self.entries@[self.highlight as int].workspace_id)
    }

    /// Open a session on a snapshot of the world's entries.
    ///
    /// `None` when there is nothing to show: an overlay listing no workspaces would take the
    /// user's keyboard for no reason. An out-of-range highlight lands on the last entry.
    pub fn open(entries: Vec<Entry>, highlight: usize, origin_monitor: MonitorName) -> (r: Option<Self>)
        ensures
            entries@.len() == 0 <==> r is None,
            r matches Some(s) ==> {
                &&& s.wf()
                &&& s.entries@ == entries@
                &&& s.highlight == if highlight < entries@.len() {
                    highlight as int
                } else {
                    entries@.len() - 1
                }
                &&& s.origin_monitor == origin_monitor
                &&& s.initial_mods == 0
                &&& s.focus_state == FocusState::AwaitingFocus
                &&& s.outcome == Outcome::Open
            },
    {
        if entries.len() == 0 {
            return None;
        }
        let last = entries.len() - 1;
        Some(
            Session {
                highlight: if highlight < last {
                    highlight
                } else {
                    last
                },
                entries,
                origin_monitor,
                initial_mods: 0,
                focus_state: FocusState::AwaitingFocus,
                outcome: Outcome::Open,
            },
        )
    }

    /// Whether the session is still accepting input.
    pub fn is_open(&self) -> (r: bool)
        ensures
            r == self.open_now(),
    {
        self.outcome == Outcome::Open
    }

    /// Whether the overlay should ever be painted. False on the fast-tap path, which commits
    /// without showing anything.
    pub fn is_visible(&self) -> (r: bool)
        ensures
            r == (self.focus_state != FocusState::NeverFocused),
    {
        self.focus_state != FocusState::NeverFocused
    }

    /// Sticky mode: the shortcut was bound without a modifier, so no release can ever commit and
    /// Enter does it instead. Only knowable once focus has arrived.
    pub fn is_sticky(&self) -> (r: bool)
        ensures
            r == self.sticky_now(),
    {
        self.focus_state == FocusState::Focused && self.initial_mods == 0
    }

    /// The entry the user would commit right now.
    pub fn highlighted(&self) -> (e: &Entry)
        requires
            self.wf(),
        ensures
            *e == self.entries@[self.highlight as int],
    {
        &self.entries[self.highlight]
    }

    /// Keyboard focus arrived; record the modifiers held at that instant. A second focus does
    /// not re-record: the first observation is the gesture the user began.
    pub fn focused(&mut self, mods: ModMask)
        ensures
            final(self).entries == old(self).entries,
            final(self).highlight == old(self).highlight,
            final(self).origin_monitor == old(self).origin_monitor,
            final(self).outcome == old(self).outcome,
            old(self).focus_state == FocusState::AwaitingFocus ==> final(self).initial_mods == mods
                && final(self).focus_state == FocusState::Focused,
            old(self).focus_state != FocusState::AwaitingFocus ==> final(self).initial_mods == old(self).initial_mods && final(self).focus_state == old(self).focus_state,
    {
        if self.focus_state == FocusState::AwaitingFocus {
            self.initial_mods = mods;
            self.focus_state = FocusState::Focused;
        }
    }

    /// A `modifiers` event arrived. Commits when any modifier held at focus has been released,
    /// which is the whole hold-and-release interaction.
    pub fn modifiers_changed(&mut self, current: ModMask)
        requires
            old(self).wf(),
        ensures
            final(self).entries == old(self).entries,
            final(self).highlight == old(self).highlight,
            final(self).origin_monitor == old(self).origin_monitor,
            final(self).initial_mods == old(self).initial_mods,
            final(self).focus_state == old(self).focus_state,
            final(self).outcome == if old(self).open_now() && old(self).focus_state
                == FocusState::Focused && old(self).initial_mods != 0 && current & old(self).initial_mods != old(self).initial_mods {
                old(self).selection()
            } else {
                old(self).outcome
            },
    {
        if self.is_open() && self.focus_state == FocusState::Focused && self.initial_mods != 0
            && current & self.initial_mods != self.initial_mods {
            self.commit();
        }
    }

    /// The switcher shortcut was released.
    ///
    /// Only meaningful before focus ever arrived: the user tapped and let go faster than the
    /// overlay could map, and the initial highlight is what they meant. Once focused, this event
    /// is noise — the compositor fires a bind's release on its key, not its modifier, so acting
    /// on it would commit on the first Tab of an Alt-Tab-Tab.
    pub fn shortcut_released(&mut self)
        requires
            old(self).wf(),
        ensures
            final(self).entries == old(self).entries,
            final(self).highlight == old(self).highlight,
            final(self).origin_monitor == old(self).origin_monitor,
            final(self).initial_mods == old(self).initial_mods,
            old(self).open_now() && old(self).focus_state == FocusState::AwaitingFocus ==> final(self).focus_state == FocusState::NeverFocused && final(self).outcome == old(self).selection(),
            !(old(self).open_now() && old(self).focus_state == FocusState::AwaitingFocus) ==> final(self).focus_state == old(self).focus_state && final(self).outcome == old(self).outcome,
    {
        if self.is_open() && self.focus_state == FocusState::AwaitingFocus {
            self.focus_state = FocusState::NeverFocused;
            self.commit();
        }
    }

    /// Apply an in-overlay key action. Enter is inert outside sticky mode: with a modifier held,
    /// its release is what commits, and honouring Enter as well would commit mid-gesture.
    pub fn apply(&mut self, action: Action)
        requires
            old(self).wf(),
        ensures
            final(self).wf(),
            final(self).entries == old(self).entries,
            final(self).origin_monitor == old(self).origin_monitor,
            final(self).initial_mods == old(self).initial_mods,
            final(self).focus_state == old(self).focus_state,
            !old(self).open_now() ==> final(self).highlight == old(self).highlight && final(self).outcome == old(self).outcome,
            old(self).open_now() ==> match action {
                Action::Next => final(self).highlight == advanced(
                    old(self).highlight as int,
                    old(self).entries@.len() as int,
                ) && final(self).outcome == Outcome::Open,
                Action::Previous => final(self).highlight == stepped_back(
                    old(self).highlight as int,
                    old(self).entries@.len() as int,
                ) && final(self).outcome == Outcome::Open,
                Action::Cancel => final(self).highlight == old(self).highlight && final(self).outcome
                    == Outcome::Cancelled,
                Action::Commit => final(self).highlight == old(self).highlight && final(self).outcome
                    == if old(self).sticky_now() {
                    old(self).selection()
                } else {
                    Outcome::Open
                },
            },
    {
        if !self.is_open() {
            return;
        }
        match action {
            Action::Next => self.next(),
            Action::Previous => self.previous(),
            Action::Cancel => self.cancel(),
            Action::Commit => {
                if self.is_sticky() {
                    self.commit();
                }
            },
        }
    }

    /// Advance the highlight, wrapping to the first entry. Also what a repeat switcher press
    /// does, since the compositor consumes the bind's key and it never reaches the overlay.
    pub fn next(&mut self)
        requires
            old(self).wf(),
        ensures
            final(self).wf(),
            final(self).entries == old(self).entries,
            final(self).origin_monitor == old(self).origin_monitor,
            final(self).initial_mods == old(self).initial_mods,
            final(self).focus_state == old(self).focus_state,
            final(self).outcome == old(self).outcome,
            final(self).highlight == if old(self).open_now() {
                advanced(old(self).highlight as int, old(self).entries@.len() as int)
            } else {
                old(self).highlight as int
            },
    {
        if self.is_open() {
            let count = self.entries.len();
            proof {
                if self.highlight + 1 == count {
                    vstd::arithmetic::div_mod::lemma_mod_self_0(count as int);
                } else {
                    vstd::arithmetic::div_mod::lemma_small_mod((self.highlight + 1) as nat, count as nat);
                }
            }
            self.highlight = if self.highlight + 1 == count {
                0
            } else {
                self.highlight + 1
            };
        }
    }

    /// Step back, wrapping to the last entry.
    pub fn previous(&mut self)
        requires
            old(self).wf(),
        ensures
            final(self).wf(),
            final(self).entries == old(self).entries,
            final(self).origin_monitor == old(self).origin_monitor,
            final(self).initial_mods == old(self).initial_mods,
            final(self).focus_state == old(self).focus_state,
            final(self).outcome == old(self).outcome,
            final(self).highlight == if old(self).open_now() {
                stepped_back(old(self).highlight as int, old(self).entries@.len() as int)
            } else {
                old(self).highlight as int
            },
    {
        if self.is_open() {
            let count = self.entries.len();
            proof {
                if self.highlight == 0 {
                    vstd::arithmetic::div_mod::lemma_small_mod((count - 1) as nat, count as nat);
                } else {
                    vstd::arithmetic::div_mod::lemma_mod_add_multiples_vanish(
                        (self.highlight - 1) as int,
                        count as int,
                    );
                    vstd::arithmetic::div_mod::lemma_small_mod((self.highlight - 1) as nat, count as nat);
                }
            }
            self.highlight = if self.highlight == 0 {
                count - 1
            } else {
                self.highlight - 1
            };
        }
    }

    /// Close with no workspace change and no history change.
    pub fn cancel(&mut self)
        ensures
            final(self).entries == old(self).entries,
            final(self).highlight == old(self).highlight,
            final(self).origin_monitor == old(self).origin_monitor,
            final(self).initial_mods == old(self).initial_mods,
            final(self).focus_state == old(self).focus_state,
            final(self).outcome == if old(self).open_now() {
                Outcome::Cancelled
            } else {
                old(self).outcome
            },
    {
        if self.is_open() {
            self.outcome = Outcome::Cancelled;
        }
    }

    /// The compositor went away; close without committing.
    pub fn connection_lost(&mut self)
        ensures
            final(self).entries == old(self).entries,
            final(self).highlight == old(self).highlight,
            final(self).origin_monitor == old(self).origin_monitor,
            final(self).initial_mods == old(self).initial_mods,
            final(self).focus_state == old(self).focus_state,
            final(self).outcome == if old(self).open_now() {
                Outcome::Cancelled
            } else {
                old(self).outcome
            },
    {
        self.cancel();
    }

    fn commit(&mut self)
        requires
            old(self).wf(),
        ensures
            final(self).entries == old(self).entries,
            final(self).highlight == old(self).highlight,
            final(self).origin_monitor == old(self).origin_monitor,
            final(self).initial_mods == old(self).initial_mods,
            final(self).focus_state == old(self).focus_state,
            final(self).outcome == if old(self).open_now() {
                old(self).selection()
            } else {
                old(self).outcome
            },
    {
        if self.is_open() {
            self.outcome = Outcome::Committed(self.highlighted().workspace_id);
        }
    }

    /// The workspace to act on, re-checked against the live world.
    ///
    /// `None` for a session that did not commit, or whose target has been destroyed since the
    /// snapshot was taken — the entries are a snapshot, so this is a real case rather than a
    /// defensive one.
    pub fn target(&self, world: &World) -> (r: Option<i32>)
        ensures
            r == match self.outcome {
                Outcome::Committed(id) => if workspace_index(world.workspaces@, id) is Some {
                    Some(id)
                } else {
                    None
                },
                _ => None,
            },
    {
        let id = match self.outcome {
            Outcome::Committed(id) => id,
            _ => return None,
        };
        proof {
            crate::state::lemma_workspace_index(world.workspaces@, id);
        }
        match world.workspace(id) {
            Some(workspace) => Some(workspace.id),
            None => None,
        }
    }
}

/// The fixed in-overlay key map, deliberately total: any key not named here is ignored while the
/// overlay holds keyboard focus. Shift+Tab is honoured on plain Tab too, since not every layout
/// reports it as `ISO_Left_Tab`.
pub open spec fn key_action(keysym: u32, shift: bool) -> Option<Action> {
    if keysym == keysyms::TAB && shift {
        Some(Action::Previous)
    } else if keysym == keysyms::TAB || keysym == keysyms::RIGHT || keysym == keysyms::DOWN {
        Some(Action::Next)
    } else if keysym == keysyms::ISO_LEFT_TAB || keysym == keysyms::LEFT || keysym == keysyms::UP {
        Some(Action::Previous)
    } else if keysym == keysyms::ESCAPE {
        Some(Action::Cancel)
    } else if keysym == keysyms::RETURN || keysym == keysyms::KP_ENTER {
        Some(Action::Commit)
    } else {
        None
    }
}

/// What an in-overlay key press asks for.
pub fn action_for(keysym: u32, shift: bool) -> (r: Option<Action>)
    ensures
        r == key_action(keysym, shift),
{
    if keysym == keysyms::TAB && shift {
        Some(Action::Previous)
    } else if keysym == keysyms::TAB || keysym == keysyms::RIGHT || keysym == keysyms::DOWN {
        Some(Action::Next)
    } else if keysym == keysyms::ISO_LEFT_TAB || keysym == keysyms::LEFT || keysym == keysyms::UP {
        Some(Action::Previous)
    } else if keysym == keysyms::ESCAPE {
        Some(Action::Cancel)
    } else if keysym == keysyms::RETURN || keysym == keysyms::KP_ENTER {
        Some(Action::Commit)
    } else {
        None
    }
}

/// The in-overlay keys, by their xkb keysyms: Tab (0xff09), Right (0xff53) and Down (0xff54)
/// step forward; Shift+Tab — which xkb reports as ISO_Left_Tab (0xfe20), or on some layouts as
/// Tab with Shift held — Left (0xff51) and Up (0xff52) step back, whatever Shift is doing;
/// Return (0xff0d) and keypad Enter (0xff8d) commit; Escape (0xff1b) cancels; any other key does
/// nothing.
pub proof fn law_in_overlay_keys(keysym: u32, shift: bool)
    ensures
        keysym == 0xff09 && !shift ==> key_action(keysym, shift) == Some(Action::Next),
        keysym == 0xff09 && shift ==> key_action(keysym, shift) == Some(Action::Previous),
        keysym == 0xff53 || keysym == 0xff54 ==> key_action(keysym, shift) == Some(Action::Next),
        keysym == 0xfe20 || keysym == 0xff51 || keysym == 0xff52 ==> key_action(keysym, shift)
            == Some(Action::Previous),
        keysym == 0xff0d || keysym == 0xff8d ==> key_action(keysym, shift) == Some(Action::Commit),
        keysym == 0xff1b ==> key_action(keysym, shift) == Some(Action::Cancel),
        keysym != 0xff09 && keysym != 0xff53 && keysym != 0xff54 && keysym != 0xfe20 && keysym
            != 0xff51 && keysym != 0xff52 && keysym != 0xff0d && keysym != 0xff8d && keysym != 0xff1b
            ==> key_action(keysym, shift) is None,
{
}

/// The highlight after `n` steps forward.
pub open spec fn advanced_times(highlight: int, count: int, n: nat) -> int
    decreases n,
{
    if n == 0 {
        highlight
    } else {
        advanced(advanced_times(highlight, count, (n - 1) as nat), count)
    }
}

/// The highlight after `n` steps back.
pub open spec fn stepped_back_times(highlight: int, count: int, n: nat) -> int
    decreases n,
{
    if n == 0 {
        highlight
    } else {
        stepped_back(stepped_back_times(highlight, count, (n - 1) as nat), count)
    }
}

/// A step keeps the highlight on an entry.
proof fn lemma_steps_stay_in_range(highlight: int, count: int, n: nat)
    requires
        0 <= highlight < count,
    ensures
        0 <= advanced_times(highlight, count, n) < count,
        0 <= stepped_back_times(highlight, count, n) < count,
    decreases n,
{
    if n > 0 {
        lemma_steps_stay_in_range(highlight, count, (n - 1) as nat);
    }
}

/// Stepping back `n` times from where `n` steps forward led, for any `n`, returns the highlight to
/// where it started — tapping seven times past the end of a three-entry list and reversing seven
/// times finds the entry it left.
pub proof fn law_n_forward_then_n_back_returns(highlight: int, count: int, n: nat)
    requires
        0 <= highlight < count,
    ensures
        stepped_back_times(advanced_times(highlight, count, n), count, n) == highlight,
    decreases n,
{
    if n > 0 {
        let m = (n - 1) as nat;
        let before = advanced_times(highlight, count, m);
        lemma_steps_stay_in_range(highlight, count, m);
        law_next_then_previous_returns(before, count);
        // One step back undoes the last step forward; the remaining `m` undo the rest.
        lemma_back_first(advanced_times(highlight, count, n), count, m);
        law_n_forward_then_n_back_returns(highlight, count, m);
    }
}

/// Stepping back `m + 1` times is stepping back once and then `m` times.
proof fn lemma_back_first(highlight: int, count: int, m: nat)
    ensures
        stepped_back_times(highlight, count, m + 1) == stepped_back_times(
            stepped_back(highlight, count),
            count,
            m,
        ),
    decreases m,
{
    let k = (m + 1) as nat;
    assert(stepped_back_times(highlight, count, k) == stepped_back(
        stepped_back_times(highlight, count, m),
        count,
    ));
    if m > 0 {
        let l = (m - 1) as nat;
        lemma_back_first(highlight, count, l);
        assert((l + 1) as nat == m);
        assert(stepped_back_times(stepped_back(highlight, count), count, m) == stepped_back(
            stepped_back_times(stepped_back(highlight, count), count, l),
            count,
        ));
    }
}

/// Stepping forward and then back returns the highlight to where it was, whatever the entry
/// count — so tapping past the end of the list and reversing finds the entry it left.
pub proof fn law_next_then_previous_returns(highlight: int, count: int)
    requires
        0 <= highlight < count,
    ensures
        stepped_back(advanced(highlight, count), count) == highlight,
        advanced(stepped_back(highlight, count), count) == highlight,
{
    assert(stepped_back(advanced(highlight, count), count) == highlight) by (nonlinear_arith)
        requires
            0 <= highlight < count,
    {
        if highlight + 1 == count {
            assert((highlight + 1) % count == 0);
        } else {
            assert((highlight + 1) % count == highlight + 1);
        }
    }
    assert(advanced(stepped_back(highlight, count), count) == highlight) by (nonlinear_arith)
        requires
            0 <= highlight < count,
    {
        if highlight == 0 {
            assert((count - 1) % count == count - 1);
        } else {
            assert((highlight + count - 1) % count == highlight - 1);
        }
    }
}

} // verus!
