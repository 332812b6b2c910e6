//! A committed selection turned into compositor commands.
//!
//! Pure: this module decides *what* to dispatch and what would undo it; the program's edge does
//! the dispatching and decides when. That split is what lets every plan shape be stated and
//! checked without a compositor.
//!
//! A plan resolves the selected workspace's monitor from the **current** world, never from the
//! entry snapshot the overlay was built from. A snapshot monitor that has since been unplugged
//! therefore lands in the same-monitor activation shape — a degradation, not a cancellation.

use vstd::prelude::*;

use crate::model::{Monitor, MonitorName, Workspace};
use crate::seqs::{first_where, lemma_first_where_facts, lemma_first_where_found, lemma_first_where_none};
use crate::state::{
    focused_at, focused_index, focused_monitor_index, monitor_is, monitor_named,
    monitor_named_index, workspace_index, workspace_index_of, carries, World,
};
use crate::text::{push_signed, push_str, signed};

verus! {

// --- Command text -------------------------------------------------------------------

/// `workspace <id>`: activate a workspace on the monitor it is bound to.
pub open spec fn workspace_command(id: i32) -> Seq<char> {
    "workspace "@ + signed(id as int)
}

/// `moveworkspacetomonitor <id> <monitor>`.
pub open spec fn move_command(id: i32, monitor: Seq<char>) -> Seq<char> {
    "moveworkspacetomonitor "@ + signed(id as int) + " "@ + monitor
}

/// `focusmonitor <monitor>`.
pub open spec fn focus_command(monitor: Seq<char>) -> Seq<char> {
    "focusmonitor "@ + monitor
}

/// `focusworkspaceoncurrentmonitor <id>`.
pub open spec fn show_command(id: i32) -> Seq<char> {
    "focusworkspaceoncurrentmonitor "@ + signed(id as int)
}

/// `swapactiveworkspaces <a> <b>`.
pub open spec fn exchange_command(a: Seq<char>, b: Seq<char>) -> Seq<char> {
    "swapactiveworkspaces "@ + a + " "@ + b
}

fn workspace_command_text(id: i32) -> (s: String)
    ensures
        s@ == workspace_command(id),
{
    let mut s = String::new();
    push_str(&mut s, "workspace ");
    push_signed(&mut s, id as i64);
    s
}

fn move_command_text(id: i32, monitor: &str) -> (s: String)
    ensures
        s@ == move_command(id, monitor@),
{
    let mut s = String::new();
    push_str(&mut s, "moveworkspacetomonitor ");
    push_signed(&mut s, id as i64);
    push_str(&mut s, " ");
    push_str(&mut s, monitor);
    s
}

fn focus_command_text(monitor: &str) -> (s: String)
    ensures
        s@ == focus_command(monitor@),
{
    let mut s = String::new();
    push_str(&mut s, "focusmonitor ");
    push_str(&mut s, monitor);
    s
}

fn show_command_text(id: i32) -> (s: String)
    ensures
        s@ == show_command(id),
{
    let mut s = String::new();
    push_str(&mut s, "focusworkspaceoncurrentmonitor ");
    push_signed(&mut s, id as i64);
    s
}

fn exchange_command_text(a: &str, b: &str) -> (s: String)
    ensures
        s@ == exchange_command(a@, b@),
{
    let mut s = String::new();
    push_str(&mut s, "swapactiveworkspaces ");
    push_str(&mut s, a);
    push_str(&mut s, " ");
    push_str(&mut s, b);
    s
}

// --- Expected states ----------------------------------------------------------------

/// The state a plan is expected to leave the compositor in.
///
/// Recorded before dispatch so the result can be read back and compared. A same-monitor
/// activation is not at risk of a half-applied state, but it carries its expectation for the same
/// reason the cross-monitor shapes do: one plan type, one verification path.
#[derive(Debug, Clone, PartialEq, Eq)]
pub struct ExpectedState {
    /// Workspace id → the monitor it must be bound to afterwards.
    pub bindings: Vec<(i32, MonitorName)>,
    /// Monitor → the workspace it must be showing afterwards.
    pub active: Vec<(MonitorName, i32)>,
    /// The monitor that must hold keyboard focus afterwards.
    pub focused: MonitorName,
}

/// An expected state with its names read as text.
pub struct ExpectedView {
    pub bindings: Seq<(i32, Seq<char>)>,
    pub active: Seq<(Seq<char>, i32)>,
    pub focused: Seq<char>,
}

impl View for ExpectedState {
    type V = ExpectedView;

    open spec fn view(&self) -> ExpectedView {
        ExpectedView {
            bindings: self.bindings.deep_view(),
            active: self.active.deep_view(),
            focused: self.focused@,
        }
    }
}

/// Whether a binding holds: the first workspace with its id is on its monitor.
pub open spec fn binding_holds(ws: Seq<Workspace>, b: (i32, Seq<char>)) -> bool {
    match workspace_index(ws, b.0) {
        Some(k) => ws[k].monitor@ == b.1,
        None => false,
    }
}

/// How a binding that does not hold is reported.
pub open spec fn binding_report(ws: Seq<Workspace>, b: (i32, Seq<char>)) -> Seq<char> {
    match workspace_index(ws, b.0) {
        Some(k) => "workspace "@ + signed(b.0 as int) + " is on "@ + ws[k].monitor@ + " rather than "@
            + b.1,
        None => "workspace "@ + signed(b.0 as int) + " no longer exists"@,
    }
}

/// Whether an activation holds: the first monitor of that name is showing the workspace.
pub open spec fn active_holds(ms: Seq<Monitor>, a: (Seq<char>, i32)) -> bool {
    match monitor_named(ms, a.0) {
        Some(j) => ms[j].active_workspace == a.1,
        None => false,
    }
}

/// How an activation that does not hold is reported.
pub open spec fn active_report(ms: Seq<Monitor>, a: (Seq<char>, i32)) -> Seq<char> {
    match monitor_named(ms, a.0) {
        Some(j) => a.0 + " is showing workspace "@ + signed(ms[j].active_workspace as int)
            + " rather than "@ + signed(a.1 as int),
        None => "monitor "@ + a.0 + " no longer exists"@,
    }
}

/// What the focus check reports, if anything.
pub open spec fn focus_report(ms: Seq<Monitor>, focused: Seq<char>) -> Option<Seq<char>> {
    match focused_index(ms) {
        Some(f) => if ms[f].name@ == focused {
            None
        } else {
            Some("keyboard focus is on "@ + ms[f].name@ + " rather than "@ + focused)
        },
        None => Some("no monitor holds keyboard focus"@),
    }
}

/// Whether the `i`-th binding of `e` fails in `ws`.
pub open spec fn broken_binding(e: ExpectedView, ws: Seq<Workspace>) -> spec_fn(int) -> bool {
    |i: int| !binding_holds(ws, e.bindings[i])
}

/// Whether the `i`-th activation of `e` fails in `ms`.
pub open spec fn broken_active(e: ExpectedView, ms: Seq<Monitor>) -> spec_fn(int) -> bool {
    |i: int| !active_holds(ms, e.active[i])
}

/// The first way the reported state differs from `e`: bindings in order, then activations in
/// order, then focus.
pub open spec fn mismatch_of(e: ExpectedView, ms: Seq<Monitor>, ws: Seq<Workspace>) -> Option<
    Seq<char>,
> {
    match first_where(e.bindings.len() as int, broken_binding(e, ws)) {
        Some(i) => Some(binding_report(ws, e.bindings[i])),
        None => match first_where(e.active.len() as int, broken_active(e, ms)) {
            Some(i) => Some(active_report(ms, e.active[i])),
            None => focus_report(ms, e.focused),
        },
    }
}

/// Whether some reported workspace carries `b`'s id, the first such is on `b`'s monitor.
pub open spec fn reported_bound(ws: Seq<Workspace>, b: (i32, Seq<char>)) -> bool {
    exists|k: int|
        0 <= k < ws.len() && ws[k].id == b.0 && ws[k].monitor@ == b.1 && forall|l: int|
            0 <= l < k ==> ws[l].id != b.0
}

/// Whether some reported monitor has `a`'s name, and the first such is showing `a`'s workspace.
pub open spec fn reported_showing(ms: Seq<Monitor>, a: (Seq<char>, i32)) -> bool {
    exists|j: int|
        0 <= j < ms.len() && ms[j].name@ == a.0 && ms[j].active_workspace == a.1 && forall|l: int|
            0 <= l < j ==> ms[l].name@ != a.0
}

/// Whether the first monitor reported focused is the one named `name`.
pub open spec fn reported_focus(ms: Seq<Monitor>, name: Seq<char>) -> bool {
    exists|f: int|
        0 <= f < ms.len() && ms[f].focused && ms[f].name@ == name && forall|l: int|
            0 <= l < f ==> !ms[l].focused
}

proof fn lemma_binding_holds(ws: Seq<Workspace>, b: (i32, Seq<char>))
    ensures
        binding_holds(ws, b) <==> reported_bound(ws, b),
{
    lemma_first_where_facts(ws.len() as int, carries(ws, b.0));
    if reported_bound(ws, b) {
        let k = choose|k: int|
            0 <= k < ws.len() && ws[k].id == b.0 && ws[k].monitor@ == b.1 && forall|l: int| 0 <= l < k ==> ws[l].id != b.0;
        assert forall|l: int| 0 <= l < k implies !#[trigger] carries(ws, b.0)(l) by {}
        crate::seqs::lemma_first_where_found(ws.len() as int, carries(ws, b.0), k);
    }
    if binding_holds(ws, b) {
        let k = workspace_index(ws, b.0)->Some_0;
        assert forall|l: int| 0 <= l < k implies ws[l].id != b.0 by {
            assert(!carries(ws, b.0)(l));
        }
    }
}

proof fn lemma_active_holds(ms: Seq<Monitor>, a: (Seq<char>, i32))
    ensures
        active_holds(ms, a) <==> reported_showing(ms, a),
{
    lemma_first_where_facts(ms.len() as int, monitor_is(ms, a.0));
    if reported_showing(ms, a) {
        let j = choose|j: int|
            0 <= j < ms.len() && ms[j].name@ == a.0 && ms[j].active_workspace == a.1 && forall|l: int| 0 <= l < j ==> ms[l].name@ != a.0;
        assert forall|l: int| 0 <= l < j implies !#[trigger] monitor_is(ms, a.0)(l) by {}
        crate::seqs::lemma_first_where_found(ms.len() as int, monitor_is(ms, a.0), j);
    }
    if active_holds(ms, a) {
        let j = monitor_named(ms, a.0)->Some_0;
        assert forall|l: int| 0 <= l < j implies ms[l].name@ != a.0 by {
            assert(!monitor_is(ms, a.0)(l));
        }
    }
}

proof fn lemma_focus_holds(ms: Seq<Monitor>, name: Seq<char>)
    ensures
        focus_report(ms, name) is None <==> reported_focus(ms, name),
{
    lemma_first_where_facts(ms.len() as int, focused_at(ms));
    if reported_focus(ms, name) {
        let f = choose|f: int|
            0 <= f < ms.len() && ms[f].focused && ms[f].name@ == name && forall|l: int| 0 <= l < f ==> !ms[l].focused;
        assert forall|l: int| 0 <= l < f implies !#[trigger] focused_at(ms)(l) by {}
        crate::seqs::lemma_first_where_found(ms.len() as int, focused_at(ms), f);
    }
    if focus_report(ms, name) is None {
        let f = focused_index(ms)->Some_0;
        assert forall|l: int| 0 <= l < f implies !ms[l].focused by {
            assert(!focused_at(ms)(l));
        }
    }
}

/// The read-back state matches an expectation exactly when every workspace it names is bound to
/// its monitor (the first workspace reported with that id), every monitor it names shows its
/// workspace (the first monitor reported with that name), and the expected monitor is the one
/// holding keyboard focus (the first reported focused) — so a half-landed swap is never taken for
/// a verified one, and a landed one is never rolled back.
pub proof fn law_a_match_is_everything_holding(e: ExpectedView, ms: Seq<Monitor>, ws: Seq<Workspace>)
    ensures
        mismatch_of(e, ms, ws) is None <==> {
            &&& forall|i: int| 0 <= i < e.bindings.len() ==> reported_bound(ws, #[trigger] e.bindings[i])
            &&& forall|i: int| 0 <= i < e.active.len() ==> reported_showing(ms, #[trigger] e.active[i])
            &&& reported_focus(ms, e.focused)
        },
{
    let pb = broken_binding(e, ws);
    let pa = broken_active(e, ms);
    lemma_first_where_facts(e.bindings.len() as int, pb);
    lemma_first_where_facts(e.active.len() as int, pa);
    lemma_focus_holds(ms, e.focused);
    assert forall|i: int| 0 <= i < e.bindings.len() implies (!#[trigger] pb(i) <==> reported_bound(ws, e.bindings[i])) by {
        lemma_binding_holds(ws, e.bindings[i]);
    }
    assert forall|i: int| 0 <= i < e.active.len() implies (!#[trigger] pa(i) <==> reported_showing(ms, e.active[i])) by {
        lemma_active_holds(ms, e.active[i]);
    }
    match first_where(e.bindings.len() as int, pb) {
        Some(i) => {
            assert(!reported_bound(ws, e.bindings[i]));
        },
        None => {
            assert forall|i: int| 0 <= i < e.bindings.len() implies reported_bound(ws, #[trigger] e.bindings[i]) by {
                assert(!pb(i));
            }
            match first_where(e.active.len() as int, pa) {
                Some(i) => {
                    assert(!reported_showing(ms, e.active[i]));
                },
                None => {
                    assert forall|i: int| 0 <= i < e.active.len() implies reported_showing(ms, #[trigger] e.active[i]) by {
                        assert(!pa(i));
                    }
                },
            }
        },
    }
}

/// Where a workspace has ended up, as the double-failure report words it.
pub open spec fn whereabouts(ws: Seq<Workspace>, id: i32) -> Seq<char> {
    match workspace_index(ws, id) {
        Some(k) => "on "@ + ws[k].monitor@,
        None => "gone"@,
    }
}

/// `workspace 4 is on HEADLESS-2 and workspace 2 is on eDP-1`, one clause per binding.
pub open spec fn described(b: Seq<(i32, Seq<char>)>, ws: Seq<Workspace>) -> Seq<char>
    decreases b.len(),
{
    if b.len() == 0 {
        Seq::empty()
    } else {
        described(b.drop_last(), ws) + (if b.len() > 1 {
            " and "@
        } else {
            Seq::empty()
        }) + "workspace "@ + signed(b.last().0 as int) + " is "@ + whereabouts(ws, b.last().0)
    }
}

/// A text read as its characters.
pub open spec fn text_of(r: Option<String>) -> Option<Seq<char>> {
    match r {
        Some(s) => Some(s@),
        None => None,
    }
}

impl ExpectedState {
    /// How the compositor's reported state differs from this one, or `None` if it matches.
    ///
    /// Only the monitors and workspaces a plan named are checked: a swap says nothing about the
    /// rest of the session, and a verification that failed on an unrelated change would roll back
    /// a swap that actually worked. Every monitor a plan touches appears in `active`, so
    /// requiring each of them to report the expected workspace *is* the requirement that neither
    /// monitor is left showing nothing.
    pub fn mismatch(&self, monitors: &[Monitor], workspaces: &[Workspace]) -> (r: Option<String>)
        ensures
            text_of(r) == mismatch_of(self@, monitors@, workspaces@),
    {
        let ghost e = self@;
        let ghost pb = broken_binding(e, workspaces@);
        proof {
            lemma_first_where_facts(e.bindings.len() as int, pb);
        }
        for i in 0..self.bindings.len()
            invariant
                e == self@,
                pb == broken_binding(e, workspaces@),
                forall|j: int| 0 <= j < i ==> !#[trigger] pb(j),
        {
            let workspace = self.bindings[i].0;
            let monitor = &self.bindings[i].1;
            assert(e.bindings[i as int] == (workspace, monitor@));
            proof {
                lemma_first_where_facts(workspaces@.len() as int, carries(workspaces@, workspace));
            }
            match workspace_index_of(workspaces, workspace) {
                Some(k) => {
                    if workspaces[k].monitor != *monitor {
                        let mut s = String::new();
                        push_str(&mut s, "workspace ");
                        push_signed(&mut s, workspace as i64);
                        push_str(&mut s, " is on ");
                        push_str(&mut s, workspaces[k].monitor.as_str());
                        push_str(&mut s, " rather than ");
                        push_str(&mut s, monitor.as_str());
                        proof {
                            lemma_first_where_found(e.bindings.len() as int, pb, i as int);
                        }
                        return Some(s);
                    }
                },
                None => {
                    let mut s = String::new();
                    push_str(&mut s, "workspace ");
                    push_signed(&mut s, workspace as i64);
                    push_str(&mut s, " no longer exists");
                    proof {
                        lemma_first_where_found(e.bindings.len() as int, pb, i as int);
                    }
                    return Some(s);
                },
            }
        }
        proof {
            lemma_first_where_none(e.bindings.len() as int, pb);
        }
        let ghost pa = broken_active(e, monitors@);
        for i in 0..self.active.len()
            invariant
                e == self@,
                pa == broken_active(e, monitors@),
                first_where(e.bindings.len() as int, broken_binding(e, workspaces@)) is None,
                forall|j: int| 0 <= j < i ==> !#[trigger] pa(j),
        {
            let monitor = &self.active[i].0;
            let workspace = self.active[i].1;
            assert(e.active[i as int] == (monitor@, workspace));
            proof {
                lemma_first_where_facts(monitors@.len() as int, monitor_is(monitors@, monitor@));
            }
            match monitor_named_index(monitors, monitor.as_str()) {
                Some(j) => {
                    if monitors[j].active_workspace != workspace {
                        let mut s = String::new();
                        push_str(&mut s, monitor.as_str());
                        push_str(&mut s, " is showing workspace ");
                        push_signed(&mut s, monitors[j].active_workspace as i64);
                        push_str(&mut s, " rather than ");
                        push_signed(&mut s, workspace as i64);
                        proof {
                            lemma_first_where_found(e.active.len() as int, pa, i as int);
                        }
                        return Some(s);
                    }
                },
                None => {
                    let mut s = String::new();
                    push_str(&mut s, "monitor ");
                    push_str(&mut s, monitor.as_str());
                    push_str(&mut s, " no longer exists");
                    proof {
                        lemma_first_where_found(e.active.len() as int, pa, i as int);
                    }
                    return Some(s);
                },
            }
        }
        proof {
            lemma_first_where_none(e.active.len() as int, pa);
            lemma_first_where_facts(monitors@.len() as int, focused_at(monitors@));
        }
        match focused_monitor_index(monitors) {
            Some(f) => {
                if monitors[f].name == self.focused {
                    None
                } else {
                    let mut s = String::new();
                    push_str(&mut s, "keyboard focus is on ");
                    push_str(&mut s, monitors[f].name.as_str());
                    push_str(&mut s, " rather than ");
                    push_str(&mut s, self.focused.as_str());
                    Some(s)
                }
            },
            None => {
                let mut s = String::new();
                push_str(&mut s, "no monitor holds keyboard focus");
                Some(s)
            },
        }
    }

    /// Where the workspaces this state names have actually ended up, phrased for the
    /// double-failure report: `workspace 4 is on HEADLESS-2 and workspace 2 is on eDP-1`.
    pub fn describe_actual(&self, workspaces: &[Workspace]) -> (r: String)
        ensures
            r@ == described(self@.bindings, workspaces@),
    {
        let ghost b = self@.bindings;
        let mut described_so_far = String::new();
        assert(b.take(0) =~= Seq::<(i32, Seq<char>)>::empty());
        for index in 0..self.bindings.len()
            invariant
                b == self@.bindings,
                described_so_far@ == described(b.take(index as int), workspaces@),
        {
            let workspace = self.bindings[index].0;
            proof {
                lemma_first_where_facts(workspaces@.len() as int, carries(workspaces@, workspace));
                let t = b.take(index + 1);
                assert(t.drop_last() =~= b.take(index as int));
                assert(t.last() == b[index as int]);
            }
            if index > 0 {
                push_str(&mut described_so_far, " and ");
            }
            push_str(&mut described_so_far, "workspace ");
            push_signed(&mut described_so_far, workspace as i64);
            push_str(&mut described_so_far, " is ");
            match workspace_index_of(workspaces, workspace) {
                Some(k) => {
                    push_str(&mut described_so_far, "on ");
                    push_str(&mut described_so_far, workspaces[k].monitor.as_str());
                },
                None => {
                    push_str(&mut described_so_far, "gone");
                },
            }
            assert(described_so_far@ =~= described(b.take(index + 1), workspaces@));
        }
        assert(b.take(self.bindings.len() as int) =~= b);
        described_so_far
    }
}


// --- Plans --------------------------------------------------------------------------

/// What to dispatch for a committed selection, and what would undo it.
///
/// The commands go out as one batch, so the compositor applies them in a single pass and no
/// intermediate frame is ever presented. A batch is not a transaction, though — a step that fails
/// leaves its predecessors applied — which is why every plan carries a rollback.
#[derive(Debug, Clone, PartialEq, Eq)]
pub struct CommandPlan {
    /// Dispatcher invocations without the `dispatch` keyword, e.g. `workspace 3`.
    pub commands: Vec<String>,
    pub expected: ExpectedState,
    /// How to undo it, computed from the pre-state *before* anything is sent.
    pub rollback: RollbackPlan,
}

/// The undo for a [`CommandPlan`], and the state it must restore.
///
/// Not the literal inverse of the forward commands: the rollback runs precisely when the batch
/// half-applied, so an inverse that assumed the whole plan had landed would be wrong exactly when
/// it matters. These commands drive the compositor to the recorded pre-state from *any*
/// intermediate state, and re-running them changes nothing.
#[derive(Debug, Clone, PartialEq, Eq)]
pub struct RollbackPlan {
    pub commands: Vec<String>,
    /// The pre-state, which is what the rollback is verified against.
    pub expected: ExpectedState,
}

/// A rollback with its texts read as characters.
pub struct RollbackView {
    pub commands: Seq<Seq<char>>,
    pub expected: ExpectedView,
}

/// A plan with its texts read as characters.
pub struct PlanView {
    pub commands: Seq<Seq<char>>,
    pub expected: ExpectedView,
    pub rollback: RollbackView,
}

impl View for RollbackPlan {
    type V = RollbackView;

    open spec fn view(&self) -> RollbackView {
        RollbackView { commands: self.commands.deep_view(), expected: self.expected@ }
    }
}

impl View for CommandPlan {
    type V = PlanView;

    open spec fn view(&self) -> PlanView {
        PlanView {
            commands: self.commands.deep_view(),
            expected: self.expected@,
            rollback: self.rollback@,
        }
    }
}

impl CommandPlan {
    /// Whether this plan moves workspaces between monitors, as opposed to activating one on the
    /// monitor it is already bound to. Two monitors in the expectation is exactly that.
    pub fn is_swap(&self) -> (r: bool)
        ensures
            r == (self@.expected.active.len() > 1),
    {
        self.expected.active.len() > 1
    }
}

/// The commands that bring every binding of a state back, in order.
pub open spec fn restore_bindings(b: Seq<(i32, Seq<char>)>) -> Seq<Seq<char>> {
    b.map_values(|p: (i32, Seq<char>)| move_command(p.0, p.1))
}

/// For each monitor in order: focus it, then show its workspace.
pub open spec fn restore_active(a: Seq<(Seq<char>, i32)>) -> Seq<Seq<char>>
    decreases a.len(),
{
    if a.len() == 0 {
        Seq::empty()
    } else {
        restore_active(a.drop_last()) + seq![focus_command(a.last().0), show_command(a.last().1)]
    }
}

/// Commands that reach `e` from anywhere: bindings, then each monitor's active workspace, then
/// focus. `focusworkspaceoncurrentmonitor` *moves* a workspace that is bound to another monitor,
/// so every binding has to be back in place before any workspace is activated.
pub open spec fn restoring(e: ExpectedView) -> Seq<Seq<char>> {
    restore_bindings(e.bindings) + restore_active(e.active) + seq![focus_command(e.focused)]
}

/// One workspace bound to one monitor, which shows `showing` and holds focus.
pub open spec fn single_state(monitor: Seq<char>, selected: i32, showing: i32) -> ExpectedView {
    ExpectedView {
        bindings: seq![(selected, monitor)],
        active: seq![(monitor, showing)],
        focused: monitor,
    }
}

/// Same-monitor activation: `workspace <id>`. One command cannot half-apply, so its rollback
/// really is the literal inverse.
pub open spec fn activation(origin: Monitor, selected: i32) -> PlanView {
    PlanView {
        commands: seq![workspace_command(selected)],
        expected: single_state(origin.name@, selected, selected),
        rollback: RollbackView {
            commands: seq![workspace_command(origin.active_workspace)],
            expected: single_state(origin.name@, selected, origin.active_workspace),
        },
    }
}

/// The monitor names of the world's focused monitor, or `fallback` when none is focused.
pub open spec fn focus_holder(w: World, fallback: Seq<char>) -> Seq<char> {
    match focused_index(w.monitors@) {
        Some(f) => w.monitors@[f].name@,
        None => fallback,
    }
}

/// The state before a swap of `selected` (shown or bound on `other`) onto `origin`.
pub open spec fn pre_swap(w: World, origin: Monitor, other: Monitor, selected: i32) -> ExpectedView {
    ExpectedView {
        bindings: seq![(selected, other.name@), (origin.active_workspace, origin.name@)],
        active: seq![
            (origin.name@, origin.active_workspace),
            (other.name@, other.active_workspace),
        ],
        focused: focus_holder(w, origin.name@),
    }
}

/// The state after the swap: the selection on the origin monitor, focused; the workspace it
/// displaced on the other monitor.
pub open spec fn post_swap(origin: Monitor, other: Monitor, selected: i32) -> ExpectedView {
    ExpectedView {
        bindings: seq![(selected, origin.name@), (origin.active_workspace, other.name@)],
        active: seq![(origin.name@, selected), (other.name@, origin.active_workspace)],
        focused: origin.name@,
    }
}

/// Cross-monitor swap. When the target is what the other monitor is showing, the compositor
/// exchanges the two itself; otherwise both workspaces are moved, and focus is brought back to
/// the origin before the last step, because moving the origin's active workspace away carries
/// keyboard focus with it.
pub open spec fn swapping(w: World, origin: Monitor, other: Monitor, selected: i32) -> PlanView {
    PlanView {
        commands: if other.active_workspace == selected {
            seq![exchange_command(origin.name@, other.name@), focus_command(origin.name@)]
        } else {
            seq![
                move_command(selected, origin.name@),
                move_command(origin.active_workspace, other.name@),
                focus_command(origin.name@),
                show_command(selected),
            ]
        },
        expected: post_swap(origin, other, selected),
        rollback: RollbackView {
            commands: restoring(pre_swap(w, origin, other, selected)),
            expected: pre_swap(w, origin, other, selected),
        },
    }
}

/// The monitor a plan is seen from: the named one, or the focused one standing in for a
/// monitor that has since been disconnected.
pub open spec fn origin_of(w: World, origin: Seq<char>) -> Option<int> {
    match monitor_named(w.monitors@, origin) {
        Some(i) => Some(i),
        None => focused_index(w.monitors@),
    }
}

/// The monitor the selection is bound to, when that is a live monitor other than the origin.
pub open spec fn counterpart(w: World, origin: int, bound_to: Seq<char>) -> Option<int> {
    match monitor_named(w.monitors@, bound_to) {
        Some(j) => if w.monitors@[j].name@ == w.monitors@[origin].name@ {
            None
        } else {
            Some(j)
        },
        None => None,
    }
}

/// The plan for activating `selected` as seen from `origin`, or `None` for a no-op.
pub open spec fn planned(w: World, origin: Seq<char>, selected: i32) -> Option<PlanView> {
    match workspace_index(w.workspaces@, selected) {
        None => None,
        Some(k) => if w.workspaces@[k].special() {
            None
        } else {
            match origin_of(w, origin) {
                None => None,
                Some(o) => if w.monitors@[o].active_workspace == selected {
                    None
                } else {
                    match counterpart(w, o, w.workspaces@[k].monitor@) {
                        None => Some(activation(w.monitors@[o], selected)),
                        Some(t) => Some(swapping(w, w.monitors@[o], w.monitors@[t], selected)),
                    }
                }
            }
        },
    }
}

/// A plan read as its view.
pub open spec fn plan_view(r: Option<CommandPlan>) -> Option<PlanView> {
    match r {
        Some(p) => Some(p@),
        None => None,
    }
}

/// Plan the outcome of activating `selected`, as seen from `origin_monitor`.
///
/// `origin_monitor` is the monitor that was focused when the overlay opened. If it has since been
/// disconnected, the currently focused monitor stands in for it.
///
/// Returns `None` for a no-op: the selection is already the active workspace of the origin
/// monitor, it is a special workspace, it no longer exists at all, or there is no monitor.
pub fn plan(world: &World, origin_monitor: &str, selected: i32) -> (r: Option<CommandPlan>)
    ensures
        plan_view(r) == planned(*world, origin_monitor@, selected),
{
    let workspace = match world.workspace(selected) {
        Some(workspace) => workspace,
        None => return None,
    };
    // A workspace that never should have been listed cannot be a target.
    if workspace.is_special() {
        return None;
    }
    let origin = match world.monitor(origin_monitor) {
        Some(monitor) => monitor,
        None => match world.focused_monitor() {
            Some(monitor) => monitor,
            None => return None,
        },
    };
    // Selecting the workspace already on screen does nothing at all.
    if origin.active_workspace == selected {
        return None;
    }
    let other = match world.monitor(workspace.monitor.as_str()) {
        Some(monitor) => if monitor.name == origin.name {
            None
        } else {
            Some(monitor)
        },
        None => None,
    };
    match other {
        None => Some(activate(origin, selected)),
        Some(other) => Some(swap(world, origin, other, selected)),
    }
}

// --- The new-workspace shortcut ---------------------------------------------------------

/// Whether no workspace carries the number `n`.
pub open spec fn number_free(ws: Seq<Workspace>, n: i32) -> bool {
    forall|k: int| 0 <= k < ws.len() ==> ws[k].id != n
}

/// Whether `n` is the lowest positive workspace number that no workspace carries.
pub open spec fn lowest_free(ws: Seq<Workspace>, n: i32) -> bool {
    &&& 1 <= n
    &&& number_free(ws, n)
    &&& forall|m: i32| 1 <= m < n ==> !number_free(ws, m)
}

/// Whether the `f`-th monitor is showing a workspace that holds no windows.
pub open spec fn showing_empty(w: World, f: int) -> bool {
    match workspace_index(w.workspaces@, w.monitors@[f].active_workspace) {
        Some(k) => w.workspaces@[k].window_count == 0,
        None => false,
    }
}

/// Where the new-workspace shortcut goes, and the one command that takes it there.
#[derive(Debug, Clone, PartialEq, Eq)]
pub struct NewWorkspacePlan {
    /// The lowest workspace number not yet in use.
    pub workspace: i32,
    pub commands: Vec<String>,
}

/// Plan the new-workspace shortcut: switch the focused monitor to the lowest workspace number
/// not yet in use, which the compositor creates on the monitor it is asked from.
///
/// `None` is a no-op: there is no focused monitor, or it is already showing an empty workspace,
/// or every positive workspace number is taken.
pub fn new_workspace_plan(world: &World) -> (r: Option<NewWorkspacePlan>)
    ensures
        match focused_index(world.monitors@) {
            None => r is None,
            Some(f) => if showing_empty(*world, f) {
                r is None
            } else {
                match r {
                    Some(p) => lowest_free(world.workspaces@, p.workspace) && p.commands.deep_view()
                        == seq![workspace_command(p.workspace)],
                    None => forall|m: i32| 1 <= m ==> !number_free(world.workspaces@, m),
                }
            },
        },
{
    let f = match focused_monitor_index(world.monitors.as_slice()) {
        Some(f) => f,
        None => return None,
    };
    let showing = world.monitors[f].active_workspace;
    proof {
        lemma_first_where_facts(world.workspaces@.len() as int, carries(world.workspaces@, showing));
    }
    if let Some(k) = workspace_index_of(world.workspaces.as_slice(), showing) {
        if world.workspaces[k].window_count == 0 {
            return None;
        }
    }
    assert(!showing_empty(*world, f as int));
    let mut n: i32 = 1;
    loop
        invariant
            1 <= n,
            focused_index(world.monitors@) == Some(f as int),
            !showing_empty(*world, f as int),
            forall|m: i32| 1 <= m < n ==> !number_free(world.workspaces@, m),
        decreases i32::MAX - n,
    {
        let found = workspace_index_of(world.workspaces.as_slice(), n);
        proof {
            lemma_first_where_facts(world.workspaces@.len() as int, carries(world.workspaces@, n));
        }
        match found {
            None => {
                assert(number_free(world.workspaces@, n)) by {
                    assert forall|k: int| 0 <= k < world.workspaces@.len() implies world.workspaces@[k].id
                        != n by {
                        assert(!carries(world.workspaces@, n)(k));
                    }
                }
                return Some(NewWorkspacePlan { workspace: n, commands: one_command(workspace_command_text(n)) });
            },
            Some(k) => {
                assert(!number_free(world.workspaces@, n)) by {
                    assert(world.workspaces@[k as int].id == n);
                }
            },
        }
        if n == i32::MAX {
            return None;
        }
        n = n + 1;
    }
}

fn single_expected(monitor: &MonitorName, selected: i32, showing: i32) -> (e: ExpectedState)
    ensures
        e@ == single_state(monitor@, selected, showing),
{
    let mut bindings: Vec<(i32, MonitorName)> = Vec::new();
    bindings.push((selected, monitor.clone()));
    let mut active: Vec<(MonitorName, i32)> = Vec::new();
    active.push((monitor.clone(), showing));
    let e = ExpectedState { bindings, active, focused: monitor.clone() };
    assert(e@.bindings =~= seq![(selected, monitor@)]);
    assert(e@.active =~= seq![(monitor@, showing)]);
    e
}

fn one_command(command: String) -> (v: Vec<String>)
    ensures
        v.deep_view() == seq![command@],
{
    let mut v: Vec<String> = Vec::new();
    v.push(command);
    assert(v.deep_view() =~= seq![command@]);
    v
}

/// Same-monitor activation.
fn activate(origin: &Monitor, selected: i32) -> (p: CommandPlan)
    ensures
        p@ == activation(*origin, selected),
{
    let previous = origin.active_workspace;
    CommandPlan {
        commands: one_command(workspace_command_text(selected)),
        expected: single_expected(&origin.name, selected, selected),
        rollback: RollbackPlan {
            commands: one_command(workspace_command_text(previous)),
            expected: single_expected(&origin.name, selected, previous),
        },
    }
}

fn pair_bindings(a: i32, a_on: &MonitorName, b: i32, b_on: &MonitorName) -> (v: Vec<(i32, MonitorName)>)
    ensures
        v.deep_view() == seq![(a, a_on@), (b, b_on@)],
{
    let mut v: Vec<(i32, MonitorName)> = Vec::new();
    v.push((a, a_on.clone()));
    v.push((b, b_on.clone()));
    assert(v.deep_view() =~= seq![(a, a_on@), (b, b_on@)]);
    v
}

fn pair_active(a: &MonitorName, a_shows: i32, b: &MonitorName, b_shows: i32) -> (v: Vec<(MonitorName, i32)>)
    ensures
        v.deep_view() == seq![(a@, a_shows), (b@, b_shows)],
{
    let mut v: Vec<(MonitorName, i32)> = Vec::new();
    v.push((a.clone(), a_shows));
    v.push((b.clone(), b_shows));
    assert(v.deep_view() =~= seq![(a@, a_shows), (b@, b_shows)]);
    v
}

/// Cross-monitor swap: the selected workspace comes to `origin` and the workspace it displaces
/// goes to `other`, with focus left on the selected workspace.
fn swap(world: &World, origin: &Monitor, other: &Monitor, selected: i32) -> (p: CommandPlan)
    ensures
        p@ == swapping(*world, *origin, *other, selected),
{
    let displaced = origin.active_workspace;
    let origin_name = &origin.name;
    let other_name = &other.name;
    // The monitor holding focus now, which need not be the one the overlay opened on.
    let focused = match world.focused_monitor() {
        Some(monitor) => monitor.name.clone(),
        None => origin_name.clone(),
    };
    let pre = ExpectedState {
        bindings: pair_bindings(selected, other_name, displaced, origin_name),
        active: pair_active(origin_name, displaced, other_name, other.active_workspace),
        focused,
    };
    let expected = ExpectedState {
        bindings: pair_bindings(selected, origin_name, displaced, other_name),
        active: pair_active(origin_name, selected, other_name, displaced),
        focused: origin_name.clone(),
    };
    let mut commands: Vec<String> = Vec::new();
    if other.active_workspace == selected {
        commands.push(exchange_command_text(origin_name.as_str(), other_name.as_str()));
        commands.push(focus_command_text(origin_name.as_str()));
        assert(commands.deep_view() =~= seq![
            exchange_command(origin.name@, other.name@),
            focus_command(origin.name@),
        ]);
    } else {
        commands.push(move_command_text(selected, origin_name.as_str()));
        commands.push(move_command_text(displaced, other_name.as_str()));
        commands.push(focus_command_text(origin_name.as_str()));
        commands.push(show_command_text(selected));
        assert(commands.deep_view() =~= seq![
            move_command(selected, origin.name@),
            move_command(origin.active_workspace, other.name@),
            focus_command(origin.name@),
            show_command(selected),
        ]);
    }
    let undo = restore(&pre);
    CommandPlan { commands, expected, rollback: RollbackPlan { commands: undo, expected: pre } }
}

/// Commands that reach `state` from anywhere: bindings, then each monitor's active workspace,
/// then focus.
fn restore(state: &ExpectedState) -> (commands: Vec<String>)
    ensures
        commands.deep_view() == restoring(state@),
{
    let ghost e = state@;
    let mut commands: Vec<String> = Vec::new();
    for i in 0..state.bindings.len()
        invariant
            e == state@,
            commands.deep_view() == restore_bindings(e.bindings.take(i as int)),
    {
        let ghost before = commands.deep_view();
        let command = move_command_text(state.bindings[i].0, state.bindings[i].1.as_str());
        commands.push(command);
        assert(commands.deep_view() =~= before.push(command@));
        assert(restore_bindings(e.bindings.take(i + 1)) =~= restore_bindings(
            e.bindings.take(i as int),
        ).push(move_command(e.bindings[i as int].0, e.bindings[i as int].1)));
    }
    assert(e.bindings.take(state.bindings.len() as int) =~= e.bindings);
    let ghost after_bindings = commands.deep_view();
    assert(e.active.take(0) =~= Seq::<(Seq<char>, i32)>::empty());
    assert(after_bindings + restore_active(e.active.take(0)) =~= after_bindings);
    for i in 0..state.active.len()
        invariant
            e == state@,
            after_bindings == restore_bindings(e.bindings),
            commands.deep_view() == after_bindings + restore_active(e.active.take(i as int)),
    {
        let ghost before = commands.deep_view();
        let focus = focus_command_text(state.active[i].0.as_str());
        let show = show_command_text(state.active[i].1);
        commands.push(focus);
        commands.push(show);
        proof {
            let t = e.active.take(i + 1);
            assert(t.drop_last() =~= e.active.take(i as int));
            assert(t.last() == e.active[i as int]);
        }
        assert(commands.deep_view() =~= before + seq![focus@, show@]);
    }
    assert(e.active.take(state.active.len() as int) =~= e.active);
    let ghost before = commands.deep_view();
    let last = focus_command_text(state.focused.as_str());
    commands.push(last);
    assert(commands.deep_view() =~= before.push(last@));
    commands
}


// --- What plans promise -------------------------------------------------------------

/// Monitors are told apart by name.
pub open spec fn names_distinct(ms: Seq<Monitor>) -> bool {
    forall|i: int, j: int|
        0 <= i < ms.len() && 0 <= j < ms.len() && i != j ==> #[trigger] ms[i].name@ != #[trigger] ms[j].name@
}

/// Every monitor's active workspace exists and is bound to that monitor.
pub open spec fn actives_bound(ms: Seq<Monitor>, ws: Seq<Workspace>) -> bool {
    forall|i: int|
        0 <= i < ms.len() ==> #[trigger] binding_holds(ws, (ms[i].active_workspace, ms[i].name@))
}

proof fn lemma_named_is_unique(ms: Seq<Monitor>, i: int)
    requires
        names_distinct(ms),
        0 <= i < ms.len(),
    ensures
        monitor_named(ms, ms[i].name@) == Some(i),
{
    let p = monitor_is(ms, ms[i].name@);
    lemma_first_where_facts(ms.len() as int, p);
    assert(p(i));
    match monitor_named(ms, ms[i].name@) {
        Some(j) => {
            assert(p(j));
            if j != i {
                assert(ms[j].name@ != ms[i].name@);
            }
        },
        None => {},
    }
}

/// The monitor a plan lands the selection on: the one it is seen from.
pub open spec fn origin_name(w: World, origin: Seq<char>) -> Seq<char> {
    w.monitors@[origin_of(w, origin)->Some_0].name@
}

/// What every plan shape expects of the origin, and how a swap undoes itself.
pub open spec fn lands_on(p: PlanView, selected: i32, name: Seq<char>) -> bool {
    &&& p.expected.bindings[0] == (selected, name)
    &&& p.expected.active[0] == (name, selected)
    &&& p.expected.focused == name
    &&& p.expected.active.len() > 1 ==> p.rollback.commands == restoring(p.rollback.expected)
}

proof fn lemma_activation_lands(origin: Monitor, selected: i32)
    ensures
        lands_on(activation(origin, selected), selected, origin.name@),
{
}

proof fn lemma_swap_lands(w: World, origin: Monitor, other: Monitor, selected: i32)
    ensures
        lands_on(swapping(w, origin, other, selected), selected, origin.name@),
{
}

/// Whatever its shape, a plan expects the selection bound to the origin monitor, shown there,
/// and that monitor focused; and the rollback of a swap is the generic restore of its
/// pre-state, not an inverse of the forward commands.
#[verifier::spinoff_prover]
pub proof fn law_plan_lands_the_selection_on_the_origin(w: World, origin: Seq<char>, selected: i32)
    requires
        planned(w, origin, selected) is Some,
    ensures
        planned(w, origin, selected) matches Some(p) && lands_on(p, selected, origin_name(w, origin)),
{
    let ws = w.workspaces@;
    let ms = w.monitors@;
    let k = workspace_index(ws, selected)->Some_0;
    let o = origin_of(w, origin)->Some_0;
    match counterpart(w, o, ws[k].monitor@) {
        None => {
            lemma_activation_lands(ms[o], selected);
            assert(planned(w, origin, selected) == Some(activation(ms[o], selected)));
        },
        Some(t) => {
            lemma_swap_lands(w, ms[o], ms[t], selected);
            assert(planned(w, origin, selected) == Some(swapping(w, ms[o], ms[t], selected)));
        },
    }
}

/// A swap's rollback aims at the state the world was in when the plan was made: checked against
/// that same world, its expectation reports no mismatch. This holds of a coherent world — monitor
/// names distinct, every monitor's active workspace bound to it, one monitor focused — which is
/// what the compositor reports between events.
pub proof fn law_swap_rollback_expects_the_pre_state(w: World, origin: Seq<char>, selected: i32)
    requires
        planned(w, origin, selected) matches Some(p) && p.expected.active.len() > 1,
        names_distinct(w.monitors@),
        actives_bound(w.monitors@, w.workspaces@),
        focused_index(w.monitors@) is Some,
    ensures
        planned(w, origin, selected) matches Some(p) && mismatch_of(
            p.rollback.expected,
            w.monitors@,
            w.workspaces@,
        ) is None,
{
    let ms = w.monitors@;
    let ws = w.workspaces@;
    crate::state::lemma_workspace_index(ws, selected);
    let k = workspace_index(ws, selected)->Some_0;
    lemma_first_where_facts(ms.len() as int, monitor_is(ms, origin));
    lemma_first_where_facts(ms.len() as int, focused_at(ms));
    let o = origin_of(w, origin)->Some_0;
    lemma_first_where_facts(ms.len() as int, monitor_is(ms, ws[k].monitor@));
    let t = counterpart(w, o, ws[k].monitor@)->Some_0;
    assert(planned(w, origin, selected) == Some(swapping(w, ms[o], ms[t], selected)));
    assert(0 <= o < ms.len() && 0 <= t < ms.len());
    assert(ms[t].name@ == ws[k].monitor@);
    let e = pre_swap(w, ms[o], ms[t], selected);
    assert(focus_report(ms, e.focused) is None);
    assert(binding_holds(ws, (ms[o].active_workspace, ms[o].name@)));
    lemma_named_is_unique(ms, o);
    lemma_named_is_unique(ms, t);
    lemma_pre_swap_holds(ws, ms, o, t, k, selected, e);
}

proof fn lemma_pre_swap_holds(
    ws: Seq<Workspace>,
    ms: Seq<Monitor>,
    o: int,
    t: int,
    k: int,
    selected: i32,
    e: ExpectedView,
)
    requires
        0 <= o < ms.len(),
        0 <= t < ms.len(),
        0 <= k < ws.len(),
        workspace_index(ws, selected) == Some(k),
        ms[t].name@ == ws[k].monitor@,
        monitor_named(ms, ms[o].name@) == Some(o),
        monitor_named(ms, ms[t].name@) == Some(t),
        binding_holds(ws, (ms[o].active_workspace, ms[o].name@)),
        e.bindings == seq![(selected, ms[t].name@), (ms[o].active_workspace, ms[o].name@)],
        e.active == seq![(ms[o].name@, ms[o].active_workspace), (ms[t].name@, ms[t].active_workspace)],
        focus_report(ms, e.focused) is None,
    ensures
        mismatch_of(e, ms, ws) is None,
{
    lemma_pre_swap_bindings(ws, ms, o, t, k, selected, e);
    lemma_pre_swap_actives(ms, o, t, e);
}

proof fn lemma_pre_swap_bindings(
    ws: Seq<Workspace>,
    ms: Seq<Monitor>,
    o: int,
    t: int,
    k: int,
    selected: i32,
    e: ExpectedView,
)
    requires
        0 <= k < ws.len(),
        workspace_index(ws, selected) == Some(k),
        ms[t].name@ == ws[k].monitor@,
        binding_holds(ws, (ms[o].active_workspace, ms[o].name@)),
        e.bindings == seq![(selected, ms[t].name@), (ms[o].active_workspace, ms[o].name@)],
    ensures
        first_where(e.bindings.len() as int, broken_binding(e, ws)) is None,
{
    assert(binding_holds(ws, e.bindings[0]));
    assert(binding_holds(ws, e.bindings[1]));
    lemma_none_broken(e.bindings.len() as int, broken_binding(e, ws));
}

proof fn lemma_pre_swap_actives(ms: Seq<Monitor>, o: int, t: int, e: ExpectedView)
    requires
        0 <= o < ms.len(),
        0 <= t < ms.len(),
        monitor_named(ms, ms[o].name@) == Some(o),
        monitor_named(ms, ms[t].name@) == Some(t),
        e.active == seq![(ms[o].name@, ms[o].active_workspace), (ms[t].name@, ms[t].active_workspace)],
    ensures
        first_where(e.active.len() as int, broken_active(e, ms)) is None,
{
    assert(active_holds(ms, e.active[0]));
    assert(active_holds(ms, e.active[1]));
    lemma_none_broken(e.active.len() as int, broken_active(e, ms));
}

proof fn lemma_none_broken(n: int, p: spec_fn(int) -> bool)
    requires
        n == 2,
        !p(0),
        !p(1),
    ensures
        first_where(n, p) is None,
{
    lemma_first_where_none(n, p);
}

} // verus!
