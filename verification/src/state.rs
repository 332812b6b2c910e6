//! The cached compositor view and the session-scoped activation history.
//!
//! The application owns exactly two pieces of state: the activation history and the switcher
//! session. Everything in [`World`] is a cache of what the compositor reports, rebuilt wholesale
//! on reconnect.

use vstd::prelude::*;

use crate::hypr::events::Event;
use crate::model::{Monitor, Window, Workspace};
use crate::seqs::{
    first_where, lemma_filter_take, lemma_filter_take_zero, lemma_first_where_facts,
    lemma_first_where_found, lemma_first_where_none,
};
use crate::text::same;

verus! {

// --- Activation history -----------------------------------------------------

/// The session-scoped most-recently-used record.
///
/// Fed only from observed compositor activations, never from this application's own commands.
/// That is what makes a switch made by the user's own keybind count, and a cancelled session
/// not.
#[derive(Debug, Clone, PartialEq, Eq)]
pub struct ActivationHistory {
    order: Vec<i32>,
}

/// Every id but `id`.
pub open spec fn other_than(id: i32) -> spec_fn(i32) -> bool {
    |k: i32| k != id
}

/// Every entry but `id`, order kept.
pub open spec fn without(h: Seq<i32>, id: i32) -> Seq<i32> {
    h.filter(other_than(id))
}

/// The ids some workspace in `ws` carries.
pub open spec fn known_in(ws: Seq<Workspace>) -> spec_fn(i32) -> bool {
    |k: i32| has_id(ws, k)
}

/// `id` moved to the front, any earlier occurrence removed.
pub open spec fn moved_to_front(h: Seq<i32>, id: i32) -> Seq<i32> {
    seq![id] + without(h, id)
}

impl View for ActivationHistory {
    type V = Seq<i32>;

    /// Most recently active first.
    closed spec fn view(&self) -> Seq<i32> {
        self.order@
    }
}

impl Default for ActivationHistory {
    fn default() -> (h: Self)
        ensures
            h@ == Seq::<i32>::empty(),
    {
        ActivationHistory { order: Vec::new() }
    }
}

fn keep_other_ids(order: &Vec<i32>, id: i32) -> (kept: Vec<i32>)
    ensures
        kept@ == without(order@, id),
{
    let mut kept: Vec<i32> = Vec::new();
    proof {
        lemma_filter_take_zero(order@, other_than(id));
    }
    for i in 0..order.len()
        invariant
            kept@ == order@.take(i as int).filter(other_than(id)),
    {
        proof {
            lemma_filter_take(order@, other_than(id), i as int);
        }
        if order[i] != id {
            kept.push(order[i]);
        }
    }
    assert(order@.take(order.len() as int) == order@);
    kept
}

impl ActivationHistory {
    /// Move `id` to the front, removing any earlier occurrence.
    pub fn push(&mut self, id: i32)
        ensures
            final(self)@ == moved_to_front(old(self)@, id),
    {
        let kept = keep_other_ids(&self.order, id);
        let mut order: Vec<i32> = Vec::new();
        order.push(id);
        let mut i: usize = 0;
        while i < kept.len()
            invariant
                i <= kept.len(),
                order@ == seq![id] + kept@.take(i as int),
            decreases kept.len() - i,
        {
            order.push(kept[i]);
            assert(kept@.take(i + 1) == kept@.take(i as int).push(kept@[i as int]));
            i += 1;
        }
        assert(kept@.take(kept.len() as int) == kept@);
        self.order = order;
    }

    /// Forget a workspace that no longer exists.
    pub fn remove(&mut self, id: i32)
        ensures
            final(self)@ == without(old(self)@, id),
    {
        self.order = keep_other_ids(&self.order, id);
    }

    /// Most recently active first.
    pub fn order(&self) -> (r: &[i32])
        ensures
            r@ == self@,
    {
        self.order.as_slice()
    }

    /// Where `id` sits in the history, or `None` if it has never been active this session.
    pub fn position(&self, id: i32) -> (r: Option<usize>)
        ensures
            index_of(r) == position_in(self@, id),
            r matches Some(p) ==> p < self@.len(),
    {
        let ghost p = holds(self@, id);
        for i in 0..self.order.len()
            invariant
                forall|j: int| 0 <= j < i ==> !#[trigger] p(j),
                p == holds(self@, id),
        {
            if self.order[i] == id {
                proof {
                    lemma_first_where_found(self@.len() as int, p, i as int);
                }
                return Some(i);
            }
        }
        proof {
            lemma_first_where_none(self@.len() as int, p);
        }
        None
    }

    /// Discarded on connection loss and rebuilt from activations observed afterwards.
    pub fn clear(&mut self)
        ensures
            final(self)@ == Seq::<i32>::empty(),
    {
        self.order = Vec::new();
    }

    /// Drop every id no workspace in `workspaces` carries.
    fn retain_known(&mut self, workspaces: &Vec<Workspace>)
        ensures
            final(self)@ == old(self)@.filter(known_in(workspaces@)),
    {
        let order = &self.order;
        let mut kept: Vec<i32> = Vec::new();
        proof {
            lemma_filter_take_zero(order@, known_in(workspaces@));
        }
        for i in 0..order.len()
            invariant
                kept@ == order@.take(i as int).filter(known_in(workspaces@)),
        {
            proof {
                lemma_filter_take(order@, known_in(workspaces@), i as int);
            }
            proof {
                lemma_workspace_index(workspaces@, order@[i as int]);
            }
            if workspace_index_of(workspaces, order[i]).is_some() {
                kept.push(order[i]);
            }
        }
        assert(order@.take(order.len() as int) == order@);
        self.order = kept;
    }
}


/// Filtering keeps only what was there, and repeats nothing that was not repeated.
proof fn lemma_filter_keeps_distinct(s: Seq<i32>, p: spec_fn(i32) -> bool)
    requires
        s.no_duplicates(),
    ensures
        s.filter(p).no_duplicates(),
        forall|x: i32| s.filter(p).contains(x) ==> s.contains(x) && p(x),
    decreases s.len(),
{
    reveal(Seq::filter);
    if s.len() > 0 {
        let rest = s.drop_last();
        assert(rest.no_duplicates()) by {
            assert forall|i: int, j: int| 0 <= i < rest.len() && 0 <= j < rest.len() && i != j implies rest[i] != rest[j] by {
                assert(rest[i] == s[i] && rest[j] == s[j]);
            }
        }
        lemma_filter_keeps_distinct(rest, p);
        let x = s.last();
        if rest.contains(x) {
            let i = choose|i: int| 0 <= i < rest.len() && rest[i] == x;
            assert(s[i] == s[s.len() - 1]);
        }
        let f = rest.filter(p);
        if p(x) {
            assert forall|k: i32| f.push(x).contains(k) implies s.contains(k) && p(k) by {
                if k != x {
                    let n = choose|n: int| 0 <= n < f.push(x).len() && f.push(x)[n] == k;
                    assert(n < f.len() && f[n] == k);
                    assert(f.contains(k));
                    assert(rest.contains(k));
                    let i = choose|i: int| 0 <= i < rest.len() && rest[i] == k;
                    assert(rest[i] == s[i]);
                } else {
                    assert(s[s.len() - 1] == x);
                }
            }
            assert forall|i: int, j: int| 0 <= i < f.push(x).len() && 0 <= j < f.push(x).len() && i != j implies f.push(x)[i] != f.push(x)[j] by {
                assert(!f.contains(x));
                if i == f.len() as int {
                    assert(f.push(x)[j] == f[j]);
                    assert(f.contains(f[j]));
                } else if j == f.len() as int {
                    assert(f.push(x)[i] == f[i]);
                    assert(f.contains(f[i]));
                } else {
                    assert(f.push(x)[i] == f[i] && f.push(x)[j] == f[j]);
                }
            }
        } else {
            assert forall|k: i32| f.contains(k) implies s.contains(k) && p(k) by {
                assert(rest.contains(k));
                let i = choose|i: int| 0 <= i < rest.len() && rest[i] == k;
                assert(rest[i] == s[i]);
            }
        }
    }
}

/// The history never holds an id twice: moving an id to the front, forgetting one, and keeping
/// only the ids of workspaces that still exist all keep a history without repeats free of them.
pub proof fn law_history_never_repeats(h: Seq<i32>, id: i32, ws: Seq<Workspace>)
    requires
        h.no_duplicates(),
    ensures
        moved_to_front(h, id).no_duplicates(),
        moved_to_front(h, id)[0] == id,
        without(h, id).no_duplicates(),
        !without(h, id).contains(id),
        h.filter(known_in(ws)).no_duplicates(),
{
    lemma_filter_keeps_distinct(h, other_than(id));
    lemma_filter_keeps_distinct(h, known_in(ws));
    let w = without(h, id);
    let m = moved_to_front(h, id);
    assert(!w.contains(id)) by {
        if w.contains(id) {
            assert(other_than(id)(id));
        }
    }
    assert forall|i: int, j: int| 0 <= i < m.len() && 0 <= j < m.len() && i != j implies m[i] != m[j] by {
        if i == 0 {
            assert(m[j] == w[j - 1]);
            assert(w.contains(m[j]));
        } else if j == 0 {
            assert(m[i] == w[i - 1]);
            assert(w.contains(m[i]));
        } else {
            assert(m[i] == w[i - 1] && m[j] == w[j - 1]);
        }
    }
}

// --- Looking things up ----------------------------------------------------------

/// Whether the `j`-th id of `h` is `id`.
pub open spec fn holds(h: Seq<i32>, id: i32) -> spec_fn(int) -> bool {
    |j: int| h[j] == id
}

/// Where `id` first sits in `h`.
pub open spec fn position_in(h: Seq<i32>, id: i32) -> Option<int> {
    first_where(h.len() as int, holds(h, id))
}

/// Whether some workspace carries `id`.
pub open spec fn has_id(ws: Seq<Workspace>, id: i32) -> bool {
    exists|j: int| 0 <= j < ws.len() && ws[j].id == id
}

/// Whether the `k`-th workspace carries `id`.
pub open spec fn carries(ws: Seq<Workspace>, id: i32) -> spec_fn(int) -> bool {
    |k: int| ws[k].id == id
}

/// Whether the `k`-th workspace is named `name`.
pub open spec fn workspace_is(ws: Seq<Workspace>, name: Seq<char>) -> spec_fn(int) -> bool {
    |k: int| ws[k].name@ == name
}

/// Whether the `k`-th monitor is named `name`.
pub open spec fn monitor_is(ms: Seq<Monitor>, name: Seq<char>) -> spec_fn(int) -> bool {
    |k: int| ms[k].name@ == name
}

/// Whether the `k`-th monitor is focused.
pub open spec fn focused_at(ms: Seq<Monitor>) -> spec_fn(int) -> bool {
    |k: int| ms[k].focused
}

/// Whether the `k`-th window is at `address`.
pub open spec fn window_is(ws: Seq<Window>, address: Seq<char>) -> spec_fn(int) -> bool {
    |k: int| ws[k].address@ == address
}

/// The first workspace carrying `id`.
pub open spec fn workspace_index(ws: Seq<Workspace>, id: i32) -> Option<int> {
    first_where(ws.len() as int, carries(ws, id))
}

/// The first workspace named `name`.
pub open spec fn workspace_named(ws: Seq<Workspace>, name: Seq<char>) -> Option<int> {
    first_where(ws.len() as int, workspace_is(ws, name))
}

/// The first monitor named `name`.
pub open spec fn monitor_named(ms: Seq<Monitor>, name: Seq<char>) -> Option<int> {
    first_where(ms.len() as int, monitor_is(ms, name))
}

/// The first focused monitor.
pub open spec fn focused_index(ms: Seq<Monitor>) -> Option<int> {
    first_where(ms.len() as int, focused_at(ms))
}

/// The first window at `address`.
pub open spec fn window_at(ws: Seq<Window>, address: Seq<char>) -> Option<int> {
    first_where(ws.len() as int, window_is(ws, address))
}

pub proof fn lemma_workspace_index(ws: Seq<Workspace>, id: i32)
    ensures
        workspace_index(ws, id) is Some <==> has_id(ws, id),
        match workspace_index(ws, id) {
            Some(k) => 0 <= k < ws.len() && ws[k].id == id,
            None => true,
        },
{
    lemma_first_where_facts(ws.len() as int, carries(ws, id));
    if has_id(ws, id) {
        let j = choose|j: int| 0 <= j < ws.len() && ws[j].id == id;
        assert(carries(ws, id)(j));
    }
}

/// An exec index read as a spec index.
pub open spec fn index_of(r: Option<usize>) -> Option<int> {
    match r {
        Some(i) => Some(i as int),
        None => None,
    }
}

/// Where `id` first occurs in `v`.
pub fn find_id(v: &Vec<i32>, id: i32) -> (r: Option<usize>)
    ensures
        index_of(r) == position_in(v@, id),
        r matches Some(i) ==> i < v@.len(),
{
    let ghost p = holds(v@, id);
    for i in 0..v.len()
        invariant
            forall|j: int| 0 <= j < i ==> !#[trigger] p(j),
            p == holds(v@, id),
    {
        if v[i] == id {
            proof {
                lemma_first_where_found(v@.len() as int, p, i as int);
            }
            return Some(i);
        }
    }
    proof {
        lemma_first_where_none(v@.len() as int, p);
    }
    None
}

pub fn workspace_index_of(ws: &[Workspace], id: i32) -> (r: Option<usize>)
    ensures
        index_of(r) == workspace_index(ws@, id),
    r matches Some(i) ==> i < ws@.len(),
{
    let ghost p = carries(ws@, id);
    for i in 0..ws.len()
        invariant
            forall|j: int| 0 <= j < i ==> !#[trigger] p(j),
            p == carries(ws@, id),
    {
        if ws[i].id == id {
            proof {
                lemma_first_where_found(ws@.len() as int, p, i as int);
            }
            return Some(i);
        }
    }
    proof {
        lemma_first_where_none(ws@.len() as int, p);
    }
    None
}

pub fn workspace_named_index(ws: &Vec<Workspace>, name: &str) -> (r: Option<usize>)
    ensures
        index_of(r) == workspace_named(ws@, name@),
    r matches Some(i) ==> i < ws@.len(),
{
    let ghost p = workspace_is(ws@, name@);
    for i in 0..ws.len()
        invariant
            forall|j: int| 0 <= j < i ==> !#[trigger] p(j),
            p == workspace_is(ws@, name@),
    {
        if same(ws[i].name.as_str(), name) {
            proof {
                lemma_first_where_found(ws@.len() as int, p, i as int);
            }
            return Some(i);
        }
    }
    proof {
        lemma_first_where_none(ws@.len() as int, p);
    }
    None
}

pub fn monitor_named_index(ms: &[Monitor], name: &str) -> (r: Option<usize>)
    ensures
        index_of(r) == monitor_named(ms@, name@),
    r matches Some(i) ==> i < ms@.len(),
{
    let ghost p = monitor_is(ms@, name@);
    for i in 0..ms.len()
        invariant
            forall|j: int| 0 <= j < i ==> !#[trigger] p(j),
            p == monitor_is(ms@, name@),
    {
        if same(ms[i].name.as_str(), name) {
            proof {
                lemma_first_where_found(ms@.len() as int, p, i as int);
            }
            return Some(i);
        }
    }
    proof {
        lemma_first_where_none(ms@.len() as int, p);
    }
    None
}

pub fn focused_monitor_index(ms: &[Monitor]) -> (r: Option<usize>)
    ensures
        index_of(r) == focused_index(ms@),
    r matches Some(i) ==> i < ms@.len(),
{
    let ghost p = focused_at(ms@);
    for i in 0..ms.len()
        invariant
            forall|j: int| 0 <= j < i ==> !#[trigger] p(j),
            p == focused_at(ms@),
    {
        if ms[i].focused {
            proof {
                lemma_first_where_found(ms@.len() as int, p, i as int);
            }
            return Some(i);
        }
    }
    proof {
        lemma_first_where_none(ms@.len() as int, p);
    }
    None
}

fn window_index_at(ws: &Vec<Window>, address: &str) -> (r: Option<usize>)
    ensures
        index_of(r) == window_at(ws@, address@),
    r matches Some(i) ==> i < ws@.len(),
{
    let ghost p = window_is(ws@, address@);
    for i in 0..ws.len()
        invariant
            forall|j: int| 0 <= j < i ==> !#[trigger] p(j),
            p == window_is(ws@, address@),
    {
        if same(ws[i].address.as_str(), address) {
            proof {
                lemma_first_where_found(ws@.len() as int, p, i as int);
            }
            return Some(i);
        }
    }
    proof {
        lemma_first_where_none(ws@.len() as int, p);
    }
    None
}

} // verus!

verus! {

// --- The cached view --------------------------------------------------------------

/// What applying an event did.
#[derive(Debug, Clone, Copy, PartialEq, Eq)]
pub enum Applied {
    /// The world now reflects the event.
    Incrementally,
    /// The event carries less than the world needs — a new workspace's monitor binding, a new
    /// window's geometry — so the caller must rebuild from `j/monitors`, `j/workspaces` and
    /// `j/clients`. Rebuilding is three small round trips and always correct, which is why the
    /// alternative (guessing the missing fields) is not attempted.
    ByRebuilding,
}

/// The whole cached compositor view.
#[derive(Debug)]
pub struct World {
    pub monitors: Vec<Monitor>,
    /// In compositor-reported order — this *is* "compositor order".
    pub workspaces: Vec<Workspace>,
    pub windows: Vec<Window>,
    pub history: ActivationHistory,
}

impl Default for World {
    fn default() -> (w: Self)
        ensures
            w.monitors@ == Seq::<Monitor>::empty(),
            w.workspaces@ == Seq::<Workspace>::empty(),
            w.windows@ == Seq::<Window>::empty(),
            w.history@ == Seq::<i32>::empty(),
    {
        World {
            monitors: Vec::new(),
            workspaces: Vec::new(),
            windows: Vec::new(),
            history: ActivationHistory::default(),
        }
    }
}

/// A monitor now showing `id`.
pub open spec fn with_active(m: Monitor, id: i32) -> Monitor {
    Monitor { active_workspace: id, ..m }
}

/// The monitors after `id` is observed becoming active: the monitor its workspace is bound to
/// shows it.
pub open spec fn activated_monitors(ms: Seq<Monitor>, ws: Seq<Workspace>, id: i32) -> Seq<Monitor> {
    match workspace_index(ws, id) {
        Some(k) => match monitor_named(ms, ws[k].monitor@) {
            Some(m) => ms.update(m, with_active(ms[m], id)),
            None => ms,
        },
        None => ms,
    }
}

/// The history after `id` is observed becoming active: an ordinary workspace goes to the front;
/// special workspaces never enter it, since they never appear in the overlay it orders.
pub open spec fn activated_history(h: Seq<i32>, ws: Seq<Workspace>, id: i32) -> Seq<i32> {
    match workspace_index(ws, id) {
        Some(k) => if ws[k].special() {
            h
        } else {
            moved_to_front(h, id)
        },
        None => h,
    }
}

/// The monitors with keyboard focus on the one named `name` and on no other.
pub open spec fn focus_moved(ms: Seq<Monitor>, name: Seq<char>) -> Seq<Monitor> {
    Seq::new(ms.len(), |i: int| Monitor { focused: ms[i].name@ == name, ..ms[i] })
}

pub open spec fn not_numbered(id: i32) -> spec_fn(Workspace) -> bool {
    |w: Workspace| w.id != id
}

pub open spec fn not_on(id: i32) -> spec_fn(Window) -> bool {
    |w: Window| w.workspace != id
}

pub open spec fn on(id: i32) -> spec_fn(Window) -> bool {
    |w: Window| w.workspace == id
}

pub open spec fn not_at(address: Seq<char>) -> spec_fn(Window) -> bool {
    |w: Window| w.address@ != address
}

/// How many of `wins` are on workspace `id`, as the compositor's `u32` count holds it.
pub open spec fn count_on(wins: Seq<Window>, id: i32) -> u32 {
    let c = wins.filter(on(id)).len();
    if c > u32::MAX {
        u32::MAX
    } else {
        c as u32
    }
}

/// Every workspace's window count, recomputed from `wins`.
pub open spec fn recounted(ws: Seq<Workspace>, wins: Seq<Window>) -> Seq<Workspace> {
    Seq::new(ws.len(), |i: int| Workspace { window_count: count_on(wins, ws[i].id), ..ws[i] })
}

/// Two worlds hold the same view.
pub open spec fn same_view(a: World, b: World) -> bool {
    &&& a.monitors@ == b.monitors@
    &&& a.workspaces@ == b.workspaces@
    &&& a.windows@ == b.windows@
    &&& a.history@ == b.history@
}

/// `new` is `old` after an activation of `id` observed on monitors `ms`.
pub open spec fn activated(old: World, ms: Seq<Monitor>, new: World, id: i32) -> bool {
    &&& new.monitors@ == activated_monitors(ms, old.workspaces@, id)
    &&& new.workspaces@ == old.workspaces@
    &&& new.windows@ == old.windows@
    &&& new.history@ == activated_history(old.history@, old.workspaces@, id)
}

/// The state-transition table: what applying `event` to `old` yields, and whether the world
/// must be rebuilt because the event did not carry enough.
pub open spec fn applies(old: World, new: World, event: Event, r: Applied) -> bool {
    match event {
        Event::WorkspaceActivated { id, name } => {
            let resolved = match id {
                Some(i) => Some(i),
                None => match workspace_named(old.workspaces@, name@) {
                    Some(k) => Some(old.workspaces@[k].id),
                    None => None,
                },
            };
            match resolved {
                Some(i) => r == Applied::Incrementally && activated(old, old.monitors@, new, i),
                None => r == Applied::ByRebuilding && same_view(old, new),
            }
        },
        Event::MonitorFocused { monitor, workspace_name } => {
            if monitor_named(old.monitors@, monitor@) is None {
                r == Applied::ByRebuilding && same_view(old, new)
            } else {
                let focused = focus_moved(old.monitors@, monitor@);
                match workspace_named(old.workspaces@, workspace_name@) {
                    Some(k) => r == Applied::Incrementally && activated(
                        old,
                        focused,
                        new,
                        old.workspaces@[k].id,
                    ),
                    None => {
                        &&& r == Applied::ByRebuilding
                        &&& new.monitors@ == focused
                        &&& new.workspaces@ == old.workspaces@
                        &&& new.windows@ == old.windows@
                        &&& new.history@ == old.history@
                    },
                }
            }
        },
        Event::WorkspaceDestroyed { name } => {
            r == Applied::Incrementally && match workspace_named(old.workspaces@, name@) {
                None => same_view(old, new),
                Some(k) => {
                    let id = old.workspaces@[k].id;
                    &&& new.monitors@ == old.monitors@
                    &&& new.workspaces@ == old.workspaces@.filter(not_numbered(id))
                    &&& new.windows@ == old.windows@.filter(not_on(id))
                    &&& new.history@ == without(old.history@, id)
                },
            }
        },
        Event::WorkspaceMoved { name, monitor } => {
            match (
                monitor_named(old.monitors@, monitor@),
                workspace_named(old.workspaces@, name@),
            ) {
                (Some(_), Some(k)) => {
                    &&& r == Applied::Incrementally
                    &&& new.workspaces@ == old.workspaces@.update(
                        k,
                        Workspace { monitor: monitor, ..old.workspaces@[k] },
                    )
                    &&& new.monitors@ == old.monitors@
                    &&& new.windows@ == old.windows@
                    &&& new.history@ == old.history@
                },
                _ => r == Applied::ByRebuilding && same_view(old, new),
            }
        },
        Event::WindowClosed { address } => {
            let windows = old.windows@.filter(not_at(address@));
            &&& r == Applied::Incrementally
            &&& new.windows@ == windows
            &&& new.workspaces@ == recounted(old.workspaces@, windows)
            &&& new.monitors@ == old.monitors@
            &&& new.history@ == old.history@
        },
        Event::WindowTitleChanged { address, title } => {
            match (title, window_at(old.windows@, address@)) {
                (Some(t), Some(k)) => {
                    &&& r == Applied::Incrementally
                    &&& new.windows@ == old.windows@.update(k, Window { title: t, ..old.windows@[k] })
                    &&& new.monitors@ == old.monitors@
                    &&& new.workspaces@ == old.workspaces@
                    &&& new.history@ == old.history@
                },
                _ => r == Applied::ByRebuilding && same_view(old, new),
            }
        },
        // A new workspace carries no monitor binding, a new window no geometry; a window that
        // changed workspace changed geometry with it; and monitor changes reshuffle workspace
        // bindings across the whole layout.
        Event::WorkspaceCreated { .. } | Event::WindowOpened { .. } | Event::WindowMoved { .. }
        | Event::MonitorsChanged => r == Applied::ByRebuilding && same_view(old, new),
    }
}

impl World {
    /// Replace the cached view wholesale, keeping the history — which the compositor does not
    /// report — except for workspaces that vanished while the application was not looking.
    pub fn rebuild(&mut self, monitors: Vec<Monitor>, workspaces: Vec<Workspace>, windows: Vec<Window>)
        ensures
            final(self).monitors@ == monitors@,
            final(self).workspaces@ == workspaces@,
            final(self).windows@ == windows@,
            final(self).history@ == old(self).history@.filter(known_in(workspaces@)),
    {
        self.monitors = monitors;
        self.workspaces = workspaces;
        self.windows = windows;
        self.history.retain_known(&self.workspaces);
    }

    pub fn focused_monitor(&self) -> (r: Option<&Monitor>)
        ensures
            match focused_index(self.monitors@) {
                Some(i) => r == Some(&self.monitors@[i]),
                None => r is None,
            },
    {
        proof {
            lemma_first_where_facts(self.monitors@.len() as int, focused_at(self.monitors@));
        }
        match focused_monitor_index(&self.monitors) {
            Some(i) => Some(&self.monitors[i]),
            None => None,
        }
    }

    pub fn monitor(&self, name: &str) -> (r: Option<&Monitor>)
        ensures
            match monitor_named(self.monitors@, name@) {
                Some(i) => r == Some(&self.monitors@[i]),
                None => r is None,
            },
    {
        proof {
            lemma_first_where_facts(self.monitors@.len() as int, monitor_is(self.monitors@, name@));
        }
        match monitor_named_index(&self.monitors, name) {
            Some(i) => Some(&self.monitors[i]),
            None => None,
        }
    }

    pub fn workspace(&self, id: i32) -> (r: Option<&Workspace>)
        ensures
            match workspace_index(self.workspaces@, id) {
                Some(i) => r == Some(&self.workspaces@[i]),
                None => r is None,
            },
    {
        proof {
            lemma_first_where_facts(self.workspaces@.len() as int, carries(self.workspaces@, id));
        }
        match workspace_index_of(&self.workspaces, id) {
            Some(i) => Some(&self.workspaces[i]),
            None => None,
        }
    }

    pub fn workspace_by_name(&self, name: &str) -> (r: Option<&Workspace>)
        ensures
            match workspace_named(self.workspaces@, name@) {
                Some(i) => r == Some(&self.workspaces@[i]),
                None => r is None,
            },
    {
        proof {
            lemma_first_where_facts(
                self.workspaces@.len() as int,
                workspace_is(self.workspaces@, name@),
            );
        }
        match workspace_named_index(&self.workspaces, name) {
            Some(i) => Some(&self.workspaces[i]),
            None => None,
        }
    }

    /// The windows on a workspace, in the compositor's order — which is the order miniatures
    /// paint in, so floating windows land on top of the tiled ones beneath them.
    pub fn windows_on(&self, workspace_id: i32) -> (r: Vec<Window>)
        ensures
            r@ == self.windows@.filter(on(workspace_id)),
    {
        let mut r: Vec<Window> = Vec::new();
        proof {
            lemma_filter_take_zero(self.windows@, on(workspace_id));
        }
        for i in 0..self.windows.len()
            invariant
                r@ == self.windows@.take(i as int).filter(on(workspace_id)),
        {
            proof {
                lemma_filter_take(self.windows@, on(workspace_id), i as int);
            }
            if self.windows[i].workspace == workspace_id {
                r.push(self.windows[i].duplicate());
            }
        }
        assert(self.windows@.take(self.windows.len() as int) == self.windows@);
        r
    }

    /// Apply one compositor event, per the state-transition table.
    pub fn apply(&mut self, event: &Event) -> (r: Applied)
        ensures
            applies(*old(self), *final(self), *event, r),
    {
        match event {
            Event::WorkspaceActivated { id, name } => {
                let resolved = match id {
                    Some(i) => Some(*i),
                    None => match workspace_named_index(&self.workspaces, name.as_str()) {
                        Some(k) => Some(self.workspaces[k].id),
                        None => None,
                    },
                };
                match resolved {
                    Some(i) => {
                        self.activate(i);
                        Applied::Incrementally
                    },
                    None => Applied::ByRebuilding,
                }
            },
            Event::MonitorFocused { monitor, workspace_name } => {
                if monitor_named_index(&self.monitors, monitor.as_str()).is_none() {
                    return Applied::ByRebuilding;
                }
                self.focus_on(monitor.as_str());
                match workspace_named_index(&self.workspaces, workspace_name.as_str()) {
                    Some(k) => {
                        let id = self.workspaces[k].id;
                        self.activate(id);
                        Applied::Incrementally
                    },
                    None => Applied::ByRebuilding,
                }
            },
            Event::WorkspaceCreated { .. } | Event::WindowOpened { .. } | Event::WindowMoved {
                ..
            } | Event::MonitorsChanged => Applied::ByRebuilding,
            Event::WorkspaceDestroyed { name } => {
                let id = match workspace_named_index(&self.workspaces, name.as_str()) {
                    Some(k) => self.workspaces[k].id,
                    None => return Applied::Incrementally,
                };
                self.workspaces = workspaces_other_than(&self.workspaces, id);
                self.windows = windows_off(&self.windows, id);
                self.history.remove(id);
                Applied::Incrementally
            },
            Event::WorkspaceMoved { name, monitor } => {
                if monitor_named_index(&self.monitors, monitor.as_str()).is_none() {
                    return Applied::ByRebuilding;
                }
                match workspace_named_index(&self.workspaces, name.as_str()) {
                    Some(k) => {
                        let mut moved = self.workspaces[k].duplicate();
                        moved.monitor = monitor.clone();
                        self.workspaces.set(k, moved);
                        Applied::Incrementally
                    },
                    None => Applied::ByRebuilding,
                }
            },
            Event::WindowClosed { address } => {
                self.windows = windows_not_at(&self.windows, address.as_str());
                self.recount_windows();
                Applied::Incrementally
            },
            Event::WindowTitleChanged { address, title } => {
                let title = match title {
                    Some(title) => title,
                    None => return Applied::ByRebuilding,
                };
                match window_index_at(&self.windows, address.as_str()) {
                    Some(k) => {
                        let mut retitled = self.windows[k].duplicate();
                        retitled.title = title.clone();
                        self.windows.set(k, retitled);
                        Applied::Incrementally
                    },
                    // A title for a window this world has never seen means the world is behind.
                    None => Applied::ByRebuilding,
                }
            },
        }
    }

    /// Record an activation observed from the compositor: the monitor its workspace is bound to
    /// now shows it, and the workspace goes to the front of the history.
    fn activate(&mut self, id: i32)
        ensures
            final(self).monitors@ == activated_monitors(old(self).monitors@, old(self).workspaces@, id),
            final(self).workspaces@ == old(self).workspaces@,
            final(self).windows@ == old(self).windows@,
            final(self).history@ == activated_history(old(self).history@, old(self).workspaces@, id),
    {
        proof {
            lemma_first_where_facts(self.workspaces@.len() as int, carries(self.workspaces@, id));
        }
        let k = match workspace_index_of(&self.workspaces, id) {
            Some(k) => k,
            None => return,
        };
        proof {
            lemma_first_where_facts(
                self.monitors@.len() as int,
                monitor_is(self.monitors@, self.workspaces@[k as int].monitor@),
            );
        }
        match monitor_named_index(&self.monitors, self.workspaces[k].monitor.as_str()) {
            Some(m) => {
                let mut shown = self.monitors[m].duplicate();
                shown.active_workspace = id;
                self.monitors.set(m, shown);
            },
            None => {},
        }
        if !self.workspaces[k].is_special() {
            self.history.push(id);
        }
    }

    /// Give keyboard focus to the monitor named `name` and take it from every other.
    fn focus_on(&mut self, name: &str)
        ensures
            final(self).monitors@ == focus_moved(old(self).monitors@, name@),
            final(self).workspaces@ == old(self).workspaces@,
            final(self).windows@ == old(self).windows@,
            final(self).history@ == old(self).history@,
    {
        let mut monitors: Vec<Monitor> = Vec::new();
        for i in 0..self.monitors.len()
            invariant
                monitors@ == focus_moved(self.monitors@, name@).take(i as int),
        {
            let mut m = self.monitors[i].duplicate();
            m.focused = same(m.name.as_str(), name);
            monitors.push(m);
            assert(focus_moved(self.monitors@, name@).take(i + 1) == focus_moved(
                self.monitors@,
                name@,
            ).take(i as int).push(m));
        }
        assert(focus_moved(self.monitors@, name@).take(self.monitors.len() as int) == focus_moved(
            self.monitors@,
            name@,
        ));
        self.monitors = monitors;
    }

    /// Keep every workspace's window count — the emptiness check — consistent after an
    /// incremental change.
    fn recount_windows(&mut self)
        ensures
            final(self).workspaces@ == recounted(old(self).workspaces@, old(self).windows@),
            final(self).monitors@ == old(self).monitors@,
            final(self).windows@ == old(self).windows@,
            final(self).history@ == old(self).history@,
    {
        let mut workspaces: Vec<Workspace> = Vec::new();
        for i in 0..self.workspaces.len()
            invariant
                workspaces@ == recounted(self.workspaces@, self.windows@).take(i as int),
        {
            let mut w = self.workspaces[i].duplicate();
            w.window_count = count_windows_on(&self.windows, w.id);
            workspaces.push(w);
            assert(recounted(self.workspaces@, self.windows@).take(i + 1) == recounted(
                self.workspaces@,
                self.windows@,
            ).take(i as int).push(w));
        }
        assert(recounted(self.workspaces@, self.windows@).take(self.workspaces.len() as int)
            == recounted(self.workspaces@, self.windows@));
        self.workspaces = workspaces;
    }
}

fn count_windows_on(windows: &Vec<Window>, id: i32) -> (n: u32)
    ensures
        n == count_on(windows@, id),
{
    let mut n: u64 = 0;
    proof {
        lemma_filter_take_zero(windows@, on(id));
    }
    for i in 0..windows.len()
        invariant
            n == windows@.take(i as int).filter(on(id)).len(),
            n <= i,
    {
        proof {
            lemma_filter_take(windows@, on(id), i as int);
        }
        if windows[i].workspace == id {
            n = n + 1;
        }
    }
    assert(windows@.take(windows.len() as int) == windows@);
    if n > u32::MAX as u64 {
        u32::MAX
    } else {
        n as u32
    }
}

fn workspaces_other_than(ws: &Vec<Workspace>, id: i32) -> (r: Vec<Workspace>)
    ensures
        r@ == ws@.filter(not_numbered(id)),
{
    let mut r: Vec<Workspace> = Vec::new();
    proof {
        lemma_filter_take_zero(ws@, not_numbered(id));
    }
    for i in 0..ws.len()
        invariant
            r@ == ws@.take(i as int).filter(not_numbered(id)),
    {
        proof {
            lemma_filter_take(ws@, not_numbered(id), i as int);
        }
        if ws[i].id != id {
            r.push(ws[i].duplicate());
        }
    }
    assert(ws@.take(ws.len() as int) == ws@);
    r
}

fn windows_off(ws: &Vec<Window>, id: i32) -> (r: Vec<Window>)
    ensures
        r@ == ws@.filter(not_on(id)),
{
    let mut r: Vec<Window> = Vec::new();
    proof {
        lemma_filter_take_zero(ws@, not_on(id));
    }
    for i in 0..ws.len()
        invariant
            r@ == ws@.take(i as int).filter(not_on(id)),
    {
        proof {
            lemma_filter_take(ws@, not_on(id), i as int);
        }
        if ws[i].workspace != id {
            r.push(ws[i].duplicate());
        }
    }
    assert(ws@.take(ws.len() as int) == ws@);
    r
}

fn windows_not_at(ws: &Vec<Window>, address: &str) -> (r: Vec<Window>)
    ensures
        r@ == ws@.filter(not_at(address@)),
{
    let mut r: Vec<Window> = Vec::new();
    proof {
        lemma_filter_take_zero(ws@, not_at(address@));
    }
    for i in 0..ws.len()
        invariant
            r@ == ws@.take(i as int).filter(not_at(address@)),
    {
        proof {
            lemma_filter_take(ws@, not_at(address@), i as int);
        }
        if !same(ws[i].address.as_str(), address) {
            r.push(ws[i].duplicate());
        }
    }
    assert(ws@.take(ws.len() as int) == ws@);
    r
}

} // verus!
