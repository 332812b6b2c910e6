//! Entry order and initial highlight.
//!
//! A pure function of the world and one setting. Special and scratchpad workspaces are filtered
//! out before ordering, so nothing downstream has to remember they exist.

use vstd::prelude::*;

use crate::config::Order;
use crate::model::{MonitorName, Monitor, Window, Workspace};
use crate::seqs::{
    first_where, lemma_filter_take, lemma_filter_take_zero, lemma_first_where_facts, lemma_first_where_found,
};
use crate::state::{
    World, focused_index, focused_at, holds, index_of, monitor_is, monitor_named,
    monitor_named_index, on, position_in, workspace_index, workspace_index_of, carries,
    focused_monitor_index, has_id,
};

verus! {

/// One window as it appears inside an entry.
#[derive(Debug, PartialEq, Eq)]
pub struct EntryWindow {
    /// The window's title, or its class when the title is empty.
    pub label: String,
    /// The program that owns the window, as the compositor reports it — the key icons are
    /// looked up by.
    pub class: String,
    /// Layout coordinates, global — miniatures subtract the entry's monitor origin.
    pub at: (i32, i32),
    pub size: (u32, u32),
    /// Painted above tiled windows.
    pub floating: bool,
}

/// One row or cell in the overlay. Derived; never stored across sessions.
#[derive(Debug, PartialEq, Eq)]
pub struct Entry {
    pub workspace_id: i32,
    /// The workspace name, as the compositor reports it.
    pub label: String,
    pub windows: Vec<EntryWindow>,
    /// The monitor this workspace was bound to when the session opened.
    pub monitor: MonitorName,
    /// Geometry of that monitor. Miniatures normalise against the monitor the *workspace* is
    /// bound to, not the one the overlay is shown on.
    pub monitor_position: (i32, i32),
    pub monitor_size: (u32, u32),
    /// The active workspace of its monitor — rendered distinctly.
    pub is_active: bool,
}

// --- Which workspaces, in which order ---------------------------------------------

pub open spec fn ordinary() -> spec_fn(Workspace) -> bool {
    |w: Workspace| !w.special()
}

pub open spec fn id_of() -> spec_fn(Workspace) -> i32 {
    |w: Workspace| w.id
}

/// Ordinary workspaces' ids in the compositor's reported order.
pub open spec fn ordinary_ids(ws: Seq<Workspace>) -> Seq<i32> {
    ws.filter(ordinary()).map_values(id_of())
}

/// An id's place in the history, if it has one.
pub open spec fn history_rank(h: Seq<i32>) -> spec_fn(i32) -> Option<int> {
    |id: i32| position_in(h, id)
}

/// The place of the monitor an id's workspace is bound to, if that monitor is connected.
pub open spec fn monitor_rank(ws: Seq<Workspace>, ms: Seq<Monitor>) -> spec_fn(i32) -> Option<int> {
    |id: i32|
        match workspace_index(ws, id) {
            Some(k) => monitor_named(ms, ws[k].monitor@),
            None => None,
        }
}

pub open spec fn rank_is(rank: spec_fn(i32) -> Option<int>, r: int) -> spec_fn(i32) -> bool {
    |id: i32| rank(id) == Some(r)
}

pub open spec fn unranked(rank: spec_fn(i32) -> Option<int>) -> spec_fn(i32) -> bool {
    |id: i32| rank(id) is None
}

/// The ids of ranks `0..n`, each rank's ids in the order `ids` gives them.
pub open spec fn grouped(ids: Seq<i32>, rank: spec_fn(i32) -> Option<int>, n: nat) -> Seq<i32>
    decreases n,
{
    if n == 0 {
        Seq::<i32>::empty()
    } else {
        grouped(ids, rank, (n - 1) as nat) + ids.filter(rank_is(rank, n - 1))
    }
}

/// A stable sort by rank: every ranked id by rank, then the unranked ones, ties keeping their
/// order in `ids`.
pub open spec fn ranked_order(ids: Seq<i32>, rank: spec_fn(i32) -> Option<int>, n: nat) -> Seq<i32> {
    grouped(ids, rank, n) + ids.filter(unranked(rank))
}

/// The workspaces an order lists, in that order.
///
/// Most-recently-used is history order first, then workspaces never active this session in
/// compositor order. Monitor order groups by monitor in the compositor's monitor order, stable
/// within each group, with a workspace whose monitor is not connected after every group rather
/// than vanishing — it must still be selectable.
pub open spec fn listed(world: World, order: Order) -> Seq<i32> {
    let ids = ordinary_ids(world.workspaces@);
    match order {
        Order::Mru => ranked_order(ids, history_rank(world.history@), world.history@.len()),
        Order::Compositor => ids,
        Order::Monitor => ranked_order(
            ids,
            monitor_rank(world.workspaces@, world.monitors@),
            world.monitors@.len(),
        ),
    }
}

// --- What an entry shows ---------------------------------------------------------

pub open spec fn mapped() -> spec_fn(Window) -> bool {
    |w: Window| w.mapped
}

/// The windows an entry for workspace `id` shows: its mapped ones, in compositor order.
pub open spec fn shown_windows(wins: Seq<Window>, id: i32) -> Seq<Window> {
    wins.filter(on(id)).filter(mapped())
}

/// Whether `e` presents window `w`.
pub open spec fn presents(w: Window, e: EntryWindow) -> bool {
    &&& e.label@ == w.label_view()
    &&& e.class@ == w.class@
    &&& e.at == w.at
    &&& e.size == w.size
    &&& e.floating == w.floating
}

/// Whether `e` is the entry for workspace `id` in `world`: its name, its shown windows, and the
/// monitor it is bound to — that monitor's geometry and whether it is showing this workspace,
/// or zeroes and `false` when the monitor is not connected.
pub open spec fn describes(world: World, id: i32, e: Entry) -> bool {
    match workspace_index(world.workspaces@, id) {
        None => false,
        Some(k) => {
            let w = world.workspaces@[k];
            let shown = shown_windows(world.windows@, id);
            let m = monitor_named(world.monitors@, w.monitor@);
            &&& e.workspace_id == id
            &&& e.label@ == w.name@
            &&& e.monitor@ == w.monitor@
            &&& e.monitor_position == match m {
                Some(i) => world.monitors@[i].position,
                None => (0i32, 0i32),
            }
            &&& e.monitor_size == match m {
                Some(i) => world.monitors@[i].size,
                None => (0u32, 0u32),
            }
            &&& e.is_active == match m {
                Some(i) => world.monitors@[i].active_workspace == id,
                None => false,
            }
            &&& e.windows@.len() == shown.len()
            &&& forall|j: int| 0 <= j < shown.len() ==> presents(shown[j], #[trigger] e.windows@[j])
        },
    }
}

/// Where the highlight opens: the second entry under most-recently-used, so that one tap and
/// release returns the user to where they were; otherwise the active workspace of the focused
/// monitor, or the first entry when that is not listed.
pub open spec fn opening_highlight(world: World, order: Order, ids: Seq<i32>) -> int {
    if ids.len() == 0 {
        0
    } else {
        match order {
            Order::Mru => if ids.len() > 1 {
                1
            } else {
                0
            },
            _ => match focused_index(world.monitors@) {
                Some(f) => match first_where(
                    ids.len() as int,
                    holds(ids, world.monitors@[f].active_workspace),
                ) {
                    Some(p) => p,
                    None => 0,
                },
                None => 0,
            },
        }
    }
}

/// A copy of an entry window.
fn copy_window(w: &EntryWindow) -> (r: EntryWindow)
    ensures
        r == *w,
{
    EntryWindow {
        label: w.label.clone(),
        class: w.class.clone(),
        at: w.at,
        size: w.size,
        floating: w.floating,
    }
}

impl Entry {
    /// A copy with every field equal.
    pub fn duplicate(&self) -> (r: Entry)
        ensures
            r.workspace_id == self.workspace_id,
            r.label == self.label,
            r.windows@ == self.windows@,
            r.monitor == self.monitor,
            r.monitor_position == self.monitor_position,
            r.monitor_size == self.monitor_size,
            r.is_active == self.is_active,
    {
        let mut windows: Vec<EntryWindow> = Vec::new();
        for i in 0..self.windows.len()
            invariant
                windows@ == self.windows@.take(i as int),
        {
            windows.push(copy_window(&self.windows[i]));
            assert(self.windows@.take(i + 1) == self.windows@.take(i as int).push(self.windows@[i as int]));
        }
        assert(self.windows@.take(self.windows.len() as int) == self.windows@);
        Entry {
            workspace_id: self.workspace_id,
            label: self.label.clone(),
            windows,
            monitor: self.monitor.clone(),
            monitor_position: self.monitor_position,
            monitor_size: self.monitor_size,
            is_active: self.is_active,
        }
    }
}

// --- Building them ------------------------------------------------------------------

fn ordinary_ids_of(ws: &Vec<Workspace>) -> (ids: Vec<i32>)
    ensures
        ids@ == ordinary_ids(ws@),
        forall|i: int| 0 <= i < ids.len() ==> has_id(ws@, #[trigger] ids@[i]),
{
    let mut ids: Vec<i32> = Vec::new();
    proof {
        lemma_filter_take_zero(ws@, ordinary());
    }
    for i in 0..ws.len()
        invariant
            ids@ == ws@.take(i as int).filter(ordinary()).map_values(id_of()),
            forall|j: int| 0 <= j < ids.len() ==> has_id(ws@, #[trigger] ids@[j]),
    {
        proof {
            lemma_filter_take(ws@, ordinary(), i as int);
        }
        if !ws[i].is_special() {
            let ghost before = ids@;
            ids.push(ws[i].id);
            proof {
                assert(ws@[i as int].id == ids@[ids.len() - 1]);
                assert(ws@.take(i + 1).filter(ordinary()).map_values(id_of()) =~= before.push(
                    ws@[i as int].id,
                ));
            }
        }
    }
    assert(ws@.take(ws.len() as int) == ws@);
    ids
}

/// The ids of ranks `0..n` and then the unranked ones, given each id's rank.
fn order_by_rank(
    ids: &Vec<i32>,
    ranks: &Vec<Option<usize>>,
    n: usize,
    Ghost(rank): Ghost<spec_fn(i32) -> Option<int>>,
    Ghost(ws): Ghost<Seq<Workspace>>,
) -> (out: Vec<i32>)
    requires
        ranks.len() == ids.len(),
        forall|i: int| 0 <= i < ids.len() ==> index_of(#[trigger] ranks@[i]) == rank(ids@[i]),
        forall|i: int| 0 <= i < ids.len() ==> has_id(ws, #[trigger] ids@[i]),
    ensures
        out@ == ranked_order(ids@, rank, n as nat),
        forall|i: int| 0 <= i < out.len() ==> has_id(ws, #[trigger] out@[i]),
{
    let mut out: Vec<i32> = Vec::new();
    let mut r: usize = 0;
    while r < n
        invariant
            r <= n,
            ranks.len() == ids.len(),
            forall|i: int| 0 <= i < ids.len() ==> index_of(#[trigger] ranks@[i]) == rank(ids@[i]),
            forall|i: int| 0 <= i < ids.len() ==> has_id(ws, #[trigger] ids@[i]),
            out@ == grouped(ids@, rank, r as nat),
            forall|i: int| 0 <= i < out.len() ==> has_id(ws, #[trigger] out@[i]),
        decreases n - r,
    {
        let ghost start = out@;
        proof {
            lemma_filter_take_zero(ids@, rank_is(rank, r as int));
        }
        for j in 0..ids.len()
            invariant
                ranks.len() == ids.len(),
                forall|i: int| 0 <= i < ids.len() ==> index_of(#[trigger] ranks@[i]) == rank(ids@[i]),
                forall|i: int| 0 <= i < ids.len() ==> has_id(ws, #[trigger] ids@[i]),
                out@ == start + ids@.take(j as int).filter(rank_is(rank, r as int)),
                forall|i: int| 0 <= i < out.len() ==> has_id(ws, #[trigger] out@[i]),
        {
            proof {
                lemma_filter_take(ids@, rank_is(rank, r as int), j as int);
                assert(index_of(ranks@[j as int]) == rank(ids@[j as int]));
            }
            if ranks[j] == Some(r) {
                out.push(ids[j]);
                assert(has_id(ws, ids@[j as int]));
            }
        }
        assert(ids@.take(ids.len() as int) == ids@);
        r += 1;
    }
    let ghost start = out@;
    proof {
        lemma_filter_take_zero(ids@, unranked(rank));
    }
    for j in 0..ids.len()
        invariant
            ranks.len() == ids.len(),
            forall|i: int| 0 <= i < ids.len() ==> index_of(#[trigger] ranks@[i]) == rank(ids@[i]),
            forall|i: int| 0 <= i < ids.len() ==> has_id(ws, #[trigger] ids@[i]),
            out@ == start + ids@.take(j as int).filter(unranked(rank)),
            forall|i: int| 0 <= i < out.len() ==> has_id(ws, #[trigger] out@[i]),
    {
        proof {
            lemma_filter_take(ids@, unranked(rank), j as int);
            assert(index_of(ranks@[j as int]) == rank(ids@[j as int]));
        }
        if ranks[j].is_none() {
            out.push(ids[j]);
            assert(has_id(ws, ids@[j as int]));
        }
    }
    assert(ids@.take(ids.len() as int) == ids@);
    out
}

fn listed_ids(world: &World, order: Order) -> (ids: Vec<i32>)
    ensures
        ids@ == listed(*world, order),
        forall|i: int| 0 <= i < ids.len() ==> has_id(world.workspaces@, #[trigger] ids@[i]),
{
    let ordinary = ordinary_ids_of(&world.workspaces);
    match order {
        Order::Compositor => ordinary,
        Order::Mru => {
            let ghost rank = history_rank(world.history@);
            let mut ranks: Vec<Option<usize>> = Vec::new();
            for i in 0..ordinary.len()
                invariant
                    ranks.len() == i,
                    rank == history_rank(world.history@),
                    forall|j: int| 0 <= j < i ==> index_of(#[trigger] ranks@[j]) == rank(ordinary@[j]),
            {
                ranks.push(world.history.position(ordinary[i]));
            }
            order_by_rank(&ordinary, &ranks, world.history.order().len(), Ghost(rank), Ghost(world.workspaces@))
        },
        Order::Monitor => {
            let ghost rank = monitor_rank(world.workspaces@, world.monitors@);
            let mut ranks: Vec<Option<usize>> = Vec::new();
            for i in 0..ordinary.len()
                invariant
                    ranks.len() == i,
                    rank == monitor_rank(world.workspaces@, world.monitors@),
                    forall|j: int| 0 <= j < i ==> index_of(#[trigger] ranks@[j]) == rank(ordinary@[j]),
            {
                let r = match workspace_index_of(&world.workspaces, ordinary[i]) {
                    Some(k) => monitor_named_index(&world.monitors, world.workspaces[k].monitor.as_str()),
                    None => None,
                };
                ranks.push(r);
            }
            order_by_rank(&ordinary, &ranks, world.monitors.len(), Ghost(rank), Ghost(world.workspaces@))
        },
    }
}

/// The entry for workspace `id`, which must exist.
fn entry(world: &World, id: i32) -> (e: Entry)
    requires
        has_id(world.workspaces@, id),
    ensures
        describes(*world, id, e),
{
    proof {
        crate::state::lemma_workspace_index(world.workspaces@, id);
    }
    let k = workspace_index_of(&world.workspaces, id).unwrap();
    let workspace = &world.workspaces[k];
    proof {
        lemma_first_where_facts(
            world.monitors@.len() as int,
            monitor_is(world.monitors@, workspace.monitor@),
        );
    }
    let on_it = world.windows_on(id);
    let mut windows: Vec<EntryWindow> = Vec::new();
    let ghost shown = shown_windows(world.windows@, id);
    proof {
        lemma_filter_take_zero(on_it@, mapped());
    }
    for i in 0..on_it.len()
        invariant
            on_it@ == world.windows@.filter(on(id)),
            shown == on_it@.filter(mapped()),
            windows.len() == on_it@.take(i as int).filter(mapped()).len(),
            forall|j: int|
                0 <= j < windows.len() ==> presents(
                    on_it@.take(i as int).filter(mapped())[j],
                    #[trigger] windows@[j],
                ),
    {
        proof {
            lemma_filter_take(on_it@, mapped(), i as int);
        }
        let window = &on_it[i];
        if window.is_listed() {
            windows.push(
                EntryWindow {
                    label: crate::text::string_of(&crate::text::chars_of(window.label())),
                    class: window.class.clone(),
                    at: window.at,
                    size: window.size,
                    floating: window.floating,
                },
            );
        }
    }
    assert(on_it@.take(on_it.len() as int) == on_it@);
    let (monitor_position, monitor_size, is_active) = match monitor_named_index(
        &world.monitors,
        workspace.monitor.as_str(),
    ) {
        Some(m) => (
            world.monitors[m].position,
            world.monitors[m].size,
            world.monitors[m].active_workspace == id,
        ),
        None => ((0, 0), (0, 0), false),
    };
    Entry {
        workspace_id: workspace.id,
        label: workspace.name.clone(),
        windows,
        monitor: workspace.monitor.clone(),
        monitor_position,
        monitor_size,
        is_active,
    }
}

/// Build the overlay's entries and the index the highlight starts on.
pub fn entries(world: &World, order: Order) -> (r: (Vec<Entry>, usize))
    ensures
        r.0@.len() == listed(*world, order).len(),
        forall|i: int|
            0 <= i < r.0@.len() ==> describes(*world, listed(*world, order)[i], #[trigger] r.0@[i]),
        r.1 == opening_highlight(*world, order, listed(*world, order)),
{
    let ids = listed_ids(world, order);
    let mut entries: Vec<Entry> = Vec::new();
    for i in 0..ids.len()
        invariant
            ids@ == listed(*world, order),
            forall|j: int| 0 <= j < ids.len() ==> has_id(world.workspaces@, #[trigger] ids@[j]),
            entries.len() == i,
            forall|j: int| 0 <= j < i ==> describes(*world, ids@[j], #[trigger] entries@[j]),
    {
        entries.push(entry(world, ids[i]));
    }
    if entries.len() == 0 {
        return (entries, 0);
    }
    let highlight = match order {
        Order::Mru => if entries.len() > 1 {
            1
        } else {
            0
        },
        Order::Compositor | Order::Monitor => {
            proof {
                lemma_first_where_facts(world.monitors@.len() as int, focused_at(world.monitors@));
            }
            match focused_monitor_index(&world.monitors) {
                Some(f) => {
                    let active = world.monitors[f].active_workspace;
                    match crate::state::find_id(&ids, active) {
                        Some(p) => p,
                        None => 0,
                    }
                },
                None => 0,
            }
        },
    };
    (entries, highlight)
}


// --- What every order promises ---------------------------------------------------------

/// Filtering by two predicates that never hold together, and between them hold exactly where a
/// third does, splits what the third keeps.
proof fn lemma_filter_partition<A>(s: Seq<A>, p: spec_fn(A) -> bool, q: spec_fn(A) -> bool, r: spec_fn(A) -> bool)
    requires
        forall|x: A| #[trigger] r(x) == (p(x) || q(x)),
        forall|x: A| !(#[trigger] p(x) && q(x)),
    ensures
        s.filter(r).to_multiset() =~= s.filter(p).to_multiset().add(s.filter(q).to_multiset()),
    decreases s.len(),
{
    broadcast use vstd::seq_lib::group_to_multiset_ensures, vstd::multiset::group_multiset_axioms;

    reveal(Seq::filter);
    if s.len() > 0 {
        lemma_filter_partition(s.drop_last(), p, q, r);
        let x = s.last();
        assert(r(x) == (p(x) || q(x)));
        assert(!(p(x) && q(x)));
    }
}

/// Keeping everything keeps the sequence.
proof fn lemma_filter_everything<A>(s: Seq<A>, r: spec_fn(A) -> bool)
    requires
        forall|x: A| #[trigger] r(x),
    ensures
        s.filter(r) == s,
    decreases s.len(),
{
    reveal(Seq::filter);
    if s.len() > 0 {
        lemma_filter_everything(s.drop_last(), r);
        assert(r(s.last()));
        assert(s.drop_last().push(s.last()) =~= s);
    }
}

/// Whether an id ranks below `n`.
pub open spec fn ranked_below(rank: spec_fn(i32) -> Option<int>, n: int) -> spec_fn(i32) -> bool {
    |id: i32| rank(id) matches Some(r) && 0 <= r < n
}

proof fn lemma_grouped(ids: Seq<i32>, rank: spec_fn(i32) -> Option<int>, n: nat)
    ensures
        grouped(ids, rank, n).to_multiset() =~= ids.filter(ranked_below(rank, n as int)).to_multiset(),
    decreases n,
{
    broadcast use vstd::seq_lib::group_to_multiset_ensures, vstd::multiset::group_multiset_axioms;

    if n == 0 {
        lemma_filter_nothing(ids, ranked_below(rank, 0));
    } else {
        lemma_grouped(ids, rank, (n - 1) as nat);
        vstd::seq_lib::lemma_multiset_commutative(
            grouped(ids, rank, (n - 1) as nat),
            ids.filter(rank_is(rank, n - 1)),
        );
        lemma_filter_partition(
            ids,
            ranked_below(rank, n - 1),
            rank_is(rank, n - 1),
            ranked_below(rank, n as int),
        );
    }
}

/// Keeping nothing keeps nothing.
proof fn lemma_filter_nothing<A>(s: Seq<A>, r: spec_fn(A) -> bool)
    requires
        forall|x: A| !#[trigger] r(x),
    ensures
        s.filter(r) =~= Seq::<A>::empty(),
    decreases s.len(),
{
    reveal(Seq::filter);
    if s.len() > 0 {
        lemma_filter_nothing(s.drop_last(), r);
        assert(!r(s.last()));
    }
}

/// A stable sort by a rank below `n` lists every id exactly as often as it was given.
proof fn lemma_ranked_order_is_a_permutation(ids: Seq<i32>, rank: spec_fn(i32) -> Option<int>, n: nat)
    requires
        forall|id: i32| #[trigger] rank(id) is Some ==> 0 <= rank(id)->Some_0 < n,
    ensures
        ranked_order(ids, rank, n).to_multiset() =~= ids.to_multiset(),
{
    broadcast use vstd::seq_lib::group_to_multiset_ensures, vstd::multiset::group_multiset_axioms;

    lemma_grouped(ids, rank, n);
    vstd::seq_lib::lemma_multiset_commutative(grouped(ids, rank, n), ids.filter(unranked(rank)));
    let everything = |id: i32| true;
    lemma_filter_partition(ids, ranked_below(rank, n as int), unranked(rank), everything);
    lemma_filter_everything(ids, everything);
}

/// Every order lists the ordinary workspaces — each as often as the compositor reports it, and
/// nothing else — and the highlight opens on one of them whenever there is one.
pub proof fn law_every_order_lists_the_ordinary_workspaces(world: World, order: Order)
    ensures
        listed(world, order).to_multiset() =~= ordinary_ids(world.workspaces@).to_multiset(),
        listed(world, order).len() > 0 ==> 0 <= opening_highlight(world, order, listed(world, order))
            < listed(world, order).len(),
{
    broadcast use vstd::seq_lib::group_to_multiset_ensures;

    let ids = ordinary_ids(world.workspaces@);
    match order {
        Order::Mru => {
            let h = world.history@;
            assert forall|id: i32| #[trigger] history_rank(h)(id) is Some implies 0 <= history_rank(h)(id)->Some_0 < h.len() by {
                lemma_first_where_facts(h.len() as int, holds(h, id));
            }
            lemma_ranked_order_is_a_permutation(ids, history_rank(h), h.len());
        },
        Order::Compositor => {},
        Order::Monitor => {
            let ws = world.workspaces@;
            let ms = world.monitors@;
            assert forall|id: i32| #[trigger] monitor_rank(ws, ms)(id) is Some implies 0 <= monitor_rank(ws, ms)(id)->Some_0 < ms.len() by {
                match workspace_index(ws, id) {
                    Some(k) => {
                        lemma_first_where_facts(ms.len() as int, monitor_is(ms, ws[k].monitor@));
                    },
                    None => {},
                }
            }
            lemma_ranked_order_is_a_permutation(ids, monitor_rank(ws, ms), ms.len());
        },
    }
    let listing = listed(world, order);
    match focused_index(world.monitors@) {
        Some(f) => {
            lemma_first_where_facts(listing.len() as int, holds(listing, world.monitors@[f].active_workspace));
        },
        None => {},
    }
}

/// Where the overlay opens: under most-recently-used, on the second entry when there are two or
/// more — the workspace active before this one — and on the only one otherwise; under every
/// other order, on the workspace the focused monitor (the first reported focused) is showing,
/// when that is listed, and on the first entry when it is not or no monitor is focused. So an
/// immediate release outside most-recently-used leaves the user where they are.
pub proof fn law_the_overlay_opens_where_the_user_is(world: World, order: Order)
    ensures
        ({
            let listing = listed(world, order);
            let h = opening_highlight(world, order, listing);
            let ms = world.monitors@;
            &&& order == Order::Mru && listing.len() >= 2 ==> h == 1
            &&& order == Order::Mru && listing.len() < 2 ==> h == 0
            &&& forall|f: int|
                #![trigger ms[f]]
                order != Order::Mru && 0 <= f < ms.len() && ms[f].focused && (forall|l: int|
                    0 <= l < f ==> !ms[l].focused) ==> (if listing.contains(ms[f].active_workspace) {
                    0 <= h < listing.len() && listing[h] == ms[f].active_workspace
                } else {
                    h == 0
                })
            &&& order != Order::Mru && (forall|l: int| 0 <= l < ms.len() ==> !ms[l].focused) ==> h == 0
        }),
{
    let listing = listed(world, order);
    let ms = world.monitors@;
    lemma_first_where_facts(ms.len() as int, crate::state::focused_at(ms));
    assert forall|f: int|
        #![trigger ms[f]]
        order != Order::Mru && 0 <= f < ms.len() && ms[f].focused && (forall|l: int|
            0 <= l < f ==> !ms[l].focused) implies (if listing.contains(ms[f].active_workspace) {
            0 <= opening_highlight(world, order, listing) < listing.len() && listing[opening_highlight(world, order, listing)] == ms[f].active_workspace
        } else {
            opening_highlight(world, order, listing) == 0
        }) by {
        assert forall|l: int| 0 <= l < f implies !#[trigger] crate::state::focused_at(ms)(l) by {}
        crate::seqs::lemma_first_where_found(ms.len() as int, crate::state::focused_at(ms), f);
        let a = ms[f].active_workspace;
        lemma_first_where_facts(listing.len() as int, holds(listing, a));
        if listing.contains(a) {
            let k = choose|k: int| 0 <= k < listing.len() && listing[k] == a;
            assert(holds(listing, a)(k));
        } else {
            if let Some(p) = first_where(listing.len() as int, holds(listing, a)) {
                assert(listing[p] == a);
            }
        }
    }
    if order != Order::Mru && (forall|l: int| 0 <= l < ms.len() ==> !ms[l].focused) {
        if let Some(f) = focused_index(ms) {
            assert(crate::state::focused_at(ms)(f));
        }
    }
}

/// Every window an entry shows is labelled by its title, and by its class when it has no title —
/// so a window without a title still has a name in the list and under its miniature.
pub proof fn law_entry_windows_show_title_or_class(world: World, id: i32, e: Entry)
    requires
        describes(world, id, e),
    ensures
        forall|j: int|
            0 <= j < e.windows@.len() ==> {
                let w = shown_windows(world.windows@, id)[j];
                &&& w.title@.len() > 0 ==> (#[trigger] e.windows@[j]).label@ == w.title@
                &&& w.title@.len() == 0 ==> e.windows@[j].label@ == w.class@
            },
{
    assert forall|j: int| 0 <= j < e.windows@.len() implies {
        let w = shown_windows(world.windows@, id)[j];
        &&& w.title@.len() > 0 ==> (#[trigger] e.windows@[j]).label@ == w.title@
        &&& w.title@.len() == 0 ==> e.windows@[j].label@ == w.class@
    } by {
        let w = shown_windows(world.windows@, id)[j];
        assert(presents(w, e.windows@[j]));
        Window::law_labelled_by_title_or_else_class(w);
    }
}

// --- One tap goes back ---------------------------------------------------------------------

/// Filtering keeps nothing when nothing in the sequence passes.
proof fn lemma_filter_none_pass<A>(s: Seq<A>, p: spec_fn(A) -> bool)
    requires
        forall|i: int| 0 <= i < s.len() ==> !p(#[trigger] s[i]),
    ensures
        s.filter(p) =~= Seq::<A>::empty(),
    decreases s.len(),
{
    reveal(Seq::filter);
    if s.len() > 0 {
        let rest = s.drop_last();
        assert forall|i: int| 0 <= i < rest.len() implies !p(#[trigger] rest[i]) by {
            assert(rest[i] == s[i]);
        }
        lemma_filter_none_pass(rest, p);
        assert(!p(s[s.len() - 1]));
    }
}

/// In a sequence holding `v` once, keeping exactly what equals `v` keeps `v` alone.
proof fn lemma_filter_single(s: Seq<i32>, p: spec_fn(i32) -> bool, v: i32)
    requires
        s.no_duplicates(),
        s.contains(v),
        forall|x: i32| #[trigger] p(x) <==> x == v,
    ensures
        s.filter(p) =~= seq![v],
    decreases s.len(),
{
    reveal(Seq::filter);
    let rest = s.drop_last();
    let last = s.last();
    assert(rest.no_duplicates()) by {
        assert forall|i: int, j: int| 0 <= i < rest.len() && 0 <= j < rest.len() && i != j implies rest[i] != rest[j] by {
            assert(rest[i] == s[i] && rest[j] == s[j]);
        }
    }
    if last == v {
        assert forall|i: int| 0 <= i < rest.len() implies !p(#[trigger] rest[i]) by {
            assert(rest[i] == s[i]);
            assert(s[i] != s[s.len() - 1]);
        }
        lemma_filter_none_pass(rest, p);
    } else {
        let k = choose|k: int| 0 <= k < s.len() && s[k] == v;
        assert(k < s.len() - 1);
        assert(rest[k] == v);
        lemma_filter_single(rest, p, v);
        assert(!p(last));
    }
}

/// The first two groups of a stable sort by rank hold one id each, and they stay first.
proof fn lemma_first_two_groups(ids: Seq<i32>, rank: spec_fn(i32) -> Option<int>, n: nat, a: i32, b: i32)
    requires
        n >= 2,
        ids.filter(rank_is(rank, 0)) == seq![a],
        ids.filter(rank_is(rank, 1)) == seq![b],
    ensures
        grouped(ids, rank, n).len() >= 2,
        grouped(ids, rank, n)[0] == a,
        grouped(ids, rank, n)[1] == b,
    decreases n,
{
    if n == 2 {
        assert(grouped(ids, rank, 0) =~= Seq::<i32>::empty());
        assert(grouped(ids, rank, 1) =~= seq![a]);
        assert(grouped(ids, rank, 2) =~= seq![a, b]);
    } else {
        lemma_first_two_groups(ids, rank, (n - 1) as nat, a, b);
        let before = grouped(ids, rank, (n - 1) as nat);
        assert(grouped(ids, rank, n)[0] == before[0]);
        assert(grouped(ids, rank, n)[1] == before[1]);
    }
}

/// One tap of the switcher goes back: under most-recently-used, the overlay opens with the
/// workspace active now first and the highlight on the one active before it, so releasing at
/// once returns there. This holds whenever both are workspaces the overlay lists, each once.
pub proof fn law_one_tap_returns_to_the_previous_workspace(world: World)
    requires
        world.history@.len() >= 2,
        world.history@.no_duplicates(),
        ordinary_ids(world.workspaces@).no_duplicates(),
        ordinary_ids(world.workspaces@).contains(world.history@[0]),
        ordinary_ids(world.workspaces@).contains(world.history@[1]),
    ensures
        listed(world, Order::Mru)[0] == world.history@[0],
        listed(world, Order::Mru)[opening_highlight(world, Order::Mru, listed(world, Order::Mru))]
            == world.history@[1],
{
    let h = world.history@;
    let ids = ordinary_ids(world.workspaces@);
    let rank = history_rank(h);
    assert forall|x: i32| #[trigger] rank_is(rank, 0)(x) <==> x == h[0] by {
        lemma_first_where_facts(h.len() as int, holds(h, x));
        if x == h[0] {
            lemma_first_where_found(h.len() as int, holds(h, x), 0);
        }
    }
    assert forall|x: i32| #[trigger] rank_is(rank, 1)(x) <==> x == h[1] by {
        lemma_first_where_facts(h.len() as int, holds(h, x));
        if x == h[1] {
            assert(h[0] != h[1]);
            assert(!holds(h, x)(0));
            lemma_first_where_found(h.len() as int, holds(h, x), 1);
        }
    }
    lemma_filter_single(ids, rank_is(rank, 0), h[0]);
    lemma_filter_single(ids, rank_is(rank, 1), h[1]);
    lemma_first_two_groups(ids, rank, h.len(), h[0], h[1]);
    let listing = listed(world, Order::Mru);
    assert(listing == grouped(ids, rank, h.len()) + ids.filter(unranked(rank)));
    assert(listing[0] == h[0]);
    assert(listing[1] == h[1]);
}

} // verus!
