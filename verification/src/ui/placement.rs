//! Which monitors an opening session's overlay appears on, and which copy takes the keyboard.

use vstd::prelude::*;

use crate::config::Placement;
use crate::model::Monitor;
use crate::state::{focused_index, focused_monitor_index};

verus! {

/// Where the overlay goes.
#[derive(Debug, Clone, PartialEq, Eq)]
pub enum OverlayTargets {
    /// A copy on each listed monitor, by position in the world's monitors, in that order; the
    /// flag marks the one copy that takes the keyboard.
    OnEvery(Vec<(usize, bool)>),
    /// One copy on the focused monitor, by position, taking the keyboard; the compositor puts it
    /// on its focused output.
    OnFocused(usize),
    /// No monitor to show it on.
    Nowhere,
}

/// The copies `placement = "all"` asks for among the first `n` monitors: one on each monitor
/// that has an output to put it on, the one named `origin` taking the keyboard.
pub open spec fn copies(ms: Seq<Monitor>, outputs: Seq<bool>, origin: Seq<char>, n: nat) -> Seq<(usize, bool)>
    decreases n,
{
    if n == 0 {
        Seq::empty()
    } else {
        let i = (n - 1) as int;
        copies(ms, outputs, origin, (n - 1) as nat) + if outputs[i] {
            seq![(i as usize, ms[i].name@ == origin)]
        } else {
            Seq::empty()
        }
    }
}

/// Whether one of `copies` takes the keyboard.
pub open spec fn has_keyboard_copy(copies: Seq<(usize, bool)>) -> bool {
    exists|k: int| 0 <= k < copies.len() && copies[k].1
}

/// What an overlay target is, read as a view.
pub enum TargetsView {
    OnEvery(Seq<(usize, bool)>),
    OnFocused(int),
    Nowhere,
}

pub open spec fn targets_view(t: OverlayTargets) -> TargetsView {
    match t {
        OverlayTargets::OnEvery(v) => TargetsView::OnEvery(v@),
        OverlayTargets::OnFocused(f) => TargetsView::OnFocused(f as int),
        OverlayTargets::Nowhere => TargetsView::Nowhere,
    }
}

/// Where the overlay goes: with `placement = "all"`, a copy on every monitor with an output,
/// provided the copy on the origin monitor — the one that takes the keyboard — is among them;
/// otherwise, and with `placement = "active"`, one copy on the focused monitor.
pub open spec fn placed(placement: Placement, ms: Seq<Monitor>, outputs: Seq<bool>, origin: Seq<char>) -> TargetsView {
    let all = copies(ms, outputs, origin, ms.len());
    if placement == Placement::AllMonitors && has_keyboard_copy(all) {
        TargetsView::OnEvery(all)
    } else {
        match focused_index(ms) {
            Some(f) => TargetsView::OnFocused(f),
            None => TargetsView::Nowhere,
        }
    }
}

/// Decide where an opening session's overlay goes. `has_output[i]` says whether the `i`-th
/// monitor has a Wayland output a copy could be put on.
pub fn overlay_targets(placement: Placement, monitors: &[Monitor], has_output: &[bool], origin: &str) -> (r: OverlayTargets)
    requires
        has_output@.len() == monitors@.len(),
    ensures
        targets_view(r) == placed(placement, monitors@, has_output@, origin@),
{
    if placement == Placement::AllMonitors {
        let mut all: Vec<(usize, bool)> = Vec::new();
        let mut keyboard = false;
        for i in 0..monitors.len()
            invariant
                has_output@.len() == monitors@.len(),
                all@ == copies(monitors@, has_output@, origin@, i as nat),
                keyboard == has_keyboard_copy(all@),
        {
            let ghost before = all@;
            if has_output[i] {
                let exclusive = crate::text::same(monitors[i].name.as_str(), origin);
                all.push((i, exclusive));
                keyboard = keyboard || exclusive;
                proof {
                    if exclusive {
                        assert(all@[before.len() as int].1);
                    }
                    if has_keyboard_copy(all@) && !has_keyboard_copy(before) {
                        let k = choose|k: int| 0 <= k < all@.len() && all@[k].1;
                        assert(k == before.len());
                    }
                    if has_keyboard_copy(before) {
                        let k = choose|k: int| 0 <= k < before.len() && before[k].1;
                        assert(all@[k] == before[k]);
                    }
                }
            }
            assert(all@ =~= copies(monitors@, has_output@, origin@, (i + 1) as nat));
        }
        if keyboard {
            return OverlayTargets::OnEvery(all);
        }
    }
    match focused_monitor_index(monitors) {
        Some(f) => OverlayTargets::OnFocused(f),
        None => OverlayTargets::Nowhere,
    }
}

/// What each copy is: a monitor below `n` that has an output, in increasing order, taking the
/// keyboard exactly when it is the origin.
proof fn lemma_copies(ms: Seq<Monitor>, outputs: Seq<bool>, origin: Seq<char>, n: nat)
    requires
        n <= ms.len() <= usize::MAX,
        outputs.len() == ms.len(),
    ensures
        forall|k: int| 0 <= k < copies(ms, outputs, origin, n).len() ==> {
            let c = #[trigger] copies(ms, outputs, origin, n)[k];
            &&& (c.0 as int) < n
            &&& outputs[c.0 as int]
            &&& c.1 == (ms[c.0 as int].name@ == origin)
        },
        forall|a: int, b: int|
            0 <= a < b < copies(ms, outputs, origin, n).len() ==> (#[trigger] copies(ms, outputs, origin, n)[a]).0
                < (#[trigger] copies(ms, outputs, origin, n)[b]).0,
    decreases n,
{
    if n > 0 {
        let m = (n - 1) as nat;
        lemma_copies(ms, outputs, origin, m);
        let prev = copies(ms, outputs, origin, m);
        let cur = copies(ms, outputs, origin, n);
        assert forall|k: int| 0 <= k < prev.len() implies cur[k] == prev[k] by {}
        if outputs[m as int] {
            assert(cur.len() == prev.len() + 1);
            assert(cur[prev.len() as int] == ((m as int) as usize, ms[m as int].name@ == origin));
        } else {
            assert(cur =~= prev);
        }
        assert forall|k: int| 0 <= k < cur.len() implies {
            let c = #[trigger] cur[k];
            &&& (c.0 as int) < n
            &&& outputs[c.0 as int]
            &&& c.1 == (ms[c.0 as int].name@ == origin)
        } by {
            if k < prev.len() {
                assert(cur[k] == prev[k]);
            }
        }
        assert forall|a: int, b: int| 0 <= a < b < cur.len() implies (#[trigger] cur[a]).0 < (#[trigger] cur[b]).0 by {
            assert(cur[a] == prev[a]);
            if b < prev.len() {
                assert(cur[b] == prev[b]);
            } else {
                assert((prev[a].0 as int) < m);
            }
        }
    }
}

/// Whether exactly one of `copies` takes the keyboard and no monitor has two of them.
pub open spec fn one_keyboard_copy(copies: Seq<(usize, bool)>) -> bool {
    &&& has_keyboard_copy(copies)
    &&& forall|a: int, b: int| 0 <= a < b < copies.len() ==> !(copies[a].1 && copies[b].1)
    &&& forall|a: int, b: int| 0 <= a < b < copies.len() ==> copies[a].0 != copies[b].0
}

/// With `placement = "all"`, exactly one copy takes the keyboard, and no monitor gets two
/// copies — as long as no two monitors share a name, which the compositor guarantees.
pub proof fn law_one_copy_takes_the_keyboard(
    placement: Placement,
    ms: Seq<Monitor>,
    outputs: Seq<bool>,
    origin: Seq<char>,
)
    requires
        outputs.len() == ms.len() <= usize::MAX,
        forall|i: int, j: int| 0 <= i < j < ms.len() ==> ms[i].name@ != ms[j].name@,
    ensures
        match placed(placement, ms, outputs, origin) {
            TargetsView::OnEvery(all) => one_keyboard_copy(all),
            _ => true,
        },
{
    let all = copies(ms, outputs, origin, ms.len());
    lemma_copies(ms, outputs, origin, ms.len());
    assert forall|k: int| 0 <= k < all.len() implies (all[k].0 as int) < ms.len() && all[k].1 == (
    ms[all[k].0 as int].name@ == origin) by {
        let c = all[k];
    }
    assert forall|a: int, b: int| 0 <= a < b < all.len() implies !(all[a].1 && all[b].1) by {
        assert(all[a].0 < all[b].0);
        if all[a].1 && all[b].1 {
            assert(ms[all[a].0 as int].name@ == ms[all[b].0 as int].name@);
        }
    }
    assert forall|a: int, b: int| 0 <= a < b < all.len() implies all[a].0 != all[b].0 by {
        assert(all[a].0 < all[b].0);
    }
    if placement == Placement::AllMonitors && has_keyboard_copy(all) {
        assert(placed(placement, ms, outputs, origin) == TargetsView::OnEvery(all));
        assert(one_keyboard_copy(all));
    }
}

} // verus!
