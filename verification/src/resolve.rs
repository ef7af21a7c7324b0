//! Which location a replayed state shows.
//!
//! The active window is the window that is marked active and not closed;
//! where several are, the one with the least identifier. The open tabs of
//! that window are put in the order of their indices in the window, tabs of
//! one index in the order of their identifiers. The active tab is the first
//! of them whose index is the window's active index: the tab with the least
//! identifier among those at that index. The active location is that of the
//! tab's current entry.

use crate::state::StateView;
use vstd::prelude::*;

verus! {

/// `k` has the property `p`, and no lesser identifier has it.
pub open spec fn is_least(p: spec_fn(u32) -> bool, k: u32) -> bool {
    p(k) && forall|j: u32| #[trigger] p(j) ==> k <= j
}

/// The least identifier with the property `p`, if any has it.
pub open spec fn least(p: spec_fn(u32) -> bool) -> Option<u32> {
    if exists|k: u32| #[trigger] p(k) {
        Some(choose|k: u32| is_least(p, k))
    } else {
        None
    }
}

/// There is at most one least identifier, and `least` is it.
pub proof fn lemma_least_is(p: spec_fn(u32) -> bool, k: u32)
    requires
        is_least(p, k),
    ensures
        least(p) == Some(k),
{
    let c = choose|c: u32| is_least(p, c);
    assert(is_least(p, c));
    assert(p(k) && p(c));
}

/// Where some identifier has the property, `least` has it and none below it
/// has.
pub proof fn lemma_least_exists(p: spec_fn(u32) -> bool)
    ensures
        match least(p) {
            Some(k) => is_least(p, k),
            None => forall|j: u32| !#[trigger] p(j),
        },
{
    if exists|k: u32| #[trigger] p(k) {
        let k = choose|k: u32| #[trigger] p(k);
        lemma_least_below(p, k, k);
    }
}

/// Some identifier up to `bound` is the least, as soon as `witness`, which
/// is no greater than `bound`, has the property.
proof fn lemma_least_below(p: spec_fn(u32) -> bool, witness: u32, bound: u32)
    requires
        p(witness),
        witness <= bound,
    ensures
        exists|k: u32| is_least(p, k),
    decreases bound,
{
    if exists|j: u32| j < witness && #[trigger] p(j) {
        let j = choose|j: u32| j < witness && #[trigger] p(j);
        lemma_least_below(p, j, j);
    } else {
        assert(is_least(p, witness));
    }
}

/// A tab's place in its window: its index in the window, and its identifier.
pub type TabPlace = (u32, u32);

/// The place `a` comes before the place `b`: its index is less, or the
/// indices are equal and its identifier is less.
pub open spec fn place_before(a: TabPlace, b: TabPlace) -> bool {
    a.0 < b.0 || (a.0 == b.0 && a.1 < b.1)
}

/// Each place of `places` comes before the places after it.
pub open spec fn in_order(places: Seq<TabPlace>) -> bool {
    forall|i: int, j: int| 0 <= i < j < places.len() ==> place_before(places[i], places[j])
}

impl StateView {
    /// `place` is the place of an open tab of the window `w`.
    pub open spec fn is_place_in(self, w: u32, place: TabPlace) -> bool {
        &&& self.tabs.contains_key(place.1)
        &&& !self.tabs[place.1].deleted
        &&& self.tabs[place.1].window_id == w
        &&& self.tabs[place.1].relative_index == place.0
    }

    /// `places` are the places of the open tabs of the window `w`, in
    /// order.
    pub open spec fn is_tab_order(self, w: u32, places: Seq<TabPlace>) -> bool {
        &&& in_order(places)
        &&& forall|place: TabPlace| places.contains(place) <==> self.is_place_in(w, place)
    }

    /// The windows that are marked active and are not closed.
    pub open spec fn live_active_windows(self) -> spec_fn(u32) -> bool {
        |w: u32| self.windows.contains_key(w) && self.windows[w].active && !self.windows[w].deleted
    }

    /// The tabs of the window `w` that are not closed and stand at `index` in
    /// it.
    pub open spec fn live_tabs_at(self, w: u32, index: u32) -> spec_fn(u32) -> bool {
        |t: u32|
            self.tabs.contains_key(t) && !self.tabs[t].deleted && self.tabs[t].window_id == w
                && self.tabs[t].relative_index == index
    }

    /// The active window.
    pub open spec fn active_window(self) -> Option<u32> {
        least(self.live_active_windows())
    }

    /// The active tab.
    pub open spec fn active_tab(self) -> Option<u32> {
        match self.active_window() {
            Some(w) => least(self.live_tabs_at(w, self.windows[w].active_tab_index)),
            None => None,
        }
    }

    /// The location that the state shows: that of the active tab's current
    /// entry. There is none where no window is active, where the active
    /// window has no open tab at its active index, or where that tab has no
    /// entry with its current history index.
    pub open spec fn active_url(self) -> Option<Seq<char>> {
        match self.active_tab() {
            Some(t) => match self.tabs[t].current_entry() {
                Some(e) => Some(e.url),
                None => None,
            },
            None => None,
        }
    }
}

/// In the order of a window's open tabs, the first tab at an index is the
/// one with the least identifier at that index.
pub proof fn lemma_first_at_index_is_least(
    s: StateView,
    w: u32,
    places: Seq<TabPlace>,
    index: u32,
    i: int,
)
    requires
        s.is_tab_order(w, places),
        0 <= i < places.len(),
        places[i].0 == index,
        forall|j: int| 0 <= j < i ==> places[j].0 != index,
    ensures
        least(s.live_tabs_at(w, index)) == Some(places[i].1),
{
    let p = s.live_tabs_at(w, index);
    let t = places[i].1;
    assert(places.contains(places[i]));
    assert(s.is_place_in(w, places[i]));
    assert forall|u: u32| #[trigger] p(u) implies t <= u by {
        let place = (index, u);
        assert(s.is_place_in(w, place));
        assert(places.contains(place));
        let j = choose|j: int| 0 <= j < places.len() && places[j] == place;
        if j > i {
            assert(place_before(places[i], places[j]));
        }
    }
    assert(is_least(p, t));
    lemma_least_is(p, t);
}

/// Where the order of a window's open tabs has no tab at an index, no open
/// tab of the window stands at that index.
pub proof fn lemma_none_at_index(s: StateView, w: u32, places: Seq<TabPlace>, index: u32)
    requires
        s.is_tab_order(w, places),
        forall|j: int| 0 <= j < places.len() ==> places[j].0 != index,
    ensures
        least(s.live_tabs_at(w, index)) is None,
{
    let p = s.live_tabs_at(w, index);
    assert forall|u: u32| !#[trigger] p(u) by {
        if p(u) {
            let place = (index, u);
            assert(s.is_place_in(w, place));
            assert(places.contains(place));
        }
    }
}

} // verus!
