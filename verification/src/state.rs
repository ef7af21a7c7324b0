//! The state that replaying a session log builds up: windows and tabs by
//! their identifiers, tab groups by their two-part identifiers, and for each
//! tab the list of its navigation entries.
//!
//! `StateView` is the mathematical model, and `StateView::apply` says what one
//! command does to it. `ReplayState` is the executable state; its view is a
//! `StateView`, and `ReplayState::apply` is proved to do what the model says.

use crate::command::{Command, CommandView};
use crate::resolve::{
    in_order, is_least, least, lemma_first_at_index_is_least, lemma_least_exists, lemma_least_is,
    lemma_none_at_index, place_before, TabPlace,
};
use std::collections::HashMap;
use vstd::prelude::*;
use vstd::std_specs::hash::spec_keys_iter;
use vstd::std_specs::iter::IteratorSpec;

verus! {

broadcast use vstd::std_specs::hash::group_hash_axioms;

/// One entry of a tab's navigation history.
#[derive(Debug)]
pub struct NavigationEntry {
    pub history_index: u32,
    pub url: String,
    pub title: String,
}

/// An entry as a mathematical value.
pub struct NavigationEntryView {
    pub history_index: u32,
    pub url: Seq<char>,
    pub title: Seq<char>,
}

impl View for NavigationEntry {
    type V = NavigationEntryView;

    open spec fn view(&self) -> NavigationEntryView {
        NavigationEntryView { history_index: self.history_index, url: self.url@, title: self.title@ }
    }
}

/// A named group of tabs. Its identifier has two halves.
#[derive(Debug)]
pub struct TabGroup {
    pub high: u64,
    pub low: u64,
    pub name: String,
}

/// A group as a mathematical value.
pub struct TabGroupView {
    pub high: u64,
    pub low: u64,
    pub name: Seq<char>,
}

impl View for TabGroup {
    type V = TabGroupView;

    open spec fn view(&self) -> TabGroupView {
        TabGroupView { high: self.high, low: self.low, name: self.name@ }
    }
}

impl TabGroupView {
    /// The group with the identifier `(high, low)` before it has got a name.
    pub open spec fn fresh(high: u64, low: u64) -> TabGroupView {
        TabGroupView { high, low, name: Seq::empty() }
    }
}

impl TabGroup {
    /// A copy of this group as it is now.
    pub fn snapshot(&self) -> (g: TabGroup)
        ensures
            g@ == self@,
    {
        TabGroup { high: self.high, low: self.low, name: self.name.clone() }
    }
}

/// A tab. `group` is a copy of the group as it was when the tab was put in
/// it; a name that the group gets later does not reach the copy.
#[derive(Debug)]
pub struct Tab {
    pub relative_index: u32,
    pub window_id: u32,
    pub current_history_index: u32,
    pub deleted: bool,
    pub group: Option<TabGroup>,
    pub histories: Vec<NavigationEntry>,
}

/// A tab as a mathematical value.
pub struct TabView {
    pub relative_index: u32,
    pub window_id: u32,
    pub current_history_index: u32,
    pub deleted: bool,
    pub group: Option<TabGroupView>,
    pub histories: Seq<NavigationEntryView>,
}

/// The entries of a history as mathematical values, in their order.
pub open spec fn entries_view(h: Seq<NavigationEntry>) -> Seq<NavigationEntryView> {
    Seq::new(h.len(), |i: int| h[i]@)
}

impl View for Tab {
    type V = TabView;

    open spec fn view(&self) -> TabView {
        TabView {
            relative_index: self.relative_index,
            window_id: self.window_id,
            current_history_index: self.current_history_index,
            deleted: self.deleted,
            group: match self.group {
                Some(g) => Some(g@),
                None => None,
            },
            histories: entries_view(self.histories@),
        }
    }
}

/// `i` is the place of the first entry of `h` with the history index `index`.
pub open spec fn is_first_entry(h: Seq<NavigationEntryView>, index: u32, i: int) -> bool {
    &&& 0 <= i < h.len()
    &&& h[i].history_index == index
    &&& forall|j: int| 0 <= j < i ==> h[j].history_index != index
}

/// The place of the first entry of `h` with the history index `index`.
pub open spec fn find_entry(h: Seq<NavigationEntryView>, index: u32) -> Option<int> {
    if exists|i: int| is_first_entry(h, index, i) {
        Some(choose|i: int| is_first_entry(h, index, i))
    } else {
        None
    }
}

/// The history `h` after `e` has been recorded: `e` takes the place of the
/// entry with its history index, or comes last where there is none.
pub open spec fn upsert(h: Seq<NavigationEntryView>, e: NavigationEntryView) -> Seq<
    NavigationEntryView,
> {
    match find_entry(h, e.history_index) {
        Some(i) => h.update(i, e),
        None => h.push(e),
    }
}

/// No two entries of `h` have the same history index.
pub open spec fn distinct_indices(h: Seq<NavigationEntryView>) -> bool {
    forall|i: int, j: int|
        0 <= i < j < h.len() ==> (#[trigger] h[i]).history_index != (#[trigger] h[j]).history_index
}

/// A first entry is the only one in its place, and there is one as soon as
/// any entry has the index.
pub proof fn lemma_find_entry(h: Seq<NavigationEntryView>, index: u32)
    ensures
        forall|i: int| is_first_entry(h, index, i) ==> find_entry(h, index) == Some(i),
        find_entry(h, index) is None <==> forall|i: int|
            0 <= i < h.len() ==> (#[trigger] h[i]).history_index != index,
        find_entry(h, index) matches Some(i) ==> is_first_entry(h, index, i),
{
    assert forall|i: int| is_first_entry(h, index, i) implies find_entry(h, index) == Some(i) by {
        let c = choose|c: int| is_first_entry(h, index, c);
        assert(is_first_entry(h, index, c));
        if c < i {
            assert(h[c].history_index != index);
        } else if i < c {
            assert(h[i].history_index != index);
        }
    }
    if exists|i: int| 0 <= i < h.len() && (#[trigger] h[i]).history_index == index {
        lemma_first_entry_exists(h, index, h.len() as int);
    }
}

/// Among the first `n` entries, if one has the index then one is the first.
proof fn lemma_first_entry_exists(h: Seq<NavigationEntryView>, index: u32, n: int)
    requires
        0 <= n <= h.len(),
    ensures
        (exists|i: int| 0 <= i < n && (#[trigger] h[i]).history_index == index) ==> exists|
            i: int,
        | is_first_entry(h, index, i),
    decreases n,
{
    if n > 0 {
        lemma_first_entry_exists(h, index, n - 1);
        if !(exists|i: int| 0 <= i < n - 1 && (#[trigger] h[i]).history_index == index) {
            if h[n - 1].history_index == index {
                assert(is_first_entry(h, index, n - 1));
            }
        }
    }
}

/// Recording an entry keeps the history indices distinct.
pub proof fn lemma_upsert_keeps_distinct(h: Seq<NavigationEntryView>, e: NavigationEntryView)
    requires
        distinct_indices(h),
    ensures
        distinct_indices(upsert(h, e)),
{
    lemma_find_entry(h, e.history_index);
}

impl TabView {
    /// A tab as it is when a command names it for the first time.
    pub open spec fn fresh() -> TabView {
        TabView {
            relative_index: 0,
            window_id: 0,
            current_history_index: 0,
            deleted: false,
            group: None,
            histories: Seq::empty(),
        }
    }

    /// The entry that the tab shows: the one whose history index is the
    /// tab's current one.
    pub open spec fn current_entry(self) -> Option<NavigationEntryView> {
        match find_entry(self.histories, self.current_history_index) {
            Some(i) => Some(self.histories[i]),
            None => None,
        }
    }
}

/// A window. Its tabs are not kept with it: each tab names its window, and
/// `ReplayState::window_tabs` collects the tabs of a window when they are
/// asked for.
#[derive(Debug, Clone, Copy, PartialEq, Eq, Structural)]
pub struct Window {
    pub active_tab_index: u32,
    pub active: bool,
    pub deleted: bool,
}

impl Window {
    /// A window as it is when a command names it for the first time.
    pub open spec fn fresh() -> Window {
        Window { active_tab_index: 0, active: false, deleted: false }
    }
}

/// The key under which the group `(high, low)` is stored: the two halves side
/// by side in 128 bits.
pub open spec fn group_key(high: u64, low: u64) -> u128 {
    (high as int * 0x1_0000_0000_0000_0000 + low as int) as u128
}

/// Different identifiers have different keys.
pub proof fn lemma_group_key_is_injective(h1: u64, l1: u64, h2: u64, l2: u64)
    ensures
        group_key(h1, l1) == group_key(h2, l2) ==> h1 == h2 && l1 == l2,
{
}

/// Computes `group_key`.
pub fn group_key_of(high: u64, low: u64) -> (k: u128)
    ensures
        k == group_key(high, low),
{
    (high as u128) * 0x1_0000_0000_0000_0000u128 + (low as u128)
}

/// The state of a replay as a mathematical value.
#[verifier::ext_equal]
pub struct StateView {
    pub windows: Map<u32, Window>,
    pub tabs: Map<u32, TabView>,
    pub groups: Map<(u64, u64), TabGroupView>,
}

impl StateView {
    /// The state before any command: nothing is known.
    pub open spec fn empty() -> StateView {
        StateView { windows: Map::empty(), tabs: Map::empty(), groups: Map::empty() }
    }

    /// The tab `id`, as it is or as it would be made.
    pub open spec fn tab(self, id: u32) -> TabView {
        if self.tabs.contains_key(id) {
            self.tabs[id]
        } else {
            TabView::fresh()
        }
    }

    /// The window `id`, as it is or as it would be made.
    pub open spec fn window(self, id: u32) -> Window {
        if self.windows.contains_key(id) {
            self.windows[id]
        } else {
            Window::fresh()
        }
    }

    /// The group `(high, low)`, as it is or as it would be made.
    pub open spec fn group(self, high: u64, low: u64) -> TabGroupView {
        if self.groups.contains_key((high, low)) {
            self.groups[(high, low)]
        } else {
            TabGroupView::fresh(high, low)
        }
    }

    /// The state with `t` as the tab `id`.
    pub open spec fn with_tab(self, id: u32, t: TabView) -> StateView {
        StateView { tabs: self.tabs.insert(id, t), ..self }
    }

    /// The state with `w` as the window `id`.
    pub open spec fn with_window(self, id: u32, w: Window) -> StateView {
        StateView { windows: self.windows.insert(id, w), ..self }
    }

    /// The state with `g` as the group of its identifier.
    pub open spec fn with_group(self, g: TabGroupView) -> StateView {
        StateView { groups: self.groups.insert((g.high, g.low), g), ..self }
    }

    /// The state after one command. A command makes the tab, window or group
    /// that it changes where the state has none under that identifier;
    /// `LastActiveTime` changes nothing, and `SetTabGroup` makes no group: a
    /// tab put in a group that the state does not hold is in no group.
    #[verifier::opaque]
    pub open spec fn apply(self, c: CommandView) -> StateView {
        match c {
            CommandView::SetTabWindow { window_id, tab_id } => self.with_tab(
                tab_id,
                TabView { window_id, ..self.tab(tab_id) },
            ),
            CommandView::SetTabIndexInWindow { tab_id, index } => self.with_tab(
                tab_id,
                TabView { relative_index: index, ..self.tab(tab_id) },
            ),
            CommandView::UpdateTabNavigation { tab_id, history_index, url, title } => self.with_tab(
                tab_id,
                TabView {
                    histories: upsert(
                        self.tab(tab_id).histories,
                        NavigationEntryView { history_index, url, title },
                    ),
                    ..self.tab(tab_id)
                },
            ),
            CommandView::SetSelectedNavigationIndex { tab_id, history_index } => self.with_tab(
                tab_id,
                TabView { current_history_index: history_index, ..self.tab(tab_id) },
            ),
            CommandView::SetSelectedTabInIndex { window_id, active_tab_index } => self.with_window(
                window_id,
                Window { active_tab_index, ..self.window(window_id) },
            ),
            CommandView::SetActiveWindow { window_id } => self.with_window(
                window_id,
                Window { active: true, ..self.window(window_id) },
            ),
            CommandView::LastActiveTime => self,
            CommandView::SetTabGroup { tab_id, high, low } => self.with_tab(
                tab_id,
                TabView {
                    group: if self.groups.contains_key((high, low)) {
                        Some(self.groups[(high, low)])
                    } else {
                        None
                    },
                    ..self.tab(tab_id)
                },
            ),
            CommandView::SetTabGroupMetadata2 { high, low, name } => self.with_group(
                TabGroupView { name, ..self.group(high, low) },
            ),
            CommandView::TabClosed { tab_id } => self.with_tab(
                tab_id,
                TabView { deleted: true, ..self.tab(tab_id) },
            ),
            CommandView::WindowClosed { window_id } => self.with_window(
                window_id,
                Window { deleted: true, ..self.window(window_id) },
            ),
        }
    }

    /// The state after the commands `cs`, in their order.
    pub open spec fn apply_all(self, cs: Seq<CommandView>) -> StateView
        decreases cs.len(),
    {
        if cs.len() == 0 {
            self
        } else {
            self.apply(cs[0]).apply_all(cs.skip(1))
        }
    }

    /// What holds of every state that a replay reaches: no tab has two
    /// entries with one history index, and every group is stored under its
    /// own identifier.
    pub open spec fn wf(self) -> bool {
        &&& forall|id: u32| #[trigger]
            self.tabs.contains_key(id) ==> distinct_indices(self.tabs[id].histories)
        &&& forall|k: (u64, u64)| #[trigger]
            self.groups.contains_key(k) ==> self.groups[k].high == k.0 && self.groups[k].low == k.1
    }
}

/// Every command keeps a state well formed.
pub proof fn lemma_apply_keeps_wf(s: StateView, c: CommandView)
    requires
        s.wf(),
    ensures
        s.apply(c).wf(),
{
    reveal(StateView::apply);
    match c {
        CommandView::UpdateTabNavigation { tab_id, history_index, url, title } => {
            lemma_upsert_keeps_distinct(
                s.tab(tab_id).histories,
                NavigationEntryView { history_index, url, title },
            );
        },
        _ => {},
    }
}

/// A tab or a window that is closed stays closed, whatever command follows.
pub proof fn lemma_closed_stays_closed(s: StateView, c: CommandView, id: u32)
    ensures
        s.tabs.contains_key(id) && s.tabs[id].deleted ==> s.apply(c).tabs.contains_key(id)
            && s.apply(c).tabs[id].deleted,
        s.windows.contains_key(id) && s.windows[id].deleted ==> s.apply(c).windows.contains_key(id)
            && s.apply(c).windows[id].deleted,
{
    reveal(StateView::apply);
}

/// A command never removes a tab, a window or a group from the state.
pub proof fn lemma_apply_keeps_identifiers(s: StateView, c: CommandView)
    ensures
        s.tabs.dom().subset_of(s.apply(c).tabs.dom()),
        s.windows.dom().subset_of(s.apply(c).windows.dom()),
        s.groups.dom().subset_of(s.apply(c).groups.dom()),
{
    reveal(StateView::apply);
}

/// The tab `tab_id` of `tabs`, made first where `tabs` holds none under that
/// identifier. What the caller writes through the result is what `tabs` then
/// holds for `tab_id`.
pub fn get_tab(tabs: &mut HashMap<u32, Tab>, tab_id: u32) -> (tab: &mut Tab)
    ensures
        old(tabs)@.contains_key(tab_id) ==> *tab == old(tabs)@[tab_id],
        !old(tabs)@.contains_key(tab_id) ==> tab@ == TabView::fresh(),
        final(tabs)@ == old(tabs)@.insert(tab_id, *final(tab)),
{
    let fresh = Tab {
        relative_index: 0,
        window_id: 0,
        current_history_index: 0,
        deleted: false,
        group: None,
        histories: Vec::new(),
    };
    assert(fresh@.histories =~= Seq::empty());
    tabs.entry(tab_id).or_insert(fresh)
}

/// The window `window_id` of `windows`, made first where `windows` holds none
/// under that identifier.
pub fn get_window(windows: &mut HashMap<u32, Window>, window_id: u32) -> (window: &mut Window)
    ensures
        old(windows)@.contains_key(window_id) ==> *window == old(windows)@[window_id],
        !old(windows)@.contains_key(window_id) ==> *window == Window::fresh(),
        final(windows)@ == old(windows)@.insert(window_id, *final(window)),
{
    windows.entry(window_id).or_insert(Window { active_tab_index: 0, active: false, deleted: false })
}

/// The group `(high, low)` of `groups`, made first, without a name, where
/// `groups` holds none under that identifier's key.
pub fn get_group(groups: &mut HashMap<u128, TabGroup>, high: u64, low: u64) -> (group: &mut TabGroup)
    ensures
        old(groups)@.contains_key(group_key(high, low)) ==> *group == old(groups)@[group_key(
            high,
            low,
        )],
        !old(groups)@.contains_key(group_key(high, low)) ==> group@ == TabGroupView::fresh(
            high,
            low,
        ),
        final(groups)@ == old(groups)@.insert(group_key(high, low), *final(group)),
{
    let key = group_key_of(high, low);
    groups.entry(key).or_insert(TabGroup { high, low, name: String::new() })
}

/// The place of the first entry of `histories` with the history index
/// `index`.
pub fn find_history(histories: &Vec<NavigationEntry>, index: u32) -> (r: Option<usize>)
    ensures
        match r {
            Some(i) => i < histories@.len() && find_entry(entries_view(histories@), index) == Some(
                i as int,
            ),
            None => find_entry(entries_view(histories@), index) is None,
        },
{
    let ghost h = entries_view(histories@);
    let mut i: usize = 0;
    while i < histories.len()
        invariant
            i <= histories@.len(),
            h == entries_view(histories@),
            forall|j: int| 0 <= j < i ==> (#[trigger] h[j]).history_index != index,
        decreases histories@.len() - i,
    {
        if histories[i].history_index == index {
            proof {
                assert(h[i as int].history_index == index);
                assert(is_first_entry(h, index, i as int));
                lemma_find_entry(h, index);
            }
            return Some(i);
        }
        i = i + 1;
    }
    proof {
        lemma_find_entry(h, index);
    }
    None
}

/// Records `entry` in `histories`: see `upsert`.
pub fn upsert_history(histories: &mut Vec<NavigationEntry>, entry: NavigationEntry)
    ensures
        entries_view(final(histories)@) == upsert(entries_view(old(histories)@), entry@),
{
    let ghost before = entries_view(histories@);
    let ghost e = entry@;
    match find_history(histories, entry.history_index) {
        Some(i) => {
            assert(find_entry(before, e.history_index) == Some(i as int));
            histories[i] = entry;
            assert(entries_view(histories@) =~= before.update(i as int, e));
        },
        None => {
            assert(find_entry(before, e.history_index) is None);
            histories.push(entry);
            assert(entries_view(histories@) =~= before.push(e));
        },
    }
}

/// The state of a replay: what the commands read so far have made of the
/// windows, tabs and groups that they named.
pub struct ReplayState {
    windows: HashMap<u32, Window>,
    tabs: HashMap<u32, Tab>,
    groups: HashMap<u128, TabGroup>,
}

impl View for ReplayState {
    type V = StateView;

    closed spec fn view(&self) -> StateView {
        StateView {
            windows: self.windows@,
            tabs: Map::new(|id: u32| self.tabs@.contains_key(id), |id: u32| self.tabs@[id]@),
            groups: Map::new(
                |k: (u64, u64)| self.groups@.contains_key(group_key(k.0, k.1)),
                |k: (u64, u64)| self.groups@[group_key(k.0, k.1)]@,
            ),
        }
    }
}

impl ReplayState {
    /// Every group is stored under the key of its own identifier, and the
    /// state is well formed as a mathematical value.
    pub closed spec fn wf(&self) -> bool {
        &&& forall|k: u128| #[trigger]
            self.groups@.contains_key(k) ==> k == group_key(
                self.groups@[k].high,
                self.groups@[k].low,
            )
        &&& self@.wf()
    }

    /// A well-formed state has a well-formed view.
    pub proof fn lemma_wf_view(&self)
        requires
            self.wf(),
        ensures
            self@.wf(),
    {
    }

    /// The state before any command.
    pub fn new() -> (s: ReplayState)
        ensures
            s.wf(),
            s@ == StateView::empty(),
    {
        let s = ReplayState { windows: HashMap::new(), tabs: HashMap::new(), groups: HashMap::new() };
        assert(s@ =~= StateView::empty());
        s
    }

    /// Applies one command: see `StateView::apply`.
    pub fn apply(&mut self, cmd: Command)
        requires
            old(self).wf(),
        ensures
            final(self).wf(),
            final(self)@ == old(self)@.apply(cmd@),
    {
        let ghost before = self@;
        let ghost c = cmd@;
        proof {
            reveal(StateView::apply);
            lemma_apply_keeps_wf(before, c);
        }
        match cmd {
            Command::SetTabWindow { window_id, tab_id } => {
                let tab = get_tab(&mut self.tabs, tab_id);
                tab.window_id = window_id;
            },
            Command::SetTabIndexInWindow { tab_id, index } => {
                let tab = get_tab(&mut self.tabs, tab_id);
                tab.relative_index = index;
            },
            Command::UpdateTabNavigation { tab_id, history_index, url, title } => {
                let tab = get_tab(&mut self.tabs, tab_id);
                upsert_history(&mut tab.histories, NavigationEntry { history_index, url, title });
            },
            Command::SetSelectedNavigationIndex { tab_id, history_index } => {
                let tab = get_tab(&mut self.tabs, tab_id);
                tab.current_history_index = history_index;
            },
            Command::SetSelectedTabInIndex { window_id, active_tab_index } => {
                let window = get_window(&mut self.windows, window_id);
                window.active_tab_index = active_tab_index;
            },
            Command::SetActiveWindow { window_id } => {
                let window = get_window(&mut self.windows, window_id);
                window.active = true;
            },
            Command::LastActiveTime => {},
            Command::SetTabGroup { tab_id, high, low } => {
                let key = group_key_of(high, low);
                let group = match self.groups.get(&key) {
                    Some(g) => Some(g.snapshot()),
                    None => None,
                };
                let tab = get_tab(&mut self.tabs, tab_id);
                tab.group = group;
            },
            Command::SetTabGroupMetadata2 { high, low, name } => {
                let group = get_group(&mut self.groups, high, low);
                group.name = name;
                proof {
                    assert forall|k: (u64, u64)| k != (high, low) implies group_key(k.0, k.1)
                        != group_key(high, low) by {
                        lemma_group_key_is_injective(k.0, k.1, high, low);
                    }
                }
            },
            Command::TabClosed { tab_id } => {
                let tab = get_tab(&mut self.tabs, tab_id);
                tab.deleted = true;
            },
            Command::WindowClosed { window_id } => {
                let window = get_window(&mut self.windows, window_id);
                window.deleted = true;
            },
        }
        assert(self@ =~= before.apply(c));
    }

    /// The active window: see `StateView::active_window`.
    pub fn active_window(&self) -> (r: Option<u32>)
        ensures
            r == self@.active_window(),
    {
        let ghost p = self@.live_active_windows();
        let mut best: Option<u32> = None;
        for k in it: self.windows.keys()
            invariant
                p == self@.live_active_windows(),
                match best {
                    Some(b) => p(b) && forall|i: int|
                        0 <= i < it.index() && p(*it.seq()[i]) ==> b <= *it.seq()[i],
                    None => forall|i: int| 0 <= i < it.index() ==> !p(*it.seq()[i]),
                },
        {
            let live = match self.windows.get(k) {
                Some(w) => w.active && !w.deleted,
                None => false,
            };
            if live {
                best = match best {
                    Some(b) => if *k < b {
                        Some(*k)
                    } else {
                        Some(b)
                    },
                    None => Some(*k),
                };
            }
        }
        proof {
            match best {
                Some(b) => {
                    assert(is_least(p, b));
                    lemma_least_is(p, b);
                },
                None => {
                    assert forall|j: u32| !#[trigger] p(j) by {}
                },
            }
        }
        best
    }

    /// The places of the open tabs of the window `window_id`, in order: by
    /// their indices in the window, tabs of one index by their identifiers.
    pub fn window_tabs(&self, window_id: u32) -> (places: Vec<TabPlace>)
        ensures
            self@.is_tab_order(window_id, places@),
    {
        let mut places: Vec<TabPlace> = Vec::new();
        let ghost keys = spec_keys_iter(&self.tabs).remaining();
        proof {
            assert(keys.unref().to_set() == self.tabs@.dom());
            assert forall|i: int| 0 <= i < keys.len() implies self.tabs@.contains_key(
                *keys[i],
            ) by {
                assert(keys.unref()[i] == *keys[i]);
                assert(keys.unref().to_set().contains(keys.unref()[i]));
            }
            assert forall|id: u32| self.tabs@.contains_key(id) implies exists|i: int|
                0 <= i < keys.len() && *keys[i] == id by {
                assert(keys.unref().to_set().contains(id));
                let i = choose|i: int| 0 <= i < keys.unref().len() && keys.unref()[i] == id;
                assert(*keys[i] == id);
            }
        }
        for k in it: self.tabs.keys()
            invariant
                it.seq() == keys,
                keys.no_duplicates(),
                forall|i: int| 0 <= i < keys.len() ==> self.tabs@.contains_key(*keys[i]),
                forall|id: u32|
                    self.tabs@.contains_key(id) ==> exists|i: int|
                        0 <= i < keys.len() && *keys[i] == id,
                in_order(places@),
                forall|place: TabPlace|
                    places@.contains(place) <==> self@.is_place_in(window_id, place) && exists|
                        i: int,
                    | 0 <= i < it.index() && *it.seq()[i] == place.1,
        {
            let ghost before = places@;
            let ghost at = it.index();
            let ghost seen = |id: u32| exists|i: int| 0 <= i < at && *it.seq()[i] == id;
            let place = match self.tabs.get(k) {
                Some(t) => if !t.deleted && t.window_id == window_id {
                    Some((t.relative_index, *k))
                } else {
                    None
                },
                None => None,
            };
            match place {
                Some(place) => {
                    assert(!seen(place.1));
                    assert(!before.contains(place));
                    insert_place(&mut places, place);
                },
                None => {},
            }
            proof {
                assert forall|q: TabPlace|
                    places@.contains(q) <==> self@.is_place_in(window_id, q) && exists|i: int|
                        0 <= i < at + 1 && *it.seq()[i] == q.1 by {
                    let seen_next = exists|i: int| 0 <= i < at + 1 && *it.seq()[i] == q.1;
                    assert(seen_next <==> seen(q.1) || q.1 == *k) by {
                        if seen(q.1) {
                            let i = choose|i: int| 0 <= i < at && *it.seq()[i] == q.1;
                            assert(0 <= i < at + 1 && *it.seq()[i] == q.1);
                        }
                        if q.1 == *k {
                            assert(*it.seq()[at] == q.1);
                        }
                    }
                }
            }
        }
        proof {
            assert forall|q: TabPlace| self@.is_place_in(window_id, q) implies places@.contains(
                q,
            ) by {
                assert(self.tabs@.contains_key(q.1));
            }
        }
        places
    }

    /// The least open tab of the window `window_id` that stands at `index`
    /// in it: the first at that index in the order of the window's tabs.
    pub fn tab_at(&self, window_id: u32, index: u32) -> (r: Option<u32>)
        ensures
            r == least(self@.live_tabs_at(window_id, index)),
    {
        let places = self.window_tabs(window_id);
        let mut i: usize = 0;
        while i < places.len()
            invariant
                i <= places@.len(),
                self@.is_tab_order(window_id, places@),
                forall|j: int| 0 <= j < i ==> places@[j].0 != index,
            decreases places@.len() - i,
        {
            if places[i].0 == index {
                proof {
                    lemma_first_at_index_is_least(self@, window_id, places@, index, i as int);
                }
                return Some(places[i].1);
            }
            i = i + 1;
        }
        proof {
            lemma_none_at_index(self@, window_id, places@, index);
        }
        None
    }

    /// The active tab: see `StateView::active_tab`.
    pub fn active_tab(&self) -> (r: Option<u32>)
        ensures
            r == self@.active_tab(),
    {
        let w = self.active_window()?;
        proof {
            lemma_least_exists(self@.live_active_windows());
        }
        match self.windows.get(&w) {
            Some(window) => self.tab_at(w, window.active_tab_index),
            None => None,
        }
    }

    /// The location that the state shows: see `StateView::active_url`.
    pub fn active_url(&self) -> (r: Option<String>)
        ensures
            match self@.active_url() {
                Some(url) => r is Some && r->0@ == url,
                None => r is None,
            },
    {
        let t = self.active_tab()?;
        proof {
            match self@.active_window() {
                Some(w) => lemma_least_exists(
                    self@.live_tabs_at(w, self@.windows[w].active_tab_index),
                ),
                None => {},
            }
        }
        let tab = self.tabs.get(&t)?;
        let i = find_history(&tab.histories, tab.current_history_index)?;
        Some(tab.histories[i].url.clone())
    }

    /// The tab `id`, if the state holds one.
    pub fn tab(&self, id: u32) -> (r: Option<&Tab>)
        ensures
            match r {
                Some(t) => self@.tabs.contains_key(id) && t@ == self@.tabs[id],
                None => !self@.tabs.contains_key(id),
            },
    {
        self.tabs.get(&id)
    }

    /// The window `id`, if the state holds one.
    pub fn window(&self, id: u32) -> (r: Option<&Window>)
        ensures
            match r {
                Some(w) => self@.windows.contains_key(id) && *w == self@.windows[id],
                None => !self@.windows.contains_key(id),
            },
    {
        self.windows.get(&id)
    }

    /// The group `(high, low)`, if the state holds one.
    pub fn group(&self, high: u64, low: u64) -> (r: Option<&TabGroup>)
        ensures
            match r {
                Some(g) => self@.groups.contains_key((high, low)) && g@ == self@.groups[(high, low)],
                None => !self@.groups.contains_key((high, low)),
            },
    {
        let key = group_key_of(high, low);
        self.groups.get(&key)
    }
}

/// Puts `place` in its place in `places`, which are in order and do not
/// hold it.
pub fn insert_place(places: &mut Vec<TabPlace>, place: TabPlace)
    requires
        in_order(old(places)@),
        !old(places)@.contains(place),
    ensures
        in_order(final(places)@),
        forall|q: TabPlace| final(places)@.contains(q) <==> old(places)@.contains(q) || q == place,
{
    let ghost before = places@;
    let mut at: usize = 0;
    while at < places.len() && (places[at].0 < place.0 || (places[at].0 == place.0 && places[at].1
        < place.1))
        invariant
            at <= places@.len(),
            places@ == before,
            forall|j: int| 0 <= j < at ==> place_before(before[j], place),
        decreases places@.len() - at,
    {
        at = at + 1;
    }
    proof {
        if at < before.len() {
            assert(before.contains(before[at as int]));
            assert(place_before(place, before[at as int]));
        }
    }
    places.insert(at, place);
    proof {
        let after = places@;
        assert(after =~= before.insert(at as int, place));
        assert forall|i: int, j: int| 0 <= i < j < after.len() implies place_before(
            after[i],
            after[j],
        ) by {
            if j == at {
                assert(after[i] == before[i]);
            } else if i == at {
                assert(after[j] == before[j - 1]);
                assert(at <= j - 1);
                if at < j - 1 {
                    assert(place_before(before[at as int], before[j - 1]));
                }
            } else {
                let bi = if i < at { i } else { i - 1 };
                let bj = if j < at { j } else { j - 1 };
                assert(after[i] == before[bi] && after[j] == before[bj]);
            }
        }
        assert forall|q: TabPlace| after.contains(q) <==> before.contains(q) || q == place by {
            if after.contains(q) {
                let i = choose|i: int| 0 <= i < after.len() && after[i] == q;
                if i < at {
                    assert(before[i] == q);
                } else if i > at {
                    assert(before[i - 1] == q);
                }
            }
            if before.contains(q) {
                let i = choose|i: int| 0 <= i < before.len() && before[i] == q;
                if i < at {
                    assert(after[i] == q);
                } else {
                    assert(after[i + 1] == q);
                }
            }
            if q == place {
                assert(after[at as int] == q);
            }
        }
    }
}

} // verus!
