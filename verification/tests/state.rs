use std::collections::HashMap;

use screen_inspector::command::Command;
use screen_inspector::state::{
    find_history, get_group, get_tab, get_window, group_key_of, insert_place, upsert_history,
    NavigationEntry, ReplayState, Tab, TabGroup, Window,
};

fn entry(index: u32, url: &str) -> NavigationEntry {
    NavigationEntry { history_index: index, url: url.to_string(), title: String::new() }
}

#[test]
fn tabs_are_made_on_first_use() {
    let mut tabs: HashMap<u32, Tab> = HashMap::new();
    {
        let tab = get_tab(&mut tabs, 3);
        assert_eq!(
            (tab.relative_index, tab.window_id, tab.current_history_index, tab.deleted),
            (0, 0, 0, false)
        );
        assert!(tab.group.is_none() && tab.histories.is_empty());
        tab.window_id = 9;
    }
    get_tab(&mut tabs, 3).deleted = true;
    get_tab(&mut tabs, 4);
    assert_eq!(tabs.len(), 2);
    assert_eq!((tabs[&3].window_id, tabs[&3].deleted), (9, true));
    assert_eq!((tabs[&4].window_id, tabs[&4].deleted), (0, false));
}

#[test]
fn windows_are_made_on_first_use() {
    let mut windows: HashMap<u32, Window> = HashMap::new();
    assert_eq!(*get_window(&mut windows, 1), Window { active_tab_index: 0, active: false, deleted: false });
    get_window(&mut windows, 1).active = true;
    get_window(&mut windows, 1).active_tab_index = 5;
    assert_eq!(windows.len(), 1);
    assert_eq!(windows[&1], Window { active_tab_index: 5, active: true, deleted: false });
}

#[test]
fn groups_are_made_on_first_use() {
    let mut groups: HashMap<u128, TabGroup> = HashMap::new();
    {
        let group = get_group(&mut groups, 1, 2);
        assert_eq!((group.high, group.low, group.name.as_str()), (1, 2, ""));
        group.name = "n".to_string();
    }
    get_group(&mut groups, 2, 1);
    assert_eq!(groups.len(), 2);
    assert_eq!(groups[&group_key_of(1, 2)].name, "n");
    assert_eq!(group_key_of(1, 2), (1u128 << 64) + 2);
    assert_eq!(group_key_of(0, 0), 0);
    assert_eq!(group_key_of(u64::MAX, u64::MAX), u128::MAX);
    assert_ne!(group_key_of(1, 2), group_key_of(2, 1));
}

#[test]
fn histories_keep_one_entry_for_an_index() {
    let mut histories = Vec::new();
    upsert_history(&mut histories, entry(4, "a"));
    upsert_history(&mut histories, entry(2, "b"));
    upsert_history(&mut histories, entry(4, "c"));
    let seen: Vec<(u32, &str)> =
        histories.iter().map(|e| (e.history_index, e.url.as_str())).collect();
    assert_eq!(seen, vec![(4, "c"), (2, "b")]);
    assert_eq!(find_history(&histories, 2), Some(1));
    assert_eq!(find_history(&histories, 4), Some(0));
    assert_eq!(find_history(&histories, 0), None);
}

#[test]
fn places_go_where_they_belong() {
    let mut places = Vec::new();
    for place in [(2, 5), (0, 9), (2, 3), (1, 1), (3, 0), (0, 1)] {
        insert_place(&mut places, place);
    }
    assert_eq!(places, vec![(0, 1), (0, 9), (1, 1), (2, 3), (2, 5), (3, 0)]);
}

#[test]
fn commands_change_the_state() {
    let mut state = ReplayState::new();
    assert!(state.tab(1).is_none() && state.window(1).is_none() && state.group(1, 1).is_none());
    assert_eq!(state.active_url(), None);
    state.apply(Command::LastActiveTime);
    assert!(state.tab(1).is_none() && state.window(1).is_none());
    state.apply(Command::SetSelectedTabInIndex { window_id: 1, active_tab_index: 3 });
    state.apply(Command::SetActiveWindow { window_id: 1 });
    assert_eq!(*state.window(1).unwrap(), Window { active_tab_index: 3, active: true, deleted: false });
    state.apply(Command::SetTabIndexInWindow { tab_id: 8, index: 3 });
    state.apply(Command::SetTabWindow { window_id: 1, tab_id: 8 });
    state.apply(Command::SetSelectedNavigationIndex { tab_id: 8, history_index: 2 });
    state.apply(Command::UpdateTabNavigation {
        tab_id: 8,
        history_index: 1,
        url: "one".to_string(),
        title: "1".to_string(),
    });
    assert_eq!(state.active_tab(), Some(8));
    assert_eq!(state.active_url(), None);
    state.apply(Command::UpdateTabNavigation {
        tab_id: 8,
        history_index: 2,
        url: "two".to_string(),
        title: "2".to_string(),
    });
    assert_eq!(state.active_url(), Some("two".to_string()));
    state.apply(Command::WindowClosed { window_id: 1 });
    assert_eq!(state.active_window(), None);
    assert_eq!(state.active_url(), None);
    assert!(state.window(1).unwrap().deleted);
    state.apply(Command::SetActiveWindow { window_id: 1 });
    assert!(state.window(1).unwrap().deleted);
    state.apply(Command::TabClosed { tab_id: 8 });
    state.apply(Command::SetTabWindow { window_id: 2, tab_id: 8 });
    let tab = state.tab(8).unwrap();
    assert!(tab.deleted);
    assert_eq!((tab.window_id, tab.relative_index, tab.current_history_index), (2, 3, 2));
}
