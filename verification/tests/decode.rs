use screen_inspector::command::{decode_command, Command, SSNSCommand};
use screen_inspector::snss::{decode, read_header, read_record, replay_log, replay_records};
use screen_inspector::state::ReplayState;
use screen_inspector::cursor::Cursor;

fn header(version: u32) -> Vec<u8> {
    let mut log = b"SNSS".to_vec();
    log.extend_from_slice(&version.to_le_bytes());
    log
}

fn record(log: &mut Vec<u8>, type_id: u8, payload: &[u8]) {
    log.extend_from_slice(&((payload.len() + 1) as u16).to_le_bytes());
    log.push(type_id);
    log.extend_from_slice(payload);
}

fn u32s(values: &[u32]) -> Vec<u8> {
    let mut out = Vec::new();
    for v in values {
        out.extend_from_slice(&v.to_le_bytes());
    }
    out
}

fn string8(text: &str) -> Vec<u8> {
    let mut out = (text.len() as u32).to_le_bytes().to_vec();
    out.extend_from_slice(text.as_bytes());
    while out.len() % 4 != 0 {
        out.push(0);
    }
    out
}

fn string16(text: &str) -> Vec<u8> {
    let units: Vec<u16> = text.encode_utf16().collect();
    let mut out = (units.len() as u32).to_le_bytes().to_vec();
    for u in units {
        out.extend_from_slice(&u.to_le_bytes());
    }
    while out.len() % 4 != 0 {
        out.push(0);
    }
    out
}

fn navigation(tab: u32, index: u32, url: &str, title: &str) -> Vec<u8> {
    let mut p = u32s(&[0, tab, index]);
    p.extend_from_slice(&string8(url));
    p.extend_from_slice(&string16(title));
    p
}

fn one_tab_log() -> Vec<u8> {
    let mut log = header(1);
    record(&mut log, 20, &u32s(&[1]));
    record(&mut log, 0, &u32s(&[1, 10]));
    record(&mut log, 2, &u32s(&[10, 0]));
    record(&mut log, 8, &u32s(&[1, 0]));
    record(&mut log, 6, &navigation(10, 0, "https://a.example", "A"));
    record(&mut log, 7, &u32s(&[10, 0]));
    log
}

#[test]
fn empty_log_shows_nothing() {
    assert_eq!(decode(&header(1)), None);
}

#[test]
fn one_window_one_tab() {
    assert_eq!(decode(&one_tab_log()), Some("https://a.example".to_string()));
}

#[test]
fn closed_tab_shows_nothing() {
    let mut log = one_tab_log();
    record(&mut log, 16, &u32s(&[10]));
    assert_eq!(decode(&log), None);
}

#[test]
fn later_navigation_overwrites() {
    let mut log = one_tab_log();
    record(&mut log, 6, &navigation(10, 0, "https://b.example", "B"));
    assert_eq!(decode(&log), Some("https://b.example".to_string()));
    let session = replay_log(&log).unwrap();
    let tab = session.state.tab(10).unwrap();
    assert_eq!(tab.histories.len(), 1);
    assert_eq!(tab.histories[0].history_index, 0);
    assert_eq!(tab.histories[0].url, "https://b.example");
    assert_eq!(tab.histories[0].title, "B");
}

#[test]
fn decode_twice_gives_the_same() {
    let log = one_tab_log();
    assert_eq!(decode(&log), decode(&log));
}

#[test]
fn unknown_records_change_nothing() {
    let mut log = header(3);
    record(&mut log, 99, &[1, 2, 3]);
    record(&mut log, 20, &u32s(&[1]));
    record(&mut log, 1, &[]);
    record(&mut log, 0, &u32s(&[1, 10]));
    record(&mut log, 2, &u32s(&[10, 0]));
    record(&mut log, 200, &[0; 40]);
    record(&mut log, 8, &u32s(&[1, 0]));
    record(&mut log, 6, &navigation(10, 0, "https://a.example", "A"));
    record(&mut log, 7, &u32s(&[10, 0]));
    record(&mut log, 5, &[9]);
    assert_eq!(decode(&log), decode(&one_tab_log()));
    assert_eq!(decode(&log), Some("https://a.example".to_string()));
}

#[test]
fn every_truncation_is_harmless() {
    let log = one_tab_log();
    for cut in 0..=log.len() {
        let _ = decode(&log[..cut]);
    }
    // Without its last record the log still shows the entry: a fresh tab's
    // current history index is 0.
    assert_eq!(decode(&log[..log.len() - 1]), Some("https://a.example".to_string()));
    // Without the whole navigation record there is no entry to show.
    assert_eq!(decode(&log[..log.len() - 12]), None);
    assert_eq!(decode(&log[..7]), None);
}

#[test]
fn wrong_magic_is_no_log() {
    let mut log = one_tab_log();
    log[0] = b'X';
    assert_eq!(decode(&log), None);
    assert!(replay_log(&log).is_none());
}

#[test]
fn version_is_kept() {
    assert_eq!(replay_log(&header(3)).unwrap().version, 3);
    assert_eq!(replay_log(&header(77)).unwrap().version, 77);
    let mut cur = Cursor::new(b"SNSS\x01\x00\x00\x00rest");
    assert_eq!(read_header(&mut cur), Some(1));
    assert_eq!(cur.remaining(), 4);
}

#[test]
fn zero_size_ends_the_replay() {
    let mut log = one_tab_log();
    log.extend_from_slice(&[0, 0, 16]);
    record(&mut log, 16, &u32s(&[10]));
    assert_eq!(decode(&log), Some("https://a.example".to_string()));
}

#[test]
fn short_payload_ends_the_replay() {
    let mut log = one_tab_log();
    record(&mut log, 16, &[10, 0]);
    record(&mut log, 16, &u32s(&[10]));
    assert_eq!(decode(&log), Some("https://a.example".to_string()));
}

#[test]
fn least_active_window_wins() {
    let mut log = header(1);
    for (window, tab, url) in [(7u32, 70u32, "https://seven.example"), (3, 30, "https://three.example")] {
        record(&mut log, 20, &u32s(&[window]));
        record(&mut log, 0, &u32s(&[window, tab]));
        record(&mut log, 6, &navigation(tab, 0, url, ""));
    }
    assert_eq!(decode(&log), Some("https://three.example".to_string()));
    let session = replay_log(&log).unwrap();
    assert_eq!(session.state.active_window(), Some(3));
    assert_eq!(session.state.active_tab(), Some(30));
    record(&mut log, 17, &u32s(&[3]));
    assert_eq!(decode(&log), Some("https://seven.example".to_string()));
}

#[test]
fn least_tab_at_the_active_index_wins() {
    let mut log = header(1);
    record(&mut log, 20, &u32s(&[1]));
    record(&mut log, 8, &u32s(&[1, 2]));
    for (tab, url) in [(12u32, "https://twelve.example"), (11, "https://eleven.example"), (13, "https://other.example")] {
        record(&mut log, 0, &u32s(&[1, tab]));
        record(&mut log, 2, &u32s(&[tab, if tab == 13 { 1 } else { 2 }]));
        record(&mut log, 6, &navigation(tab, 0, url, ""));
    }
    assert_eq!(decode(&log), Some("https://eleven.example".to_string()));
}

#[test]
fn group_is_copied_when_the_tab_joins() {
    let mut log = header(1);
    let mut id = 5u64.to_le_bytes().to_vec();
    id.extend_from_slice(&6u64.to_le_bytes());
    let mut join = u32s(&[10, 0]);
    join.extend_from_slice(&id);
    let mut name = u32s(&[0]);
    name.extend_from_slice(&id);
    let mut renamed = name.clone();
    name.extend_from_slice(&string16("work"));
    renamed.extend_from_slice(&string16("play"));
    record(&mut log, 25, &join);
    assert!(replay_log(&log).unwrap().state.tab(10).unwrap().group.is_none());
    assert!(replay_log(&log).unwrap().state.group(5, 6).is_none());
    record(&mut log, 27, &name);
    record(&mut log, 25, &join);
    record(&mut log, 27, &renamed);
    let session = replay_log(&log).unwrap();
    let group = session.state.tab(10).unwrap().group.as_ref().unwrap();
    assert_eq!((group.high, group.low, group.name.as_str()), (5, 6, "work"));
    assert_eq!(session.state.group(5, 6).unwrap().name, "play");
    assert!(session.state.group(6, 5).is_none());
}

#[test]
fn records_are_read_one_by_one() {
    let mut log = Vec::new();
    record(&mut log, 16, &u32s(&[10]));
    record(&mut log, 99, &[]);
    let mut cur = Cursor::new(&log);
    assert_eq!(read_record(&mut cur), Some((16, vec![10, 0, 0, 0])));
    assert_eq!(read_record(&mut cur), Some((99, vec![])));
    assert_eq!(read_record(&mut cur), None);
}

#[test]
fn command_fields() {
    assert!(matches!(
        decode_command(SSNSCommand::SetTabWindow, &u32s(&[1, 10])),
        Some(Command::SetTabWindow { window_id: 1, tab_id: 10 })
    ));
    assert!(matches!(decode_command(SSNSCommand::LastActiveTime, &[]), Some(Command::LastActiveTime)));
    assert!(decode_command(SSNSCommand::SetTabWindow, &u32s(&[1])).is_none());
    match decode_command(SSNSCommand::UpdateTabNavigation, &navigation(4, 9, "caf\u{e9}", "\u{1F600}x")) {
        Some(Command::UpdateTabNavigation { tab_id, history_index, url, title }) => {
            assert_eq!((tab_id, history_index), (4, 9));
            assert_eq!(url, "caf\u{e9}");
            assert_eq!(title, "\u{1F600}x");
        }
        _ => panic!("not a navigation"),
    }
}

#[test]
fn window_tabs_are_in_order() {
    let mut log = header(1);
    for (tab, window, index) in [(5u32, 1u32, 2u32), (9, 1, 0), (3, 1, 2), (4, 2, 0), (8, 1, 1), (7, 1, 0)] {
        record(&mut log, 0, &u32s(&[window, tab]));
        record(&mut log, 2, &u32s(&[tab, index]));
    }
    record(&mut log, 16, &u32s(&[7]));
    let session = replay_log(&log).unwrap();
    assert_eq!(session.state.window_tabs(1), vec![(0, 9), (1, 8), (2, 3), (2, 5)]);
    assert_eq!(session.state.window_tabs(2), vec![(0, 4)]);
    assert_eq!(session.state.window_tabs(3), vec![]);
    assert_eq!(session.state.tab_at(1, 2), Some(3));
    assert_eq!(session.state.tab_at(1, 0), Some(9));
    assert_eq!(session.state.tab_at(1, 3), None);
}

#[test]
fn replay_stops_where_it_must() {
    let mut log = Vec::new();
    record(&mut log, 16, &u32s(&[10]));
    record(&mut log, 77, &[1]);
    record(&mut log, 16, &[1, 2]);
    record(&mut log, 16, &u32s(&[11]));
    let mut cur = Cursor::new(&log);
    let mut state = ReplayState::new();
    replay_records(&mut cur, &mut state);
    assert_eq!(cur.remaining(), 7);
    assert!(state.tab(10).unwrap().deleted);
    assert!(state.tab(11).is_none());

    let mut whole = Vec::new();
    record(&mut whole, 16, &u32s(&[10]));
    whole.extend_from_slice(&[9, 0, 16, 1]);
    let mut cur = Cursor::new(&whole);
    let mut state = ReplayState::new();
    replay_records(&mut cur, &mut state);
    assert_eq!(cur.remaining(), 4);
}
