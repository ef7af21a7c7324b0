use screen_inspector::afk::{metric_body, AFKSettings, AFKState, AFKTracker, AFKWatcher};
use screen_inspector::browser::{
    get_browser_active_tab_url, get_current_active_session_file, get_current_window_information,
    get_session_folder_path, is_session_file, profile_needed, Found, Lookup, Platform, SessionFile,
};
use screen_inspector::text::{contains, matches_at, starts_with, to_chars};
use screen_inspector::types::{class_browser, Browser, WindowInformation};
use screen_inspector::number::{parse_i32, parse_i64, to_decimal, Radix};
use screen_inspector::xprop::{parse_window_id, window_id_of_match, WindowIdError};

fn window(classes: &[&str]) -> WindowInformation {
    WindowInformation {
        time: 7,
        title: "t".to_string(),
        class: classes.iter().map(|c| c.to_string()).collect(),
        execpath: "/bin/x".to_string(),
        url: None,
    }
}

fn file(path: &str, modified: u128) -> SessionFile {
    SessionFile { path: path.to_string(), modified }
}

#[test]
fn test_get_session_folder_path() {
    let url = get_session_folder_path(Browser::Chrome, Platform::Linux, "/home/u", None);
    assert!(url.is_some());
    assert!(url.unwrap().ends_with("google-chrome/Default/Sessions"));
    let url = get_session_folder_path(Browser::Chrome, Platform::Windows, "C:\\Users\\u", None);
    assert!(url.unwrap().ends_with("Google\\Chrome\\User Data\\Default\\Sessions"));
    let url = get_session_folder_path(Browser::Chrome, Platform::MacOs, "/Users/u", None);
    assert!(url.unwrap().ends_with("Google/Chrome/Default/Sessions"));
}

#[test]
fn session_folders() {
    let path = |b, p| get_session_folder_path(b, p, "H", None);
    assert_eq!(path(Browser::Chrome, Platform::Linux).unwrap(), "H/.config/google-chrome/Default/Sessions");
    assert_eq!(
        path(Browser::Edge, Platform::Windows).unwrap(),
        "H\\AppData\\Local\\Microsoft\\Edge\\User Data\\Default\\Sessions"
    );
    assert_eq!(path(Browser::Edge, Platform::Linux), None);
    assert_eq!(path(Browser::Opera, Platform::MacOs).unwrap(), "H/Library/Application Support/com.operasoftware.Opera");
    assert_eq!(path(Browser::Brave, Platform::Linux).unwrap(), "H/.config/BraveSoftware/Brave-Browser/Default/Session");
    assert_eq!(path(Browser::Safari, Platform::MacOs).unwrap(), "H/Library/Safari");
    assert_eq!(path(Browser::Safari, Platform::Linux), None);
    assert_eq!(path(Browser::Other, Platform::Linux), None);
    assert_eq!(path(Browser::Chrome, Platform::Other), None);
    assert_eq!(path(Browser::Firefox, Platform::Windows).unwrap(), "H\\AppData\\Roaming\\Mozilla\\Firefox");
    assert_eq!(path(Browser::Firefox, Platform::Linux), None);
    assert_eq!(
        get_session_folder_path(Browser::Firefox, Platform::Linux, "H", Some("abc.default")).unwrap(),
        "H/.mozilla/firefox/abc.default/sessionstore-backups"
    );
    assert!(profile_needed(Browser::Firefox, Platform::Linux));
    assert!(!profile_needed(Browser::Firefox, Platform::MacOs));
    assert!(!profile_needed(Browser::Chrome, Platform::Linux));
}

#[test]
fn session_file_names() {
    assert!(is_session_file("/a/b/Session_123"));
    assert!(is_session_file("Session_"));
    assert!(!is_session_file("/a/Session_1/Tabs_1"));
    assert!(!is_session_file("/a/b/session_123"));
    assert!(!is_session_file("/a/b/Session"));
    assert!(!is_session_file("/a/b/"));
    assert!(!is_session_file(""));
}

#[test]
fn latest_session_file() {
    assert_eq!(get_current_active_session_file(&[]), None);
    let files = [file("a", 5), file("b", 9), file("c", 9), file("d", 1)];
    assert_eq!(get_current_active_session_file(&files), Some(1));
    assert_eq!(get_current_active_session_file(&files[..1]), Some(0));
}

#[test]
fn lookup_goes_step_by_step() {
    let step = |found: &Found| get_browser_active_tab_url(Browser::Chrome, Platform::Linux, "/home/u", None, found);
    match step(&Found::Nothing) {
        Lookup::List(folder) => assert_eq!(folder, "/home/u/.config/google-chrome/Default/Sessions"),
        _ => panic!("no folder"),
    }
    match step(&Found::Files(vec![file("/s/Session_1", 1), file("/s/Session_2", 2)])) {
        Lookup::Read(path) => assert_eq!(path, "/s/Session_2"),
        _ => panic!("no file"),
    }
    assert!(matches!(step(&Found::Files(vec![])), Lookup::Done(None)));
    assert!(matches!(step(&Found::Failed), Lookup::Done(None)));
    assert!(matches!(step(&Found::Contents(b"SNSS\x01\x00\x00\x00".to_vec())), Lookup::Done(None)));
    let mut log = b"SNSS\x01\x00\x00\x00".to_vec();
    log.extend_from_slice(&[5, 0, 20, 1, 0, 0, 0]);
    log.extend_from_slice(&[9, 0, 0, 1, 0, 0, 0, 10, 0, 0, 0]);
    log.extend_from_slice(&[25, 0, 6, 0, 0, 0, 0, 10, 0, 0, 0, 0, 0, 0, 0]);
    log.extend_from_slice(&[3, 0, 0, 0, b'a', b':', b'b', 0, 0, 0, 0, 0]);
    match step(&Found::Contents(log)) {
        Lookup::Done(Some(url)) => assert_eq!(url, "a:b"),
        _ => panic!("no location"),
    }
    assert!(matches!(
        get_browser_active_tab_url(Browser::Other, Platform::Linux, "/home/u", None, &Found::Nothing),
        Lookup::Done(None)
    ));
}

#[test]
fn browser_types() {
    assert_eq!(window(&["google-chrome", "Google-chrome"]).get_browser_type(), Some(Browser::Chrome));
    assert_eq!(window(&["Navigator", "FIREFOX"]).get_browser_type(), Some(Browser::Firefox));
    assert_eq!(window(&["x", "Opera"]).get_browser_type(), Some(Browser::Opera));
    assert_eq!(window(&["Brave-browser"]).get_browser_type(), Some(Browser::Brave));
    assert_eq!(window(&["MSEdge"]).get_browser_type(), Some(Browser::Edge));
    assert_eq!(window(&["xterm", "XTerm"]).get_browser_type(), None);
    assert_eq!(window(&[]).get_browser_type(), None);
    assert_eq!(window(&["firefox", "chrome"]).get_browser_type(), Some(Browser::Firefox));
    assert_eq!(window(&["firefox-chrome"]).get_browser_type(), Some(Browser::Chrome));
    assert_eq!(class_browser("operabrave"), Some(Browser::Opera));
    assert_eq!(class_browser("CHROME"), None);
}

#[test]
fn window_gets_its_location() {
    let out = get_current_window_information(window(&["google-chrome"]), Some("u".to_string()));
    assert_eq!(out.url.as_deref(), Some("u"));
    assert_eq!((out.time, out.title.as_str(), out.execpath.as_str()), (7, "t", "/bin/x"));
    assert_eq!(out.class, vec!["google-chrome".to_string()]);
    let out = get_current_window_information(window(&["google-chrome"]), None);
    assert_eq!(out.url, None);
    let mut plain = window(&["xterm"]);
    plain.url = Some("kept".to_string());
    let out = get_current_window_information(plain, Some("u".to_string()));
    assert_eq!(out.url.as_deref(), Some("kept"));
}

#[test]
fn text_search() {
    let hay = to_chars("h\u{e9}llo");
    assert_eq!(hay, vec!['h', '\u{e9}', 'l', 'l', 'o']);
    assert!(contains(&hay, &to_chars("llo")));
    assert!(contains(&hay, &to_chars("")));
    assert!(contains(&hay, &hay));
    assert!(!contains(&hay, &to_chars("lol")));
    assert!(!contains(&to_chars("ab"), &to_chars("abc")));
    assert!(matches_at(&hay, &to_chars("\u{e9}l"), 1));
    assert!(!matches_at(&hay, &to_chars("\u{e9}l"), 2));
    assert!(!matches_at(&hay, &to_chars("o"), 5));
    assert!(matches_at(&hay, &to_chars(""), 5));
    assert!(!matches_at(&hay, &to_chars(""), 6));
    assert!(starts_with(&hay, &to_chars("h\u{e9}")));
    assert!(!starts_with(&hay, &to_chars("\u{e9}")));
}

#[test]
fn watcher_reports_changes() {
    let settings = AFKSettings::new(3000, 1000);
    assert_eq!((settings.timeout, settings.poll_time), (3000, 1000));
    let watcher = AFKWatcher::new(&settings);
    assert_eq!(watcher.settings, settings);
    let mut t = watcher.start((4, 5));
    assert_eq!(t, AFKTracker { mouse: (4, 5), idle: 0, afk: false });
    let mut reports = Vec::new();
    for (mouse, keys) in [((4, 5), 0), ((4, 5), 0), ((4, 5), 0), ((4, 5), 0), ((4, 6), 0), ((4, 6), 0), ((4, 6), 2)] {
        let (next, report) = watcher.step(t, mouse, keys);
        t = next;
        reports.push((report, t.idle, t.afk));
    }
    assert_eq!(
        reports,
        vec![
            (None, 1000, false),
            (None, 2000, false),
            (Some(AFKState::OFFLINE), 3000, true),
            (None, 4000, true),
            (Some(AFKState::ONLINE), 0, false),
            (None, 1000, false),
            (None, 0, false),
        ]
    );
    assert_eq!(t.mouse, (4, 6));
}

#[test]
fn window_identifiers() {
    assert_eq!(parse_window_id("_NET_ACTIVE_WINDOW(WINDOW): window id # 0x3a00007\n"), Ok(0x3a00007));
    assert_eq!(parse_window_id("# 0x0, 0x1f"), Ok(0));
    assert_eq!(parse_window_id("x0x 0xZ 0XAB 0xAbCx"), Ok(0xabc));
    assert_eq!(parse_window_id("no window here 0x"), Err(WindowIdError::NotFound));
    assert_eq!(parse_window_id(""), Err(WindowIdError::NotFound));
    assert_eq!(parse_window_id("0x7fffffffffffffff"), Ok(i64::MAX));
    assert_eq!(parse_window_id("0x8000000000000000"), Err(WindowIdError::OutOfRange));
    assert_eq!(parse_window_id("0x00000000000000000000001"), Ok(1));
    assert_eq!(window_id_of_match("0x0x1F"), Some(31));
    assert_eq!(window_id_of_match("0x"), None);
    assert_eq!(window_id_of_match("12"), Some(18));
    assert_eq!(window_id_of_match("0x-8000000000000000"), Some(i64::MIN));
    assert_eq!(window_id_of_match("-8000000000000001"), None);
    assert_eq!(window_id_of_match("+ff"), Some(255));
    assert_eq!(window_id_of_match("+"), None);
    assert_eq!(window_id_of_match("1g"), None);
    let chars: Vec<char> = "-0".chars().collect();
    assert_eq!(parse_i64(&chars, Radix::Hex), Some(0));
}

#[test]
fn numbers_are_read_as_std_reads_them() {
    let texts = [
        "0", "7f", "-7F", "+10", "ffffffffffffffff", "-", "", "x", "\u{ff11}", "12", "-12", "+0012",
        "2147483647", "2147483648", "-2147483648", "-2147483649", "9223372036854775807",
        "9223372036854775808", "-9223372036854775808", "-9223372036854775809", "7fffffff",
        "80000000", "-80000000", "-80000001", "1 ", " 1", "1_000", "--1", "+-1", "0x10",
        "99999999999999999999999999", "000000000000000000000000000000007",
    ];
    for text in texts {
        let chars: Vec<char> = text.chars().collect();
        assert_eq!(parse_i64(&chars, Radix::Hex), i64::from_str_radix(text, 16).ok(), "{}", text);
        assert_eq!(parse_i64(&chars, Radix::Decimal), text.parse::<i64>().ok(), "{}", text);
        assert_eq!(parse_i32(&chars, Radix::Hex), i32::from_str_radix(text, 16).ok(), "{}", text);
        assert_eq!(parse_i32(&chars, Radix::Decimal), text.parse::<i32>().ok(), "{}", text);
    }
}

#[test]
fn test_get_browser_active_tab_url() {
    let step = |found: &Found| get_browser_active_tab_url(Browser::Chrome, Platform::Linux, "/home/nobody", None, found);
    assert!(matches!(step(&Found::Nothing), Lookup::List(_)));
    let url = match step(&Found::Failed) {
        Lookup::Done(url) => url,
        _ => panic!("the lookup goes on"),
    };
    assert!(url.is_none());
}

#[test]
fn test_get_current_active_session_file() {
    let files = [file("/s/Session_13370000000000000", 10), file("/s/Session_13370000000000001", 20)];
    let file = get_current_active_session_file(&files);
    assert!(file.is_some());
    assert_eq!(files[file.unwrap()].path, "/s/Session_13370000000000001");
}

#[test]
fn metric_messages() {
    assert_eq!(metric_body(AFKState::ONLINE, 1700000000), "{\"type\":\"ONLINE\",\"time\":1700000000}");
    assert_eq!(metric_body(AFKState::OFFLINE, -5), "{\"type\":\"OFFLINE\",\"time\":-5}");
    assert_eq!(metric_body(AFKState::OFFLINE, 0), "{\"type\":\"OFFLINE\",\"time\":0}");
}

#[test]
fn numbers_are_written_as_std_writes_them() {
    let mut values = vec![0i64, 1, 9, 10, 11, 99, 100, 101, -1, -9, -10, -100, i64::MAX, i64::MIN, i64::MIN + 1];
    let mut seed: u64 = 99;
    for _ in 0..500 {
        seed = seed.wrapping_mul(6364136223846793005).wrapping_add(1442695040888963407);
        values.push((seed >> (seed % 64)) as i64);
        values.push(-((seed >> 1) as i64));
    }
    for v in values {
        let ours: String = to_decimal(v).into_iter().collect();
        assert_eq!(ours, v.to_string());
    }
}
