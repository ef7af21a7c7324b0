use screen_inspector::browser::get_default_profile;
use screen_inspector::text::{
    find_char, is_whitespace, piece, same_text, split_at_char, split_lines, strip,
    text_after_last, to_chars, trim, trim_matches,
};
use screen_inspector::xprop::parse_window_properties;

const SAMPLES: [&str; 24] = [
    "",
    "a",
    "a\n",
    "\n",
    "\n\n",
    "a\nb",
    "a\r\nb\r\n",
    "a\r",
    "a\r\n\rb",
    "\r\n",
    "\r",
    "a\n\nb\n",
    "x = y = z",
    "==",
    "=",
    " a , b ,, c ",
    "\"quoted\"",
    "\"\"a\"b\"\"",
    "  \t spaced \u{a0}\u{3000} ",
    "\u{2003}\u{85}x\u{1680}",
    "WM_CLASS = \"a\", \"b\"",
    "no separators here",
    " \n \r\n\t",
    "\"",
];

fn text(chars: &[char]) -> String {
    chars.iter().collect()
}

#[test]
fn lines_as_std_splits_them() {
    for sample in SAMPLES {
        let ours: Vec<String> = split_lines(&to_chars(sample)).iter().map(|l| text(l)).collect();
        let theirs: Vec<String> = sample.lines().map(|l| l.to_string()).collect();
        assert_eq!(ours, theirs, "{:?}", sample);
    }
}

#[test]
fn pieces_as_std_splits_them() {
    for sample in SAMPLES {
        for sep in ['=', ',', '\n', 'a'] {
            let ours: Vec<String> =
                split_at_char(&to_chars(sample), sep).iter().map(|l| text(l)).collect();
            let theirs: Vec<String> = sample.split(sep).map(|l| l.to_string()).collect();
            assert_eq!(ours, theirs, "{:?} at {:?}", sample, sep);
        }
    }
}

#[test]
fn trimming_as_std_trims() {
    for sample in SAMPLES {
        let chars = to_chars(sample);
        assert_eq!(text(trim(&chars)), sample.trim(), "{:?}", sample);
        assert_eq!(text(strip(&chars, None)), sample.trim(), "{:?}", sample);
        for c in ['"', ' ', 'a', '='] {
            assert_eq!(text(trim_matches(&chars, c)), sample.trim_matches(c), "{:?}", sample);
            assert_eq!(text(strip(&chars, Some(c))), sample.trim_matches(c), "{:?}", sample);
        }
    }
}

#[test]
fn white_space_as_std_knows_it() {
    for code in 0..=0x10ffffu32 {
        if let Some(c) = char::from_u32(code) {
            assert_eq!(is_whitespace(c), c.is_whitespace(), "{:x}", code);
        }
    }
}

#[test]
fn finding_and_cutting() {
    let chars = to_chars("a=b=c");
    assert_eq!(find_char(&chars, 0, '='), 1);
    assert_eq!(find_char(&chars, 1, '='), 1);
    assert_eq!(find_char(&chars, 2, '='), 3);
    assert_eq!(find_char(&chars, 4, '='), 5);
    assert_eq!(find_char(&chars, 5, '='), 5);
    assert_eq!(piece(&chars, 2, 5), vec!['b', '=', 'c']);
    assert_eq!(piece(&chars, 3, 3), vec![]);
    assert!(same_text(&chars, &to_chars("a=b=c")));
    assert!(!same_text(&chars, &to_chars("a=b=")));
    assert!(!same_text(&chars, &to_chars("a=b=d")));
    assert!(same_text(&[], &[]));
}

#[test]
fn window_properties() {
    let stdout = "WM_NAME = \"Mozilla Firefox\"\nWM_CLASS = \"Navigator\", \"firefox\"\n_NET_WM_NAME = \"other title\"\n_NET_WM_PID = 4242\n";
    let p = parse_window_properties(stdout).unwrap();
    assert_eq!(p.title.as_deref(), Some("Mozilla Firefox"));
    assert_eq!(p.class, Some(vec!["Navigator".to_string(), "firefox".to_string()]));
    assert_eq!(p.pids, vec![4242]);

    let p = parse_window_properties("_NET_WM_NAME = \"first\"\r\nWM_NAME=a = b\nnothing\nX = 1\n_NET_WM_PID= -7 \n_NET_WM_PID =+8").unwrap();
    assert_eq!(p.title.as_deref(), Some("a"));
    assert_eq!(p.class, None);
    assert_eq!(p.pids, vec![-7, 8]);

    let p = parse_window_properties("_NET_WM_NAME = \"only\"\nWM_CLASS = ").unwrap();
    assert_eq!(p.title.as_deref(), Some("only"));
    assert_eq!(p.class, Some(vec![String::new()]));

    let p = parse_window_properties("").unwrap();
    assert_eq!((p.title, p.class, p.pids), (None, None, vec![]));

    assert!(parse_window_properties("WM_NAME = x\n_NET_WM_PID = not a number\n").is_none());
    assert!(parse_window_properties("_NET_WM_PID = 2147483648").is_none());
    assert!(parse_window_properties("_NET_WM_PID =").is_none());
    assert_eq!(parse_window_properties("_NET_WM_PID = 2147483647").unwrap().pids, vec![i32::MAX]);
}

#[test]
fn default_profiles() {
    let ini = "[4F96D1932A9F858E]\nDefault=abcd1234.default-release\nLocked=1\n";
    assert_eq!(get_default_profile(ini).as_deref(), Some("abcd1234.default-release"));
    assert_eq!(get_default_profile("x\r\nDefault= p q =r\r\nDefault=second").as_deref(), Some("p q"));
    assert_eq!(get_default_profile("Default=").as_deref(), Some(""));
    assert_eq!(get_default_profile(" Default=a\ndefault=b\nDefaults=c"), None);
    assert_eq!(get_default_profile(""), None);
}

#[test]
fn names_after_the_last_separator() {
    assert_eq!(text_after_last("C:\\Program Files\\App\\app.exe", '\\'), "app.exe");
    assert_eq!(text_after_last("/usr/bin/x", '/'), "x");
    assert_eq!(text_after_last("/usr/bin/", '/'), "");
    assert_eq!(text_after_last("plain", '/'), "");
    assert_eq!(text_after_last("", '/'), "");
    assert_eq!(text_after_last("/", '/'), "");
    for sample in SAMPLES {
        for c in ['=', ' ', 'a', '\n'] {
            let expect = match sample.rfind(c) {
                Some(index) => sample[(index + 1)..].to_string(),
                None => String::new(),
            };
            assert_eq!(text_after_last(sample, c), expect, "{:?}", sample);
        }
    }
}
