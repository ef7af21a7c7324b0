//! Finding the session log of a browser and the location that it shows.
//!
//! Nothing here touches the disk. `get_browser_active_tab_url` says, step
//! by step, which folder is to be listed and which file is to be read; the
//! caller does that and hands back what it found.

use crate::snss::{decode, decode_log};
use crate::text::{
    begins_with, lines, matches_at, occurs_at, split, split_at_char, split_lines, starts_with,
    string_of, texts, to_chars, trim, trimmed,
};
use crate::types::{browser_of_classes, Browser, WindowInformation};
use vstd::prelude::*;
use vstd::string::*;

verus! {

/// The operating system that the program runs on.
#[derive(Debug, Clone, Copy, PartialEq, Eq, Structural)]
pub enum Platform {
    Windows,
    Linux,
    MacOs,
    Other,
}

/// Where, below the user's home directory, `browser` keeps its sessions on
/// `platform`. `Firefox` on `Linux` keeps them in a profile folder: for it
/// this is the folder that holds the profiles.
pub open spec fn session_folder_below_home(browser: Browser, platform: Platform) -> Option<
    Seq<char>,
> {
    match (browser, platform) {
        (Browser::Edge, Platform::Windows) => Some(
            "\\AppData\\Local\\Microsoft\\Edge\\User Data\\Default\\Sessions"@,
        ),
        (Browser::Chrome, Platform::Windows) => Some(
            "\\AppData\\Local\\Google\\Chrome\\User Data\\Default\\Sessions"@,
        ),
        (Browser::Chrome, Platform::Linux) => Some("/.config/google-chrome/Default/Sessions"@),
        (Browser::Chrome, Platform::MacOs) => Some(
            "/Library/Application Support/Google/Chrome/Default/Sessions"@,
        ),
        (Browser::Opera, Platform::Windows) => Some(
            "\\AppData\\Roaming\\Opera Software\\Opera Stable\\User Data\\Default\\Sessions"@,
        ),
        (Browser::Opera, Platform::Linux) => Some("/.config/opera/Default/Sessions"@),
        (Browser::Opera, Platform::MacOs) => Some(
            "/Library/Application Support/com.operasoftware.Opera"@,
        ),
        (Browser::Brave, Platform::Windows) => Some(
            "\\AppData\\Local\\BraveSoftware\\Brave-Browser\\User Data\\Default\\Session"@,
        ),
        (Browser::Brave, Platform::Linux) => Some(
            "/.config/BraveSoftware/Brave-Browser/Default/Session"@,
        ),
        (Browser::Brave, Platform::MacOs) => Some(
            "/Library/Application Support/BraveSoftware/Brave-Browser"@,
        ),
        (Browser::Firefox, Platform::Windows) => Some("\\AppData\\Roaming\\Mozilla\\Firefox"@),
        (Browser::Firefox, Platform::Linux) => Some("/.mozilla/firefox"@),
        (Browser::Firefox, Platform::MacOs) => Some("/Library/Application Support/Firefox"@),
        (Browser::Safari, Platform::MacOs) => Some("/Library/Safari"@),
        _ => None,
    }
}

/// `Firefox` on `Linux` keeps its sessions in the folder of a profile, so
/// the name of the profile has to be known.
pub open spec fn needs_profile(browser: Browser, platform: Platform) -> bool {
    browser == Browser::Firefox && platform == Platform::Linux
}

/// The folder in which `browser` keeps its sessions on `platform`, for a
/// user whose home directory is `home`. Where a profile is needed the folder
/// is `sessionstore-backups` in that profile's folder, and there is none
/// where no profile is given.
pub open spec fn session_folder(
    browser: Browser,
    platform: Platform,
    home: Seq<char>,
    profile: Option<Seq<char>>,
) -> Option<Seq<char>> {
    match session_folder_below_home(browser, platform) {
        Some(below) => if needs_profile(browser, platform) {
            match profile {
                Some(p) => Some(home + below + "/"@ + p + "/sessionstore-backups"@),
                None => None,
            }
        } else {
            Some(home + below)
        },
        None => None,
    }
}

/// Computes `session_folder_below_home`.
fn folder_below_home(browser: Browser, platform: Platform) -> (r: Option<&'static str>)
    ensures
        match (r, session_folder_below_home(browser, platform)) {
            (Some(a), Some(b)) => a@ == b,
            (None, None) => true,
            _ => false,
        },
{
    match (browser, platform) {
        (Browser::Edge, Platform::Windows) => Some(
            "\\AppData\\Local\\Microsoft\\Edge\\User Data\\Default\\Sessions",
        ),
        (Browser::Chrome, Platform::Windows) => Some(
            "\\AppData\\Local\\Google\\Chrome\\User Data\\Default\\Sessions",
        ),
        (Browser::Chrome, Platform::Linux) => Some("/.config/google-chrome/Default/Sessions"),
        (Browser::Chrome, Platform::MacOs) => Some(
            "/Library/Application Support/Google/Chrome/Default/Sessions",
        ),
        (Browser::Opera, Platform::Windows) => Some(
            "\\AppData\\Roaming\\Opera Software\\Opera Stable\\User Data\\Default\\Sessions",
        ),
        (Browser::Opera, Platform::Linux) => Some("/.config/opera/Default/Sessions"),
        (Browser::Opera, Platform::MacOs) => Some(
            "/Library/Application Support/com.operasoftware.Opera",
        ),
        (Browser::Brave, Platform::Windows) => Some(
            "\\AppData\\Local\\BraveSoftware\\Brave-Browser\\User Data\\Default\\Session",
        ),
        (Browser::Brave, Platform::Linux) => Some(
            "/.config/BraveSoftware/Brave-Browser/Default/Session",
        ),
        (Browser::Brave, Platform::MacOs) => Some(
            "/Library/Application Support/BraveSoftware/Brave-Browser",
        ),
        (Browser::Firefox, Platform::Windows) => Some("\\AppData\\Roaming\\Mozilla\\Firefox"),
        (Browser::Firefox, Platform::Linux) => Some("/.mozilla/firefox"),
        (Browser::Firefox, Platform::MacOs) => Some("/Library/Application Support/Firefox"),
        (Browser::Safari, Platform::MacOs) => Some("/Library/Safari"),
        _ => None,
    }
}

/// Whether the session folder of `browser` on `platform` depends on a
/// profile.
pub fn profile_needed(browser: Browser, platform: Platform) -> (r: bool)
    ensures
        r == needs_profile(browser, platform),
{
    browser == Browser::Firefox && platform == Platform::Linux
}

/// The folder in which `browser` keeps its sessions: see `session_folder`.
pub fn get_session_folder_path(
    browser: Browser,
    platform: Platform,
    homedir: &str,
    profile: Option<&str>,
) -> (r: Option<String>)
    ensures
        match (
            r,
            session_folder(
                browser,
                platform,
                homedir@,
                match profile {
                    Some(p) => Some(p@),
                    None => None,
                },
            ),
        ) {
            (Some(a), Some(b)) => a@ == b,
            (None, None) => true,
            _ => false,
        },
{
    let below = folder_below_home(browser, platform)?;
    let mut path = String::from_str(homedir);
    path.append(below);
    if profile_needed(browser, platform) {
        let name = profile?;
        path.append("/");
        path.append(name);
        path.append("/sessionstore-backups");
    }
    Some(path)
}

/// A file of a session folder: its path, and when it was last modified, in
/// nanoseconds since 1970.
#[derive(Debug)]
pub struct SessionFile {
    pub path: String,
    pub modified: u128,
}

/// The file's name starts at `i` in `path`: a `/` stands before `i`, or `i`
/// is the start, and no `/` follows.
pub open spec fn is_name_start(path: Seq<char>, i: int) -> bool {
    &&& 0 <= i <= path.len()
    &&& i == 0 || path[i - 1] == '/'
    &&& forall|j: int| i <= j < path.len() ==> path[j] != '/'
}

/// The file at `path` holds a session: its name begins with `Session_`.
pub open spec fn is_session_path(path: Seq<char>) -> bool {
    exists|i: int| is_name_start(path, i) && occurs_at("Session_"@, path, i)
}

/// Whether the file at `path` holds a session.
pub fn is_session_file(path: &str) -> (r: bool)
    ensures
        r == is_session_path(path@),
{
    let chars = to_chars(path);
    let mut start: usize = chars.len();
    while start > 0 && chars[start - 1] != '/'
        invariant
            start <= chars@.len(),
            forall|j: int| start <= j < chars@.len() ==> chars@[j] != '/',
        decreases start,
    {
        start = start - 1;
    }
    assert(is_name_start(path@, start as int));
    assert forall|i: int| is_name_start(path@, i) implies i == start by {
        if i < start {
            assert(path@[start - 1] != '/');
        } else if i > start {
            assert(path@[i - 1] != '/');
        }
    }
    matches_at(chars.as_slice(), to_chars("Session_").as_slice(), start)
}

/// `i` is the place of the latest of `files`: no file was modified later,
/// and none before `i` as late.
pub open spec fn is_latest(files: Seq<SessionFile>, i: int) -> bool {
    &&& 0 <= i < files.len()
    &&& forall|j: int| 0 <= j < files.len() ==> files[j].modified <= files[i].modified
    &&& forall|j: int| 0 <= j < i ==> files[j].modified < files[i].modified
}

/// The place of the file of `files` that was modified last; of several, the
/// first. There is none where `files` is empty.
pub fn get_current_active_session_file(files: &[SessionFile]) -> (r: Option<usize>)
    ensures
        match r {
            Some(i) => is_latest(files@, i as int),
            None => files@.len() == 0,
        },
{
    if files.len() == 0 {
        return None;
    }
    let mut best: usize = 0;
    let mut i: usize = 1;
    while i < files.len()
        invariant
            best < i <= files@.len(),
            forall|j: int| 0 <= j < i ==> files@[j].modified <= files@[best as int].modified,
            forall|j: int| 0 <= j < best ==> files@[j].modified < files@[best as int].modified,
        decreases files@.len() - i,
    {
        if files[i].modified > files[best].modified {
            best = i;
        }
        i = i + 1;
    }
    Some(best)
}

/// What the caller found when it did what the last step asked for.
pub enum Found {
    /// Nothing yet: this is the first step.
    Nothing,
    /// The session files of the folder that was to be listed.
    Files(Vec<SessionFile>),
    /// The bytes of the file that was to be read.
    Contents(Vec<u8>),
    /// The folder could not be listed, or the file could not be read.
    Failed,
}

/// What the caller is to do next.
pub enum Lookup {
    /// List the session files of this folder.
    List(String),
    /// Read this file.
    Read(String),
    /// Nothing more: this is the location, if there is one.
    Done(Option<String>),
}

/// A step as a mathematical value.
pub enum LookupView {
    List(Seq<char>),
    Read(Seq<char>),
    Done(Option<Seq<char>>),
}

impl View for Lookup {
    type V = LookupView;

    open spec fn view(&self) -> LookupView {
        match self {
            Lookup::List(folder) => LookupView::List(folder@),
            Lookup::Read(file) => LookupView::Read(file@),
            Lookup::Done(Some(url)) => LookupView::Done(Some(url@)),
            Lookup::Done(None) => LookupView::Done(None),
        }
    }
}

/// The step that follows on what was found. At the start the session folder
/// of the browser is to be listed, if it has one. Of the files found, the
/// latest is to be read. The bytes read are decoded as a session log. In
/// every other case there is no location.
pub open spec fn lookup_step(
    browser: Browser,
    platform: Platform,
    home: Seq<char>,
    profile: Option<Seq<char>>,
    found: Found,
    r: LookupView,
) -> bool {
    match found {
        Found::Nothing => match session_folder(browser, platform, home, profile) {
            Some(folder) => r == LookupView::List(folder),
            None => r == LookupView::Done(None),
        },
        Found::Files(files) => if files@.len() == 0 {
            r == LookupView::Done(None)
        } else {
            exists|i: int| is_latest(files@, i) && r == LookupView::Read(files@[i].path@)
        },
        Found::Contents(bytes) => r == LookupView::Done(decode_log(bytes@)),
        Found::Failed => r == LookupView::Done(None),
    }
}

/// One step of finding the location that `browser` shows: see
/// `lookup_step`.
pub fn get_browser_active_tab_url(
    browser: Browser,
    platform: Platform,
    homedir: &str,
    profile: Option<&str>,
    found: &Found,
) -> (r: Lookup)
    ensures
        lookup_step(
            browser,
            platform,
            homedir@,
            match profile {
                Some(p) => Some(p@),
                None => None,
            },
            *found,
            r@,
        ),
{
    match found {
        Found::Nothing => match get_session_folder_path(browser, platform, homedir, profile) {
            Some(folder) => Lookup::List(folder),
            None => Lookup::Done(None),
        },
        Found::Files(files) => match get_current_active_session_file(files.as_slice()) {
            Some(i) => Lookup::Read(files[i].path.clone()),
            None => Lookup::Done(None),
        },
        Found::Contents(bytes) => Lookup::Done(decode(bytes.as_slice())),
        Found::Failed => Lookup::Done(None),
    }
}

/// The window `window` with the location that its browser shows: `url` where
/// the window's classes name a browser, and the location that the window had
/// where they name none.
pub fn get_current_window_information(window: WindowInformation, url: Option<String>) -> (out:
    WindowInformation)
    ensures
        out.time == window.time,
        out.title == window.title,
        out.class == window.class,
        out.execpath == window.execpath,
        out.url == if browser_of_classes(window.class@) is Some {
            url
        } else {
            window.url
        },
{
    let mut out = window;
    if out.get_browser_type().is_some() {
        out.url = url;
    }
    out
}

/// The first of the lines `ls` that begins with `Default=`.
pub open spec fn first_default_line(ls: Seq<Seq<char>>) -> Option<Seq<char>>
    decreases ls.len(),
{
    if ls.len() == 0 {
        None
    } else if begins_with(ls[0], "Default="@) {
        Some(ls[0])
    } else {
        first_default_line(ls.skip(1))
    }
}

/// The profile that the text `installs` of a file `installs.ini` names as
/// the default: in the first line that begins with `Default=`, what stands
/// between the first equals sign and the next, or the end of the line,
/// without white space at either end.
pub open spec fn default_profile(installs: Seq<char>) -> Option<Seq<char>> {
    match first_default_line(lines(installs)) {
        Some(line) => if split(line, '=').len() >= 2 {
            Some(trimmed(split(line, '=')[1]))
        } else {
            None
        },
        None => None,
    }
}

/// The default profile that `installs` names: see `default_profile`.
pub fn get_default_profile(installs: &str) -> (r: Option<String>)
    ensures
        match (r, default_profile(installs@)) {
            (Some(a), Some(b)) => a@ == b,
            (None, None) => true,
            _ => false,
        },
{
    let chars = to_chars(installs);
    let ls = split_lines(chars.as_slice());
    let prefix = to_chars("Default=");
    let ghost all = lines(installs@);
    let mut i: usize = 0;
    assert(all.skip(0) =~= all);
    while i < ls.len()
        invariant
            i <= ls@.len(),
            texts(ls@) == all,
            all == lines(installs@),
            prefix@ == "Default="@,
            first_default_line(all) == first_default_line(all.skip(i as int)),
        decreases ls@.len() - i,
    {
        proof {
            let rest = all.skip(i as int);
            assert(rest[0] == ls@[i as int]@);
            assert(rest.skip(1) =~= all.skip(i + 1));
        }
        if starts_with(ls[i].as_slice(), prefix.as_slice()) {
            let pieces = split_at_char(ls[i].as_slice(), '=');
            assert(texts(pieces@).len() == pieces@.len());
            if pieces.len() < 2 {
                return None;
            }
            assert(texts(pieces@)[1] == pieces@[1]@);
            return Some(string_of(trim(pieces[1].as_slice())));
        }
        i = i + 1;
    }
    assert(all.skip(i as int).len() == 0);
    None
}

} // verus!
