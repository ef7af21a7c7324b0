//! Reading what the `xprop` tool prints about the active window: the
//! window's identifier, a hexadecimal number after `0x`, and the window's
//! properties, one `name = value` to a line.

use crate::number::{parse_i32, parse_i64, signed_number, Radix};
use crate::text::{
    begins_with, lines, matches_at, same_text, split, split_at_char, split_lines, string_of,
    stripped, texts, to_chars, trim, trim_matches, trimmed,
};
use regex::Regex;
use vstd::prelude::*;

verus! {

/// The pattern of a window identifier: `0x` and at least one hexadecimal
/// digit.
pub const WINDOW_ID_PATTERN: &'static str = "0x[a-fA-F0-9]+";

/// The text of the first match of the pattern `pattern` in `text`, as the
/// regex crate finds it; `None` where nothing matches and where the pattern
/// does not compile.
pub uninterp spec fn first_match(pattern: Seq<char>, text: Seq<char>) -> Option<Seq<char>>;

/// Calls `regex::Regex::new` on `pattern` and `regex::Regex::find` on
/// `text`, and copies the match with `regex::Match::as_str`. What comes back
/// is a function of the two texts alone; the contract gives it its name and
/// claims nothing else.
#[verifier::external_body]
fn regex_find(pattern: &str, text: &str) -> (r: Option<String>)
    ensures
        match (r, first_match(pattern@, text@)) {
            (Some(a), Some(b)) => a@ == b,
            (None, None) => true,
            _ => false,
        },
{
    Regex::new(pattern).ok()?.find(text).map(|m| m.as_str().to_string())
}

/// `s` without every `0x` at its front.
pub open spec fn without_0x(s: Seq<char>) -> Seq<char>
    decreases s.len(),
{
    if begins_with(s, seq!['0', 'x']) {
        without_0x(s.skip(2))
    } else {
        s
    }
}

/// The identifier that a match of the pattern writes: the number after
/// its `0x`.
pub open spec fn window_id(matched: Seq<char>) -> Option<int> {
    signed_number(without_0x(matched), Radix::Hex, i64::MIN as int, i64::MAX as int)
}

/// The identifier that a match of the pattern writes: see `window_id`.
pub fn window_id_of_match(matched: &str) -> (r: Option<i64>)
    ensures
        r matches Some(v) ==> window_id(matched@) == Some(v as int),
        r is None ==> window_id(matched@) is None,
{
    let chars = to_chars(matched);
    let prefix = to_chars("0x");
    let mut start: usize = 0;
    proof {
        reveal_strlit("0x");
        assert(prefix@ =~= seq!['0', 'x']);
        assert(chars@.skip(0) =~= chars@);
        assert(chars@.len() == chars.len());
    }
    while matches_at(chars.as_slice(), prefix.as_slice(), start)
        invariant
            start <= chars@.len() <= usize::MAX,
            prefix@ == seq!['0', 'x'],
            without_0x(chars@) == without_0x(chars@.skip(start as int)),
        decreases chars@.len() - start,
    {
        proof {
            let rest = chars@.skip(start as int);
            assert(rest.subrange(0, 2) =~= chars@.subrange(start as int, start + 2));
            assert(rest.skip(2) =~= chars@.skip(start + 2));
        }
        start = start + 2;
    }
    proof {
        let rest = chars@.skip(start as int);
        if begins_with(rest, seq!['0', 'x']) {
            assert(rest.subrange(0, 2) =~= chars@.subrange(start as int, start + 2));
        }
    }
    let tail = vstd::slice::slice_subrange(chars.as_slice(), start, chars.len());
    assert(tail@ =~= chars@.skip(start as int));
    parse_i64(tail, Radix::Hex)
}

/// Why no window identifier was read.
#[derive(Debug, Clone, Copy, PartialEq, Eq, Structural)]
pub enum WindowIdError {
    /// The text holds no `0x` with a hexadecimal digit after it.
    NotFound,
    /// What stands after the `0x` writes no number of 64 bits with a sign.
    OutOfRange,
}

/// What `parse_window_id` makes of the first match of the pattern.
pub open spec fn window_id_result(found: Option<Seq<char>>) -> Result<int, WindowIdError> {
    match found {
        Some(m) => match window_id(m) {
            Some(id) => Ok(id),
            None => Err(WindowIdError::OutOfRange),
        },
        None => Err(WindowIdError::NotFound),
    }
}

/// The identifier of the active window that `stdout`, the output of
/// `xprop -root _NET_ACTIVE_WINDOW`, names: the number that the first match
/// of `WINDOW_ID_PATTERN` writes.
pub fn parse_window_id(stdout: &str) -> (r: Result<i64, WindowIdError>)
    ensures
        match (r, window_id_result(first_match(WINDOW_ID_PATTERN@, stdout@))) {
            (Ok(a), Ok(b)) => a == b,
            (Err(a), Err(b)) => a == b,
            _ => false,
        },
{
    match regex_find(WINDOW_ID_PATTERN, stdout) {
        Some(m) => match window_id_of_match(m.as_str()) {
            Some(id) => Ok(id),
            None => Err(WindowIdError::OutOfRange),
        },
        None => Err(WindowIdError::NotFound),
    }
}

/// What `xprop` tells of a window: its title, its classes, and the
/// identifiers of its process, one for each line that names one.
#[derive(Debug)]
pub struct WindowProperties {
    pub title: Option<String>,
    pub class: Option<Vec<String>>,
    pub pids: Vec<i32>,
}

/// The properties as a mathematical value.
pub struct PropertiesView {
    pub title: Option<Seq<char>>,
    pub class: Option<Seq<Seq<char>>>,
    pub pids: Seq<i32>,
}

/// The texts of `names`, in their order.
pub open spec fn names_view(names: Seq<String>) -> Seq<Seq<char>> {
    Seq::new(names.len(), |i: int| names[i]@)
}

impl View for WindowProperties {
    type V = PropertiesView;

    open spec fn view(&self) -> PropertiesView {
        PropertiesView {
            title: match self.title {
                Some(t) => Some(t@),
                None => None,
            },
            class: match self.class {
                Some(c) => Some(names_view(c@)),
                None => None,
            },
            pids: self.pids@,
        }
    }
}

/// `s` without quotation marks at either end.
pub open spec fn unquoted(s: Seq<char>) -> Seq<char> {
    stripped(s, Some('"'))
}

/// The names of a class list: the pieces between commas, each without white
/// space and then without quotation marks at either end.
pub open spec fn class_names(value: Seq<char>) -> Seq<Seq<char>> {
    let pieces = split(value, ',');
    Seq::new(pieces.len(), |i: int| unquoted(trimmed(pieces[i])))
}

/// The process identifier that `value` writes: a number in base 10 of 32
/// bits with a sign, with white space around it or none.
pub open spec fn process_id(value: Seq<char>) -> Option<int> {
    signed_number(trimmed(value), Radix::Decimal, i32::MIN as int, i32::MAX as int)
}

/// What one line makes of the properties read so far; `None` where the line
/// names a process identifier that is no number.
///
/// The line's parts are its pieces between equals signs, each without white
/// space at either end. A line of one part changes nothing. Of the others the
/// first part is the name and the second the value: `WM_NAME` sets the
/// title, `_NET_WM_NAME` sets it where there is none yet, `WM_CLASS` sets the
/// classes, `_NET_WM_PID` adds a process identifier, and any other name
/// changes nothing.
pub open spec fn after_line(state: PropertiesView, line: Seq<char>) -> Option<PropertiesView> {
    let pieces = split(line, '=');
    if pieces.len() < 2 {
        Some(state)
    } else {
        let name = trimmed(pieces[0]);
        let value = trimmed(pieces[1]);
        if name == "WM_NAME"@ {
            Some(PropertiesView { title: Some(unquoted(value)), ..state })
        } else if name == "WM_CLASS"@ {
            Some(PropertiesView { class: Some(class_names(value)), ..state })
        } else if name == "_NET_WM_PID"@ {
            match process_id(value) {
                Some(pid) => Some(PropertiesView { pids: state.pids.push(pid as i32), ..state }),
                None => None,
            }
        } else if name == "_NET_WM_NAME"@ {
            if state.title is None {
                Some(PropertiesView { title: Some(unquoted(value)), ..state })
            } else {
                Some(state)
            }
        } else {
            Some(state)
        }
    }
}

/// What the lines `ls`, one after the other, make of the properties.
pub open spec fn after_lines(state: PropertiesView, ls: Seq<Seq<char>>) -> Option<PropertiesView>
    decreases ls.len(),
{
    if ls.len() == 0 {
        Some(state)
    } else {
        match after_line(state, ls[0]) {
            Some(next) => after_lines(next, ls.skip(1)),
            None => None,
        }
    }
}

/// The properties that the output `stdout` of `xprop` tells.
pub open spec fn window_properties(stdout: Seq<char>) -> Option<PropertiesView> {
    after_lines(
        PropertiesView { title: None, class: None, pids: Seq::empty() },
        lines(stdout),
    )
}

/// Computes `class_names`.
fn read_class_names(value: &[char]) -> (names: Vec<String>)
    ensures
        names_view(names@) == class_names(value@),
{
    let pieces = split_at_char(value, ',');
    let mut names: Vec<String> = Vec::new();
    let mut i: usize = 0;
    while i < pieces.len()
        invariant
            i <= pieces@.len(),
            texts(pieces@) == split(value@, ','),
            names@.len() == i,
            forall|j: int| 0 <= j < i ==> names@[j]@ == unquoted(trimmed(pieces@[j]@)),
        decreases pieces@.len() - i,
    {
        let name = string_of(trim_matches(trim(pieces[i].as_slice()), '"'));
        names.push(name);
        i = i + 1;
    }
    proof {
        assert forall|j: int| 0 <= j < names@.len() implies names_view(names@)[j] == class_names(
            value@,
        )[j] by {
            assert(texts(pieces@)[j] == pieces@[j]@);
        }
        assert(texts(pieces@).len() == pieces@.len());
        assert(names_view(names@) =~= class_names(value@));
    }
    names
}

/// Takes one line into account: see `after_line`. The result is `false`
/// where the line names a process identifier that is no number, and the
/// properties are then as they were.
fn read_line(found: &mut WindowProperties, line: &[char]) -> (ok: bool)
    ensures
        match after_line(old(found)@, line@) {
            Some(next) => ok && final(found)@ == next,
            None => !ok && final(found)@ == old(found)@,
        },
{
    let pieces = split_at_char(line, '=');
    if pieces.len() < 2 {
        assert(texts(pieces@).len() == pieces@.len());
        return true;
    }
    proof {
        assert(texts(pieces@)[0] == pieces@[0]@);
        assert(texts(pieces@)[1] == pieces@[1]@);
    }
    let name = trim(pieces[0].as_slice());
    let value = trim(pieces[1].as_slice());
    if same_text(name, to_chars("WM_NAME").as_slice()) {
        found.title = Some(string_of(trim_matches(value, '"')));
        true
    } else if same_text(name, to_chars("WM_CLASS").as_slice()) {
        let names = read_class_names(value);
        found.class = Some(names);
        true
    } else if same_text(name, to_chars("_NET_WM_PID").as_slice()) {
        match parse_i32(trim(value), Radix::Decimal) {
            Some(pid) => {
                let ghost before = found.pids@;
                found.pids.push(pid);
                assert(found.pids@ =~= before.push(pid));
                true
            },
            None => false,
        }
    } else if same_text(name, to_chars("_NET_WM_NAME").as_slice()) {
        if found.title.is_none() {
            found.title = Some(string_of(trim_matches(value, '"')));
        }
        true
    } else {
        true
    }
}

/// The properties that the output `stdout` of `xprop` tells: see
/// `window_properties`. There are none where a line names a process
/// identifier that is no number.
pub fn parse_window_properties(stdout: &str) -> (r: Option<WindowProperties>)
    ensures
        match (r, window_properties(stdout@)) {
            (Some(a), Some(b)) => a@ == b,
            (None, None) => true,
            _ => false,
        },
{
    let chars = to_chars(stdout);
    let ls = split_lines(chars.as_slice());
    let mut found = WindowProperties { title: None, class: None, pids: Vec::new() };
    let ghost all = lines(stdout@);
    let mut i: usize = 0;
    assert(all.skip(0) =~= all);
    assert(found@.pids =~= Seq::empty());
    while i < ls.len()
        invariant
            i <= ls@.len(),
            texts(ls@) == all,
            window_properties(stdout@) == after_lines(found@, all.skip(i as int)),
        decreases ls@.len() - i,
    {
        proof {
            let rest = all.skip(i as int);
            assert(rest[0] == ls@[i as int]@);
            assert(rest.skip(1) =~= all.skip(i + 1));
        }
        if !read_line(&mut found, ls[i].as_slice()) {
            return None;
        }
        i = i + 1;
    }
    assert(all.skip(i as int).len() == 0);
    Some(found)
}

} // verus!
