//! The commands of a session log: the kinds that the replay understands, the
//! type byte of each, and the fields that each carries in its payload.

use crate::cursor::{
    parse_string, parse_string_16, parse_u32, parse_u64, read_string, read_string_16, read_u32,
    read_u64, Cursor,
};
use vstd::prelude::*;

verus! {

/// The kinds of session command that the replay understands.
#[derive(Debug, Clone, Copy, PartialEq, Eq, Structural)]
pub enum SSNSCommand {
    SetTabWindow,
    SetTabIndexInWindow,
    UpdateTabNavigation,
    SetSelectedNavigationIndex,
    SetSelectedTabInIndex,
    SetActiveWindow,
    LastActiveTime,
    SetTabGroup,
    SetTabGroupMetadata2,
    TabClosed,
    WindowClosed,
}

impl SSNSCommand {
    /// The type byte under which the session log stores this kind of command.
    pub open spec fn code(self) -> u8 {
        match self {
            SSNSCommand::SetTabWindow => 0,
            SSNSCommand::SetTabIndexInWindow => 2,
            SSNSCommand::UpdateTabNavigation => 6,
            SSNSCommand::SetSelectedNavigationIndex => 7,
            SSNSCommand::SetSelectedTabInIndex => 8,
            SSNSCommand::TabClosed => 16,
            SSNSCommand::WindowClosed => 17,
            SSNSCommand::SetActiveWindow => 20,
            SSNSCommand::LastActiveTime => 21,
            SSNSCommand::SetTabGroup => 25,
            SSNSCommand::SetTabGroupMetadata2 => 27,
        }
    }

    /// Whether some kind of command is stored under the type byte `val`.
    pub open spec fn is_known(val: u8) -> bool {
        exists|c: SSNSCommand| c.code() == val
    }

    /// The kind of command stored under the type byte `val`, if there is one.
    pub open spec fn of(val: u8) -> Option<SSNSCommand> {
        if Self::is_known(val) {
            Some(choose|c: SSNSCommand| c.code() == val)
        } else {
            None
        }
    }

    /// No two kinds share a type byte, so `of` undoes `code`.
    pub proof fn lemma_code_is_injective(a: SSNSCommand, b: SSNSCommand)
        ensures
            a.code() == b.code() ==> a == b,
            Self::of(a.code()) == Some(a),
    {
        assert(Self::is_known(a.code()));
    }

    /// The kind of command stored under the type byte `val`, if there is one.
    pub fn from_u8(val: u8) -> (r: Option<SSNSCommand>)
        ensures
            r == Self::of(val),
            r matches Some(c) ==> c.code() == val,
    {
        let r = match val {
            0 => Some(SSNSCommand::SetTabWindow),
            2 => Some(SSNSCommand::SetTabIndexInWindow),
            6 => Some(SSNSCommand::UpdateTabNavigation),
            7 => Some(SSNSCommand::SetSelectedNavigationIndex),
            8 => Some(SSNSCommand::SetSelectedTabInIndex),
            16 => Some(SSNSCommand::TabClosed),
            17 => Some(SSNSCommand::WindowClosed),
            20 => Some(SSNSCommand::SetActiveWindow),
            21 => Some(SSNSCommand::LastActiveTime),
            25 => Some(SSNSCommand::SetTabGroup),
            27 => Some(SSNSCommand::SetTabGroupMetadata2),
            _ => None,
        };
        proof {
            match r {
                Some(c) => {
                    Self::lemma_code_is_injective(c, c);
                },
                None => {
                    assert forall|c: SSNSCommand| c.code() != val by {}
                },
            }
        }
        r
    }
}

/// A command with the fields that its payload carries.
pub enum Command {
    SetTabWindow { window_id: u32, tab_id: u32 },
    SetTabIndexInWindow { tab_id: u32, index: u32 },
    UpdateTabNavigation { tab_id: u32, history_index: u32, url: String, title: String },
    SetSelectedNavigationIndex { tab_id: u32, history_index: u32 },
    SetSelectedTabInIndex { window_id: u32, active_tab_index: u32 },
    SetActiveWindow { window_id: u32 },
    LastActiveTime,
    SetTabGroup { tab_id: u32, high: u64, low: u64 },
    SetTabGroupMetadata2 { high: u64, low: u64, name: String },
    TabClosed { tab_id: u32 },
    WindowClosed { window_id: u32 },
}

/// A command as a mathematical value: its texts are sequences of characters.
pub enum CommandView {
    SetTabWindow { window_id: u32, tab_id: u32 },
    SetTabIndexInWindow { tab_id: u32, index: u32 },
    UpdateTabNavigation { tab_id: u32, history_index: u32, url: Seq<char>, title: Seq<char> },
    SetSelectedNavigationIndex { tab_id: u32, history_index: u32 },
    SetSelectedTabInIndex { window_id: u32, active_tab_index: u32 },
    SetActiveWindow { window_id: u32 },
    LastActiveTime,
    SetTabGroup { tab_id: u32, high: u64, low: u64 },
    SetTabGroupMetadata2 { high: u64, low: u64, name: Seq<char> },
    TabClosed { tab_id: u32 },
    WindowClosed { window_id: u32 },
}

impl View for Command {
    type V = CommandView;

    open spec fn view(&self) -> CommandView {
        match *self {
            Command::SetTabWindow { window_id, tab_id } => CommandView::SetTabWindow {
                window_id,
                tab_id,
            },
            Command::SetTabIndexInWindow { tab_id, index } => CommandView::SetTabIndexInWindow {
                tab_id,
                index,
            },
            Command::UpdateTabNavigation {
                tab_id,
                history_index,
                url,
                title,
            } => CommandView::UpdateTabNavigation {
                tab_id,
                history_index,
                url: url@,
                title: title@,
            },
            Command::SetSelectedNavigationIndex {
                tab_id,
                history_index,
            } => CommandView::SetSelectedNavigationIndex { tab_id, history_index },
            Command::SetSelectedTabInIndex {
                window_id,
                active_tab_index,
            } => CommandView::SetSelectedTabInIndex { window_id, active_tab_index },
            Command::SetActiveWindow { window_id } => CommandView::SetActiveWindow { window_id },
            Command::LastActiveTime => CommandView::LastActiveTime,
            Command::SetTabGroup { tab_id, high, low } => CommandView::SetTabGroup {
                tab_id,
                high,
                low,
            },
            Command::SetTabGroupMetadata2 { high, low, name } => CommandView::SetTabGroupMetadata2 {
                high,
                low,
                name: name@,
            },
            Command::TabClosed { tab_id } => CommandView::TabClosed { tab_id },
            Command::WindowClosed { window_id } => CommandView::WindowClosed { window_id },
        }
    }
}

impl CommandView {
    /// The kind of this command.
    pub open spec fn kind(self) -> SSNSCommand {
        match self {
            CommandView::SetTabWindow { .. } => SSNSCommand::SetTabWindow,
            CommandView::SetTabIndexInWindow { .. } => SSNSCommand::SetTabIndexInWindow,
            CommandView::UpdateTabNavigation { .. } => SSNSCommand::UpdateTabNavigation,
            CommandView::SetSelectedNavigationIndex { .. } => SSNSCommand::SetSelectedNavigationIndex,
            CommandView::SetSelectedTabInIndex { .. } => SSNSCommand::SetSelectedTabInIndex,
            CommandView::SetActiveWindow { .. } => SSNSCommand::SetActiveWindow,
            CommandView::LastActiveTime => SSNSCommand::LastActiveTime,
            CommandView::SetTabGroup { .. } => SSNSCommand::SetTabGroup,
            CommandView::SetTabGroupMetadata2 { .. } => SSNSCommand::SetTabGroupMetadata2,
            CommandView::TabClosed { .. } => SSNSCommand::TabClosed,
            CommandView::WindowClosed { .. } => SSNSCommand::WindowClosed,
        }
    }
}

/// Two 32-bit fields at the front of a payload.
pub open spec fn parse_u32_pair(p: Seq<u8>) -> Option<(u32, u32)> {
    match parse_u32(p) {
        Some((a, rest)) => match parse_u32(rest) {
            Some((b, _)) => Some((a, b)),
            None => None,
        },
        None => None,
    }
}

/// One 32-bit field at the front of a payload.
pub open spec fn parse_u32_single(p: Seq<u8>) -> Option<u32> {
    match parse_u32(p) {
        Some((a, _)) => Some(a),
        None => None,
    }
}

/// A 32-bit field that is passed over, then two 64-bit fields: the two halves
/// of a group's identifier, high half first.
pub open spec fn parse_group_id(p: Seq<u8>) -> Option<(u64, u64, Seq<u8>)> {
    match parse_u32(p) {
        Some((_, q1)) => match parse_u64(q1) {
            Some((high, q2)) => match parse_u64(q2) {
                Some((low, rest)) => Some((high, low, rest)),
                None => None,
            },
            None => None,
        },
        None => None,
    }
}

/// A text as bytes, then a text as 16-bit units.
pub open spec fn parse_url_title(p: Seq<u8>) -> Option<(Seq<char>, Seq<char>)> {
    match parse_string(p) {
        Some((url, rest)) => match parse_string_16(rest) {
            Some((title, _)) => Some((url, title)),
            None => None,
        },
        None => None,
    }
}

/// The fields of `UpdateTabNavigation`.
pub open spec fn parse_navigation(p: Seq<u8>) -> Option<CommandView> {
    match parse_u32(p) {
        Some((_, q1)) => match parse_u32_pair_then(q1) {
            Some((tab_id, history_index, q3)) => match parse_url_title(q3) {
                Some((url, title)) => Some(
                    CommandView::UpdateTabNavigation { tab_id, history_index, url, title },
                ),
                None => None,
            },
            None => None,
        },
        None => None,
    }
}

/// Two 32-bit fields, and what follows them.
pub open spec fn parse_u32_pair_then(p: Seq<u8>) -> Option<(u32, u32, Seq<u8>)> {
    match parse_u32(p) {
        Some((a, rest)) => match parse_u32(rest) {
            Some((b, then)) => Some((a, b, then)),
            None => None,
        },
        None => None,
    }
}

/// The fields of `SetTabGroup`.
pub open spec fn parse_set_tab_group(p: Seq<u8>) -> Option<CommandView> {
    match parse_u32(p) {
        Some((tab_id, q1)) => match parse_group_id(q1) {
            Some((high, low, _)) => Some(CommandView::SetTabGroup { tab_id, high, low }),
            None => None,
        },
        None => None,
    }
}

/// The fields of `SetTabGroupMetadata2`.
pub open spec fn parse_metadata(p: Seq<u8>) -> Option<CommandView> {
    match parse_group_id(p) {
        Some((high, low, q1)) => match parse_string_16(q1) {
            Some((name, _)) => Some(CommandView::SetTabGroupMetadata2 { high, low, name }),
            None => None,
        },
        None => None,
    }
}

/// The command of kind `kind` that the payload `p` holds, or `None` where the
/// payload is too short for the fields of that kind. Bytes after the last
/// field are not looked at.
///
/// - `SetTabWindow`: window, tab.
/// - `SetTabIndexInWindow`: tab, index.
/// - `UpdateTabNavigation`: a 32-bit size that is passed over, tab, history
///   index, location as a byte string, title as a wide string.
/// - `SetSelectedNavigationIndex`: tab, history index.
/// - `SetSelectedTabInIndex`: window, index of the active tab.
/// - `SetActiveWindow`, `WindowClosed`: window.
/// - `TabClosed`: tab.
/// - `LastActiveTime`: nothing is read.
/// - `SetTabGroup`: tab, and the identifier of a group after four bytes of
///   padding.
/// - `SetTabGroupMetadata2`: the identifier of a group after a 32-bit size,
///   then the group's name as a wide string.
#[verifier::opaque]
pub open spec fn parse_command(kind: SSNSCommand, p: Seq<u8>) -> Option<CommandView> {
    match kind {
        SSNSCommand::SetTabWindow => match parse_u32_pair(p) {
            Some((window_id, tab_id)) => Some(CommandView::SetTabWindow { window_id, tab_id }),
            None => None,
        },
        SSNSCommand::SetTabIndexInWindow => match parse_u32_pair(p) {
            Some((tab_id, index)) => Some(CommandView::SetTabIndexInWindow { tab_id, index }),
            None => None,
        },
        SSNSCommand::UpdateTabNavigation => parse_navigation(p),
        SSNSCommand::SetSelectedNavigationIndex => match parse_u32_pair(p) {
            Some((tab_id, history_index)) => Some(
                CommandView::SetSelectedNavigationIndex { tab_id, history_index },
            ),
            None => None,
        },
        SSNSCommand::SetSelectedTabInIndex => match parse_u32_pair(p) {
            Some((window_id, active_tab_index)) => Some(
                CommandView::SetSelectedTabInIndex { window_id, active_tab_index },
            ),
            None => None,
        },
        SSNSCommand::SetActiveWindow => match parse_u32_single(p) {
            Some(window_id) => Some(CommandView::SetActiveWindow { window_id }),
            None => None,
        },
        SSNSCommand::LastActiveTime => Some(CommandView::LastActiveTime),
        SSNSCommand::SetTabGroup => parse_set_tab_group(p),
        SSNSCommand::SetTabGroupMetadata2 => parse_metadata(p),
        SSNSCommand::TabClosed => match parse_u32_single(p) {
            Some(tab_id) => Some(CommandView::TabClosed { tab_id }),
            None => None,
        },
        SSNSCommand::WindowClosed => match parse_u32_single(p) {
            Some(window_id) => Some(CommandView::WindowClosed { window_id }),
            None => None,
        },
    }
}

/// What `decode_command` owes for a payload whose parse is `expect`.
pub open spec fn decodes(expect: Option<CommandView>, got: Option<Command>) -> bool {
    match expect {
        Some(c) => got is Some && got->0@ == c,
        None => got is None,
    }
}

/// Reads the fields of a command of kind `kind` from its payload.
pub fn decode_command(kind: SSNSCommand, payload: &[u8]) -> (r: Option<Command>)
    ensures
        decodes(parse_command(kind, payload@), r),
{
    reveal(parse_command);
    let mut cur = Cursor::new(payload);
    match kind {
        SSNSCommand::SetTabWindow => {
            let window_id = read_u32(&mut cur)?;
            let tab_id = read_u32(&mut cur)?;
            Some(Command::SetTabWindow { window_id, tab_id })
        },
        SSNSCommand::SetTabIndexInWindow => {
            let tab_id = read_u32(&mut cur)?;
            let index = read_u32(&mut cur)?;
            Some(Command::SetTabIndexInWindow { tab_id, index })
        },
        SSNSCommand::UpdateTabNavigation => {
            let _size = read_u32(&mut cur)?;
            let tab_id = read_u32(&mut cur)?;
            let history_index = read_u32(&mut cur)?;
            let url = read_string(&mut cur)?;
            let title = read_string_16(&mut cur)?;
            Some(Command::UpdateTabNavigation { tab_id, history_index, url, title })
        },
        SSNSCommand::SetSelectedNavigationIndex => {
            let tab_id = read_u32(&mut cur)?;
            let history_index = read_u32(&mut cur)?;
            Some(Command::SetSelectedNavigationIndex { tab_id, history_index })
        },
        SSNSCommand::SetSelectedTabInIndex => {
            let window_id = read_u32(&mut cur)?;
            let active_tab_index = read_u32(&mut cur)?;
            Some(Command::SetSelectedTabInIndex { window_id, active_tab_index })
        },
        SSNSCommand::SetActiveWindow => {
            let window_id = read_u32(&mut cur)?;
            Some(Command::SetActiveWindow { window_id })
        },
        SSNSCommand::LastActiveTime => Some(Command::LastActiveTime),
        SSNSCommand::SetTabGroup => {
            let tab_id = read_u32(&mut cur)?;
            let _padding = read_u32(&mut cur)?;
            let high = read_u64(&mut cur)?;
            let low = read_u64(&mut cur)?;
            Some(Command::SetTabGroup { tab_id, high, low })
        },
        SSNSCommand::SetTabGroupMetadata2 => {
            let _size = read_u32(&mut cur)?;
            let high = read_u64(&mut cur)?;
            let low = read_u64(&mut cur)?;
            let name = read_string_16(&mut cur)?;
            Some(Command::SetTabGroupMetadata2 { high, low, name })
        },
        SSNSCommand::TabClosed => {
            let tab_id = read_u32(&mut cur)?;
            Some(Command::TabClosed { tab_id })
        },
        SSNSCommand::WindowClosed => {
            let window_id = read_u32(&mut cur)?;
            Some(Command::WindowClosed { window_id })
        },
    }
}

} // verus!
