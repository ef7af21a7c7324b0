//! Reading a session log: a header of four magic bytes and a 32-bit version,
//! then records until the bytes end. A record is a 16-bit size, a type byte
//! and `size - 1` bytes of payload. Each record of a known type is decoded and
//! applied to the replay state; the location that the final state shows is
//! the result.

use crate::command::{decode_command, parse_command, SSNSCommand};
use crate::cursor::{
    parse_raw, parse_u16, parse_u32, parse_u8, read_raw, read_u16, read_u32, read_u8, Cursor,
};
use crate::state::{lemma_apply_keeps_wf, lemma_closed_stays_closed, ReplayState, StateView};
use vstd::prelude::*;

verus! {

/// The four bytes that a session log starts with: the letters `SNSS`.
pub const SNSS_HEADER: [u8; 4] = [0x53, 0x4E, 0x53, 0x53];

/// `log` starts with the four magic bytes.
pub open spec fn has_magic(log: Seq<u8>) -> bool {
    log.len() >= 4 && forall|j: int| 0 <= j < 4 ==> log[j] == SNSS_HEADER[j]
}

/// The version that the header of `log` holds, and the bytes after the
/// header. There is none where `log` does not start with the magic bytes or
/// ends before the version does.
pub open spec fn parse_header(log: Seq<u8>) -> Option<(u32, Seq<u8>)> {
    if has_magic(log) {
        parse_u32(log.skip(4))
    } else {
        None
    }
}

/// The record at the front of `s`: its type byte, its payload, and the bytes
/// after it. There is none where `s` ends before the record does, or where
/// the record's size is zero, which leaves no room for the type byte.
pub open spec fn parse_record(s: Seq<u8>) -> Option<(u8, Seq<u8>, Seq<u8>)> {
    match parse_u16(s) {
        Some((size, s1)) => match parse_u8(s1) {
            Some((type_id, s2)) => if size == 0 {
                None
            } else {
                match parse_raw(s2, size - 1) {
                    Some((payload, rest)) => Some((type_id, payload, rest)),
                    None => None,
                }
            },
            None => None,
        },
        None => None,
    }
}

/// The state that replaying the records of `log` makes of the state `s`.
/// The replay ends where no whole record is left, and where the payload of a
/// record of a known type is too short for its fields. A record of an unknown
/// type is passed over.
pub open spec fn replay(s: StateView, log: Seq<u8>) -> StateView
    decreases log.len(),
{
    match parse_record(log) {
        Some((type_id, payload, rest)) => match SSNSCommand::of(type_id) {
            Some(kind) => match parse_command(kind, payload) {
                Some(c) => replay(s.apply(c), rest),
                None => s,
            },
            None => replay(s, rest),
        },
        None => s,
    }
}

/// The bytes of `log` that a replay leaves unread: those from the first
/// record on that is not whole, or those after the first record of a known
/// type whose payload is too short for its fields.
pub open spec fn unread_after_replay(log: Seq<u8>) -> Seq<u8>
    decreases log.len(),
{
    match parse_record(log) {
        Some((type_id, payload, rest)) => match SSNSCommand::of(type_id) {
            Some(kind) => match parse_command(kind, payload) {
                Some(_) => unread_after_replay(rest),
                None => rest,
            },
            None => unread_after_replay(rest),
        },
        None => log,
    }
}

/// A replay keeps a state well formed: in every state that it reaches no
/// tab has two entries with one history index.
pub proof fn lemma_replay_keeps_wf(s: StateView, log: Seq<u8>)
    requires
        s.wf(),
    ensures
        replay(s, log).wf(),
    decreases log.len(),
{
    match parse_record(log) {
        Some((type_id, payload, rest)) => match SSNSCommand::of(type_id) {
            Some(kind) => match parse_command(kind, payload) {
                Some(c) => {
                    lemma_apply_keeps_wf(s, c);
                    lemma_replay_keeps_wf(s.apply(c), rest);
                },
                None => {},
            },
            None => {
                lemma_replay_keeps_wf(s, rest);
            },
        },
        None => {},
    }
}

/// A tab that is closed stays closed to the end of a replay, and so does a
/// window.
pub proof fn lemma_replay_keeps_closed(s: StateView, log: Seq<u8>, id: u32)
    ensures
        s.tabs.contains_key(id) && s.tabs[id].deleted ==> replay(s, log).tabs.contains_key(id)
            && replay(s, log).tabs[id].deleted,
        s.windows.contains_key(id) && s.windows[id].deleted ==> replay(
            s,
            log,
        ).windows.contains_key(id) && replay(s, log).windows[id].deleted,
    decreases log.len(),
{
    match parse_record(log) {
        Some((type_id, payload, rest)) => match SSNSCommand::of(type_id) {
            Some(kind) => match parse_command(kind, payload) {
                Some(c) => {
                    lemma_closed_stays_closed(s, c, id);
                    lemma_replay_keeps_closed(s.apply(c), rest, id);
                },
                None => {},
            },
            None => {
                lemma_replay_keeps_closed(s, rest, id);
            },
        },
        None => {},
    }
}

/// The location that the session log `log` shows. There is none where `log`
/// has no whole header, and where the state that its records leave shows
/// none.
pub open spec fn decode_log(log: Seq<u8>) -> Option<Seq<char>> {
    match parse_header(log) {
        Some((_, records)) => replay(StateView::empty(), records).active_url(),
        None => None,
    }
}

/// Reads the header and returns the version that it holds. On failure the
/// cursor stays where it was.
pub fn read_header(cur: &mut Cursor) -> (r: Option<u32>)
    ensures
        match parse_header(old(cur)@) {
            Some((version, rest)) => r == Some(version) && final(cur)@ == rest,
            None => r is None && final(cur)@ == old(cur)@,
        },
{
    let start = *cur;
    let mut i: usize = 0;
    while i < 4
        invariant
            i <= 4,
            start@ == old(cur)@,
            cur@ == start@.skip(i as int),
            start@.len() >= i,
            forall|j: int| 0 <= j < i ==> start@[j] == SNSS_HEADER[j],
        decreases 4 - i,
    {
        match read_u8(cur) {
            Some(b) => {
                if b != SNSS_HEADER[i] {
                    *cur = start;
                    return None;
                }
            },
            None => {
                *cur = start;
                return None;
            },
        }
        assert(start@.skip(i as int).skip(1) =~= start@.skip(i + 1));
        i = i + 1;
    }
    assert(has_magic(start@));
    match read_u32(cur) {
        Some(version) => Some(version),
        None => {
            *cur = start;
            None
        },
    }
}

/// Reads one record and returns its type byte and its payload. On failure
/// the cursor stays where it was.
pub fn read_record(cur: &mut Cursor) -> (r: Option<(u8, Vec<u8>)>)
    ensures
        match (parse_record(old(cur)@), r) {
            (Some((type_id, payload, rest)), Some(record)) => record.0 == type_id && record.1@
                == payload && final(cur)@ == rest,
            (None, None) => final(cur)@ == old(cur)@,
            _ => false,
        },
{
    let start = *cur;
    let size = match read_u16(cur) {
        Some(size) => size,
        None => {
            return None;
        },
    };
    let type_id = match read_u8(cur) {
        Some(type_id) => type_id,
        None => {
            *cur = start;
            return None;
        },
    };
    if size == 0 {
        *cur = start;
        return None;
    }
    match read_raw(cur, (size - 1) as usize) {
        Some(payload) => Some((type_id, payload)),
        None => {
            *cur = start;
            None
        },
    }
}

/// Replays the records that `cur` has not read yet: see `replay`.
pub fn replay_records(cur: &mut Cursor, state: &mut ReplayState)
    requires
        old(state).wf(),
    ensures
        final(state).wf(),
        final(state)@ == replay(old(state)@, old(cur)@),
        final(cur)@ == unread_after_replay(old(cur)@),
{
    loop
        invariant
            state.wf(),
            replay(state@, cur@) == replay(old(state)@, old(cur)@),
            unread_after_replay(cur@) == unread_after_replay(old(cur)@),
        decreases cur@.len(),
    {
        let (type_id, payload) = match read_record(cur) {
            Some(record) => record,
            None => {
                return ;
            },
        };
        match SSNSCommand::from_u8(type_id) {
            Some(kind) => match decode_command(kind, payload.as_slice()) {
                Some(cmd) => {
                    state.apply(cmd);
                },
                None => {
                    return ;
                },
            },
            None => {},
        }
    }
}

/// What a session log holds: the version from its header, and the state that
/// its records leave.
pub struct Session {
    pub version: u32,
    pub state: ReplayState,
}

/// Replays a whole session log. The result is `None` where `bytes` has no
/// whole header.
pub fn replay_log(bytes: &[u8]) -> (r: Option<Session>)
    ensures
        match (parse_header(bytes@), r) {
            (Some((version, records)), Some(session)) => session.version == version
                && session.state.wf() && session.state@ == replay(StateView::empty(), records),
            (None, None) => true,
            _ => false,
        },
{
    let mut cur = Cursor::new(bytes);
    let version = read_header(&mut cur)?;
    let mut state = ReplayState::new();
    replay_records(&mut cur, &mut state);
    Some(Session { version, state })
}

/// The location of the active tab that the session log `bytes` shows: see
/// `decode_log`.
pub fn decode(bytes: &[u8]) -> (r: Option<String>)
    ensures
        match decode_log(bytes@) {
            Some(url) => r is Some && r->0@ == url,
            None => r is None,
        },
{
    let session = replay_log(bytes)?;
    session.state.active_url()
}

} // verus!
