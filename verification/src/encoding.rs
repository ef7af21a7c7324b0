//! How a session log is written, and that reading undoes writing.
//!
//! The spec functions here build the bytes of integers, texts, records and
//! whole logs. The lemmas show that each reader of the `cursor`, `command` and
//! `snss` modules gets back what was written, whatever bytes follow.

use crate::command::{
    parse_command, parse_group_id, parse_metadata, parse_navigation, parse_set_tab_group,
    parse_u32_pair, parse_u32_pair_then, parse_u32_single, parse_url_title, CommandView,
    SSNSCommand,
};
use crate::cursor::{
    le_units, padded_len, parse_raw, parse_string, parse_string_16, parse_u16, parse_u32,
    parse_u64, parse_u8, utf16_text, utf8_text,
};
use crate::snss::{decode_log, has_magic, parse_header, parse_record, replay, SNSS_HEADER};
use crate::state::StateView;
use vstd::prelude::*;
use vstd::utf8::{encode_utf8, encode_utf8_decode_utf8, encode_utf8_valid_utf8};

verus! {

/// The two bytes of `v`, least significant first.
pub open spec fn u16_bytes(v: u16) -> Seq<u8> {
    seq![(v % 256) as u8, (v / 256) as u8]
}

/// The four bytes of `v`, least significant first.
pub open spec fn u32_bytes(v: u32) -> Seq<u8> {
    seq![
        (v % 256) as u8,
        (v / 256 % 256) as u8,
        (v / 65536 % 256) as u8,
        (v / 16777216) as u8,
    ]
}

/// The eight bytes of `v`, least significant first.
pub open spec fn u64_bytes(v: u64) -> Seq<u8> {
    u32_bytes((v % 4294967296) as u32) + u32_bytes((v / 4294967296) as u32)
}

/// The zero bytes that fill a field of `n` significant bytes up to a multiple
/// of four.
pub open spec fn padding(n: int) -> Seq<u8> {
    Seq::new((padded_len(n) - n) as nat, |i: int| 0u8)
}

/// The bytes of a sequence of 16-bit units, each least significant byte
/// first.
pub open spec fn units_bytes(units: Seq<u16>) -> Seq<u8> {
    Seq::new(
        2 * units.len(),
        |i: int|
            if i % 2 == 0 {
                (units[i / 2] % 256) as u8
            } else {
                (units[i / 2] / 256) as u8
            },
    )
}

/// A byte string as it is written: its length, its bytes, its padding.
pub open spec fn string_bytes(text: Seq<u8>) -> Seq<u8>
    recommends
        text.len() <= u32::MAX,
{
    u32_bytes(text.len() as u32) + text + padding(text.len() as int)
}

/// A wide string as it is written: its number of units, the bytes of its
/// units, its padding.
pub open spec fn string_16_bytes(units: Seq<u16>) -> Seq<u8>
    recommends
        units.len() <= u32::MAX,
{
    u32_bytes(units.len() as u32) + units_bytes(units) + padding(2 * (units.len() as int))
}

/// A byte that is written is read as it was.
pub proof fn lemma_read_u8(v: u8, rest: Seq<u8>)
    ensures
        parse_u8(seq![v] + rest) == Some((v, rest)),
{
    assert((seq![v] + rest).skip(1) =~= rest);
}

/// An integer of 16 bits that is written is read as it was.
pub proof fn lemma_read_u16(v: u16, rest: Seq<u8>)
    ensures
        parse_u16(u16_bytes(v) + rest) == Some((v, rest)),
{
    assert((u16_bytes(v) + rest).skip(2) =~= rest);
}

/// An integer of 32 bits that is written is read as it was.
pub proof fn lemma_read_u32(v: u32, rest: Seq<u8>)
    ensures
        parse_u32(u32_bytes(v) + rest) == Some((v, rest)),
{
    assert((u32_bytes(v) + rest).skip(4) =~= rest);
}

/// An integer of 64 bits that is written is read as it was.
pub proof fn lemma_read_u64(v: u64, rest: Seq<u8>)
    ensures
        parse_u64(u64_bytes(v) + rest) == Some((v, rest)),
{
    let lo = (v % 4294967296) as u32;
    let hi = (v / 4294967296) as u32;
    let s = u64_bytes(v) + rest;
    assert(s.skip(8) =~= rest);
    assert(s =~= u32_bytes(lo) + (u32_bytes(hi) + rest));
    assert(s.skip(4) =~= u32_bytes(hi) + rest);
    lemma_read_u32(lo, u32_bytes(hi) + rest);
    lemma_read_u32(hi, rest);
}

/// Bytes that are written are read as they were.
pub proof fn lemma_read_raw(bytes: Seq<u8>, rest: Seq<u8>)
    ensures
        parse_raw(bytes + rest, bytes.len() as int) == Some((bytes, rest)),
{
    assert((bytes + rest).take(bytes.len() as int) =~= bytes);
    assert((bytes + rest).skip(bytes.len() as int) =~= rest);
}

/// A byte string that is written is read as the text of its bytes, and its
/// padding is passed over.
pub proof fn lemma_read_string(text: Seq<u8>, rest: Seq<u8>)
    requires
        text.len() <= u32::MAX,
    ensures
        parse_string(string_bytes(text) + rest) == Some((utf8_text(text), rest)),
{
    let n = text.len() as u32;
    let body = text + padding(n as int) + rest;
    assert(string_bytes(text) + rest =~= u32_bytes(n) + body);
    lemma_read_u32(n, body);
    assert(body.take(n as int) =~= text);
    assert(body.skip(padded_len(n as int)) =~= rest);
}

/// A text that is written in UTF-8 is read as it was.
pub proof fn lemma_read_text(text: Seq<char>, rest: Seq<u8>)
    requires
        encode_utf8(text).len() <= u32::MAX,
    ensures
        parse_string(string_bytes(encode_utf8(text)) + rest) == Some((text, rest)),
{
    lemma_read_string(encode_utf8(text), rest);
    encode_utf8_valid_utf8(text);
    encode_utf8_decode_utf8(text);
}

/// A wide string that is written is read as the text of its units, and its
/// padding is passed over.
pub proof fn lemma_read_string_16(units: Seq<u16>, rest: Seq<u8>)
    requires
        units.len() <= u32::MAX,
    ensures
        parse_string_16(string_16_bytes(units) + rest) == Some((utf16_text(units), rest)),
{
    let n = units.len() as u32;
    let body = units_bytes(units) + padding(2 * (n as int)) + rest;
    assert(string_16_bytes(units) + rest =~= u32_bytes(n) + body);
    lemma_read_u32(n, body);
    assert(body.skip(padded_len(2 * (n as int))) =~= rest);
    assert forall|i: int| 0 <= i < n implies le_units(body, n as int)[i] == units[i] by {
        let at = body.skip(2 * i);
        assert(at[0] == body[2 * i] && at[1] == body[2 * i + 1]);
        assert(body[2 * i] == units_bytes(units)[2 * i]);
        assert(body[2 * i + 1] == units_bytes(units)[2 * i + 1]);
        assert((2 * i) % 2 == 0 && (2 * i) / 2 == i);
        assert((2 * i + 1) % 2 == 1 && (2 * i + 1) / 2 == i);
    }
    assert(le_units(body, n as int) =~= units);
}

/// A command as it is written: its texts are the bytes and the 16-bit units
/// that the log stores.
pub enum WireCommand {
    SetTabWindow { window_id: u32, tab_id: u32 },
    SetTabIndexInWindow { tab_id: u32, index: u32 },
    UpdateTabNavigation { tab_id: u32, history_index: u32, url: Seq<u8>, title: Seq<u16> },
    SetSelectedNavigationIndex { tab_id: u32, history_index: u32 },
    SetSelectedTabInIndex { window_id: u32, active_tab_index: u32 },
    SetActiveWindow { window_id: u32 },
    LastActiveTime,
    SetTabGroup { tab_id: u32, high: u64, low: u64 },
    SetTabGroupMetadata2 { high: u64, low: u64, name: Seq<u16> },
    TabClosed { tab_id: u32 },
    WindowClosed { window_id: u32 },
}

impl WireCommand {
    /// The command that a reader takes this one for.
    pub open spec fn meaning(self) -> CommandView {
        match self {
            WireCommand::SetTabWindow { window_id, tab_id } => CommandView::SetTabWindow {
                window_id,
                tab_id,
            },
            WireCommand::SetTabIndexInWindow { tab_id, index } => CommandView::SetTabIndexInWindow {
                tab_id,
                index,
            },
            WireCommand::UpdateTabNavigation {
                tab_id,
                history_index,
                url,
                title,
            } => CommandView::UpdateTabNavigation {
                tab_id,
                history_index,
                url: utf8_text(url),
                title: utf16_text(title),
            },
            WireCommand::SetSelectedNavigationIndex {
                tab_id,
                history_index,
            } => CommandView::SetSelectedNavigationIndex { tab_id, history_index },
            WireCommand::SetSelectedTabInIndex {
                window_id,
                active_tab_index,
            } => CommandView::SetSelectedTabInIndex { window_id, active_tab_index },
            WireCommand::SetActiveWindow { window_id } => CommandView::SetActiveWindow { window_id },
            WireCommand::LastActiveTime => CommandView::LastActiveTime,
            WireCommand::SetTabGroup { tab_id, high, low } => CommandView::SetTabGroup {
                tab_id,
                high,
                low,
            },
            WireCommand::SetTabGroupMetadata2 {
                high,
                low,
                name,
            } => CommandView::SetTabGroupMetadata2 { high, low, name: utf16_text(name) },
            WireCommand::TabClosed { tab_id } => CommandView::TabClosed { tab_id },
            WireCommand::WindowClosed { window_id } => CommandView::WindowClosed { window_id },
        }
    }

    /// The payload that holds this command. A size that the reader passes
    /// over is written as the number of payload bytes after it, and padding
    /// as zero.
    pub open spec fn payload(self) -> Seq<u8> {
        match self {
            WireCommand::SetTabWindow { window_id, tab_id } => u32_bytes(window_id) + u32_bytes(
                tab_id,
            ),
            WireCommand::SetTabIndexInWindow { tab_id, index } => u32_bytes(tab_id) + u32_bytes(
                index,
            ),
            WireCommand::UpdateTabNavigation { tab_id, history_index, url, title } => {
                let fields = u32_bytes(tab_id) + u32_bytes(history_index) + string_bytes(url)
                    + string_16_bytes(title);
                u32_bytes(fields.len() as u32) + fields
            },
            WireCommand::SetSelectedNavigationIndex { tab_id, history_index } => u32_bytes(tab_id)
                + u32_bytes(history_index),
            WireCommand::SetSelectedTabInIndex { window_id, active_tab_index } => u32_bytes(
                window_id,
            ) + u32_bytes(active_tab_index),
            WireCommand::SetActiveWindow { window_id } => u32_bytes(window_id),
            WireCommand::LastActiveTime => Seq::empty(),
            WireCommand::SetTabGroup { tab_id, high, low } => u32_bytes(tab_id) + u32_bytes(0)
                + u64_bytes(high) + u64_bytes(low),
            WireCommand::SetTabGroupMetadata2 { high, low, name } => {
                let fields = u64_bytes(high) + u64_bytes(low) + string_16_bytes(name);
                u32_bytes(fields.len() as u32) + fields
            },
            WireCommand::TabClosed { tab_id } => u32_bytes(tab_id),
            WireCommand::WindowClosed { window_id } => u32_bytes(window_id),
        }
    }

    /// The command can be written: its payload, with the type byte, has a
    /// size of 16 bits.
    pub open spec fn fits(self) -> bool {
        self.payload().len() + 1 <= u16::MAX
    }

    /// The record that holds this command.
    pub open spec fn record(self) -> Record {
        Record { type_id: self.meaning().kind().code(), payload: self.payload() }
    }
}

/// A record: a type byte and a payload.
pub struct Record {
    pub type_id: u8,
    pub payload: Seq<u8>,
}

impl Record {
    /// The record can be written: its size has 16 bits.
    pub open spec fn fits(self) -> bool {
        self.payload.len() + 1 <= u16::MAX
    }

    /// The record as it is written: its size, its type byte, its payload.
    pub open spec fn bytes(self) -> Seq<u8>
        recommends
            self.fits(),
    {
        u16_bytes((self.payload.len() + 1) as u16) + seq![self.type_id] + self.payload
    }
}

/// The bytes of the records `rs`, in their order.
pub open spec fn records_bytes(rs: Seq<Record>) -> Seq<u8>
    decreases rs.len(),
{
    if rs.len() == 0 {
        Seq::empty()
    } else {
        rs[0].bytes() + records_bytes(rs.skip(1))
    }
}

/// The records of `rs` whose type is known, in their order.
pub open spec fn known_records(rs: Seq<Record>) -> Seq<Record>
    decreases rs.len(),
{
    if rs.len() == 0 {
        Seq::empty()
    } else if SSNSCommand::is_known(rs[0].type_id) {
        seq![rs[0]] + known_records(rs.skip(1))
    } else {
        known_records(rs.skip(1))
    }
}

/// A session log as it is written: the magic bytes, the version, the
/// records.
pub open spec fn log_bytes(version: u32, rs: Seq<Record>) -> Seq<u8> {
    SNSS_HEADER@ + u32_bytes(version) + records_bytes(rs)
}

/// Reading a written command gives its meaning.
pub proof fn lemma_read_command(c: WireCommand)
    requires
        c.fits(),
    ensures
        parse_command(c.meaning().kind(), c.payload()) == Some(c.meaning()),
{
    reveal(parse_command);
    match c {
        WireCommand::SetTabWindow { window_id, tab_id } => {
            lemma_read_pair(window_id, tab_id);
        },
        WireCommand::SetTabIndexInWindow { tab_id, index } => {
            lemma_read_pair(tab_id, index);
        },
        WireCommand::SetSelectedNavigationIndex { tab_id, history_index } => {
            lemma_read_pair(tab_id, history_index);
        },
        WireCommand::SetSelectedTabInIndex { window_id, active_tab_index } => {
            lemma_read_pair(window_id, active_tab_index);
        },
        WireCommand::SetActiveWindow { window_id } => {
            lemma_read_single(window_id);
        },
        WireCommand::TabClosed { tab_id } => {
            lemma_read_single(tab_id);
        },
        WireCommand::WindowClosed { window_id } => {
            lemma_read_single(window_id);
        },
        WireCommand::LastActiveTime => {},
        WireCommand::SetTabGroup { tab_id, high, low } => {
            lemma_read_set_tab_group(tab_id, high, low);
        },
        WireCommand::SetTabGroupMetadata2 { high, low, name } => {
            lemma_read_metadata(high, low, name);
        },
        WireCommand::UpdateTabNavigation { tab_id, history_index, url, title } => {
            lemma_read_navigation(tab_id, history_index, url, title);
        },
    }
}

/// Reading a written `SetTabGroup`.
proof fn lemma_read_set_tab_group(tab_id: u32, high: u64, low: u64)
    ensures
        parse_set_tab_group(WireCommand::SetTabGroup { tab_id, high, low }.payload()) == Some(
            CommandView::SetTabGroup { tab_id, high, low },
        ),
{
    let e = Seq::<u8>::empty();
    let c = WireCommand::SetTabGroup { tab_id, high, low };
    let id = u32_bytes(0) + u64_bytes(high) + u64_bytes(low);
    assert(c.payload() =~= u32_bytes(tab_id) + id);
    lemma_read_u32(tab_id, id);
    lemma_read_group_id(0, high, low, e);
    assert(id + e =~= id);
}

/// Reading a written `SetTabGroupMetadata2`.
proof fn lemma_read_metadata(high: u64, low: u64, name: Seq<u16>)
    requires
        name.len() <= u32::MAX,
    ensures
        parse_metadata(WireCommand::SetTabGroupMetadata2 { high, low, name }.payload()) == Some(
            CommandView::SetTabGroupMetadata2 { high, low, name: utf16_text(name) },
        ),
{
    let e = Seq::<u8>::empty();
    let c = WireCommand::SetTabGroupMetadata2 { high, low, name };
    let text = string_16_bytes(name);
    let fields = u64_bytes(high) + u64_bytes(low) + text;
    let size = fields.len() as u32;
    assert(c.payload() =~= u32_bytes(size) + u64_bytes(high) + u64_bytes(low) + text);
    lemma_read_group_id(size, high, low, text);
    lemma_read_string_16(name, e);
    assert(text + e =~= text);
}

/// Reading a written `UpdateTabNavigation`.
proof fn lemma_read_navigation(tab_id: u32, history_index: u32, url: Seq<u8>, title: Seq<u16>)
    requires
        url.len() <= u32::MAX,
        title.len() <= u32::MAX,
    ensures
        parse_navigation(
            WireCommand::UpdateTabNavigation { tab_id, history_index, url, title }.payload(),
        ) == Some(
            CommandView::UpdateTabNavigation {
                tab_id,
                history_index,
                url: utf8_text(url),
                title: utf16_text(title),
            },
        ),
{
    let e = Seq::<u8>::empty();
    let c = WireCommand::UpdateTabNavigation { tab_id, history_index, url, title };
    let texts = string_bytes(url) + string_16_bytes(title);
    let q2 = u32_bytes(history_index) + texts;
    let q1 = u32_bytes(tab_id) + q2;
    let fields = u32_bytes(tab_id) + u32_bytes(history_index) + string_bytes(url)
        + string_16_bytes(title);
    let size = fields.len() as u32;
    assert(c.payload() =~= u32_bytes(size) + q1);
    lemma_read_u32(size, q1);
    lemma_read_pair_then(tab_id, history_index, texts);
    lemma_read_texts(url, title);
}

/// Reading two written 32-bit fields before other bytes.
proof fn lemma_read_pair_then(a: u32, b: u32, then: Seq<u8>)
    ensures
        parse_u32_pair_then(u32_bytes(a) + (u32_bytes(b) + then)) == Some((a, b, then)),
{
    lemma_read_u32(a, u32_bytes(b) + then);
    lemma_read_u32(b, then);
}

/// Reading a written location and title.
proof fn lemma_read_texts(url: Seq<u8>, title: Seq<u16>)
    requires
        url.len() <= u32::MAX,
        title.len() <= u32::MAX,
    ensures
        parse_url_title(string_bytes(url) + string_16_bytes(title)) == Some(
            (utf8_text(url), utf16_text(title)),
        ),
{
    let e = Seq::<u8>::empty();
    lemma_read_string(url, string_16_bytes(title));
    lemma_read_string_16(title, e);
    assert(string_16_bytes(title) + e =~= string_16_bytes(title));
}

/// Reading a payload of two 32-bit fields.
proof fn lemma_read_pair(a: u32, b: u32)
    ensures
        parse_u32_pair(u32_bytes(a) + u32_bytes(b)) == Some((a, b)),
{
    let e = Seq::<u8>::empty();
    lemma_read_u32(a, u32_bytes(b));
    lemma_read_u32(b, e);
    assert(u32_bytes(b) + e =~= u32_bytes(b));
}

/// Reading a payload of one 32-bit field.
proof fn lemma_read_single(a: u32)
    ensures
        parse_u32_single(u32_bytes(a)) == Some(a),
{
    let e = Seq::<u8>::empty();
    lemma_read_u32(a, e);
    assert(u32_bytes(a) + e =~= u32_bytes(a));
}

/// Reading a written group identifier after a 32-bit field.
proof fn lemma_read_group_id(skipped: u32, high: u64, low: u64, rest: Seq<u8>)
    ensures
        parse_group_id(u32_bytes(skipped) + u64_bytes(high) + u64_bytes(low) + rest) == Some(
            (high, low, rest),
        ),
{
    let q2 = u64_bytes(low) + rest;
    let q1 = u64_bytes(high) + q2;
    assert(u32_bytes(skipped) + u64_bytes(high) + u64_bytes(low) + rest =~= u32_bytes(skipped)
        + q1);
    lemma_read_u32(skipped, q1);
    lemma_read_u64(high, q2);
    lemma_read_u64(low, rest);
}

/// Reading a written record gives its type byte and its payload, and leaves
/// what follows it.
pub proof fn lemma_read_record(r: Record, rest: Seq<u8>)
    requires
        r.fits(),
    ensures
        parse_record(r.bytes() + rest) == Some((r.type_id, r.payload, rest)),
{
    let size = (r.payload.len() + 1) as u16;
    let s2 = r.payload + rest;
    let s1 = seq![r.type_id] + s2;
    assert(r.bytes() + rest =~= u16_bytes(size) + s1);
    lemma_read_u16(size, s1);
    lemma_read_u8(r.type_id, s2);
    lemma_read_raw(r.payload, rest);
}

/// Reading a written header gives its version, and leaves what follows it.
pub proof fn lemma_read_header(version: u32, rest: Seq<u8>)
    ensures
        parse_header(SNSS_HEADER@ + u32_bytes(version) + rest) == Some((version, rest)),
{
    let log = SNSS_HEADER@ + u32_bytes(version) + rest;
    assert(has_magic(log));
    assert(log.skip(4) =~= u32_bytes(version) + rest);
    lemma_read_u32(version, rest);
}

/// The meanings of the written commands `cs`, in their order.
pub open spec fn meanings(cs: Seq<WireCommand>) -> Seq<CommandView> {
    Seq::new(cs.len(), |i: int| cs[i].meaning())
}

/// The records that hold the written commands `cs`, in their order.
pub open spec fn command_records(cs: Seq<WireCommand>) -> Seq<Record> {
    Seq::new(cs.len(), |i: int| cs[i].record())
}

/// Replaying the records of written commands applies the commands, and goes
/// on with the bytes that follow the records.
pub proof fn lemma_replay_of_written_commands(s: StateView, cs: Seq<WireCommand>, tail: Seq<u8>)
    requires
        forall|i: int| 0 <= i < cs.len() ==> (#[trigger] cs[i]).fits(),
    ensures
        replay(s, records_bytes(command_records(cs)) + tail) == replay(
            s.apply_all(meanings(cs)),
            tail,
        ),
    decreases cs.len(),
{
    let rs = command_records(cs);
    if cs.len() == 0 {
        assert(records_bytes(rs) + tail =~= tail);
    } else {
        let c = cs[0];
        let rest = records_bytes(rs.skip(1)) + tail;
        assert(c.fits());
        assert(rs[0] == c.record());
        assert(records_bytes(rs) + tail =~= c.record().bytes() + rest);
        lemma_read_record(c.record(), rest);
        SSNSCommand::lemma_code_is_injective(c.meaning().kind(), c.meaning().kind());
        lemma_read_command(c);
        assert(rs.skip(1) =~= command_records(cs.skip(1)));
        assert(meanings(cs).skip(1) =~= meanings(cs.skip(1)));
        lemma_replay_of_written_commands(s.apply(c.meaning()), cs.skip(1), tail);
    }
}

/// A log that is written from a sequence of commands shows what the state
/// shows that the commands make, one after the other, of the empty state.
pub proof fn lemma_decode_of_written_log(version: u32, cs: Seq<WireCommand>)
    requires
        forall|i: int| 0 <= i < cs.len() ==> (#[trigger] cs[i]).fits(),
    ensures
        decode_log(log_bytes(version, command_records(cs))) == StateView::empty().apply_all(
            meanings(cs),
        ).active_url(),
{
    let e = Seq::<u8>::empty();
    let records = records_bytes(command_records(cs));
    lemma_read_header(version, records);
    lemma_replay_of_written_commands(StateView::empty(), cs, e);
    assert(records + e =~= records);
    assert(parse_record(e) is None);
}

/// Replaying goes past records of unknown types as if they were not there.
pub proof fn lemma_replay_ignores_unknown_records(s: StateView, rs: Seq<Record>, tail: Seq<u8>)
    requires
        forall|i: int| 0 <= i < rs.len() ==> (#[trigger] rs[i]).fits(),
    ensures
        replay(s, records_bytes(rs) + tail) == replay(s, records_bytes(known_records(rs)) + tail),
    decreases rs.len(),
{
    if rs.len() > 0 {
        let r = rs[0];
        let rest = records_bytes(rs.skip(1)) + tail;
        let known_rest = records_bytes(known_records(rs.skip(1))) + tail;
        assert(r.fits());
        assert(records_bytes(rs) + tail =~= r.bytes() + rest);
        lemma_read_record(r, rest);
        assert forall|i: int| 0 <= i < rs.skip(1).len() implies (#[trigger] rs.skip(1)[i]).fits() by {
            assert(rs.skip(1)[i] == rs[i + 1]);
        }
        match SSNSCommand::of(r.type_id) {
            Some(kind) => {
                let ks = known_records(rs);
                assert(ks[0] == r);
                assert(ks.skip(1) =~= known_records(rs.skip(1)));
                assert(records_bytes(ks) + tail =~= r.bytes() + known_rest);
                lemma_read_record(r, known_rest);
                match parse_command(kind, r.payload) {
                    Some(c) => {
                        lemma_replay_ignores_unknown_records(s.apply(c), rs.skip(1), tail);
                    },
                    None => {},
                }
            },
            None => {
                lemma_replay_ignores_unknown_records(s, rs.skip(1), tail);
            },
        }
    }
}

/// Records of unknown types do not change what a log shows: the log shows
/// the same with them and without them, whatever bytes follow the records.
pub proof fn lemma_decode_ignores_unknown_records(version: u32, rs: Seq<Record>, tail: Seq<u8>)
    requires
        forall|i: int| 0 <= i < rs.len() ==> (#[trigger] rs[i]).fits(),
    ensures
        decode_log(log_bytes(version, rs) + tail) == decode_log(
            log_bytes(version, known_records(rs)) + tail,
        ),
{
    let all = records_bytes(rs) + tail;
    let known = records_bytes(known_records(rs)) + tail;
    assert(log_bytes(version, rs) + tail =~= SNSS_HEADER@ + u32_bytes(version) + all);
    assert(log_bytes(version, known_records(rs)) + tail =~= SNSS_HEADER@ + u32_bytes(version)
        + known);
    lemma_read_header(version, all);
    lemma_read_header(version, known);
    lemma_replay_ignores_unknown_records(StateView::empty(), rs, tail);
}

/// What a log shows depends on its bytes alone: two logs of the same bytes
/// show the same.
pub proof fn lemma_decode_is_a_function_of_the_bytes(a: Seq<u8>, b: Seq<u8>)
    requires
        a =~= b,
    ensures
        decode_log(a) == decode_log(b),
{
}

} // verus!
