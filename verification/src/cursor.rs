//! A read cursor over a byte buffer, and the primitive readers of the session
//! log format: little-endian integers, raw byte runs, and the two kinds of
//! length-prefixed strings whose stored bytes are padded to a multiple of four.
//!
//! Every reader is specified by a `parse_*` spec function on the sequence of
//! unread bytes. Such a function yields the decoded value together with the
//! bytes that stay unread, or `None` where the input is too short.

use crate::text::string_of;
use vstd::prelude::*;
use vstd::utf8::{decode_utf8, valid_utf8};

verus! {

/// The value of the two bytes at the front of `s`, least significant first.
pub open spec fn le_u16(s: Seq<u8>) -> int
    recommends
        s.len() >= 2,
{
    s[0] as int + 256 * (s[1] as int)
}

/// The value of the four bytes at the front of `s`, least significant first.
pub open spec fn le_u32(s: Seq<u8>) -> int
    recommends
        s.len() >= 4,
{
    s[0] as int + 256 * (s[1] as int) + 65536 * (s[2] as int) + 16777216 * (s[3] as int)
}

/// The value of the eight bytes at the front of `s`, least significant first.
pub open spec fn le_u64(s: Seq<u8>) -> int
    recommends
        s.len() >= 8,
{
    le_u32(s) + 4294967296 * le_u32(s.skip(4))
}

/// The number of bytes that a field of `n` significant bytes occupies: `n`
/// rounded up to the next multiple of four.
pub open spec fn padded_len(n: int) -> int {
    (n + 3) / 4 * 4
}

/// The first `count` 16-bit units of `s`, each stored least significant byte
/// first.
pub open spec fn le_units(s: Seq<u8>, count: int) -> Seq<u16>
    recommends
        0 <= 2 * count <= s.len(),
{
    Seq::new(count as nat, |i: int| le_u16(s.skip(2 * i)) as u16)
}

/// The text that `String::from_utf8_lossy` makes of a byte sequence.
pub uninterp spec fn utf8_lossy(bytes: Seq<u8>) -> Seq<char>;

/// The text that `bytes` hold: the characters that they encode where they
/// are valid UTF-8, and else what `String::from_utf8_lossy` makes of them,
/// which puts U+FFFD in place of what is not valid.
pub open spec fn utf8_text(bytes: Seq<u8>) -> Seq<char> {
    if valid_utf8(bytes) {
        decode_utf8(bytes)
    } else {
        utf8_lossy(bytes)
    }
}

/// `u` is the first half of a pair of surrogates.
pub open spec fn is_high_surrogate(u: u16) -> bool {
    0xD800 <= u <= 0xDBFF
}

/// `u` is the second half of a pair of surrogates.
pub open spec fn is_low_surrogate(u: u16) -> bool {
    0xDC00 <= u <= 0xDFFF
}

/// The character that the pair of surrogates `high`, `low` encodes.
pub open spec fn surrogate_pair(high: u16, low: u16) -> char {
    (0x10000 + (high - 0xD800) * 0x400 + (low - 0xDC00)) as char
}

/// The text that the units `units` hold in UTF-16. A unit that is no
/// surrogate is a character; a first half and the second half after it are
/// one character; U+FFFD stands for every other unit.
pub open spec fn utf16_text(units: Seq<u16>) -> Seq<char>
    decreases units.len(),
{
    if units.len() == 0 {
        Seq::empty()
    } else if !is_high_surrogate(units[0]) && !is_low_surrogate(units[0]) {
        seq![units[0] as char] + utf16_text(units.skip(1))
    } else if is_high_surrogate(units[0]) && units.len() >= 2 && is_low_surrogate(units[1]) {
        seq![surrogate_pair(units[0], units[1])] + utf16_text(units.skip(2))
    } else {
        seq!['\u{FFFD}'] + utf16_text(units.skip(1))
    }
}

/// One byte.
pub open spec fn parse_u8(s: Seq<u8>) -> Option<(u8, Seq<u8>)> {
    if s.len() >= 1 {
        Some((s[0], s.skip(1)))
    } else {
        None
    }
}

/// An integer of 16 bits, least significant byte first.
pub open spec fn parse_u16(s: Seq<u8>) -> Option<(u16, Seq<u8>)> {
    if s.len() >= 2 {
        Some((le_u16(s) as u16, s.skip(2)))
    } else {
        None
    }
}

/// An integer of 32 bits, least significant byte first.
pub open spec fn parse_u32(s: Seq<u8>) -> Option<(u32, Seq<u8>)> {
    if s.len() >= 4 {
        Some((le_u32(s) as u32, s.skip(4)))
    } else {
        None
    }
}

/// An integer of 64 bits, least significant byte first.
pub open spec fn parse_u64(s: Seq<u8>) -> Option<(u64, Seq<u8>)> {
    if s.len() >= 8 {
        Some((le_u64(s) as u64, s.skip(8)))
    } else {
        None
    }
}

/// The next `n` bytes as they are.
pub open spec fn parse_raw(s: Seq<u8>, n: int) -> Option<(Seq<u8>, Seq<u8>)> {
    if 0 <= n <= s.len() {
        Some((s.take(n), s.skip(n)))
    } else {
        None
    }
}

/// A byte string: a 32-bit byte length `n`, then `padded_len(n)` bytes of
/// which the first `n` are the text, read as UTF-8 with invalid sequences
/// replaced.
pub open spec fn parse_string(s: Seq<u8>) -> Option<(Seq<char>, Seq<u8>)> {
    match parse_u32(s) {
        Some((n, body)) => {
            if padded_len(n as int) <= body.len() {
                Some((utf8_text(body.take(n as int)), body.skip(padded_len(n as int))))
            } else {
                None
            }
        },
        None => None,
    }
}

/// A wide string: a 32-bit count `n` of 16-bit units, then `padded_len(2 * n)`
/// bytes of which the first `2 * n` hold the units, read as UTF-16 with
/// unpaired surrogates replaced.
pub open spec fn parse_string_16(s: Seq<u8>) -> Option<(Seq<char>, Seq<u8>)> {
    match parse_u32(s) {
        Some((n, body)) => {
            if padded_len(2 * (n as int)) <= body.len() {
                Some(
                    (
                        utf16_text(le_units(body, n as int)),
                        body.skip(padded_len(2 * (n as int))),
                    ),
                )
            } else {
                None
            }
        },
        None => None,
    }
}

/// What a reader owes: with `expect` the parse of the unread bytes `before`,
/// a successful parse hands out its value and leaves its rest unread, and a
/// failed one hands out nothing and leaves the cursor where it was.
pub open spec fn reads<T>(
    before: Seq<u8>,
    expect: Option<(T, Seq<u8>)>,
    got: Option<T>,
    after: Seq<u8>,
) -> bool {
    match expect {
        Some((v, rest)) => got == Some(v) && after == rest,
        None => got is None && after == before,
    }
}

/// The same for a reader of text, whose value is compared by its characters.
pub open spec fn reads_text(
    before: Seq<u8>,
    expect: Option<(Seq<char>, Seq<u8>)>,
    got: Option<String>,
    after: Seq<u8>,
) -> bool {
    match expect {
        Some((v, rest)) => got is Some && got->0@ == v && after == rest,
        None => got is None && after == before,
    }
}

/// Rounding up to a multiple of four adds at most three bytes.
pub proof fn lemma_padded_len(n: int)
    requires
        0 <= n,
    ensures
        padded_len(n) % 4 == 0,
        n <= padded_len(n) < n + 4,
        n % 4 == 0 ==> padded_len(n) == n,
{
}

/// A position in a borrowed byte buffer. Its view is the sequence of bytes
/// not yet read.
#[derive(Clone, Copy)]
pub struct Cursor<'a> {
    data: &'a [u8],
    pos: usize,
}

impl<'a> View for Cursor<'a> {
    type V = Seq<u8>;

    closed spec fn view(&self) -> Seq<u8> {
        self.data@.skip(self.pos as int)
    }
}

impl<'a> Cursor<'a> {
    /// The position is in the buffer or at its end.
    #[verifier::type_invariant]
    spec fn in_bounds(&self) -> bool {
        self.pos <= self.data@.len()
    }

    /// A cursor at the start of `data`.
    pub fn new(data: &'a [u8]) -> (c: Self)
        ensures
            c@ == data@,
    {
        Cursor { data, pos: 0 }
    }

    /// The number of bytes not yet read.
    pub fn remaining(&self) -> (n: usize)
        ensures
            n == self@.len(),
    {
        proof {
            use_type_invariant(self);
            assert(self.data@.len() == self.data.len());
        }
        self.data.len() - self.pos
    }

    /// The unread byte at offset `i`.
    fn peek(&self, i: usize) -> (b: u8)
        requires
            i < self@.len(),
        ensures
            b == self@[i as int],
    {
        proof {
            use_type_invariant(self);
            assert(self.data@.len() == self.data.len());
        }
        self.data[self.pos + i]
    }

    /// Moves past the next `n` bytes.
    fn advance(&mut self, n: usize)
        requires
            n <= old(self)@.len(),
        ensures
            final(self)@ == old(self)@.skip(n as int),
    {
        proof {
            use_type_invariant(&*self);
            assert(self.data@.len() == self.data.len());
        }
        self.pos = self.pos + n;
    }

    /// The unread bytes from offset `from` up to offset `to`.
    fn window(&self, from: usize, to: usize) -> (w: &'a [u8])
        requires
            from <= to <= self@.len(),
        ensures
            w@ == self@.subrange(from as int, to as int),
    {
        proof {
            use_type_invariant(self);
            assert(self.data@.len() == self.data.len());
        }
        vstd::slice::slice_subrange(self.data, self.pos + from, self.pos + to)
    }

    /// The 16-bit integer at offset `at`.
    fn peek_u16(&self, at: usize) -> (v: u16)
        requires
            at + 2 <= self@.len(),
        ensures
            v == le_u16(self@.skip(at as int)),
    {
        proof {
            use_type_invariant(self);
            assert(self.data@.len() == self.data.len());
        }
        let b0 = self.peek(at) as u16;
        let b1 = self.peek(at + 1) as u16;
        b0 + 256 * b1
    }

    /// The 32-bit integer at offset `at`.
    fn peek_u32(&self, at: usize) -> (v: u32)
        requires
            at + 4 <= self@.len(),
        ensures
            v == le_u32(self@.skip(at as int)),
    {
        proof {
            use_type_invariant(self);
            assert(self.data@.len() == self.data.len());
        }
        let b0 = self.peek(at) as u32;
        let b1 = self.peek(at + 1) as u32;
        let b2 = self.peek(at + 2) as u32;
        let b3 = self.peek(at + 3) as u32;
        b0 + 256 * b1 + 65536 * b2 + 16777216 * b3
    }
}

/// Reads one byte.
pub fn read_u8(cur: &mut Cursor) -> (r: Option<u8>)
    ensures
        reads(old(cur)@, parse_u8(old(cur)@), r, final(cur)@),
{
    if cur.remaining() < 1 {
        return None;
    }
    let v = cur.peek(0);
    cur.advance(1);
    Some(v)
}

/// Reads a little-endian 16-bit integer.
pub fn read_u16(cur: &mut Cursor) -> (r: Option<u16>)
    ensures
        reads(old(cur)@, parse_u16(old(cur)@), r, final(cur)@),
{
    if cur.remaining() < 2 {
        return None;
    }
    let v = cur.peek_u16(0);
    cur.advance(2);
    Some(v)
}

/// Reads a little-endian 32-bit integer.
pub fn read_u32(cur: &mut Cursor) -> (r: Option<u32>)
    ensures
        reads(old(cur)@, parse_u32(old(cur)@), r, final(cur)@),
{
    if cur.remaining() < 4 {
        return None;
    }
    let v = cur.peek_u32(0);
    cur.advance(4);
    Some(v)
}

/// Reads a little-endian 64-bit integer.
pub fn read_u64(cur: &mut Cursor) -> (r: Option<u64>)
    ensures
        reads(old(cur)@, parse_u64(old(cur)@), r, final(cur)@),
{
    if cur.remaining() < 8 {
        return None;
    }
    let lo = cur.peek_u32(0) as u64;
    let hi = cur.peek_u32(4) as u64;
    cur.advance(8);
    Some(lo + 4294967296 * hi)
}

/// Reads the next `size` bytes as they are.
pub fn read_raw(cur: &mut Cursor, size: usize) -> (r: Option<Vec<u8>>)
    ensures
        match parse_raw(old(cur)@, size as int) {
            Some((v, rest)) => r is Some && r->0@ == v && final(cur)@ == rest,
            None => r is None && final(cur)@ == old(cur)@,
        },
{
    if cur.remaining() < size {
        return None;
    }
    let mut buf: Vec<u8> = Vec::new();
    let mut i: usize = 0;
    while i < size
        invariant
            i <= size <= cur@.len(),
            buf@ == cur@.take(i as int),
        decreases size - i,
    {
        buf.push(cur.peek(i));
        i = i + 1;
    }
    cur.advance(size);
    Some(buf)
}

/// Calls `String::from_utf8_lossy`, which decodes `bytes` as UTF-8 and puts
/// U+FFFD in place of what is not valid UTF-8. The contract claims that valid
/// UTF-8 comes back as the characters that it encodes; of other bytes it
/// claims only that the result is a function of the bytes, to which it gives
/// a name.
#[verifier::external_body]
fn string_from_utf8_lossy(bytes: &[u8]) -> (s: String)
    ensures
        valid_utf8(bytes@) ==> s@ == decode_utf8(bytes@),
        !valid_utf8(bytes@) ==> s@ == utf8_lossy(bytes@),
{
    String::from_utf8_lossy(bytes).into_owned()
}

/// Calls `char::from_u32`, which makes the character of a code point and
/// none of a number that is a surrogate or greater than 0x10FFFF.
#[verifier::external_body]
fn char_of(code: u32) -> (r: Option<char>)
    ensures
        r == if code <= 0xD7FF || 0xE000 <= code <= 0x10FFFF {
            Some(code as char)
        } else {
            None
        },
{
    char::from_u32(code)
}

/// The text that `units` hold in UTF-16: see `utf16_text`.
pub fn decode_utf16(units: &[u16]) -> (chars: Vec<char>)
    ensures
        chars@ == utf16_text(units@),
{
    let mut chars: Vec<char> = Vec::new();
    let mut i: usize = 0;
    assert(units@.skip(0) =~= units@);
    while i < units.len()
        invariant
            i <= units@.len(),
            utf16_text(units@) == chars@ + utf16_text(units@.skip(i as int)),
        decreases units@.len() - i,
    {
        let ghost rest = units@.skip(i as int);
        let ghost done = chars@;
        let u = units[i];
        assert(rest[0] == u);
        let paired = 0xD800 <= u && u <= 0xDBFF && i + 1 < units.len() && 0xDC00 <= units[i + 1]
            && units[i + 1] <= 0xDFFF;
        if u < 0xD800 || u > 0xDFFF {
            let c = char_of(u as u32).unwrap();
            chars.push(c);
            assert(chars@ =~= done + seq![u as char]);
            assert(rest.skip(1) =~= units@.skip(i + 1));
            i = i + 1;
        } else if paired {
            let low = units[i + 1];
            assert(rest[1] == low);
            let code: u32 = 0x10000 + (u as u32 - 0xD800) * 0x400 + (low as u32 - 0xDC00);
            let c = char_of(code).unwrap();
            chars.push(c);
            assert(chars@ =~= done + seq![surrogate_pair(u, low)]);
            assert(rest.skip(2) =~= units@.skip(i + 2));
            i = i + 2;
        } else {
            proof {
                if rest.len() >= 2 {
                    assert(rest[1] == units@[i + 1]);
                }
            }
            chars.push('\u{FFFD}');
            assert(chars@ =~= done + seq!['\u{FFFD}']);
            assert(rest.skip(1) =~= units@.skip(i + 1));
            i = i + 1;
        }
    }
    assert(chars@ + Seq::<char>::empty() =~= chars@);
    chars
}

/// Reads a byte string: see `parse_string`.
pub fn read_string(cur: &mut Cursor) -> (r: Option<String>)
    ensures
        reads_text(old(cur)@, parse_string(old(cur)@), r, final(cur)@),
{
    let avail = cur.remaining();
    if avail < 4 {
        return None;
    }
    let n = cur.peek_u32(0);
    let padded: u64 = (n as u64 + 3) / 4 * 4;
    if ((avail - 4) as u64) < padded {
        return None;
    }
    let text = cur.window(4, 4 + n as usize);
    let s = string_from_utf8_lossy(text);
    proof {
        assert(cur@.skip(4).take(n as int) =~= cur@.subrange(4, 4 + n as int));
        assert(cur@.skip(4).skip(padded as int) =~= cur@.skip(4 + padded as int));
    }
    cur.advance(4 + padded as usize);
    Some(s)
}

/// Reads a wide string: see `parse_string_16`.
pub fn read_string_16(cur: &mut Cursor) -> (r: Option<String>)
    ensures
        reads_text(old(cur)@, parse_string_16(old(cur)@), r, final(cur)@),
{
    let avail = cur.remaining();
    if avail < 4 {
        return None;
    }
    let n = cur.peek_u32(0);
    let padded: u64 = (2 * (n as u64) + 3) / 4 * 4;
    if ((avail - 4) as u64) < padded {
        return None;
    }
    let count = n as usize;
    let ghost body = cur@.skip(4);
    let mut units: Vec<u16> = Vec::new();
    let mut i: usize = 0;
    while i < count
        invariant
            i <= count,
            4 + 2 * count <= cur@.len() == avail,
            body == cur@.skip(4),
            units@ == le_units(body, i as int),
        decreases count - i,
    {
        let u = cur.peek_u16(4 + 2 * i);
        proof {
            assert(cur@.skip(4 + 2 * i) =~= body.skip(2 * i));
            assert(units@.push(u) =~= le_units(body, i + 1));
        }
        units.push(u);
        i = i + 1;
    }
    let s = string_of(decode_utf16(units.as_slice()).as_slice());
    proof {
        assert(cur@.skip(4).skip(padded as int) =~= cur@.skip(4 + padded as int));
    }
    cur.advance(4 + padded as usize);
    Some(s)
}

} // verus!
