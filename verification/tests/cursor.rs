use screen_inspector::command::SSNSCommand;
use screen_inspector::cursor::{
    decode_utf16, read_raw, read_string, read_string_16, read_u16, read_u32, read_u64, read_u8,
    Cursor,
};

#[test]
fn integers_are_little_endian() {
    let bytes = [1u8, 2, 3, 4, 5, 6, 7, 8, 9, 10, 11, 12, 13, 14, 15];
    let mut cur = Cursor::new(&bytes);
    assert_eq!(read_u8(&mut cur), Some(1));
    assert_eq!(read_u16(&mut cur), Some(0x0302));
    assert_eq!(read_u32(&mut cur), Some(0x07060504));
    assert_eq!(read_u64(&mut cur), Some(0x0f0e0d0c0b0a0908));
    assert_eq!(cur.remaining(), 0);
    assert_eq!(read_u8(&mut cur), None);
}

#[test]
fn extreme_integers() {
    let bytes = [0xffu8; 15];
    let mut cur = Cursor::new(&bytes);
    assert_eq!(read_u8(&mut cur), Some(u8::MAX));
    assert_eq!(read_u16(&mut cur), Some(u16::MAX));
    assert_eq!(read_u32(&mut cur), Some(u32::MAX));
    assert_eq!(read_u64(&mut cur), Some(u64::MAX));
}

#[test]
fn short_reads_fail_and_stay() {
    let bytes = [1u8, 2, 3];
    let mut cur = Cursor::new(&bytes);
    assert_eq!(read_u32(&mut cur), None);
    assert_eq!(read_u64(&mut cur), None);
    assert_eq!(read_raw(&mut cur, 4), None);
    assert_eq!(cur.remaining(), 3);
    assert_eq!(read_raw(&mut cur, 2), Some(vec![1, 2]));
    assert_eq!(read_raw(&mut cur, 0), Some(vec![]));
    assert_eq!(read_u16(&mut cur), None);
    assert_eq!(cur.remaining(), 1);
}

#[test]
fn byte_string_of_five_takes_eight() {
    let bytes = [5u8, 0, 0, 0, b'h', b'e', b'l', b'l', b'o', 1, 2, 3, 42];
    let mut cur = Cursor::new(&bytes);
    assert_eq!(read_string(&mut cur), Some("hello".to_string()));
    assert_eq!(cur.remaining(), 1);
    assert_eq!(read_u8(&mut cur), Some(42));
}

#[test]
fn wide_string_of_three_takes_eight() {
    let bytes = [3u8, 0, 0, 0, b'a', 0, b'b', 0, 0xe9, 0, 7, 7, 42];
    let mut cur = Cursor::new(&bytes);
    assert_eq!(read_string_16(&mut cur), Some("ab\u{e9}".to_string()));
    assert_eq!(cur.remaining(), 1);
}

#[test]
fn aligned_strings_take_no_padding() {
    let bytes = [4u8, 0, 0, 0, b'a', b'b', b'c', b'd', 2, 0, 0, 0, b'x', 0, b'y', 0, 0, 0, 0, 0];
    let mut cur = Cursor::new(&bytes);
    assert_eq!(read_string(&mut cur), Some("abcd".to_string()));
    assert_eq!(read_string_16(&mut cur), Some("xy".to_string()));
    assert_eq!(read_string(&mut cur), Some(String::new()));
    assert_eq!(cur.remaining(), 0);
}

#[test]
fn strings_need_their_padding() {
    let bytes = [5u8, 0, 0, 0, b'h', b'e', b'l', b'l', b'o', 0, 0];
    let mut cur = Cursor::new(&bytes);
    assert_eq!(read_string(&mut cur), None);
    assert_eq!(cur.remaining(), 11);
    let wide = [3u8, 0, 0, 0, b'a', 0, b'b', 0, b'c', 0];
    let mut cur = Cursor::new(&wide);
    assert_eq!(read_string_16(&mut cur), None);
    assert_eq!(cur.remaining(), 10);
    let huge = [0xffu8, 0xff, 0xff, 0xff, 1, 2, 3, 4];
    let mut cur = Cursor::new(&huge);
    assert_eq!(read_string(&mut cur), None);
    assert_eq!(read_string_16(&mut cur), None);
}

#[test]
fn invalid_text_is_replaced() {
    let bytes = [2u8, 0, 0, 0, b'a', 0xff, 0, 0];
    let mut cur = Cursor::new(&bytes);
    assert_eq!(read_string(&mut cur), Some("a\u{fffd}".to_string()));
    let wide = [2u8, 0, 0, 0, 0x00, 0xd8, b'z', 0];
    let mut cur = Cursor::new(&wide);
    assert_eq!(read_string_16(&mut cur), Some("\u{fffd}z".to_string()));
}

#[test]
fn command_codes() {
    let known = [
        (0u8, SSNSCommand::SetTabWindow),
        (2, SSNSCommand::SetTabIndexInWindow),
        (6, SSNSCommand::UpdateTabNavigation),
        (7, SSNSCommand::SetSelectedNavigationIndex),
        (8, SSNSCommand::SetSelectedTabInIndex),
        (16, SSNSCommand::TabClosed),
        (17, SSNSCommand::WindowClosed),
        (20, SSNSCommand::SetActiveWindow),
        (21, SSNSCommand::LastActiveTime),
        (25, SSNSCommand::SetTabGroup),
        (27, SSNSCommand::SetTabGroupMetadata2),
    ];
    for val in 0..=255u8 {
        let expect = known.iter().find(|(code, _)| *code == val).map(|(_, c)| *c);
        assert_eq!(SSNSCommand::from_u8(val), expect);
    }
}

#[test]
fn wide_text_as_std_decodes_it() {
    let edge: [u16; 14] = [
        0, 0x41, 0x7f, 0xd7ff, 0xd800, 0xd801, 0xdbff, 0xdc00, 0xdc01, 0xdfff, 0xe000, 0xfffd,
        0xfffe, 0xffff,
    ];
    let mut samples: Vec<Vec<u16>> = vec![vec![]];
    for a in edge {
        samples.push(vec![a]);
        for b in edge {
            samples.push(vec![a, b]);
            for c in edge {
                samples.push(vec![a, b, c]);
                samples.push(vec![a, b, c, 0xd83d, 0xde00, a]);
            }
        }
    }
    let mut seed: u32 = 12345;
    for _ in 0..2000 {
        let mut units = Vec::new();
        for _ in 0..8 {
            seed = seed.wrapping_mul(1664525).wrapping_add(1013904223);
            let pick = (seed >> 16) as u16;
            units.push(if pick % 3 == 0 { 0xd800 + (pick % 0x800) } else { pick });
        }
        samples.push(units);
    }
    for units in samples {
        let ours: String = decode_utf16(&units).into_iter().collect();
        assert_eq!(ours, String::from_utf16_lossy(&units), "{:x?}", units);
    }
    assert_eq!(decode_utf16(&[0xd83d, 0xde00]), vec!['\u{1F600}']);
    assert_eq!(decode_utf16(&[0xdbff, 0xdfff]), vec!['\u{10FFFF}']);
    assert_eq!(decode_utf16(&[0xd800, 0xdc00]), vec!['\u{10000}']);
    assert_eq!(decode_utf16(&[0xde00, 0xd83d]), vec!['\u{fffd}', '\u{fffd}']);
    assert_eq!(decode_utf16(&[0xd83d, 0x41]), vec!['\u{fffd}', 'A']);
}
