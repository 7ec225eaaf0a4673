use arsc::{
    ByteCursor, ChunkHeader, Entry, EntryHeader, Error, Region, ResourceConfiguration,
    SimpleEntry, TableTypeDecoder,
};

fn push_u16(v: &mut Vec<u8>, x: u16) {
    v.extend_from_slice(&x.to_le_bytes());
}

fn push_u32(v: &mut Vec<u8>, x: u32) {
    v.extend_from_slice(&x.to_le_bytes());
}

/// A configuration descriptor declaring `size`, followed by `tail` bytes of
/// garbage.
fn config(size: u32, tail: usize) -> Vec<u8> {
    let mut v = Vec::new();
    push_u32(&mut v, size);
    push_u16(&mut v, 310); // mcc
    push_u16(&mut v, 260); // mnc
    v.extend_from_slice(b"en");
    v.extend_from_slice(b"US");
    v.push(1); // orientation
    v.push(3); // touchscreen
    push_u16(&mut v, 480); // density
    v.push(2); // keyboard
    v.push(4); // navigation
    v.push(5); // input flags
    v.push(0); // padding
    push_u16(&mut v, 1080);
    push_u16(&mut v, 1920);
    push_u16(&mut v, 21);
    push_u16(&mut v, 0);
    // screen layout, ui mode, smallest screen
    v.push(0x12);
    v.push(0x11);
    push_u16(&mut v, 360);
    // screen width and height in dp
    push_u16(&mut v, 411);
    push_u16(&mut v, 731);
    v.extend(std::iter::repeat(0xAB).take(tail));
    v
}

#[test]
fn region_plain_pair() {
    let r = Region::new(0x65, 0x6E);
    assert_eq!(r.to_bytes(), vec![0x65, 0x6E]);
    assert_eq!(r.to_string(), Ok("en".to_string()));
}

#[test]
fn region_packed_three_values() {
    // low = 1_01011_10, high = 101_00111
    let r = Region::new(0xAE, 0xA7);
    let high: u8 = 0xA7;
    let low: u8 = 0xAE;
    let expected = vec![
        high & 0x1F,
        ((high & 0xE0) >> 5) + ((low & 0x03) << 3),
        (low & 0x7C) >> 2,
    ];
    assert_eq!(expected, vec![7, 21, 11]);
    assert_eq!(r.to_bytes(), expected);
    assert_eq!(r.to_string(), Ok("\u{7}\u{15}\u{b}".to_string()));
}

#[test]
fn region_packed_all_bits() {
    let r = Region::new(0xFF, 0xFF);
    assert_eq!(r.to_bytes(), vec![0x1F, 0x1F, 0x1F]);
}

#[test]
fn region_invalid_utf8() {
    assert_eq!(Region::new(0x41, 0xFF).to_string(), Err(Error::Decode));
}

#[test]
fn configuration_size_28_leaves_optional_fields_zero() {
    let buf = config(28, 0);
    let mut c = ByteCursor::new(&buf);
    let rc = ResourceConfiguration::from_cursor(&mut c).unwrap();
    assert_eq!(c.position(), 28);
    assert_eq!(rc.size, 28);
    assert_eq!(rc.mcc, 310);
    assert_eq!(rc.mnc, 260);
    assert_eq!(rc.language, "en");
    assert_eq!(rc.region, "US");
    assert_eq!(rc.orientation, 1);
    assert_eq!(rc.touchscreen, 3);
    assert_eq!(rc.density, 480);
    assert_eq!(rc.keyboard, 2);
    assert_eq!(rc.navigation, 4);
    assert_eq!(rc.input_flags, 5);
    assert_eq!(rc.width, 1080);
    assert_eq!(rc.height, 1920);
    assert_eq!(rc.sdk_version, 21);
    assert_eq!(rc.min_sdk_version, 0);
    assert_eq!(rc.screen_layout, 0);
    assert_eq!(rc.ui_mode, 0);
    assert_eq!(rc.smallest_screen, 0);
    assert_eq!(rc.screen_width_dp, 0);
    assert_eq!(rc.screen_height_dp, 0);
}

#[test]
fn configuration_size_36_populates_optional_fields() {
    let buf = config(36, 0);
    let mut c = ByteCursor::new(&buf);
    let rc = ResourceConfiguration::from_cursor(&mut c).unwrap();
    assert_eq!(c.position(), 36);
    assert_eq!(rc.screen_layout, 0x12);
    assert_eq!(rc.ui_mode, 0x11);
    assert_eq!(rc.smallest_screen, 360);
    assert_eq!(rc.screen_width_dp, 411);
    assert_eq!(rc.screen_height_dp, 731);
}

#[test]
fn configuration_size_32_reads_first_group_only() {
    let buf = config(32, 0);
    let mut c = ByteCursor::new(&buf);
    let rc = ResourceConfiguration::from_cursor(&mut c).unwrap();
    assert_eq!(c.position(), 32);
    assert_eq!(rc.smallest_screen, 360);
    assert_eq!(rc.screen_width_dp, 0);
    assert_eq!(rc.screen_height_dp, 0);
}

#[test]
fn configuration_size_48_consumes_garbage() {
    let buf = config(48, 12);
    let mut c = ByteCursor::new(&buf);
    let rc = ResourceConfiguration::from_cursor(&mut c).unwrap();
    assert_eq!(c.position(), 48);
    assert_eq!(rc.screen_height_dp, 731);
}

#[test]
fn configuration_size_52_consumes_no_more() {
    let buf = config(52, 20);
    let mut c = ByteCursor::new(&buf);
    ResourceConfiguration::from_cursor(&mut c).unwrap();
    assert_eq!(c.position(), 48);
}

#[test]
fn configuration_truncated() {
    let buf = config(48, 4);
    let mut c = ByteCursor::new(&buf);
    let r = ResourceConfiguration::from_cursor(&mut c);
    assert_eq!(r.unwrap_err(), Error::UnexpectedEndOfData);
    assert_eq!(c.position(), 0);
}

#[test]
fn configuration_bad_language() {
    let mut buf = config(28, 0);
    buf[8] = 0x41;
    buf[9] = 0xFF;
    let mut c = ByteCursor::new(&buf);
    assert_eq!(ResourceConfiguration::from_cursor(&mut c).unwrap_err(), Error::Decode);
    assert_eq!(c.position(), 0);
}

/// A resource-type chunk at offset 0 with a 36-byte configuration and five
/// slots: a simple entry, an empty slot, a complex entry with the no-entry
/// count, a complex entry of two values and a second simple entry.
fn table_chunk() -> (Vec<u8>, ChunkHeader) {
    let mut v = Vec::new();
    v.extend_from_slice(&[0x01, 0x02, 56, 0x00]);
    push_u32(&mut v, 0); // chunk size, patched below
    v.push(3); // id
    v.extend_from_slice(&[0, 0, 0]);
    push_u32(&mut v, 5); // entry count
    push_u32(&mut v, 76); // entries start
    v.extend_from_slice(&config(36, 0));
    assert_eq!(v.len(), 56);
    for off in [20u32, 0xFFFF_FFFF, 36, 52, 92] {
        push_u32(&mut v, off);
    }
    // simple, key 7
    push_u16(&mut v, 8);
    push_u16(&mut v, 0);
    push_u32(&mut v, 7);
    push_u16(&mut v, 8);
    v.push(0);
    v.push(0x10);
    push_u32(&mut v, 0x1234_5678);
    // complex with no values
    push_u16(&mut v, 16);
    push_u16(&mut v, 1);
    push_u32(&mut v, 9);
    push_u32(&mut v, 0x55);
    push_u32(&mut v, 0xFFFF_FFFF);
    // complex, key 11, two values
    push_u16(&mut v, 16);
    push_u16(&mut v, 1);
    push_u32(&mut v, 11);
    push_u32(&mut v, 0x7F01_0000);
    push_u32(&mut v, 2);
    for (id, ty, data) in [(0x100u32, 3u8, 30u32), (0x200, 4, 40)] {
        push_u32(&mut v, id);
        push_u16(&mut v, 8);
        v.push(0);
        v.push(ty);
        push_u32(&mut v, data);
    }
    // simple, key 13
    push_u16(&mut v, 8);
    push_u16(&mut v, 2);
    push_u32(&mut v, 13);
    push_u16(&mut v, 8);
    v.push(0);
    v.push(0x12);
    push_u32(&mut v, 1);
    let size = v.len() as u32;
    v[4..8].copy_from_slice(&size.to_le_bytes());
    (v, ChunkHeader::new(0, 56, size, 0x0201))
}

fn simple(key_index: u32, value_type: u8, value_data: u32) -> SimpleEntry {
    SimpleEntry { key_index, size: 8, value_type, value_data }
}

#[test]
fn table_type_decodes_entries() {
    let (buf, header) = table_chunk();
    let mut c = ByteCursor::new(&buf);
    c.set_position(8);
    let t = TableTypeDecoder::decode(&mut c, &header).unwrap();
    assert_eq!(c.position(), 76);
    assert_eq!(t.id, 3);
    assert_eq!(t.configuration.language, "en");
    assert_eq!(t.configuration.screen_width_dp, 411);
    assert_eq!(t.entries.len(), 3);
    match &t.entries[0] {
        Entry::Simple(s) => assert_eq!(*s, simple(7, 0x10, 0x1234_5678)),
        other => panic!("unexpected {:?}", other),
    }
    match &t.entries[1] {
        Entry::Complex { key_index, parent_entry_id, entries } => {
            assert_eq!(*key_index, 11);
            assert_eq!(*parent_entry_id, 0x7F01_0000);
            assert_eq!(entries, &vec![simple(11, 3, 30), simple(11, 4, 40)]);
        },
        other => panic!("unexpected {:?}", other),
    }
    match &t.entries[2] {
        Entry::Simple(s) => assert_eq!(*s, simple(13, 0x12, 1)),
        other => panic!("unexpected {:?}", other),
    }
}

#[test]
fn complex_values_take_parent_key() {
    let (buf, header) = table_chunk();
    let mut c = ByteCursor::new(&buf);
    c.set_position(8);
    let t = TableTypeDecoder::decode(&mut c, &header).unwrap();
    for e in &t.entries {
        if let Entry::Complex { key_index, entries, .. } = e {
            assert!(entries.iter().all(|s| s.key_index == *key_index));
            assert!(entries.iter().all(|s| s.key_index != 0x100 && s.key_index != 0x200));
        }
    }
}

#[test]
fn absent_complex_entry_is_skipped() {
    let (buf, header) = table_chunk();
    let mut c = ByteCursor::new(&buf);
    c.set_position(8);
    let t = TableTypeDecoder::decode(&mut c, &header).unwrap();
    assert!(t.entries.iter().all(|e| match e {
        Entry::Simple(s) => s.key_index != 9,
        Entry::Complex { key_index, .. } => *key_index != 9,
    }));
}

#[test]
fn table_type_decode_is_repeatable() {
    let (buf, header) = table_chunk();
    let mut c1 = ByteCursor::new(&buf);
    c1.set_position(8);
    let mut c2 = ByteCursor::new(&buf);
    c2.set_position(8);
    let a = TableTypeDecoder::decode(&mut c1, &header).unwrap();
    let b = TableTypeDecoder::decode(&mut c2, &header).unwrap();
    assert_eq!(format!("{:?}", a), format!("{:?}", b));
    assert_eq!(c1.position(), c2.position());
    let (fresh, _) = table_chunk();
    assert_eq!(buf, fresh);
}

#[test]
fn table_type_truncated_entry() {
    let (buf, header) = table_chunk();
    let short = &buf[..buf.len() - 2];
    let mut c = ByteCursor::new(short);
    c.set_position(8);
    assert_eq!(TableTypeDecoder::decode(&mut c, &header).unwrap_err(), Error::UnexpectedEndOfData);
    assert_eq!(c.position(), 8);
}

#[test]
fn table_type_truncated_offsets() {
    let (buf, header) = table_chunk();
    let short = &buf[..66];
    let mut c = ByteCursor::new(short);
    c.set_position(8);
    assert_eq!(TableTypeDecoder::decode(&mut c, &header).unwrap_err(), Error::UnexpectedEndOfData);
}

#[test]
fn table_type_bad_region_is_decode_error() {
    let (mut buf, header) = table_chunk();
    buf[30] = 0x41;
    buf[31] = 0xFF;
    let mut c = ByteCursor::new(&buf);
    c.set_position(8);
    assert_eq!(TableTypeDecoder::decode(&mut c, &header).unwrap_err(), Error::Decode);
}

#[test]
fn entry_header_flags() {
    assert!(EntryHeader::new(16, 1, 4).is_complex());
    assert!(EntryHeader::new(16, 3, 4).is_complex());
    assert!(!EntryHeader::new(8, 2, 4).is_complex());
    assert_eq!(EntryHeader::new(8, 0, 42).get_key_index(), 42);
}

#[test]
fn entry_constructors() {
    match Entry::new_simple(1, 8, 3, 99) {
        Entry::Simple(s) => assert_eq!(s, simple(1, 3, 99)),
        other => panic!("unexpected {:?}", other),
    }
    match Entry::new_complex(2, 5, vec![simple(2, 3, 4)]) {
        Entry::Complex { key_index, parent_entry_id, entries } => {
            assert_eq!((key_index, parent_entry_id, entries.len()), (2, 5, 1));
        },
        other => panic!("unexpected {:?}", other),
    }
}

#[test]
fn simple_entry_moves_cursor_past_value() {
    let buf = [0x08u8, 0x00, 0x00, 0x03, 0x2A, 0x00, 0x00, 0x00];
    let mut c = ByteCursor::new(&buf);
    let e = TableTypeDecoder::decode_simple_entry(&mut c, &EntryHeader::new(8, 0, 7)).unwrap();
    assert_eq!(c.position(), 8);
    match e {
        Some(Entry::Simple(s)) => assert_eq!(s, simple(7, 3, 42)),
        other => panic!("unexpected {:?}", other),
    }
}

#[test]
fn simple_entry_short_read_keeps_cursor() {
    let buf = [0x08u8, 0x00, 0x00, 0x03, 0x2A];
    let mut c = ByteCursor::new(&buf);
    let r = TableTypeDecoder::decode_simple_entry(&mut c, &EntryHeader::new(8, 0, 7));
    assert_eq!(r.unwrap_err(), Error::UnexpectedEndOfData);
    assert_eq!(c.position(), 0);
}

#[test]
fn complex_entry_without_values() {
    let buf = [5u8, 0, 0, 0, 0, 0, 0, 0];
    let mut c = ByteCursor::new(&buf);
    let e = TableTypeDecoder::decode_complex_entry(&mut c, &EntryHeader::new(16, 1, 4)).unwrap();
    assert_eq!(c.position(), 8);
    match e {
        Some(Entry::Complex { key_index, parent_entry_id, entries }) => {
            assert_eq!((key_index, parent_entry_id, entries.len()), (4, 5, 0));
        },
        other => panic!("unexpected {:?}", other),
    }
}

#[test]
fn complex_entry_with_no_entry_count() {
    let buf = [5u8, 0, 0, 0, 0xFF, 0xFF, 0xFF, 0xFF];
    let mut c = ByteCursor::new(&buf);
    let e = TableTypeDecoder::decode_complex_entry(&mut c, &EntryHeader::new(16, 1, 4)).unwrap();
    assert!(e.is_none());
    assert_eq!(c.position(), 8);
}

#[test]
fn complex_entry_values_every_twelve_bytes() {
    let mut v = Vec::new();
    push_u32(&mut v, 0x33); // parent
    push_u32(&mut v, 2);
    for (id, ty, data) in [(0xAAu32, 1u8, 10u32), (0xBB, 2, 20)] {
        push_u32(&mut v, id);
        push_u16(&mut v, 8);
        v.push(0);
        v.push(ty);
        push_u32(&mut v, data);
    }
    let mut c = ByteCursor::new(&v);
    let e = TableTypeDecoder::decode_complex_entry(&mut c, &EntryHeader::new(16, 1, 6)).unwrap();
    assert_eq!(c.position(), 32);
    match e {
        Some(Entry::Complex { entries, .. }) => {
            assert_eq!(entries, vec![simple(6, 1, 10), simple(6, 2, 20)]);
        },
        other => panic!("unexpected {:?}", other),
    }
    let mut short = ByteCursor::new(&v[..31]);
    let r = TableTypeDecoder::decode_complex_entry(&mut short, &EntryHeader::new(16, 1, 6));
    assert_eq!(r.unwrap_err(), Error::UnexpectedEndOfData);
    assert_eq!(short.position(), 0);
}

#[test]
fn entries_continue_after_absent_complex_entry() {
    let mut v = Vec::new();
    push_u32(&mut v, 8); // slot 0: absent complex entry
    push_u32(&mut v, 24); // slot 1: simple entry
    push_u16(&mut v, 16);
    push_u16(&mut v, 1);
    push_u32(&mut v, 1);
    push_u32(&mut v, 0);
    push_u32(&mut v, 0xFFFF_FFFF);
    push_u16(&mut v, 8);
    push_u16(&mut v, 0);
    push_u32(&mut v, 2);
    push_u16(&mut v, 8);
    v.push(0);
    v.push(5);
    push_u32(&mut v, 77);
    let mut c = ByteCursor::new(&v);
    let entries = TableTypeDecoder::decode_entries(&mut c, 2).unwrap();
    assert_eq!(c.position(), 8);
    assert_eq!(entries.len(), 1);
    match &entries[0] {
        Entry::Simple(s) => assert_eq!(*s, simple(2, 5, 77)),
        other => panic!("unexpected {:?}", other),
    }
}
