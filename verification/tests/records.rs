use chatlog::{Entry, Message, NamePart, Part, RawEntry, RawEntryParts};

fn name_structure() -> Vec<u8> {
    let mut bytes: Vec<u8> = vec![0x02, 0x27, 18, 1, 1, 1, 1, 1, 1];
    bytes.extend_from_slice(b"Alice Smith");
    bytes.push(0x20);
    bytes.extend_from_slice(b"Alice");
    bytes.extend_from_slice(&[0x02, 0x27, 0x01, 0x03]);
    bytes
}

fn record(header: [u8; 8], sender: &[u8], message: &[u8]) -> RawEntry {
    let mut bytes: Vec<u8> = header.to_vec();
    bytes.push(0x3a);
    bytes.extend_from_slice(sender);
    bytes.push(0x3a);
    bytes.extend_from_slice(message);
    RawEntry::new(bytes)
}

fn alice() -> Part {
    Part::Name { real_name: "alice".to_string(), display_name: "alice".to_string() }
}

#[test]
fn new_keeps_the_bytes() {
    let raw = RawEntry::new(vec![1, 2, 3]);
    assert_eq!(raw.bytes, vec![1, 2, 3]);
}

#[test]
fn framing_fails_below_eight_bytes() {
    for len in 0..8usize {
        let raw = RawEntry::new(vec![0x3a; len]);
        assert_eq!(raw.as_parts(), None);
        assert_eq!(raw.get_header(), None);
    }
}

#[test]
fn framing_fails_without_room_for_a_colon() {
    assert_eq!(RawEntry::new(vec![0x3a; 8]).as_parts(), None);
    assert_eq!(RawEntry::new(vec![0x3a; 9]).as_parts(), None);
}

#[test]
fn framing_fails_without_a_colon_after_offset_nine() {
    let mut bytes = vec![0x3a; 9];
    bytes.extend_from_slice(b"no delimiter here");
    assert_eq!(RawEntry::new(bytes).as_parts(), None);
}

#[test]
fn shortest_record_frames_to_empty_fields() {
    let raw = RawEntry::new(vec![1, 2, 3, 4, 5, 6, 7, 8, 0x3a, 0x3a]);
    let parts = raw.as_parts().unwrap();
    assert_eq!(parts.header, vec![1, 2, 3, 4, 5, 6, 7, 8]);
    assert_eq!(parts.sender, Vec::<u8>::new());
    assert_eq!(parts.message, Vec::<u8>::new());
}

#[test]
fn framing_splits_at_the_first_colon_after_offset_nine() {
    let raw = record([1, 2, 3, 4, 5, 6, 7, 8], b"alice", b"a:b:c");
    let parts = raw.as_parts().unwrap();
    assert_eq!(parts.header, vec![1, 2, 3, 4, 5, 6, 7, 8]);
    assert_eq!(parts.sender, b"alice".to_vec());
    assert_eq!(parts.message, b"a:b:c".to_vec());
}

#[test]
fn byte_eight_is_not_looked_at() {
    let mut bytes: Vec<u8> = vec![1, 2, 3, 4, 5, 6, 7, 8, 0x7a];
    bytes.extend_from_slice(b"bob:hello");
    let parts = RawEntry::new(bytes).as_parts().unwrap();
    assert_eq!(parts.sender, b"bob".to_vec());
    assert_eq!(parts.message, b"hello".to_vec());
}

#[test]
fn get_header_takes_the_first_eight_bytes() {
    let raw = RawEntry::new(vec![9, 8, 7, 6, 5, 4, 3, 2, 1, 0]);
    assert_eq!(raw.get_header(), Some(vec![9, 8, 7, 6, 5, 4, 3, 2]));
    let exact = RawEntry::new(vec![9, 8, 7, 6, 5, 4, 3, 2]);
    assert_eq!(exact.get_header(), Some(vec![9, 8, 7, 6, 5, 4, 3, 2]));
}

#[test]
fn timestamp_is_little_endian_and_type_is_byte_four() {
    let raw = record([0x78, 0x56, 0x34, 0x12, 0x0a, 0xff, 0xff, 0xff], b"alice", b"hello");
    let entry = raw.as_parts().unwrap().as_entry();
    assert_eq!(entry.timestamp, 0x1234_5678);
    assert_eq!(entry.timestamp, 305_419_896);
    assert_eq!(entry.entry_type, 0x0a);
}

#[test]
fn timestamp_extremes() {
    let low = record([1, 0, 0, 0, 0, 0, 0, 0], b"", b"");
    assert_eq!(low.as_parts().unwrap().as_entry().timestamp, 1);
    let high = record([0, 0, 0, 1, 0, 0, 0, 0], b"", b"");
    assert_eq!(high.as_parts().unwrap().as_entry().timestamp, 16_777_216);
    let max = record([0xff, 0xff, 0xff, 0xff, 0xff, 0, 0, 0], b"", b"");
    let entry = max.as_parts().unwrap().as_entry();
    assert_eq!(entry.timestamp, u32::MAX);
    assert_eq!(entry.entry_type, 0xff);
}

#[test]
fn empty_sender_is_absent() {
    let raw = record([0; 8], b"", b"hello");
    let entry = raw.as_parts().unwrap().as_entry();
    assert_eq!(entry.sender, None);
    assert_eq!(entry.message.parts, vec![Part::PlainText("hello".to_string())]);
}

#[test]
fn text_sender_is_both_names() {
    let raw = record([0; 8], b"alice", b"hello");
    let entry = raw.as_parts().unwrap().as_entry();
    assert_eq!(entry.sender, Some(alice()));
}

#[test]
fn sender_that_is_neither_name_nor_text_is_absent() {
    let raw = record([0; 8], &[0xff, 0xfe], b"hello");
    let entry = raw.as_parts().unwrap().as_entry();
    assert_eq!(entry.sender, None);
}

#[test]
fn name_structure_sender_is_decoded() {
    let raw = record([0; 8], &name_structure(), b"hello");
    let entry = raw.as_parts().unwrap().as_entry();
    assert_eq!(
        entry.sender,
        Some(Part::Name {
            real_name: "Alice Smith".to_string(),
            display_name: "Alice".to_string(),
        })
    );
}

#[test]
fn short_name_marker_in_sender_falls_back_to_text() {
    let sender = [0x02, 0x27, b'x'];
    let raw = record([0; 8], &sender, b"");
    let entry = raw.as_parts().unwrap().as_entry();
    assert_eq!(
        entry.sender,
        Some(Part::Name {
            real_name: "\u{2}'x".to_string(),
            display_name: "\u{2}'x".to_string(),
        })
    );
}

#[test]
fn whole_record_decodes() {
    let mut message: Vec<u8> = b"see ".to_vec();
    message.extend_from_slice(&[0x02, 0x2e, 0x02, 0x05, 0x7b, 0x03]);
    message.extend_from_slice(b" now");
    let raw = record([0x10, 0x20, 0x30, 0x40, 0x0c, 0, 0, 0], b"alice", &message);
    let entry = raw.as_parts().unwrap().as_entry();
    let expected = Entry {
        entry_type: 0x0c,
        timestamp: 0x4030_2010,
        sender: Some(alice()),
        message: Message {
            parts: vec![
                Part::PlainText("see ".to_string()),
                Part::AutoTranslate { category: 5, id: 123 },
                Part::PlainText(" now".to_string()),
            ],
        },
    };
    assert_eq!(entry, expected);
}

#[test]
fn decoding_twice_gives_equal_entries() {
    let mut message: Vec<u8> = b"hi ".to_vec();
    message.extend_from_slice(&name_structure());
    message.extend_from_slice(&[0xff, 0x02]);
    let raw = record([4, 3, 2, 1, 9, 0, 0, 0], b"alice", &message);
    let first = raw.as_parts().unwrap().as_entry();
    let second = raw.as_parts().unwrap().as_entry();
    assert_eq!(first, second);
    assert_eq!(raw.as_parts(), raw.as_parts());
}

#[test]
fn parts_built_by_hand_decode() {
    let parts = RawEntryParts {
        header: vec![1, 1, 0, 0, 2, 0, 0, 0],
        sender: b"bob".to_vec(),
        message: Vec::new(),
    };
    let entry = parts.as_entry();
    assert_eq!(entry.timestamp, 257);
    assert_eq!(entry.entry_type, 2);
    assert_eq!(
        entry.sender,
        Some(NamePart::from_names("bob".to_string(), "bob".to_string()))
    );
    assert_eq!(entry.message.parts, Vec::<Part>::new());
}

#[test]
fn text_turns_carriage_returns_into_line_feeds() {
    let raw = record([0; 8], b"alice", b"one\rtwo\r\nthree");
    assert_eq!(raw.get_text(), Some("one\ntwo\n\nthree".to_string()));
}

#[test]
fn text_is_decoded_lossily() {
    let raw = record([0; 8], b"alice", &[b'a', 0xff, b'\r']);
    assert_eq!(raw.get_text(), Some("a\u{fffd}\n".to_string()));
    let empty = record([0; 8], b"alice", b"");
    assert_eq!(empty.get_text(), Some(String::new()));
}

#[test]
fn text_is_absent_where_the_record_does_not_frame() {
    assert_eq!(RawEntry::new(vec![0x3a; 9]).get_text(), None);
    assert_eq!(RawEntry::new(Vec::new()).get_text(), None);
    assert_eq!(RawEntry::new(b"0123456789 no colon".to_vec()).get_text(), None);
}
