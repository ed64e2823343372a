use event_registry::codec::{encode_event, parse_event, push_chunk, push_u64};
use event_registry::event::Event;

fn sample() -> Event {
    Event {
        id: 1,
        event_description: "d".to_string(),
        owner: "é".to_string(),
        event_title: String::new(),
        event_location: String::new(),
        event_card_imgurl: String::new(),
        attendees: vec!["b".to_string()],
        created_at: 258,
        updated_at: None,
    }
}

#[test]
fn u64_is_written_little_endian() {
    let mut out = vec![9u8];
    push_u64(&mut out, 0x0102030405060708);
    assert_eq!(out, vec![9, 8, 7, 6, 5, 4, 3, 2, 1]);
}

#[test]
fn chunk_is_length_then_bytes() {
    let mut out = Vec::new();
    push_chunk(&mut out, &[0xaa, 0xbb]);
    assert_eq!(out, vec![2, 0, 0, 0, 0, 0, 0, 0, 0xaa, 0xbb]);
}

#[test]
fn event_encoding_layout() {
    let bytes = encode_event(&sample());
    let mut expected: Vec<u8> = Vec::new();
    let chunk = |out: &mut Vec<u8>, c: &[u8]| {
        out.extend_from_slice(&(c.len() as u64).to_le_bytes());
        out.extend_from_slice(c);
    };
    chunk(&mut expected, &1u64.to_le_bytes());
    chunk(&mut expected, b"d");
    chunk(&mut expected, "é".as_bytes());
    chunk(&mut expected, b"");
    chunk(&mut expected, b"");
    chunk(&mut expected, b"");
    chunk(&mut expected, &258u64.to_le_bytes());
    chunk(&mut expected, b"");
    chunk(&mut expected, b"b");
    assert_eq!(bytes, expected);
}

#[test]
fn event_encoding_with_update_time() {
    let mut e = sample();
    e.updated_at = Some(5);
    e.attendees.clear();
    let bytes = encode_event(&e);
    let tail = &bytes[bytes.len() - 16..];
    assert_eq!(tail, &[8, 0, 0, 0, 0, 0, 0, 0, 5, 0, 0, 0, 0, 0, 0, 0]);
}

#[test]
fn parse_reads_back_an_encoded_event() {
    let mut e = sample();
    e.updated_at = Some(77);
    e.attendees.push("ü".to_string());
    let got = parse_event(&encode_event(&e)).unwrap();
    assert_eq!(got.id, 1);
    assert_eq!(got.event_description, "d");
    assert_eq!(got.owner, "é");
    assert_eq!(got.created_at, 258);
    assert_eq!(got.updated_at, Some(77));
    assert_eq!(got.attendees, vec!["b".to_string(), "ü".to_string()]);
}

#[test]
fn parse_rejects_bytes_that_are_no_record() {
    assert!(parse_event(&vec![]).is_none());
    assert!(parse_event(&vec![1, 2, 3]).is_none());
    let mut bytes = encode_event(&sample());
    bytes.pop();
    assert!(parse_event(&bytes).is_none());
    let mut bad_utf8 = Vec::new();
    push_chunk(&mut bad_utf8, &1u64.to_le_bytes());
    push_chunk(&mut bad_utf8, &[0xff]);
    for _ in 0..6 {
        push_chunk(&mut bad_utf8, &[]);
    }
    assert!(parse_event(&bad_utf8).is_none());
}
