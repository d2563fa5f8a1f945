//! Output pipeline: chunking, ordering, permissive decoding, end of stream.

use job_hub::pipeline::StreamReader;
use job_hub::ws::IoType;

#[test]
fn chunks_preserve_read_order_exactly() {
    let mut reader = StreamReader::new(String::from("7"), IoType::Stdout);
    let reads: Vec<Vec<u8>> = vec![b"first ".to_vec(), b"second ".to_vec(), b"third".to_vec()];
    let out = reader.pump(&reads);
    assert_eq!(out.len(), 3);
    assert_eq!(out[0].chunk, "first ");
    assert_eq!(out[1].chunk, "second ");
    assert_eq!(out[2].chunk, "third");
    for c in &out {
        assert_eq!(c.id, "7");
        assert!(matches!(c.io_type, IoType::Stdout));
    }
}

#[test]
fn large_bursts_reassemble_to_the_original_bytes() {
    // Scenario: a process emits 10,000 bytes of stdout in bursts larger than
    // the read buffer; the reader sees successive buffer-sized reads, and the
    // concatenated chunks reproduce the bytes exactly.
    let mut text = String::new();
    while text.len() < 10_000 {
        text.push_str("0123456789abcdef");
    }
    let text = &text[..10_000];
    let reads: Vec<Vec<u8>> = text.as_bytes().chunks(256).map(|c| c.to_vec()).collect();
    assert!(reads.len() > 1);
    let mut reader = StreamReader::new(String::from("3"), IoType::Stdout);
    let out = reader.pump(&reads);
    assert_eq!(out.len(), reads.len());
    let mut joined = String::new();
    for c in &out {
        joined.push_str(&c.chunk);
    }
    assert_eq!(joined, text);
}

#[test]
fn zero_length_read_ends_the_stream() {
    let mut reader = StreamReader::new(String::from("1"), IoType::Stderr);
    let reads: Vec<Vec<u8>> = vec![b"tail".to_vec(), Vec::new(), b"ignored".to_vec()];
    let out = reader.pump(&reads);
    // One event for the non-empty read; nothing for anything after the end.
    assert_eq!(out.len(), 1);
    assert_eq!(out[0].chunk, "tail");
    assert!(matches!(out[0].io_type, IoType::Stderr));
    // The finished reader emits nothing further.
    let later = reader.on_read(b"more");
    assert!(later.is_none());
}

#[test]
fn invalid_bytes_are_replaced_never_fatal() {
    let mut reader = StreamReader::new(String::from("2"), IoType::Stdout);
    let chunk = reader.on_read(&[0xff, 0xfe, b'o', b'k']).expect("one event");
    assert_eq!(chunk.chunk, "\u{FFFD}\u{FFFD}ok");
}

#[test]
fn each_non_empty_read_is_one_event_no_duplicates() {
    let mut reader = StreamReader::new(String::from("9"), IoType::Stdout);
    let first = reader.on_read(b"a").expect("event");
    let second = reader.on_read(b"a").expect("event");
    assert_eq!(first.chunk, "a");
    assert_eq!(second.chunk, "a");
    let end = reader.on_read(&[]);
    assert!(end.is_none());
}
