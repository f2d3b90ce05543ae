use reactive_messaging::mmap_binary_dialog::{FixedSizeRecordReader, SlotReceiver};
use reactive_messaging::serialized_binary_dialog::{frame_serialized_payload, ReadPhase, SerializedPayloadReader};
use reactive_messaging::size_prefix::{decode_usize_min, encode_usize_min, min_bytes_for_usize};
use reactive_messaging::textual_dialog::{terminate_line, TextualLineReader, LINE_END};

#[test]
fn test_min_bytes_for_usize() {
    assert_eq!(0, min_bytes_for_usize(0));
    assert_eq!(1, min_bytes_for_usize(1));
    assert_eq!(1, min_bytes_for_usize(255));
    assert_eq!(2, min_bytes_for_usize(256));
    assert_eq!(8, min_bytes_for_usize(usize::MAX));
    assert_eq!(8, min_bytes_for_usize(1 << (64 - 7)));
}

#[test]
fn decode_usize_min_reads_little_endian() {
    assert_eq!(decode_usize_min(&[]), 0);
    assert_eq!(decode_usize_min(&[7]), 7);
    assert_eq!(decode_usize_min(&[0x34, 0x12]), 0x1234);
    assert_eq!(decode_usize_min(&[0xff; 8]), usize::MAX);
    assert_eq!(decode_usize_min(&[0, 0, 1]), 65536);
}

#[test]
fn encode_usize_min_writes_lowest_bytes() {
    assert_eq!(encode_usize_min(0x1234, 2), vec![0x34, 0x12]);
    assert_eq!(encode_usize_min(0x1234, 3), vec![0x34, 0x12, 0]);
    // a value that does not fit is cut to its lowest bytes
    assert_eq!(encode_usize_min(0x1234, 1), vec![0x34]);
    assert_eq!(encode_usize_min(5, 0), Vec::<u8>::new());
}

#[test]
fn size_prefix_round_trip() {
    for value in [1usize, 255, 256, 65535, 65536, 1 << 40, usize::MAX] {
        let len = min_bytes_for_usize(value);
        assert_eq!(decode_usize_min(&encode_usize_min(value, len)), value);
        assert_eq!(value.to_le_bytes()[..len].to_vec(), encode_usize_min(value, len));
    }
}

#[test]
fn frame_prefixes_the_payload_size() {
    assert_eq!(frame_serialized_payload(b"abc", 2), vec![3, 0, b'a', b'b', b'c']);
    assert_eq!(frame_serialized_payload(&[9; 300], 2)[..2], [44, 1]);
}

#[test]
fn serialized_frames_round_trip_in_any_chunking() {
    let payloads: Vec<Vec<u8>> = vec![b"hello".to_vec(), vec![1; 300], b"x".to_vec()];
    let mut wire = Vec::new();
    for p in &payloads {
        wire.extend(frame_serialized_payload(p, 2));
    }
    for chunk_size in [1usize, 2, 3, 7, 100, wire.len()] {
        let mut reader = SerializedPayloadReader::new(2);
        let mut received = Vec::new();
        for chunk in wire.chunks(chunk_size) {
            let outcome = reader.feed(chunk);
            assert!(!outcome.protocol_violation);
            received.extend(outcome.payloads);
        }
        assert_eq!(received, payloads, "chunk size {chunk_size}");
        assert_eq!(reader.read_phase(), ReadPhase::WaitingForPayloadSize { missing: 2 });
    }
}

#[test]
fn serialized_reader_tells_its_phase() {
    let mut reader = SerializedPayloadReader::new(2);
    assert_eq!(reader.read_phase(), ReadPhase::WaitingForPayloadSize { missing: 2 });
    assert!(reader.feed(&[5]).payloads.is_empty());
    assert_eq!(reader.read_phase(), ReadPhase::WaitingForPayloadSize { missing: 1 });
    assert!(reader.feed(&[0, b'a', b'b']).payloads.is_empty());
    assert_eq!(reader.read_phase(), ReadPhase::ReadingPayload { payload_len: 5, missing: 3 });
    let outcome = reader.feed(b"cde");
    assert_eq!(outcome.payloads, vec![b"abcde".to_vec()]);
}

#[test]
fn serialized_reader_flags_an_empty_payload() {
    let mut reader = SerializedPayloadReader::new(1);
    let outcome = reader.feed(&[2, b'o', b'k', 0, 3]);
    assert_eq!(outcome.payloads, vec![b"ok".to_vec()]);
    assert!(outcome.protocol_violation);
}

#[test]
fn textual_lines_round_trip_in_any_chunking() {
    let messages = ["first message", "", "third: with spaces", "4"];
    let mut wire = Vec::new();
    for m in messages {
        let mut buffer = m.as_bytes().to_vec();
        terminate_line(&mut buffer);
        wire.extend(buffer);
    }
    assert_eq!(*wire.last().unwrap(), LINE_END);
    for chunk_size in [1usize, 2, 5, wire.len()] {
        let mut reader = TextualLineReader::new();
        let mut lines = Vec::new();
        for chunk in wire.chunks(chunk_size) {
            lines.extend(reader.feed(chunk));
        }
        let lines: Vec<String> = lines.into_iter().map(|l| String::from_utf8(l).unwrap()).collect();
        assert_eq!(lines, messages);
        assert_eq!(reader.unfinished_len(), 0);
    }
}

#[test]
fn textual_reader_keeps_the_unfinished_line() {
    let mut reader = TextualLineReader::new();
    assert_eq!(reader.feed(b"ab\ncd"), vec![b"ab".to_vec()]);
    assert_eq!(reader.unfinished_len(), 2);
    assert_eq!(reader.feed(b"e\n\n"), vec![b"cde".to_vec(), Vec::new()]);
    assert_eq!(reader.unfinished_len(), 0);
}

#[test]
fn fixed_size_records_round_trip_in_any_chunking() {
    let records: Vec<Vec<u8>> = vec![vec![1, 2, 3, 4], vec![5, 6, 7, 8], vec![9, 9, 9, 9]];
    let wire: Vec<u8> = records.concat();
    for chunk_size in [1usize, 3, 4, 5, wire.len()] {
        let mut reader = FixedSizeRecordReader::new(4);
        let mut received = Vec::new();
        for chunk in wire.chunks(chunk_size) {
            received.extend(reader.feed(chunk));
        }
        assert_eq!(received, records);
        assert_eq!(reader.missing(), 4);
    }
}

#[test]
fn fixed_size_reader_tells_what_is_missing() {
    let mut reader = FixedSizeRecordReader::new(3);
    assert!(reader.feed(&[1]).is_empty());
    assert_eq!(reader.missing(), 2);
    assert_eq!(reader.feed(&[2, 3, 4]), vec![vec![1, 2, 3]]);
    assert_eq!(reader.missing(), 2);
}

#[test]
fn zero_sized_records_miss_nothing() {
    let mut reader = FixedSizeRecordReader::new(0);
    assert_eq!(reader.missing(), 0);
    assert!(reader.feed(&[]).is_empty());
    assert_eq!(reader.missing(), 0);
}

#[test]
fn slot_receiver_publishes_filled_slots_and_gives_back_the_last() {
    let mut receiver = SlotReceiver::new(3);
    assert!(receiver.needs_slot());
    receiver.on_reserved();
    assert!(!receiver.needs_slot());
    assert_eq!(receiver.missing(), 3);
    assert_eq!(receiver.on_bytes(&[1, 2]), None);
    assert_eq!(receiver.missing(), 1);
    assert_eq!(receiver.on_bytes(&[3]), Some(vec![1, 2, 3]));
    assert!(receiver.needs_slot());
    receiver.on_reserved();
    assert_eq!(receiver.on_bytes(&[4, 5, 6]), Some(vec![4, 5, 6]));
    receiver.on_reserved();
    assert_eq!(receiver.on_bytes(&[7]), None);
    // the dialog ends with a half-filled slot: it is given back
    assert!(receiver.on_end());
    assert!(!receiver.needs_slot());
}

#[test]
fn slot_receiver_fails_only_on_the_first_reservation() {
    let mut first = SlotReceiver::new(2);
    assert!(first.on_reservation_failed());
    assert!(!first.needs_slot());
    assert!(!first.on_end());

    let mut later = SlotReceiver::new(2);
    later.on_reserved();
    assert_eq!(later.on_bytes(&[9, 9]), Some(vec![9, 9]));
    assert!(!later.on_reservation_failed());
    assert!(!later.on_end());
}

#[test]
fn slot_receiver_of_zero_sized_messages_reads_nothing() {
    let mut receiver = SlotReceiver::new(0);
    receiver.on_reserved();
    assert_eq!(receiver.missing(), 0);
    assert_eq!(receiver.on_bytes(&[]), None);
    assert!(receiver.on_end());
}
