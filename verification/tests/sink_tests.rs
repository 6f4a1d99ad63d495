use buffered_logger::LogMessage;
use buffered_logger::Sink;

fn new_sink(retain: usize, buffer_size: usize, rotate_size: usize, initial: usize) -> Sink {
    Sink::new(
        b"m".to_vec(),
        b"log".to_vec(),
        retain,
        buffer_size,
        rotate_size,
        false,
        initial,
        Vec::new(),
    )
}

#[test]
fn buffer_fills_to_capacity_then_flushes() {
    // buffer_size = 10: "abc"(3), "defgh"(5), "ij"(2) fit exactly; the
    // fourth entry "k" forces the 10 buffered bytes out and stays alone.
    let mut sink = new_sink(5, 10, 1_000_000, 0);

    let eff = sink.handle_message(LogMessage::Entry(b"abc".to_vec()));
    assert!(eff.write.is_none());
    assert!(eff.rotation.is_none());
    assert_eq!(sink.buffer.fill(), 3);

    let eff = sink.handle_message(LogMessage::Entry(b"defgh".to_vec()));
    assert!(eff.write.is_none());
    assert_eq!(sink.buffer.fill(), 8);
    assert_eq!(sink.buffer.remaining_capacity(), 2);
    assert!(!sink.buffer.would_overflow(2));

    let eff = sink.handle_message(LogMessage::Entry(b"ij".to_vec()));
    assert!(eff.write.is_none());
    assert_eq!(sink.buffer.fill(), 10);
    assert_eq!(sink.buffer.remaining_capacity(), 0);
    assert!(sink.buffer.would_overflow(1));

    let eff = sink.handle_message(LogMessage::Entry(b"k".to_vec()));
    assert_eq!(eff.write.as_deref(), Some(b"abcdefghij".as_slice()));
    assert_eq!(sink.buffer.fill(), 1);
}

#[test]
fn flush_request_hands_out_buffered_bytes() {
    let mut sink = new_sink(5, 100, 1_000_000, 0);
    sink.handle_message(LogMessage::Entry(b"hello\n".to_vec()));
    sink.handle_message(LogMessage::Entry(b"world\n".to_vec()));
    assert_eq!(sink.buffer.fill(), 12);

    let eff = sink.handle_message(LogMessage::FlushRequest);
    assert!(eff.rotation.is_none());
    assert_eq!(eff.write.as_deref(), Some(b"hello\nworld\n".as_slice()));
    assert_eq!(sink.buffer.fill(), 0);

    // A second flush writes nothing new.
    let eff = sink.handle_message(LogMessage::FlushRequest);
    assert_eq!(eff.write.as_deref(), Some(b"".as_slice()));
}

#[test]
fn oversized_entry_sits_alone_in_buffer() {
    let mut sink = new_sink(5, 4, 1_000_000, 0);
    let eff = sink.handle_message(LogMessage::Entry(b"0123456789".to_vec()));
    // The empty buffer is flushed first, then the oversized entry is held.
    assert_eq!(eff.write.as_deref(), Some(b"".as_slice()));
    assert_eq!(sink.buffer.fill(), 10);

    let eff = sink.handle_message(LogMessage::Entry(b"x".to_vec()));
    assert_eq!(eff.write.as_deref(), Some(b"0123456789".as_slice()));
    assert_eq!(sink.buffer.fill(), 1);
}

#[test]
fn rotation_triggers_before_entry_is_attributed() {
    // rotate_size = 100 and 95 bytes already attributed: a 10-byte entry
    // rotates first, and the fresh file is charged exactly those 10 bytes.
    let mut sink = new_sink(5, 1024, 100, 95);
    let eff = sink.handle_message(LogMessage::Entry(b"0123456789".to_vec()));
    let rot = eff.rotation.expect("rotation must occur");
    assert_eq!(sink.file_size, 10);
    // The renamed file and its eventual compressed archive belong together.
    let mut expected_archive = rot.renamed_name.clone();
    expected_archive.extend_from_slice(b".gz");
    assert_eq!(rot.archive_name, expected_archive);
    assert!(rot.pruned.is_empty());
    // The entry itself stays buffered until the next flush boundary.
    assert_eq!(sink.buffer.fill(), 10);
}

#[test]
fn no_rotation_when_entry_fits() {
    let mut sink = new_sink(5, 1024, 100, 90);
    let eff = sink.handle_message(LogMessage::Entry(b"0123456789".to_vec()));
    assert!(eff.rotation.is_none());
    assert_eq!(sink.file_size, 100);
}

#[test]
fn retention_keeps_two_most_recent_archives() {
    // retain = 2 and three rotations: exactly the two youngest archives
    // survive; the third rotation prunes the first archive.
    let mut sink = new_sink(2, 1024, 100, 0);

    let first = sink
        .handle_message(LogMessage::RotateRequest)
        .rotation
        .expect("rotation");
    assert!(first.pruned.is_empty());
    assert_eq!(sink.window.len(), 1);

    let second = sink
        .handle_message(LogMessage::RotateRequest)
        .rotation
        .expect("rotation");
    assert!(second.pruned.is_empty());
    assert_eq!(sink.window.len(), 2);

    let third = sink
        .handle_message(LogMessage::RotateRequest)
        .rotation
        .expect("rotation");
    assert_eq!(sink.window.len(), 2);
    assert_eq!(third.pruned, vec![first.archive_name.clone()]);
    assert_eq!(sink.window[0], second.archive_name);
    assert_eq!(sink.window[1], third.archive_name);
}

#[test]
fn rotate_request_resets_file_size() {
    let mut sink = new_sink(3, 1024, 1_000_000, 777);
    let eff = sink.handle_message(LogMessage::RotateRequest);
    assert!(eff.rotation.is_some());
    assert!(eff.write.is_none());
    assert_eq!(sink.file_size, 0);
}

#[test]
fn rotation_archive_name_has_archive_shape() {
    let mut sink = new_sink(3, 1024, 1_000_000, 0);
    let rot = sink
        .handle_message(LogMessage::RotateRequest)
        .rotation
        .expect("rotation");
    assert!(buffered_logger::is_archive_file_name(
        &rot.archive_name,
        &b"m".to_vec(),
        &b"log".to_vec()
    ));
    // stem '.' yymmdd '.' HHMMSS '.' mmm '.' ext ".gz"
    assert_eq!(rot.archive_name.len(), 1 + 22 + 3);
    assert_eq!(rot.renamed_name.len(), 1 + 19 + 3);
}
