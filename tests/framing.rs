use teamspeak_query::framing::{check_written, expect_data, ReadAccumulator, ReadAction, ReadEvent, BUFFER_SIZE};
use teamspeak_query::wire::decode_status_with_result;
use teamspeak_query::ErrorKind;

#[test]
fn partial_reads_are_concatenated() {
    let mut acc = ReadAccumulator::new(BUFFER_SIZE);
    let first = vec![b'x'; 512];
    assert!(matches!(acc.step(ReadEvent::Received(first)), ReadAction::Continue));
    let mut second = vec![b'x'; 67];
    second.extend_from_slice(b"\n\rerror id=0 msg=ok\n\r");
    assert_eq!(second.len(), 88);
    let text = match acc.step(ReadEvent::Received(second)) {
        ReadAction::Complete(t) => t,
        _ => panic!("response should be complete"),
    };
    assert_eq!(text.len(), 600);
    let rows = decode_status_with_result::<String>(text).unwrap().unwrap();
    assert_eq!(rows.len(), 1);
    assert_eq!(rows[0].len(), 512 + 67);
}

#[test]
fn full_buffer_with_status_and_terminator_completes() {
    let mut acc = ReadAccumulator::new(8);
    assert!(matches!(acc.step(ReadEvent::Received(b"error id".to_vec())), ReadAction::Continue));
    let r = acc.step(ReadEvent::Received(b"=0 ok\n\r ".to_vec()));
    assert!(matches!(r, ReadAction::Continue));
    let mut acc = ReadAccumulator::new(19);
    match acc.step(ReadEvent::Received(b"error id=0 msg=ok\n\r".to_vec())) {
        ReadAction::Complete(t) => assert_eq!(t, "error id=0 msg=ok\n\r"),
        _ => panic!("marker and terminator end the response"),
    }
}

#[test]
fn end_of_stream_completes() {
    let mut acc = ReadAccumulator::new(4);
    assert!(matches!(acc.step(ReadEvent::Received(b"abcd".to_vec())), ReadAction::Continue));
    match acc.step(ReadEvent::Received(Vec::new())) {
        ReadAction::Complete(t) => assert_eq!(t, "abcd"),
        _ => panic!("a short read ends the response"),
    }
    assert_eq!(acc.text(), "abcd");
    assert_eq!(acc.capacity(), 4);
}

#[test]
fn zero_byte_first_read_is_empty_response() {
    let mut acc = ReadAccumulator::new(BUFFER_SIZE);
    match acc.step(ReadEvent::Received(Vec::new())) {
        ReadAction::Complete(t) => assert_eq!(t, ""),
        _ => panic!("end of stream ends the read"),
    }
}

#[test]
fn invalid_utf8_is_replaced() {
    let mut acc = ReadAccumulator::new(16);
    assert!(acc.push_chunk(&[b'a', 0xff, b'b']));
    assert_eq!(acc.text(), "a\u{fffd}b");
}

#[test]
fn timeout_yields_no_data() {
    let mut acc = ReadAccumulator::new(BUFFER_SIZE);
    assert!(matches!(acc.step(ReadEvent::TimedOut), ReadAction::NoData));
    let e = expect_data(None).unwrap_err();
    assert_eq!(e.code(), -5);
    assert!(matches!(e.kind(), ErrorKind::EmptyResultResponse));
    assert_eq!(expect_data(Some("x".to_string())).unwrap(), "x");
}

#[test]
fn written_length_is_checked() {
    assert!(check_written("ab\n\r", 4).is_none());
    let e = check_written("ab\n\r", 2).unwrap();
    assert_eq!(e.code(), -4);
    assert_eq!(e.message(), "Error payload size mismatch! expect 4 but 2 found. payload: \"ab\\n\\r\"");
}
