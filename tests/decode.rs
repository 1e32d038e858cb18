use teamspeak_query::fields::FieldError;
use teamspeak_query::QueryError;
use teamspeak_query::wire::{decode_status, decode_status_with_result};
use teamspeak_query::{ErrorKind, FromQueryString, NotifyTextMessage, QueryStatus, SchandlerId};

#[test]
fn status_ok_without_data_gives_no_rows() {
    let r = decode_status_with_result::<()>("error id=0 msg=ok\n\r".to_string()).unwrap();
    assert!(r.is_none());
    let r = decode_status_with_result::<String>("error id=0 msg=ok\n\r".to_string()).unwrap();
    assert!(r.is_none());
}

#[test]
fn records_keep_count_and_order() {
    let raw = "a=1|b=2|c=3\n\rerror id=0 msg=ok\n\r".to_string();
    let rows = decode_status_with_result::<String>(raw).unwrap().unwrap();
    assert_eq!(rows, vec!["a=1".to_string(), "b=2".to_string(), "c=3".to_string()]);
}

#[test]
fn unit_rows_count_records() {
    let raw = "x|y\n\rerror id=0 msg=ok\n\r".to_string();
    let rows = decode_status_with_result::<()>(raw).unwrap().unwrap();
    assert_eq!(rows.len(), 2);
}

#[test]
fn typed_rows_decode_in_order() {
    let raw = "schandlerid=4|schandlerid=-9\n\rerror id=0 msg=ok\n\r".to_string();
    let rows = decode_status_with_result::<SchandlerId>(raw).unwrap().unwrap();
    assert_eq!(rows.len(), 2);
    assert_eq!(rows[0].schandler_id(), 4);
    assert_eq!(rows[1].schandler_id(), -9);
}

#[test]
fn a_bad_record_fails_the_batch() {
    let raw = "schandlerid=4|schandlerid=x\n\rerror id=0 msg=ok\n\r".to_string();
    let e = decode_status_with_result::<SchandlerId>(raw).unwrap_err();
    assert_eq!(e.code(), -7);
    assert!(matches!(e.kind(), ErrorKind::DeserializeError));
    assert!(e.message().starts_with("DeserializeError: "));
}

#[test]
fn missing_status_line_is_empty_response() {
    let e = decode_status("clid=1 cid=2\n\r".to_string()).unwrap_err();
    assert_eq!(e.code(), -1);
    assert_eq!(e.message(), "Expect result but none found.");
    assert!(matches!(e.kind(), ErrorKind::EmptyResponse));
    let e = decode_status(String::new()).unwrap_err();
    assert_eq!(e.code(), -1);
    let e = decode_status_with_result::<String>("a=1\n\r".to_string()).unwrap_err();
    assert_eq!(e.code(), -1);
}

#[test]
fn nonzero_status_is_teamspeak_error() {
    let e = decode_status("error id=256 msg=command\\snot\\sfound\n\r".to_string()).unwrap_err();
    assert_eq!(e.code(), 256);
    assert_eq!(e.message(), "command not found");
    assert!(matches!(e.kind(), ErrorKind::TeamSpeakError));
    let e = decode_status_with_result::<String>("a=1\n\rerror id=1538 msg=invalid\n\r".to_string())
        .unwrap_err();
    assert_eq!(e.code(), 1538);
    assert_eq!(e.message(), "invalid");
}

#[test]
fn success_returns_raw_text() {
    let raw = "clid=1 cid=2\n\rerror id=0 msg=ok\n\r".to_string();
    assert_eq!(decode_status(raw.clone()).unwrap(), raw);
}

#[test]
fn status_line_with_leading_space() {
    assert!(decode_status("  error id=0 msg=ok\n\r".to_string()).is_ok());
}

#[test]
fn malformed_status_is_parse_error() {
    let e = decode_status("error msg=ok\n\r".to_string()).unwrap_err();
    assert_eq!(e.code(), -7);
    assert!(e.message().starts_with("ParseError \"msg=ok\" "));
    let e = decode_status("error id=abc msg=ok\n\r".to_string()).unwrap_err();
    assert_eq!(e.code(), -7);
    let e = decode_status("error id=99999999999 msg=ok\n\r".to_string()).unwrap_err();
    assert_eq!(e.code(), -7);
}

#[test]
fn status_from_line() {
    let s = QueryStatus::from_line("error id=0 msg=ok").unwrap();
    assert_eq!(s.id(), 0);
    assert_eq!(s.msg(), "ok");
    let e = QueryStatus::from_line("id=0 msg=ok").unwrap_err();
    assert_eq!(e.code(), -7);
    assert_eq!(e.message(), "SplitError: \"id=0 msg=ok\"");
}

#[test]
fn status_into_result() {
    let s = QueryStatus::default();
    assert_eq!(s.id(), 0);
    assert_eq!(s.msg(), "ok");
    assert_eq!(s.into_result(5).unwrap(), 5);
    let s = QueryStatus::new(512, "bad".to_string());
    let e = s.clone().into_result(5).unwrap_err();
    assert_eq!(e.code(), 512);
    assert_eq!(e.message(), "bad");
    let e = s.into_err();
    assert_eq!(e.code(), 512);
}

#[test]
fn raw_string_row_round_trips() {
    for line in ["", "a=1 b=2", "msg=hello\\sworld", "x"] {
        assert_eq!(String::from_query(line).unwrap(), line);
        assert_eq!(<() as FromQueryString>::from_query(line).unwrap(), ());
    }
}

#[test]
fn notify_row_fields_and_defaults() {
    let n = NotifyTextMessage::from_query(
        "targetmode=1 msg=hi\\sthere invokerid=7 invokername=bob invokeruid=abc=",
    )
    .unwrap();
    assert_eq!(n.target_mode(), 1);
    assert_eq!(n.msg(), "hi there");
    assert_eq!(n.invoker_id(), 7);
    assert_eq!(n.invoker_name(), "bob");
    assert_eq!(n.invoker_uid(), "abc=");
    let n = NotifyTextMessage::from_query("msg=x").unwrap();
    assert_eq!(n.target_mode(), 0);
    assert_eq!(n.invoker_id(), 0);
    assert_eq!(n.invoker_name(), "");
    assert_eq!(n.invoker_uid(), "");
    assert!(NotifyTextMessage::from_query("targetmode=1").is_err());
    assert!(NotifyTextMessage::from_query("targetmode=300 msg=x").is_err());
}

#[test]
fn schandler_row_requires_field() {
    assert_eq!(SchandlerId::from_query("schandlerid=1").unwrap().schandler_id(), 1);
    assert!(SchandlerId::from_query("other=1").is_err());
}

#[test]
fn open_escapes_are_refused_without_panic() {
    for line in ["msg=ok\\", "a\\", "x=\\s\\", "a\\=b", "msg=\\\\\\ id=1", "msg=%ab\\é"] {
        assert!(NotifyTextMessage::from_query(line).is_err(), "{}", line);
        assert!(SchandlerId::from_query(line).is_err(), "{}", line);
    }
    let e = decode_status("error id=0 msg=ok\\\n\r".to_string()).unwrap_err();
    assert_eq!(e.code(), -7);
    assert!(e.message().starts_with("ParseError \"id=0 msg=ok\\\\\" "));
    let n = NotifyTextMessage::from_query("msg=a\\\\b\\sé").unwrap();
    assert_eq!(n.msg(), "a\\b é");
}

#[test]
fn lone_sign_reads_as_zero() {
    assert_eq!(SchandlerId::from_query("schandlerid=-").unwrap().schandler_id(), 0);
    assert_eq!(SchandlerId::from_query("schandlerid=+").unwrap().schandler_id(), 0);
    assert!(SchandlerId::from_query("schandlerid=").is_err());
}

#[test]
fn blank_lines_are_not_data() {
    let r = decode_status_with_result::<String>(" \n\rerror id=0 msg=ok\n\r".to_string()).unwrap();
    assert!(r.is_none());
}

#[test]
fn split_and_parse_failures_differ() {
    let e = QueryStatus::from_line("fail id=1").unwrap_err();
    assert_eq!(e.message(), "SplitError: \"fail id=1\"");
    let e = QueryStatus::from_line("error msg=ok").unwrap_err();
    assert_eq!(e.code(), -7);
    assert!(e.message().starts_with("ParseError \"msg=ok\" "));
}

#[test]
fn field_errors_in_words() {
    assert_eq!(FieldError::Missing("id".to_string()).describe(), "Missing(\"id\")");
    assert_eq!(
        FieldError::InvalidNumber("id".to_string(), "x".to_string()).describe(),
        "InvalidNumber(\"id\", \"x\")"
    );
    assert_eq!(FieldError::BadEscape("a\\".to_string()).describe(), "BadEscape(\"a\\\\\")");
    let e = QueryError::parse_error(FieldError::Missing("id".to_string()), "msg=ok");
    assert_eq!(e.message(), "ParseError \"msg=ok\" Missing(\"id\")");
    let e = QueryError::deserialize_error(FieldError::Missing("msg".to_string()));
    assert_eq!(e.message(), "DeserializeError: Missing(\"msg\")");
    let e = decode_status("error msg=ok\n\r".to_string()).unwrap_err();
    assert_eq!(e.message(), "ParseError \"msg=ok\" Missing(\"id\")");
}

#[test]
fn query_error_display() {
    assert_eq!(QueryError::except_data_not_found().display(), "Except data but not found(-5)");
    assert_eq!(QueryStatus::new(256, "x".to_string()).into_err().display(), "x(256)");
}
