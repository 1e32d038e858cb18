use teamspeak_query::client::{
    basic_result, check_echo, current_server_tab_payload, is_alive, keep_alive_payload,
    login_payload, query_one, query_rows, register_event_payload,
    text_message_payload, CHANNEL_MODE, PRIVATE_MODE,
};
use teamspeak_query::text::signed_decimal_text;
use teamspeak_query::{ErrorKind, QueryError, SchandlerId};

#[test]
fn echo_with_same_text_succeeds() {
    assert!(check_echo("notifytextmessage msg=hello\n\r", "hello").is_ok());
}

#[test]
fn echo_with_other_text_fails() {
    let e = check_echo("notifytextmessage msg=goodbye\n\r", "hello").unwrap_err();
    assert_eq!(e.code(), -2);
    assert!(matches!(e.kind(), ErrorKind::SendMessageError));
    assert_eq!(e.message(), "Unable to send message, raw data => None (No equal)");
}

#[test]
fn echo_compares_unescaped_text() {
    let r = check_echo(
        "notifytextmessage targetmode=2 msg=hello\\sworld invokerid=3\n\rerror id=0 msg=ok\n\r",
        "hello world",
    );
    assert!(r.is_ok());
}

#[test]
fn echo_without_separator_or_message() {
    let e = check_echo("notifytextmessage\n\r", "hi").unwrap_err();
    assert_eq!(e.code(), -2);
    assert_eq!(e.message(), "Unable to send message, raw data => notifytextmessage");
    let e = check_echo("notifytextmessage invokerid=1\n\r", "hi").unwrap_err();
    assert_eq!(e.code(), -3);
    assert_eq!(e.message(), "Decode result error: invokerid=1");
    assert!(matches!(e.kind(), ErrorKind::DecodeError));
}

#[test]
fn send_answered_by_status() {
    assert!(check_echo("error id=0 msg=ok\n\r", "hi").is_ok());
    let e = check_echo("error id=1793 msg=denied\n\r", "hi").unwrap_err();
    assert_eq!(e.code(), 1793);
    assert_eq!(e.message(), "denied");
    let e = check_echo("", "hi").unwrap_err();
    assert_eq!(e.code(), -1);
}

#[test]
fn payloads() {
    assert_eq!(login_payload("KEY-1"), "auth apikey=KEY-1\n\r");
    assert_eq!(
        register_event_payload("notifytextmessage"),
        "clientnotifyregister schandlerid=0 event=notifytextmessage\n\r"
    );
    assert_eq!(
        text_message_payload(PRIVATE_MODE, 1, 42, "a b/c\\d"),
        "sendtextmessage schandlerid=1 targetmode=1 target=42 msg=a\\sb\\/c\\\\d\n\r"
    );
    assert_eq!(
        text_message_payload(CHANNEL_MODE, -3, 0, "hi"),
        "sendtextmessage schandlerid=-3 targetmode=2 target=0 msg=hi\n\r"
    );
    assert_eq!(keep_alive_payload(), "whoami\n\r");
    assert_eq!(current_server_tab_payload(), "currentschandlerid\n\r");
}

#[test]
fn decimal_rendering() {
    assert_eq!(signed_decimal_text(0), "0");
    assert_eq!(signed_decimal_text(1234567890), "1234567890");
    assert_eq!(signed_decimal_text(-45), "-45");
    assert_eq!(signed_decimal_text(i64::MIN), "-9223372036854775808");
    assert_eq!(signed_decimal_text(i64::MAX), "9223372036854775807");
}

#[test]
fn liveness_markers() {
    assert!(is_alive("clid=1 cid=2"));
    assert!(!is_alive("clid=1"));
    assert!(!is_alive("error id=0 msg=ok"));
}

#[test]
fn basic_operation_outcome() {
    assert!(basic_result("error id=0 msg=ok\n\r".to_string()).is_ok());
    assert_eq!(basic_result("error id=2 msg=no\n\r".to_string()).unwrap_err().code(), 2);
}

#[test]
fn query_one_takes_first_row() {
    let r: SchandlerId =
        query_one("schandlerid=3|schandlerid=5\n\rerror id=0 msg=ok\n\r".to_string(), "q\n\r")
            .unwrap();
    assert_eq!(r.schandler_id(), 3);
    let line: String =
        query_one("clid=1 cid=2\n\rerror id=0 msg=ok\n\r".to_string(), "whoami\n\r").unwrap();
    assert!(is_alive(&line));
}

#[test]
fn query_without_data_is_data_not_found() {
    let e = query_rows::<String>("error id=0 msg=ok\n\r".to_string(), "whoami\n\r").unwrap_err();
    assert_eq!(e.code(), -5);
    assert_eq!(e.message(), "Except data but not found, payload => \"whoami\\n\\r\"");
    let e = query_one::<String>("error id=0 msg=ok\n\r".to_string(), "whoami\n\r").unwrap_err();
    assert_eq!(e.code(), -5);
}

#[test]
fn error_constructors() {
    let e = QueryError::static_empty_response();
    assert_eq!((e.code(), e.message()), (-1, "Expect result but none found."));
    let e = QueryError::send_message_error("raw".to_string());
    assert_eq!((e.code(), e.message()), (-2, "Unable to send message, raw data => raw"));
    let e = QueryError::decode_error("d");
    assert_eq!((e.code(), e.message()), (-3, "Decode result error: d"));
    let e = QueryError::length_mismatch("abc", 1);
    assert_eq!(e.code(), -4);
    assert!(matches!(e.kind(), ErrorKind::LengthMismatch));
    let e = QueryError::except_data_not_found();
    assert_eq!((e.code(), e.message()), (-5, "Except data but not found"));
    let e = QueryError::except_data_not_found_payload("p");
    assert_eq!((e.code(), e.message()), (-5, "Except data but not found, payload => \"p\""));
    let e = QueryError::io_error("Kind(TimedOut)");
    assert_eq!((e.code(), e.message()), (-6, "IOError: Kind(TimedOut)"));
    assert!(matches!(e.kind(), ErrorKind::IOError));
    let e = QueryError::split_error("x");
    assert_eq!((e.code(), e.message()), (-7, "SplitError: \"x\""));
    assert!(matches!(ErrorKind::from(e), ErrorKind::DeserializeError));
    assert!(matches!(QueryError::default().kind(), ErrorKind::OK));
}
