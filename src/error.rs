//! The error taxonomy: local sentinel codes plus protocol-reported codes.
use crate::text::decimal;
use crate::text::decimal_text;
use crate::text::signed_decimal;
use crate::text::signed_decimal_text;
use crate::text::lemma_starts_with_after;
use crate::text::lemma_starts_with_self;
use crate::text::starts_with;
use crate::fields::FieldError;
use crate::types::QueryStatus;
use vstd::prelude::*;
use vstd::string::*;

verus! {

/// What `{:?}` prints for a string: the text quoted and escaped.
pub uninterp spec fn debug_quoted(s: Seq<char>) -> Seq<char>;

/// Relies on `<str as Debug>::fmt` (through `format!`): the quoted, escaped
/// form depends on the characters alone.
#[verifier::external_body]
fn quoted(s: &str) -> (r: String)
    ensures
        r@ == debug_quoted(s@),
{
    format!("{:?}", s)
}

/// Relies on the derived `Debug` of `serde_teamspeak_querystring::Error`
/// (through `format!`) to describe why the decoder refused a line.
#[verifier::external_body]
fn syntax_error_text(e: &serde_teamspeak_querystring::Error) -> (r: String) {
    format!("{:?}", e)
}

/// The description of a field error that holds only the library's own data;
/// `None` for the decoder's refusal, whose text the decoder writes.
pub open spec fn field_error_text_of(e: &FieldError) -> Option<Seq<char>> {
    match e {
        FieldError::Syntax(_) => None,
        FieldError::BadEscape(l) => Some("BadEscape("@ + debug_quoted(l@) + ")"@),
        FieldError::Missing(k) => Some("Missing("@ + debug_quoted(k@) + ")"@),
        FieldError::InvalidNumber(k, v) => Some(
            "InvalidNumber("@ + debug_quoted(k@) + ", "@ + debug_quoted(v@) + ")"@,
        ),
    }
}

impl FieldError {
    /// The error in words: its variant, then its contents quoted.
    pub fn describe(&self) -> (r: String)
        ensures
            match field_error_text_of(self) {
                Some(t) => r@ == t,
                None => starts_with(r@, "Syntax("@),
            },
    {
        match self {
            FieldError::Syntax(e) => {
                let mut r = String::from_str("Syntax(");
                let ghost head = r@;
                let t = syntax_error_text(e);
                r.append(t.as_str());
                r.append(")");
                assert(r@.subrange(0, head.len() as int) =~= head);
                r
            },
            FieldError::BadEscape(l) => {
                let mut r = String::from_str("BadEscape(");
                let q = quoted(l.as_str());
                r.append(q.as_str());
                r.append(")");
                r
            },
            FieldError::Missing(k) => {
                let mut r = String::from_str("Missing(");
                let q = quoted(k.as_str());
                r.append(q.as_str());
                r.append(")");
                r
            },
            FieldError::InvalidNumber(k, v) => {
                let mut r = String::from_str("InvalidNumber(");
                let q = quoted(k.as_str());
                r.append(q.as_str());
                r.append(", ");
                let w = quoted(v.as_str());
                r.append(w.as_str());
                r.append(")");
                r
            },
        }
    }
}

/// An error of the protocol engine: a code and a message.
///
/// Negative codes are local failures (see [`ErrorKind`]); positive codes are
/// status codes reported by the server.
#[derive(Clone, Default, Debug)]
pub struct QueryError {
    code: i32,
    message: String,
}

/// The message of a length mismatch.
pub open spec fn length_mismatch_text(payload: &str, size: usize) -> Seq<char> {
    "Error payload size mismatch! expect "@ + decimal(payload.len() as nat) + " but "@ + decimal(
        size as nat,
    ) + " found. payload: "@ + debug_quoted(payload@)
}

/// The message of a missing-data error that names the request.
pub open spec fn data_not_found_payload_text(payload: Seq<char>) -> Seq<char> {
    "Except data but not found, payload => "@ + debug_quoted(payload)
}

pub open spec fn empty_response_text() -> Seq<char> {
    "Expect result but none found."@
}

pub open spec fn data_not_found_text() -> Seq<char> {
    "Except data but not found"@
}

impl QueryError {
    pub closed spec fn spec_code(&self) -> i32 {
        self.code
    }

    pub closed spec fn spec_message(&self) -> Seq<char> {
        self.message@
    }

    pub fn code(&self) -> (r: i32)
        ensures
            r == self.spec_code(),
    {
        self.code
    }

    pub fn message(&self) -> (r: &str)
        ensures
            r@ == self.spec_message(),
    {
        self.message.as_str()
    }

    /// No terminal status line was found.
    pub fn static_empty_response() -> (r: Self)
        ensures
            r.spec_code() == -1,
            r.spec_message() == empty_response_text(),
    {
        proof {
            reveal_strlit("Expect result but none found.");
        }
        Self { code: -1, message: String::from_str("Expect result but none found.") }
    }

    /// The echo of a sent message was malformed or did not match.
    pub fn send_message_error(data: String) -> (r: Self)
        ensures
            r.spec_code() == -2,
            r.spec_message() == "Unable to send message, raw data => "@ + data@,
    {
        let mut message = String::from_str("Unable to send message, raw data => ");
        message.append(data.as_str());
        Self { code: -2, message }
    }

    /// The echo line failed structured decoding.
    pub fn decode_error(data: &str) -> (r: Self)
        ensures
            r.spec_code() == -3,
            r.spec_message() == "Decode result error: "@ + data@,
    {
        let mut message = String::from_str("Decode result error: ");
        message.append(data);
        Self { code: -3, message }
    }

    /// Fewer bytes were written than the payload holds.
    pub fn length_mismatch(payload: &str, size: usize) -> (r: Self)
        ensures
            r.spec_code() == -4,
            r.spec_message() == length_mismatch_text(payload, size),
    {
        let mut message = String::from_str("Error payload size mismatch! expect ");
        let expected = decimal_text(payload.len() as u64);
        message.append(expected.as_str());
        message.append(" but ");
        let found = decimal_text(size as u64);
        message.append(found.as_str());
        message.append(" found. payload: ");
        let q = quoted(payload);
        message.append(q.as_str());
        Self { code: -4, message }
    }

    /// The transport failed; `detail` describes the failure.
    pub fn io_error(detail: &str) -> (r: Self)
        ensures
            r.spec_code() == -6,
            r.spec_message() == "IOError: "@ + detail@,
    {
        let mut message = String::from_str("IOError: ");
        message.append(detail);
        Self { code: -6, message }
    }

    /// A status succeeded but the expected data is absent.
    pub fn except_data_not_found() -> (r: Self)
        ensures
            r.spec_code() == -5,
            r.spec_message() == data_not_found_text(),
    {
        proof {
            reveal_strlit("Except data but not found");
        }
        Self { code: -5, message: String::from_str("Except data but not found") }
    }

    /// As [`QueryError::except_data_not_found`], naming the request sent.
    pub fn except_data_not_found_payload(payload: &str) -> (r: Self)
        ensures
            r.spec_code() == -5,
            r.spec_message() == data_not_found_payload_text(payload@),
    {
        let mut message = String::from_str("Except data but not found, payload => ");
        let q = quoted(payload);
        message.append(q.as_str());
        Self { code: -5, message }
    }

    /// The remainder of a status line could not be decoded.
    pub fn parse_error(e: FieldError, line: &str) -> (r: Self)
        ensures
            r.spec_code() == -7,
            match field_error_text_of(&e) {
                Some(t) => r.spec_message() == "ParseError "@ + debug_quoted(line@) + " "@ + t,
                None => starts_with(
                    r.spec_message(),
                    "ParseError "@ + debug_quoted(line@) + " "@ + "Syntax("@,
                ),
            },
            starts_with(r.spec_message(), "ParseError "@ + debug_quoted(line@) + " "@),
    {
        let mut message = String::from_str("ParseError ");
        let q = quoted(line);
        message.append(q.as_str());
        message.append(" ");
        let ghost head = message@;
        let t = e.describe();
        message.append(t.as_str());
        proof {
            lemma_starts_with_self(head, t@);
            if field_error_text_of(&e) is None {
                lemma_starts_with_after(head, t@, "Syntax("@);
            }
        }
        Self { code: -7, message }
    }

    /// A status line does not hold the status marker.
    pub fn split_error(line: &str) -> (r: Self)
        ensures
            r.spec_code() == -7,
            r.spec_message() == "SplitError: "@ + debug_quoted(line@),
    {
        let mut message = String::from_str("SplitError: ");
        let q = quoted(line);
        message.append(q.as_str());
        Self { code: -7, message }
    }

    /// A row could not be decoded.
    pub fn deserialize_error(e: FieldError) -> (r: Self)
        ensures
            r.spec_code() == -7,
            match field_error_text_of(&e) {
                Some(t) => r.spec_message() == "DeserializeError: "@ + t,
                None => starts_with(r.spec_message(), "DeserializeError: "@ + "Syntax("@),
            },
            starts_with(r.spec_message(), "DeserializeError: "@),
    {
        let mut message = String::from_str("DeserializeError: ");
        let ghost head = message@;
        let t = e.describe();
        message.append(t.as_str());
        proof {
            lemma_starts_with_self(head, t@);
            if field_error_text_of(&e) is None {
                lemma_starts_with_after(head, t@, "Syntax("@);
            }
        }
        Self { code: -7, message }
    }

    /// The error in words: its message, then its code in parentheses.
    pub fn display(&self) -> (r: String)
        ensures
            r@ == self.spec_message() + "("@ + signed_decimal(self.spec_code() as int) + ")"@,
    {
        let mut r = self.message.clone();
        r.append("(");
        let c = signed_decimal_text(self.code as i64);
        r.append(c.as_str());
        r.append(")");
        r
    }

    /// The error a failed status carries: its id and message, verbatim.
    pub fn from_status(status: QueryStatus) -> (r: Self)
        ensures
            r.spec_code() == status.spec_id(),
            r.spec_message() == status.spec_msg(),
    {
        let (code, message) = status.into_parts();
        Self { code, message }
    }

    /// The kind of this error, by its code.
    pub fn kind(&self) -> (r: ErrorKind)
        ensures
            r == kind_of(self.spec_code()),
    {
        let c = self.code;
        if c == 0 {
            ErrorKind::OK
        } else if c == -1 {
            ErrorKind::EmptyResponse
        } else if c == -2 {
            ErrorKind::SendMessageError
        } else if c == -3 {
            ErrorKind::DecodeError
        } else if c == -4 {
            ErrorKind::LengthMismatch
        } else if c == -5 {
            ErrorKind::EmptyResultResponse
        } else if c == -6 {
            ErrorKind::IOError
        } else if c == -7 {
            ErrorKind::DeserializeError
        } else {
            ErrorKind::TeamSpeakError
        }
    }
}

/// The closed set of error kinds.
#[non_exhaustive]
#[derive(Clone, Copy, Debug, PartialEq, Eq, Structural)]
pub enum ErrorKind {
    EmptyResponse,
    SendMessageError,
    DecodeError,
    LengthMismatch,
    EmptyResultResponse,
    IOError,
    DeserializeError,
    TeamSpeakError,
    OK,
}

/// The kind of a code. Codes other than the sentinels `0..=-7` are status
/// codes of the server.
pub open spec fn kind_of(code: i32) -> ErrorKind {
    if code == 0 {
        ErrorKind::OK
    } else if code == -1 {
        ErrorKind::EmptyResponse
    } else if code == -2 {
        ErrorKind::SendMessageError
    } else if code == -3 {
        ErrorKind::DecodeError
    } else if code == -4 {
        ErrorKind::LengthMismatch
    } else if code == -5 {
        ErrorKind::EmptyResultResponse
    } else if code == -6 {
        ErrorKind::IOError
    } else if code == -7 {
        ErrorKind::DeserializeError
    } else {
        ErrorKind::TeamSpeakError
    }
}

impl From<QueryError> for ErrorKind {
    fn from(value: QueryError) -> (r: Self) {
        value.kind()
    }
}

impl vstd::std_specs::convert::FromSpecImpl<QueryError> for ErrorKind {
    open spec fn obeys_from_spec() -> bool {
        true
    }

    open spec fn from_spec(v: QueryError) -> ErrorKind {
        kind_of(v.spec_code())
    }
}

/// A result of the protocol engine.
pub type QueryResult<T> = Result<T, QueryError>;

} // verus!
