//! The rows of the protocol: the status line and the typed data rows.
use crate::error::QueryError;
use crate::error::QueryResult;
use crate::fields::line_fields;
use crate::fields::int_field;
use crate::fields::int_field_value;
use crate::fields::line_pairs;
use crate::fields::text_field;
use crate::fields::text_field_value;
use crate::fields::FieldError;
use crate::row::FromQueryString;
use crate::error::debug_quoted;
use crate::text::after_first;
use crate::text::starts_with;
use crate::text::split_after;
use vstd::prelude::*;
use vstd::string::*;

verus! {

/// The terminal status line of a response: a numeric id and a message.
/// An id of zero is success.
#[derive(Clone, Debug)]
pub struct QueryStatus {
    id: i32,
    msg: String,
}

impl QueryStatus {
    pub closed spec fn spec_id(&self) -> i32 {
        self.id
    }

    pub closed spec fn spec_msg(&self) -> Seq<char> {
        self.msg@
    }

    /// A status with the given id and message.
    pub fn new(id: i32, msg: String) -> (r: Self)
        ensures
            r.spec_id() == id,
            r.spec_msg() == msg@,
    {
        QueryStatus { id, msg }
    }

    pub fn id(&self) -> (r: i32)
        ensures
            r == self.spec_id(),
    {
        self.id
    }

    pub fn msg(&self) -> (r: &String)
        ensures
            r@ == self.spec_msg(),
    {
        &self.msg
    }

    /// The id and the message, taken apart.
    pub fn into_parts(self) -> (r: (i32, String))
        ensures
            r.0 == self.spec_id(),
            r.1@ == self.spec_msg(),
    {
        (self.id, self.msg)
    }

    /// The error this status carries: its id and message.
    pub fn into_err(self) -> (r: QueryError)
        ensures
            r.spec_code() == self.spec_id(),
            r.spec_message() == self.spec_msg(),
    {
        QueryError::from_status(self)
    }

    /// `ret` when the status is success, else the status as an error.
    pub fn into_result<T>(self, ret: T) -> (r: QueryResult<T>)
        ensures
            self.spec_id() == 0 ==> r == Ok::<T, QueryError>(ret),
            self.spec_id() != 0 ==> (r matches Err(e) && e.spec_code() == self.spec_id()
                && e.spec_message() == self.spec_msg()),
    {
        if self.id == 0 {
            return Ok(ret);
        }
        Err(self.into_err())
    }
}

impl Default for QueryStatus {
    fn default() -> (r: Self)
        ensures
            r.spec_id() == 0,
            r.spec_msg() == "ok"@,
    {
        proof {
            reveal_strlit("ok");
        }
        QueryStatus { id: 0, msg: String::from_str("ok") }
    }
}

/// The id and message that the fields after the status marker hold: `id`
/// (an `i32`) and `msg`, both required.
pub open spec fn status_fields(rest: Seq<char>) -> Option<(int, Seq<char>)> {
    match line_fields(rest) {
        Some(ps) => match (
            int_field_value(ps, "id"@, i32::MIN as int, i32::MAX as int, None),
            text_field_value(ps, "msg"@, true),
        ) {
            (Some(id), Some(msg)) => Some((id, msg)),
            _ => None,
        },
        None => None,
    }
}

/// The id and message of a status line: the fields after its first `error `.
pub open spec fn status_of(line: Seq<char>) -> Option<(int, Seq<char>)> {
    match after_first(line, "error "@) {
        Some(rest) => status_fields(rest),
        None => None,
    }
}

impl QueryStatus {
    /// The status that a status line holds.
    ///
    /// Fails with a split error (code -7) where the line lacks `error `, and
    /// with a parse error (code -7) where what follows is not a valid status.
    pub fn from_line(value: &str) -> (r: QueryResult<QueryStatus>)
        ensures
            r is Ok <==> status_of(value@) is Some,
            r matches Ok(s) ==> status_of(value@) == Some((s.spec_id() as int, s.spec_msg())),
            r matches Err(e) ==> e.spec_code() == -7,
            match after_first(value@, "error "@) {
                None => r matches Err(e) && e.spec_message() == "SplitError: "@ + debug_quoted(
                    value@,
                ),
                Some(rest) => status_fields(rest) is None ==> (r matches Err(e) && starts_with(
                    e.spec_message(),
                    "ParseError "@ + debug_quoted(rest) + " "@,
                )),
            },
    {
        let rest = match split_after(value, "error ") {
            Some(rest) => rest,
            None => return Err(QueryError::split_error(value)),
        };
        let ps = match line_pairs(rest) {
            Ok(ps) => ps,
            Err(e) => return Err(QueryError::parse_error(e, rest)),
        };
        let id = match int_field(&ps, "id", i32::MIN as i64, i32::MAX as i64, None) {
            Ok(id) => id,
            Err(e) => return Err(QueryError::parse_error(e, rest)),
        };
        let msg = match text_field(&ps, "msg", true) {
            Ok(msg) => msg,
            Err(e) => return Err(QueryError::parse_error(e, rest)),
        };
        Ok(QueryStatus { id: id as i32, msg })
    }
}

/// The row of `currentschandlerid`: the id of the current server tab.
#[derive(Copy, Clone, Debug)]
pub struct SchandlerId {
    schandler_id: i64,
}

/// The tab id that a line holds in its required field `schandlerid`.
pub open spec fn schandler_of(line: Seq<char>) -> Option<int> {
    match line_fields(line) {
        Some(ps) => int_field_value(ps, "schandlerid"@, i64::MIN as int, i64::MAX as int, None),
        None => None,
    }
}

impl View for SchandlerId {
    type V = i64;

    closed spec fn view(&self) -> i64 {
        self.schandler_id
    }
}

impl SchandlerId {
    pub fn schandler_id(&self) -> (r: i64)
        ensures
            r == self@,
    {
        self.schandler_id
    }
}

impl FromQueryString for SchandlerId {
    open spec fn decodable(line: Seq<char>) -> bool {
        schandler_of(line) is Some
    }

    open spec fn decodes_to(line: Seq<char>, v: SchandlerId) -> bool {
        schandler_of(line) == Some(v@ as int)
    }

    fn from_query(data: &str) -> (r: Result<SchandlerId, FieldError>) {
        let ps = line_pairs(data)?;
        let id = int_field(&ps, "schandlerid", i64::MIN, i64::MAX, None)?;
        Ok(SchandlerId { schandler_id: id })
    }
}

/// A text message notification: the echo of a sent message among them.
#[derive(Clone, Debug)]
pub struct NotifyTextMessage {
    target_mode: i8,
    msg: String,
    invoker_id: i64,
    invoker_name: String,
    invoker_uid: String,
}

/// The fields of a notification line: `targetmode` (an `i8`, default 0),
/// `msg` (required), `invokerid` (an `i64`, default 0), `invokername` and
/// `invokeruid` (default empty).
pub open spec fn notify_of(line: Seq<char>) -> Option<(int, Seq<char>, int, Seq<char>, Seq<char>)> {
    match line_fields(line) {
        Some(ps) => match (
            int_field_value(ps, "targetmode"@, i8::MIN as int, i8::MAX as int, Some(0)),
            text_field_value(ps, "msg"@, true),
            int_field_value(ps, "invokerid"@, i64::MIN as int, i64::MAX as int, Some(0)),
            text_field_value(ps, "invokername"@, false),
            text_field_value(ps, "invokeruid"@, false),
        ) {
            (Some(a), Some(b), Some(c), Some(d), Some(e)) => Some((a, b, c, d, e)),
            _ => None,
        },
        None => None,
    }
}

impl View for NotifyTextMessage {
    type V = (int, Seq<char>, int, Seq<char>, Seq<char>);

    closed spec fn view(&self) -> (int, Seq<char>, int, Seq<char>, Seq<char>) {
        (
            self.target_mode as int,
            self.msg@,
            self.invoker_id as int,
            self.invoker_name@,
            self.invoker_uid@,
        )
    }
}

impl NotifyTextMessage {
    pub fn msg(&self) -> (r: &str)
        ensures
            r@ == self@.1,
    {
        self.msg.as_str()
    }

    pub fn invoker_name(&self) -> (r: &str)
        ensures
            r@ == self@.3,
    {
        self.invoker_name.as_str()
    }

    pub fn target_mode(&self) -> (r: i8)
        ensures
            r as int == self@.0,
    {
        self.target_mode
    }

    pub fn invoker_id(&self) -> (r: i64)
        ensures
            r as int == self@.2,
    {
        self.invoker_id
    }

    pub fn invoker_uid(&self) -> (r: &str)
        ensures
            r@ == self@.4,
    {
        self.invoker_uid.as_str()
    }
}

impl FromQueryString for NotifyTextMessage {
    open spec fn decodable(line: Seq<char>) -> bool {
        notify_of(line) is Some
    }

    open spec fn decodes_to(line: Seq<char>, v: NotifyTextMessage) -> bool {
        notify_of(line) == Some(v@)
    }

    fn from_query(data: &str) -> (r: Result<NotifyTextMessage, FieldError>) {
        let ps = line_pairs(data)?;
        let target_mode = int_field(&ps, "targetmode", i8::MIN as i64, i8::MAX as i64, Some(0))?;
        let msg = text_field(&ps, "msg", true)?;
        let invoker_id = int_field(&ps, "invokerid", i64::MIN, i64::MAX, Some(0))?;
        let invoker_name = text_field(&ps, "invokername", false)?;
        let invoker_uid = text_field(&ps, "invokeruid", false)?;
        Ok(
            NotifyTextMessage {
                target_mode: target_mode as i8,
                msg,
                invoker_id,
                invoker_name,
                invoker_uid,
            },
        )
    }
}

} // verus!
