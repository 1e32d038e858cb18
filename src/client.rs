//! The command layer's decisions: request payloads, and what each command
//! makes of the response it got.
use crate::error::data_not_found_payload_text;
use crate::error::QueryError;
use crate::error::QueryResult;
use crate::row::FromQueryString;
use crate::text::after_first;
use crate::text::before_first;
use crate::text::begins;
use crate::text::contains;
use crate::text::signed_decimal;
use crate::text::signed_decimal_text;
use crate::text::has;
use crate::text::split_after;
use crate::text::split_before;
use crate::text::split_on;
use crate::text::starts_with;
use crate::types::notify_of;
use crate::types::NotifyTextMessage;
use crate::wire::decode_status;
use crate::wire::decode_status_with_result;
use crate::wire::first_data_from;
use crate::wire::response_lines;
use crate::wire::rows_result_matches;
use crate::wire::status_ok;
use crate::wire::status_result_matches;
use crate::wire::without_value;
use vstd::prelude::*;
use vstd::string::*;

verus! {

/// The protocol's escaping of a text value: `\` becomes `\\`, a space `\s`,
/// and `/` becomes `\/`.
pub open spec fn escaped(s: Seq<char>) -> Seq<char>
    decreases s.len(),
{
    if s.len() == 0 {
        Seq::empty()
    } else {
        let c = s[0];
        let e = if c == '\\' {
            seq!['\\', '\\']
        } else if c == ' ' {
            seq!['\\', 's']
        } else if c == '/' {
            seq!['\\', '/']
        } else {
            seq![c]
        };
        e + escaped(s.skip(1))
    }
}

/// Relies on `serde_teamspeak_querystring::escape`, which replaces `\` by
/// `\\`, then space by `\s`, then `/` by `\/`.
#[verifier::external_body]
fn escape_text(s: &str) -> (r: String)
    ensures
        r@ == escaped(s@),
{
    serde_teamspeak_querystring::escape(s)
}

/// The request that authenticates with an API key.
pub fn login_payload(api_key: &str) -> (r: String)
    ensures
        r@ == "auth apikey="@ + api_key@ + "\n\r"@,
{
    let mut r = String::from_str("auth apikey=");
    r.append(api_key);
    r.append("\n\r");
    r
}

/// The request that subscribes to an event.
pub fn register_event_payload(event: &str) -> (r: String)
    ensures
        r@ == "clientnotifyregister schandlerid=0 event="@ + event@ + "\n\r"@,
{
    let mut r = String::from_str("clientnotifyregister schandlerid=0 event=");
    r.append(event);
    r.append("\n\r");
    r
}

/// Target mode of a private message.
pub const PRIVATE_MODE: i64 = 1;

/// Target mode of a channel message.
pub const CHANNEL_MODE: i64 = 2;

/// The request that sends `text`, escaped, to a target.
pub fn text_message_payload(mode: i64, server_id: i64, client_id: i64, text: &str) -> (r: String)
    ensures
        r@ == "sendtextmessage schandlerid="@ + signed_decimal(server_id as int) + " targetmode="@
            + signed_decimal(mode as int) + " target="@ + signed_decimal(client_id as int)
            + " msg="@ + escaped(text@) + "\n\r"@,
{
    let mut r = String::from_str("sendtextmessage schandlerid=");
    let s = signed_decimal_text(server_id);
    r.append(s.as_str());
    r.append(" targetmode=");
    let m = signed_decimal_text(mode);
    r.append(m.as_str());
    r.append(" target=");
    let c = signed_decimal_text(client_id);
    r.append(c.as_str());
    r.append(" msg=");
    let e = escape_text(text);
    r.append(e.as_str());
    r.append("\n\r");
    r
}

/// The request that checks the connection is alive.
pub fn keep_alive_payload() -> (r: &'static str)
    ensures
        r@ == "whoami\n\r"@,
{
    "whoami\n\r"
}

/// The request for the current server tab.
pub fn current_server_tab_payload() -> (r: &'static str)
    ensures
        r@ == "currentschandlerid\n\r"@,
{
    "currentschandlerid\n\r"
}

/// Whether the answer to the liveness query names a client and a channel.
pub fn is_alive(line: &str) -> (r: bool)
    ensures
        r == (contains(line@, "clid="@) && contains(line@, "cid="@)),
{
    has(line, "clid=") && has(line, "cid=")
}

/// The outcome of a command that returns no rows: its status alone.
pub fn basic_result(data: String) -> (r: QueryResult<()>)
    ensures
        status_result_matches(data@, r),
{
    match decode_status(data) {
        Ok(_) => Ok(()),
        Err(e) => Err(e),
    }
}

/// What the send of `text` makes of the response: the part before the first
/// line terminator is either the echo notification, whose message must equal
/// `text`, or a status line.
pub open spec fn echo_result_matches(response: Seq<char>, text: Seq<char>, r: QueryResult<()>) -> bool {
    let data = before_first(response, "\n\r"@);
    if starts_with(data, "notifytextmessage"@) {
        match after_first(data, "notifytextmessage "@) {
            None => r matches Err(e) && e.spec_code() == -2 && e.spec_message()
                == "Unable to send message, raw data => "@ + data,
            Some(rest) => match notify_of(rest) {
                None => r matches Err(e) && e.spec_code() == -3 && e.spec_message()
                    == "Decode result error: "@ + rest,
                Some(n) => if n.1 == text {
                    r is Ok
                } else {
                    r matches Err(e) && e.spec_code() == -2 && e.spec_message()
                        == "Unable to send message, raw data => "@ + "None (No equal)"@
                },
            },
        }
    } else {
        status_result_matches(data, r)
    }
}

/// The outcome of sending `text`, from the response to the send.
pub fn check_echo(response: &str, text: &str) -> (r: QueryResult<()>)
    ensures
        echo_result_matches(response@, text@, r),
{
    let data = split_before(response, "\n\r");
    if begins(data.as_str(), "notifytextmessage") {
        let rest = match split_after(data.as_str(), "notifytextmessage ") {
            Some(rest) => rest,
            None => return Err(QueryError::send_message_error(data.clone())),
        };
        let n = match <NotifyTextMessage as FromQueryString>::from_query(rest) {
            Ok(n) => n,
            Err(_) => return Err(QueryError::decode_error(rest)),
        };
        let t = String::from_str(text);
        let m = String::from_str(n.msg());
        if m != t {
            return Err(QueryError::send_message_error(String::from_str("None (No equal)")));
        }
        Ok(())
    } else {
        basic_result(data)
    }
}

/// The rows that a query returned; a response without a data line is the
/// "expected data but none found" error (code -5) naming `payload`.
pub fn query_rows<T: FromQueryString>(data: String, payload: &str) -> (r: QueryResult<Vec<T>>)
    ensures
        !status_ok(data@) ==> status_result_matches(data@, without_value(r)),
        status_ok(data@) ==> rows_matches(data@, payload@, r),
{
    match decode_status_with_result::<T>(data) {
        Ok(Some(v)) => Ok(v),
        Ok(None) => Err(QueryError::except_data_not_found_payload(payload)),
        Err(e) => Err(e),
    }
}

/// Rows decoded from the first data line of a successful response: an error
/// with code -5 naming the request where there is none, one row per record in order, or an error
/// with code -7 where a record does not decode.
pub open spec fn rows_matches<T: FromQueryString>(raw: Seq<char>, payload: Seq<char>, r: QueryResult<Vec<T>>) -> bool {
    let ls = response_lines(raw);
    let d = first_data_from(ls, 0);
    if d >= ls.len() {
        r matches Err(e) && e.spec_code() == -5 && e.spec_message() == data_not_found_payload_text(
            payload,
        )
    } else {
        let recs = split_on(ls[d], "|"@);
        if forall|k: int| 0 <= k < recs.len() ==> T::decodable(#[trigger] recs[k]) {
            r matches Ok(v) && v@.len() == recs.len() && forall|k: int|
                0 <= k < recs.len() ==> T::decodes_to(recs[k], #[trigger] v@[k])
        } else {
            r matches Err(e) && e.spec_code() == -7
        }
    }
}

/// The first row that a query returned.
pub fn query_one<T: FromQueryString>(data: String, payload: &str) -> (r: QueryResult<T>)
    ensures
        !status_ok(data@) ==> status_result_matches(data@, without_value(r)),
        status_ok(data@) ==> first_row_matches(data@, payload@, r),
{
    let ghost raw = data@;
    match query_rows::<T>(data, payload) {
        Ok(mut v) => {
            proof {
                let ls = response_lines(raw);
                crate::text::lemma_split_nonempty(ls[first_data_from(ls, 0)], "|"@);
            }
            Ok(v.swap_remove(0))
        },
        Err(e) => Err(e),
    }
}

/// The first row of the first data line of a successful response, as
/// `rows_matches` describes the rows.
pub open spec fn first_row_matches<T: FromQueryString>(raw: Seq<char>, payload: Seq<char>, r: QueryResult<T>) -> bool {
    let ls = response_lines(raw);
    let d = first_data_from(ls, 0);
    if d >= ls.len() {
        r matches Err(e) && e.spec_code() == -5 && e.spec_message() == data_not_found_payload_text(
            payload,
        )
    } else {
        let recs = split_on(ls[d], "|"@);
        if forall|k: int| 0 <= k < recs.len() ==> T::decodable(#[trigger] recs[k]) {
            r matches Ok(v) && T::decodes_to(recs[0], v)
        } else {
            r matches Err(e) && e.spec_code() == -7
        }
    }
}

} // verus!
