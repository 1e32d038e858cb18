//! Response framing: the read/accumulate loop as a state machine, fed with
//! what each socket read delivered.
use crate::error::data_not_found_text;
use crate::error::length_mismatch_text;
use crate::error::QueryError;
use crate::error::QueryResult;
use crate::text::contains;
use crate::text::ends;
use crate::text::ends_with;
use crate::text::has;
use vstd::prelude::*;
use vstd::string::*;

verus! {

/// Bytes asked of the socket per read.
pub const BUFFER_SIZE: usize = 512;

/// Seconds one read may wait before the whole read yields no data.
pub const READ_TIMEOUT_SECS: u64 = 2;

/// The text that lossy UTF-8 decoding makes of some bytes.
pub uninterp spec fn lossy_text(b: Seq<u8>) -> Seq<char>;

/// Relies on `String::from_utf8_lossy`: invalid sequences become U+FFFD; the
/// text depends on the bytes alone, and no bytes give no text.
#[verifier::external_body]
fn decode_lossy(b: &[u8]) -> (r: String)
    ensures
        r@ == lossy_text(b@),
        b@.len() == 0 ==> r@.len() == 0,
{
    String::from_utf8_lossy(b).into_owned()
}

/// A response is complete after a read that did not fill the buffer, or once
/// the text holds a status marker and ends with the line terminator.
pub open spec fn response_complete(text: Seq<char>, size: nat, capacity: nat) -> bool {
    size < capacity || (contains(text, "error id="@) && ends_with(text, "\n\r"@))
}

/// What one socket read delivered.
pub enum ReadEvent {
    /// These bytes arrived (none at end of stream).
    Received(Vec<u8>),
    /// Nothing arrived within the read timeout.
    TimedOut,
}

/// What the reader does next.
pub enum ReadAction {
    /// Read again.
    Continue,
    /// The response is complete: this is its text.
    Complete(String),
    /// A read timed out: the whole read yields no data.
    NoData,
}

/// The text of one response as it accumulates over reads.
pub struct ReadAccumulator {
    text: String,
    capacity: usize,
}

impl ReadAccumulator {
    pub closed spec fn spec_text(&self) -> Seq<char> {
        self.text@
    }

    pub closed spec fn spec_capacity(&self) -> nat {
        self.capacity as nat
    }

    /// An empty accumulator for reads of at most `capacity` bytes.
    pub fn new(capacity: usize) -> (r: Self)
        requires
            capacity > 0,
        ensures
            r.spec_text() == Seq::<char>::empty(),
            r.spec_capacity() == capacity,
    {
        ReadAccumulator { text: String::new(), capacity }
    }

    pub fn text(&self) -> (r: &str)
        ensures
            r@ == self.spec_text(),
    {
        self.text.as_str()
    }

    pub fn capacity(&self) -> (r: usize)
        ensures
            r == self.spec_capacity(),
    {
        self.capacity
    }

    /// Appends what one read delivered; true when the response is complete.
    pub fn push_chunk(&mut self, chunk: &[u8]) -> (done: bool)
        requires
            chunk@.len() <= old(self).spec_capacity(),
        ensures
            final(self).spec_text() == old(self).spec_text() + lossy_text(chunk@),
            final(self).spec_capacity() == old(self).spec_capacity(),
            done == response_complete(final(self).spec_text(), chunk@.len(), final(self).spec_capacity()),
            chunk@.len() == 0 ==> final(self).spec_text() == old(self).spec_text(),
    {
        let part = decode_lossy(chunk);
        self.text.append(part.as_str());
        assert(chunk@.len() == 0 ==> self.text@ =~= old(self).text@);
        chunk.len() < self.capacity || (has(self.text.as_str(), "error id=") && ends(
            self.text.as_str(),
            "\n\r",
        ))
    }

    /// The next action after `event`.
    pub fn step(&mut self, event: ReadEvent) -> (r: ReadAction)
        requires
            event matches ReadEvent::Received(b) ==> b@.len() <= old(self).spec_capacity(),
        ensures
            final(self).spec_capacity() == old(self).spec_capacity(),
            match event {
                ReadEvent::TimedOut => r is NoData && final(self).spec_text() == old(self).spec_text(),
                ReadEvent::Received(b) => {
                    &&& final(self).spec_text() == old(self).spec_text() + lossy_text(b@)
                    &&& b@.len() == 0 ==> final(self).spec_text() == old(self).spec_text()
                    &&& if response_complete(final(self).spec_text(), b@.len(), final(self).spec_capacity()) {
                        r matches ReadAction::Complete(t) && t@ == final(self).spec_text()
                    } else {
                        r is Continue
                    }
                },
            },
    {
        match event {
            ReadEvent::TimedOut => ReadAction::NoData,
            ReadEvent::Received(b) => {
                if self.push_chunk(b.as_slice()) {
                    ReadAction::Complete(self.text.clone())
                } else {
                    ReadAction::Continue
                }
            },
        }
    }
}

/// The response of a round trip: a read that yielded no data becomes the
/// "expected data but none found" error (code -5).
pub fn expect_data(read: Option<String>) -> (r: QueryResult<String>)
    ensures
        match read {
            Some(t) => r matches Ok(s) && s@ == t@,
            None => r matches Err(e) && e.spec_code() == -5 && e.spec_message()
                == data_not_found_text(),
        },
{
    match read {
        Some(t) => Ok(t),
        None => Err(QueryError::except_data_not_found()),
    }
}

/// The diagnostic for a write of `size` bytes of `payload`: a length
/// mismatch error (code -4) when not all of it was written.
pub fn check_written(payload: &str, size: usize) -> (r: Option<QueryError>)
    ensures
        r is None <==> size == payload.len(),
        r matches Some(e) ==> e.spec_code() == -4 && e.spec_message() == length_mismatch_text(
            payload,
            size,
        ),
{
    if size == payload.len() {
        None
    } else {
        Some(QueryError::length_mismatch(payload, size))
    }
}

} // verus!
