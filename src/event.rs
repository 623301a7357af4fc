use vstd::prelude::*;
use vstd::utf8::{decode_utf8, encode_utf8, valid_utf8};

verus! {

/// A point in time, as milliseconds since the Unix epoch in UTC.
#[derive(Clone, Copy, Debug, PartialEq, Eq, Structural)]
pub struct Timestamp {
    pub millis: i64,
}

impl Timestamp {
    pub fn from_millis(millis: i64) -> (r: Timestamp)
        ensures
            r.millis == millis,
    {
        Timestamp { millis }
    }
}

/// One log line: its text and the moment it was emitted.
#[derive(Debug)]
pub struct LogEvent {
    pub message: String,
    pub timestamp: Timestamp,
}

/// Number of bytes that a message occupies on the wire: the length of its
/// UTF-8 encoding, as `str::len` reports it.
pub open spec fn message_bytes(e: LogEvent) -> nat {
    (encode_utf8(e.message@).len() as usize) as nat
}

/// Total payload of a sequence of events.
pub open spec fn payload_bytes(events: Seq<LogEvent>) -> nat
    decreases events.len(),
{
    if events.len() == 0 {
        0
    } else {
        payload_bytes(events.drop_last()) + message_bytes(events.last())
    }
}

/// The text that `String::from_utf8_lossy` makes of some bytes.
pub uninterp spec fn lossy_text(bytes: Seq<u8>) -> Seq<char>;

/// Relies on `String::from_utf8_lossy`: decodes UTF-8, putting U+FFFD in place
/// of each invalid sequence; the text depends on the bytes alone, and valid
/// UTF-8 comes back as the text it encodes (so no bytes give no text).
#[verifier::external_body]
fn decode_lossy(bytes: &[u8]) -> (r: String)
    ensures
        r@ == lossy_text(bytes@),
        valid_utf8(bytes@) ==> r@ == decode_utf8(bytes@),
        bytes@.len() == 0 ==> r@.len() == 0,
{
    String::from_utf8_lossy(bytes).to_string()
}

impl LogEvent {
    pub fn new(message: String, timestamp: Timestamp) -> (r: LogEvent)
        ensures
            r.message@ == message@,
            r.timestamp == timestamp,
    {
        LogEvent { message, timestamp }
    }

    /// An event whose message is `bytes`, read leniently as UTF-8: invalid
    /// input is repaired, never rejected.
    pub fn from_bytes(bytes: &[u8], timestamp: Timestamp) -> (r: LogEvent)
        ensures
            r.message@ == lossy_text(bytes@),
            valid_utf8(bytes@) ==> r.message@ == decode_utf8(bytes@),
            r.timestamp == timestamp,
    {
        LogEvent { message: decode_lossy(bytes), timestamp }
    }

    /// Size of this event's message in bytes.
    pub fn payload_len(&self) -> (r: usize)
        ensures
            r as nat == message_bytes(*self),
    {
        self.message.as_str().len()
    }
}

/// Where batches are delivered: a log group and a stream inside it.
#[derive(Clone, Debug)]
pub struct LogDestination {
    pub group_name: String,
    pub stream_name: String,
}

} // verus!
