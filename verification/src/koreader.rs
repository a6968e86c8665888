//! Events for KOReader's HTTP Inspector: the request, and what the reply says.

use crate::outside;
use crate::text;
use vstd::prelude::*;
use vstd::string::*;
use vstd::utf8::*;

verus! {

/// Where the HTTP Inspector listens.
pub const PORT: u16 = 8080;

/// The request that carries an event.
pub open spec fn request_of(event: Seq<char>) -> Seq<char> {
    "GET /koreader/event/"@ + event + " HTTP/1.1\r\nHost: 127.0.0.1:"@ + text::decimal(PORT as nat)
        + "\r\nConnection: close\r\n\r\n"@
}

/// Writes the request that carries an event, e.g. `GotoViewRel/1`.
pub fn event_request(event: &str) -> (r: String)
    ensures
        r@ == request_of(event@),
{
    let mut out: String = "GET /koreader/event/".to_owned();
    out.append(event);
    out.append(" HTTP/1.1\r\nHost: 127.0.0.1:");
    out.append(text::to_decimal(PORT as u64).as_str());
    out.append("\r\nConnection: close\r\n\r\n");
    out
}

/// The HTTP status that a reply begins with: the number in its second word.
pub open spec fn status_of(response: Seq<u8>) -> Option<u16> {
    if valid_utf8(response) {
        let w = text::words(decode_utf8(response));
        if w.len() >= 2 {
            match text::unsigned(w[1], 10, u16::MAX as int) {
                Some(code) => Some(code as u16),
                None => None,
            }
        } else {
            None
        }
    } else {
        None
    }
}

/// Reads the HTTP status that a reply begins with.
pub fn status_code(response: &[u8]) -> (r: Option<u16>)
    ensures
        r == status_of(response@),
{
    match outside::utf8_text(response) {
        None => None,
        Some(head) => {
            let words: Vec<String> = text::split_words(head);
            assert(text::views(words@) == text::words(head@));
            if words.len() < 2 {
                return None;
            }
            assert(text::words(head@)[1] == words@[1]@);
            match text::parse_unsigned(words[1].as_str(), 10, 0xffff) {
                Some(code) => Some(code as u16),
                None => None,
            }
        },
    }
}

/// How far the exchange with KOReader got.
#[derive(Debug)]
pub enum Exchange {
    /// No connection was made.
    Unreachable,
    /// The request was not written.
    Unsent,
    /// The request was written, and reading the reply failed or timed out.
    Unanswered,
    /// The request was written, and these bytes were read.
    Answered(Vec<u8>),
}

/// What KOReader made of an event.
#[derive(Debug, Clone, Copy, PartialEq, Eq, Structural)]
pub enum Reply {
    /// There was no KOReader to take it.
    NotDelivered,
    /// No reply came in time.
    NoReply,
    /// The connection was closed without a reply.
    Closed,
    /// A reply with a success status.
    Accepted(u16),
    /// A reply with any other status.
    Rejected(u16),
    /// A reply without a status.
    NoStatus,
}

/// What an exchange comes to.
pub open spec fn reply_of(exchange: Exchange) -> Reply {
    match exchange {
        Exchange::Unreachable => Reply::NotDelivered,
        Exchange::Unsent => Reply::NotDelivered,
        Exchange::Unanswered => Reply::NoReply,
        Exchange::Answered(bytes) => if bytes@.len() == 0 {
            Reply::Closed
        } else {
            match status_of(bytes@) {
                Some(code) => if 200 <= code < 300 {
                    Reply::Accepted(code)
                } else {
                    Reply::Rejected(code)
                },
                None => Reply::NoStatus,
            }
        },
    }
}

/// KOReader took the event: the request was delivered to it.
pub open spec fn taken(exchange: Exchange) -> bool {
    !(exchange is Unreachable || exchange is Unsent)
}

/// Judges an exchange with KOReader. The first result is false where KOReader
/// did not take the event, so the caller can try the native reader.
///
/// KOReader only polls the socket on its 50ms UI tick, so the reply lags. The
/// request is delivered either way, so a timeout still counts as taken, and so
/// does a reply of any kind.
pub fn send_event(exchange: &Exchange) -> (r: (bool, Reply))
    ensures
        r.0 == taken(*exchange),
        r.1 == reply_of(*exchange),
{
    match exchange {
        Exchange::Unreachable => (false, Reply::NotDelivered),
        Exchange::Unsent => (false, Reply::NotDelivered),
        Exchange::Unanswered => (true, Reply::NoReply),
        Exchange::Answered(bytes) => if bytes.len() == 0 {
            (true, Reply::Closed)
        } else {
            match status_code(bytes.as_slice()) {
                Some(code) => if 200 <= code && code < 300 {
                    (true, Reply::Accepted(code))
                } else {
                    (true, Reply::Rejected(code))
                },
                None => (true, Reply::NoStatus),
            }
        },
    }
}

} // verus!
