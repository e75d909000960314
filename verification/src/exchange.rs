//! The single-round-trip exchange: configuration, read-loop decisions, and
//! classification of the outcome.
//!
//! The caller owns the socket. It connects, writes the frame built by
//! [`crate::frame::frame_message`], and then feeds the result of each read
//! into [`read_step`] until the step says to stop; [`finish_exchange`] then
//! turns the accumulated reply into the decoded text or an error.

use vstd::prelude::*;
use crate::frame::{
    deframe, deframed, end_sequence, ends_with_end_sequence, framed, has_end_sequence,
    lemma_deframe_without_start, lemma_frame_round_trip, START_BYTE,
};
use vstd::utf8::{decode_utf8, valid_utf8};

verus! {

/// What a failed exchange reports.
///
/// Every failure aborts the exchange at once; nothing is retried. A reply
/// buffer that stayed empty is always reported as `TimedOut`, whether the
/// peer closed without data, a non-blocking read found nothing, or the
/// deadline truly passed: callers cannot tell those apart from this kind.
#[derive(Clone, Copy, Debug, PartialEq, Eq, Structural)]
pub enum ExchangeError {
    /// The TCP connection could not be established.
    ConnectionFailed,
    /// The framed message could not be written in full.
    WriteFailed,
    /// No reply bytes were obtained before the deadline.
    TimedOut,
    /// Some other I/O failure while reading the reply.
    ReadFailed,
    /// The deframed reply is not valid UTF-8 text.
    InvalidData,
}

/// Default timeout, in seconds, applied to both socket directions.
pub const DEFAULT_TIMEOUT_SECS: u64 = 30;

/// Per-exchange configuration. The one timeout applies to both the read and
/// the write direction of the socket. A timeout of zero is rejected by the
/// socket configuration in the caller, never treated as "no timeout".
#[derive(Clone, Copy, Debug, PartialEq, Eq, Structural)]
pub struct Config {
    /// Timeout for each socket direction, in milliseconds.
    pub timeout_ms: u64,
}

impl Config {
    /// A configuration with the timeout given in whole seconds, as the
    /// command surface supplies it.
    pub fn from_secs(secs: u64) -> (c: Config)
        requires
            secs <= u64::MAX / 1000,
        ensures
            c.timeout_ms == secs * 1000,
    {
        Config { timeout_ms: secs * 1000 }
    }
}

impl Default for Config {
    /// The default configuration: a timeout of [`DEFAULT_TIMEOUT_SECS`].
    fn default() -> (c: Config)
        ensures
            c.timeout_ms == DEFAULT_TIMEOUT_SECS * 1000,
    {
        Config { timeout_ms: DEFAULT_TIMEOUT_SECS * 1000 }
    }
}

/// One result of a socket read, as the caller observed it.
#[derive(Debug)]
pub enum ReadEvent {
    /// The read returned zero bytes: the peer closed the connection.
    Closed,
    /// The read returned these bytes (at least one).
    Received(Vec<u8>),
    /// The read signalled that it would block: no data is ready.
    WouldBlock,
    /// The read failed with some other I/O error, which the caller holds
    /// and surfaces verbatim when the step says to abort.
    Failed,
}

impl ReadEvent {
    /// The bytes the event adds to the reply buffer.
    pub open spec fn bytes_received(&self) -> Seq<u8> {
        match *self {
            ReadEvent::Received(ref d) => d@,
            _ => Seq::<u8>::empty(),
        }
    }
}

/// What the read loop does after an event.
#[derive(Clone, Copy, Debug, PartialEq, Eq, Structural)]
pub enum ReadStep {
    /// Read again: no terminator seen yet and the stream is still open.
    KeepReading,
    /// Leave the loop and use the bytes collected so far.
    Complete,
    /// Abort the exchange: the caller surfaces its held read error.
    Abort,
}

/// Advances the read loop by one event: appends any received bytes to the
/// reply buffer and decides whether to read again, stop, or abort.
///
/// A whole frame (the buffer ends with the END sequence) stops the loop;
/// so do a peer close and a would-block signal, without being errors
/// themselves — an empty buffer surfaces later, in [`finish_exchange`].
/// Any other read error aborts at once.
pub fn read_step(buf: &mut Vec<u8>, event: &ReadEvent) -> (step: ReadStep)
    ensures
        final(buf)@ == old(buf)@ + event.bytes_received(),
        step == match *event {
            ReadEvent::Received(_) => if has_end_sequence(final(buf)@) {
                ReadStep::Complete
            } else {
                ReadStep::KeepReading
            },
            ReadEvent::Closed => ReadStep::Complete,
            ReadEvent::WouldBlock => ReadStep::Complete,
            ReadEvent::Failed => ReadStep::Abort,
        },
{
    match event {
        ReadEvent::Closed => {
            assert(old(buf)@ + event.bytes_received() =~= buf@);
            ReadStep::Complete
        },
        ReadEvent::Received(data) => {
            let mut i: usize = 0;
            while i < data.len()
                invariant
                    i <= data@.len(),
                    buf@ == old(buf)@ + data@.subrange(0, i as int),
                decreases data@.len() - i,
            {
                buf.push(data[i]);
                assert(buf@ =~= old(buf)@ + data@.subrange(0, i + 1));
                i = i + 1;
            }
            assert(buf@ =~= old(buf)@ + data@);
            if ends_with_end_sequence(buf) {
                ReadStep::Complete
            } else {
                ReadStep::KeepReading
            }
        },
        ReadEvent::WouldBlock => {
            assert(old(buf)@ + event.bytes_received() =~= buf@);
            ReadStep::Complete
        },
        ReadEvent::Failed => {
            assert(old(buf)@ + event.bytes_received() =~= buf@);
            ReadStep::Abort
        },
    }
}

/// Relies on `String::from_utf8`: it returns `Ok` exactly when the bytes are
/// valid UTF-8, and the string then holds those bytes decoded.
#[verifier::external_body]
fn decode_text(bytes: Vec<u8>) -> (r: Option<String>)
    ensures
        r is Some <==> valid_utf8(bytes@),
        r is Some ==> r->0@ == decode_utf8(bytes@),
{
    String::from_utf8(bytes).ok()
}

/// What a finished exchange returns for an accumulated reply buffer: the
/// deframed bytes decoded as UTF-8, or the error that classifies the buffer.
pub open spec fn exchange_outcome(reply: Seq<u8>) -> Result<Seq<char>, ExchangeError> {
    if reply.len() == 0 {
        Err(ExchangeError::TimedOut)
    } else if valid_utf8(deframed(reply)) {
        Ok(decode_utf8(deframed(reply)))
    } else {
        Err(ExchangeError::InvalidData)
    }
}

/// Turns the reply buffer the read loop accumulated into the exchange's
/// result: an empty buffer is reported as `TimedOut`, whatever kept the
/// bytes from arriving; otherwise the frame markers are stripped and the
/// remainder decoded as UTF-8, with no replacement of invalid bytes.
pub fn finish_exchange(reply: &Vec<u8>) -> (r: Result<String, ExchangeError>)
    ensures
        match r {
            Ok(text) => exchange_outcome(reply@) == Ok::<Seq<char>, ExchangeError>(text@),
            Err(e) => exchange_outcome(reply@) == Err::<Seq<char>, ExchangeError>(e),
        },
{
    if reply.len() == 0 {
        return Err(ExchangeError::TimedOut);
    }
    let payload = deframe(reply.as_slice());
    match decode_text(payload) {
        Some(text) => Ok(text),
        None => Err(ExchangeError::InvalidData),
    }
}

/// Empty-response classification: a reply buffer that collected no bytes —
/// whether the peer closed at once, a non-blocking read found nothing, or
/// the deadline passed — is reported as `TimedOut`, never as any other kind.
pub proof fn lemma_empty_reply_times_out(reply: Seq<u8>)
    requires
        reply.len() == 0,
    ensures
        exchange_outcome(reply) == Err::<Seq<char>, ExchangeError>(ExchangeError::TimedOut),
{
}

/// Successful exchange: a reply that is a whole frame around a valid UTF-8
/// payload decodes to exactly that payload's text.
pub proof fn lemma_framed_reply_decodes(payload: Seq<u8>)
    requires
        valid_utf8(payload),
    ensures
        exchange_outcome(framed(payload)) == Ok::<Seq<char>, ExchangeError>(
            decode_utf8(payload),
        ),
{
    lemma_frame_round_trip(payload);
}

/// Deframe tolerance: a reply that lacks the leading START byte but ends
/// with the END sequence still decodes to its payload's text, provided the
/// payload is valid UTF-8 and does not itself begin with a START byte.
pub proof fn lemma_reply_without_start_decodes(payload: Seq<u8>)
    requires
        payload.len() == 0 || payload[0] != START_BYTE,
        valid_utf8(payload),
    ensures
        exchange_outcome(payload + end_sequence()) == Ok::<Seq<char>, ExchangeError>(
            decode_utf8(payload),
        ),
{
    lemma_deframe_without_start(payload);
}

} // verus!
