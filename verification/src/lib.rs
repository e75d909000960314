//! A one-shot MLLP (Minimal Lower Layer Protocol) client library.
//!
//! The library covers the logic of a single MLLP exchange: wrapping a
//! message payload in the START/END marker frame, accumulating reply bytes
//! until the END sequence or end of stream, stripping the frame markers from
//! the reply, and classifying the outcome. The socket itself is the
//! caller's: the caller connects, writes the framed bytes, and feeds each
//! read result back in as a [`exchange::ReadEvent`].

pub mod exchange;
pub mod frame;
