//! MLLP framing and deframing.
//!
//! An MLLP frame is the payload wrapped in marker bytes:
//! a single START byte (0x0B) in front, and the two-byte END sequence
//! (0x1C, 0x0D) behind. The payload is opaque; the protocol defines no
//! escaping, so marker bytes inside the payload are transmitted as they are.

use vstd::prelude::*;

verus! {

/// First byte of every frame (vertical tab).
pub const START_BYTE: u8 = 0x0B;

/// First byte of the two-byte END sequence (file separator).
pub const END_BYTE: u8 = 0x1C;

/// Second byte of the two-byte END sequence (carriage return).
pub const END_CR: u8 = 0x0D;

/// The two-byte END sequence that terminates every frame.
pub open spec fn end_sequence() -> Seq<u8> {
    seq![END_BYTE, END_CR]
}

/// The frame for a payload: START byte, payload, END sequence.
pub open spec fn framed(payload: Seq<u8>) -> Seq<u8> {
    seq![START_BYTE] + payload + end_sequence()
}

/// Whether the byte sequence ends with the two-byte END sequence.
pub open spec fn has_end_sequence(bytes: Seq<u8>) -> bool {
    bytes.len() >= 2 && bytes.subrange(bytes.len() - 2, bytes.len() as int)
        == end_sequence()
}

/// One leading START byte removed, if present; otherwise the input unchanged.
pub open spec fn strip_start(bytes: Seq<u8>) -> Seq<u8> {
    if bytes.len() >= 1 && bytes[0] == START_BYTE {
        bytes.drop_first()
    } else {
        bytes
    }
}

/// The trailing END sequence removed, if present; otherwise the input unchanged.
pub open spec fn strip_end(bytes: Seq<u8>) -> Seq<u8> {
    if has_end_sequence(bytes) {
        bytes.take(bytes.len() - 2)
    } else {
        bytes
    }
}

/// A received frame with its markers stripped: one leading START byte if
/// present, then the trailing END sequence if present. Either marker may be
/// absent; deframing tolerates that rather than failing.
pub open spec fn deframed(bytes: Seq<u8>) -> Seq<u8> {
    strip_end(strip_start(bytes))
}

/// Builds the MLLP frame around a payload.
pub fn frame_message(payload: &[u8]) -> (r: Vec<u8>)
    ensures
        r@ == framed(payload@),
{
    let mut r: Vec<u8> = Vec::new();
    r.push(START_BYTE);
    let mut i: usize = 0;
    while i < payload.len()
        invariant
            i <= payload@.len(),
            r@ == seq![START_BYTE] + payload@.subrange(0, i as int),
        decreases payload@.len() - i,
    {
        r.push(payload[i]);
        assert(r@ =~= seq![START_BYTE] + payload@.subrange(0, i + 1));
        i = i + 1;
    }
    r.push(END_BYTE);
    r.push(END_CR);
    assert(payload@.subrange(0, payload@.len() as int) =~= payload@);
    assert(r@ =~= framed(payload@));
    r
}

/// Whether the accumulated reply ends with the END sequence, i.e. a whole
/// frame has arrived.
pub fn ends_with_end_sequence(buf: &Vec<u8>) -> (r: bool)
    ensures
        r == has_end_sequence(buf@),
{
    let n = buf.len();
    let r = n >= 2 && buf[n - 2] == END_BYTE && buf[n - 1] == END_CR;
    proof {
        if n >= 2 {
            assert(buf@.subrange(n - 2, n as int) =~= end_sequence()
                <==> buf@[n - 2] == END_BYTE && buf@[n - 1] == END_CR);
        }
    }
    r
}

/// Strips the frame markers from a received reply: one leading START byte if
/// present, then the trailing END sequence if present.
pub fn deframe(bytes: &[u8]) -> (r: Vec<u8>)
    ensures
        r@ == deframed(bytes@),
{
    let n = bytes.len();
    let lo: usize = if n >= 1 && bytes[0] == START_BYTE {
        1
    } else {
        0
    };
    assert(strip_start(bytes@) =~= bytes@.subrange(lo as int, n as int));
    let hi: usize = if n >= lo + 2 && bytes[n - 2] == END_BYTE && bytes[n - 1] == END_CR {
        n - 2
    } else {
        n
    };
    proof {
        let stripped = strip_start(bytes@);
        if n >= lo + 2 {
            assert(stripped.subrange(stripped.len() - 2, stripped.len() as int)
                =~= end_sequence()
                <==> bytes@[n - 2] == END_BYTE && bytes@[n - 1] == END_CR);
        }
        assert(strip_end(stripped) =~= bytes@.subrange(lo as int, hi as int));
    }
    let mut r: Vec<u8> = Vec::new();
    let mut i: usize = lo;
    while i < hi
        invariant
            lo <= i <= hi <= n,
            n == bytes@.len(),
            r@ == bytes@.subrange(lo as int, i as int),
        decreases hi - i,
    {
        r.push(bytes[i]);
        assert(r@ =~= bytes@.subrange(lo as int, i + 1));
        i = i + 1;
    }
    r
}

/// Framing round-trip: deframing a frame gives the payload back exactly,
/// whatever bytes the payload holds (marker bytes included, since the
/// protocol does no escaping).
pub proof fn lemma_frame_round_trip(payload: Seq<u8>)
    ensures
        deframed(framed(payload)) == payload,
{
    let f = framed(payload);
    assert(f[0] == START_BYTE);
    let s = strip_start(f);
    assert(s =~= payload + end_sequence());
    assert(s.subrange(s.len() - 2, s.len() as int) =~= end_sequence());
    assert(strip_end(s) =~= payload);
}

/// Deframe tolerance: a reply that lacks the leading START byte but carries
/// the END sequence still deframes to its payload, provided the payload does
/// not itself begin with a START byte.
pub proof fn lemma_deframe_without_start(payload: Seq<u8>)
    requires
        payload.len() == 0 || payload[0] != START_BYTE,
    ensures
        deframed(payload + end_sequence()) == payload,
{
    let b = payload + end_sequence();
    if payload.len() == 0 {
        assert(b =~= end_sequence());
        assert(b[0] == END_BYTE);
        assert(b[0] != START_BYTE);
    }
    let s = strip_start(b);
    assert(s =~= payload + end_sequence());
    assert(s.subrange(s.len() - 2, s.len() as int) =~= end_sequence());
    assert(strip_end(s) =~= payload);
}

} // verus!
