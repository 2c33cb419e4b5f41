//! Length-prefixed message framing over a reliable, ordered byte stream.
//!
//! Each message travels as a four-byte big-endian length followed by exactly
//! that many payload bytes. A connection's send pump writes such records in
//! call order; its receive pump feeds whatever chunks the stream yields into
//! a [`WireDecoder`], which restores the message boundaries. A length above
//! the configured cap is treated as corruption and stops the decoder before
//! any payload is buffered. Framing begins only after a fixed handshake
//! marker has been exchanged and validated.

use vstd::prelude::*;

use crate::endian::{be32_bytes, be32_value, lemma_be32_value_of_bytes, push_be32, read_be32};
use crate::errors::SessionError;

verus! {

/// Cap on the payload length of one wire message, used where no other cap is
/// configured; a received length prefix above the cap is corruption.
pub const DEFAULT_MAX_MESSAGE_LEN: u32 = 65536;

/// A value that can ride a connection as one framed message.
pub trait Message: Sized + Send + Sync {
    /// The bytes that carry this value on the wire.
    fn serialize(&self) -> Result<Vec<u8>, SessionError>;

    /// Rebuild a value from the bytes of one framed message.
    fn deserialize(data: &[u8]) -> Result<Self, SessionError>;
}

/// The length prefix spelled by the first four bytes of a stream.
pub open spec fn header_value(b: Seq<u8>) -> u32
    recommends
        b.len() >= 4,
{
    be32_value(b[0], b[1], b[2], b[3])
}

/// One payload as it appears on the wire: length prefix, then the bytes.
pub open spec fn wire_message(p: Seq<u8>) -> Seq<u8>
    recommends
        p.len() <= u32::MAX,
{
    be32_bytes(p.len() as u32) + p
}

/// A whole sequence of payloads as it appears on the wire, in send order.
pub open spec fn wire_stream(msgs: Seq<Seq<u8>>) -> Seq<u8>
    decreases msgs.len(),
{
    if msgs.len() == 0 {
        Seq::empty()
    } else {
        wire_message(msgs[0]) + wire_stream(msgs.skip(1))
    }
}

/// The payloads spelled by a complete stream of framed messages, or `None`
/// if the stream is truncated or a length prefix exceeds `cap`.
pub open spec fn parse_wire_stream(b: Seq<u8>, cap: u32) -> Option<Seq<Seq<u8>>>
    decreases b.len(),
{
    if b.len() == 0 {
        Some(Seq::empty())
    } else if b.len() < 4 {
        None
    } else {
        let n = header_value(b);
        if n > cap {
            None
        } else if b.len() < 4 + n {
            None
        } else {
            match parse_wire_stream(b.skip(4 + n as int), cap) {
                Some(rest) => Some(seq![b.subrange(4, 4 + n as int)] + rest),
                None => None,
            }
        }
    }
}

/// Messages framed one after the other parse back to the same messages, in
/// the same order, byte for byte: what one peer sends as `m1, m2, ...` the
/// other receives as `m1, m2, ...`, however the stream splits the bytes.
pub proof fn lemma_wire_round_trip(msgs: Seq<Seq<u8>>, cap: u32)
    requires
        forall|i: int| 0 <= i < msgs.len() ==> #[trigger] msgs[i].len() <= cap,
    ensures
        parse_wire_stream(wire_stream(msgs), cap) == Some(msgs),
    decreases msgs.len(),
{
    if msgs.len() == 0 {
        assert(msgs =~= Seq::<Seq<u8>>::empty());
    } else {
        let m = msgs[0];
        let rest = msgs.skip(1);
        let b = wire_stream(msgs);
        let n: u32 = m.len() as u32;
        lemma_be32_value_of_bytes(n);
        assert(wire_message(m).len() == 4 + m.len());
        assert(header_value(b) == n);
        assert(b.subrange(4, 4 + n as int) =~= m);
        assert(b.skip(4 + n as int) =~= wire_stream(rest));
        assert(forall|i: int| 0 <= i < rest.len() ==> #[trigger] rest[i].len() <= cap);
        lemma_wire_round_trip(rest, cap);
        assert(seq![m] + rest =~= msgs);
    }
}

/// Framing one more payload appends one more record to the stream.
pub proof fn lemma_wire_stream_push(msgs: Seq<Seq<u8>>, m: Seq<u8>)
    ensures
        wire_stream(msgs.push(m)) == wire_stream(msgs) + wire_message(m),
    decreases msgs.len(),
{
    if msgs.len() == 0 {
        assert(msgs.push(m)[0] == m);
        assert(msgs.push(m).skip(1) =~= Seq::<Seq<u8>>::empty());
        assert(wire_stream(msgs.push(m)) == wire_message(m) + wire_stream(
            Seq::<Seq<u8>>::empty(),
        ));
        assert(wire_message(m) + Seq::<u8>::empty() =~= wire_message(m));
        assert(wire_stream(msgs) + wire_message(m) =~= wire_message(m));
    } else {
        assert(msgs.push(m)[0] == msgs[0]);
        assert(msgs.push(m).skip(1) =~= msgs.skip(1).push(m));
        lemma_wire_stream_push(msgs.skip(1), m);
        assert((wire_message(msgs[0]) + wire_stream(msgs.skip(1))) + wire_message(m) =~= wire_message(
            msgs[0],
        ) + (wire_stream(msgs.skip(1)) + wire_message(m)));
    }
}

/// Frame one payload for the wire: its length, big-endian, then its bytes.
///
/// Fails with `Framing` exactly when the payload is longer than `cap`, so a
/// sender can never emit a record its peer would reject as oversized.
pub fn encode_wire_message(payload: &[u8], cap: u32) -> (r: Result<Vec<u8>, SessionError>)
    ensures
        payload@.len() <= cap ==> (r matches Ok(v) && v@ == wire_message(payload@)),
        payload@.len() > cap ==> r == Err::<Vec<u8>, _>(SessionError::Framing),
{
    if payload.len() > cap as usize {
        return Err(SessionError::Framing);
    }
    let n: u32 = payload.len() as u32;
    let mut out: Vec<u8> = Vec::new();
    push_be32(&mut out, n);
    let mut i: usize = 0;
    while i < payload.len()
        invariant
            i <= payload@.len(),
            payload@.len() <= u32::MAX,
            out@ == be32_bytes((payload@.len() as u32)) + payload@.subrange(0, i as int),
        decreases payload@.len() - i,
    {
        out.push(payload[i]);
        i = i + 1;
        assert(out@ =~= be32_bytes((payload@.len() as u32)) + payload@.subrange(0, i as int));
    }
    assert(out@ =~= wire_message(payload@));
    Ok(out)
}

/// Restores message boundaries on the receiving side of a connection.
///
/// The receive pump feeds in the raw chunks the stream happens to deliver;
/// `next_message` hands back each complete payload in wire order. The length
/// prefix is checked against the cap before any payload byte is awaited, so
/// a corrupt or hostile length cannot make the decoder buffer without bound.
pub struct WireDecoder {
    buf: Vec<u8>,
    cap: u32,
}

impl WireDecoder {
    /// The bytes fed in and not yet handed back as messages.
    pub closed spec fn buffered(self) -> Seq<u8> {
        self.buf@
    }

    /// The configured cap on one message's payload length.
    pub closed spec fn cap_spec(self) -> u32 {
        self.cap
    }

    pub fn new(cap: u32) -> (d: WireDecoder)
        ensures
            d.buffered() == Seq::<u8>::empty(),
            d.cap_spec() == cap,
    {
        WireDecoder { buf: Vec::new(), cap }
    }

    /// How many fed bytes have not yet come back out as messages.
    pub fn buffered_len(&self) -> (n: usize)
        ensures
            n == self.buffered().len(),
    {
        self.buf.len()
    }

    /// Feed the next chunk the stream delivered, wherever it was split.
    pub fn feed(&mut self, chunk: &[u8])
        ensures
            final(self).buffered() == old(self).buffered() + chunk@,
            final(self).cap_spec() == old(self).cap_spec(),
    {
        let mut i: usize = 0;
        while i < chunk.len()
            invariant
                i <= chunk@.len(),
                self.buf@ == old(self).buf@ + chunk@.subrange(0, i as int),
                self.cap == old(self).cap,
            decreases chunk@.len() - i,
        {
            self.buf.push(chunk[i]);
            i = i + 1;
            assert(self.buf@ =~= old(self).buf@ + chunk@.subrange(0, i as int));
        }
        assert(self.buf@ =~= old(self).buf@ + chunk@);
    }

    /// Hand back the next complete payload, if the buffered bytes hold one.
    ///
    /// Returns `Ok(None)` while the header or payload is still incomplete,
    /// and fails with `Framing` exactly when the length prefix exceeds the
    /// cap — decided on the four header bytes alone, so an adversarial
    /// length never buys a large payload: every message handed out is at
    /// most `cap` bytes long.
    pub fn next_message(&mut self) -> (r: Result<Option<Vec<u8>>, SessionError>)
        ensures
            final(self).cap_spec() == old(self).cap_spec(),
            r matches Ok(Some(m)) ==> m@.len() <= old(self).cap_spec(),
            old(self).buffered().len() < 4 ==> (r == Ok::<Option<Vec<u8>>, SessionError>(None)
                && final(self).buffered() == old(self).buffered()),
            old(self).buffered().len() >= 4 && header_value(old(self).buffered())
                > old(self).cap_spec() ==> (r == Err::<Option<Vec<u8>>, _>(SessionError::Framing)
                && final(self).buffered() == old(self).buffered()),
            old(self).buffered().len() >= 4 && header_value(old(self).buffered())
                <= old(self).cap_spec() && old(self).buffered().len() < 4 + header_value(
                old(self).buffered(),
            ) ==> (r == Ok::<Option<Vec<u8>>, SessionError>(None) && final(self).buffered() == old(
                self,
            ).buffered()),
            old(self).buffered().len() >= 4 && header_value(old(self).buffered())
                <= old(self).cap_spec() && old(self).buffered().len() >= 4 + header_value(
                old(self).buffered(),
            ) ==> (r matches Ok(Some(m)) && m@ == old(self).buffered().subrange(
                4,
                4 + header_value(old(self).buffered()) as int,
            ) && final(self).buffered() == old(self).buffered().skip(
                4 + header_value(old(self).buffered()) as int,
            )),
    {
        if self.buf.len() < 4 {
            return Ok(None);
        }
        let n = read_be32(self.buf[0], self.buf[1], self.buf[2], self.buf[3]);
        if n > self.cap {
            return Err(SessionError::Framing);
        }
        if self.buf.len() - 4 < n as usize {
            return Ok(None);
        }
        let total: usize = 4 + n as usize;
        let mut msg: Vec<u8> = Vec::new();
        let mut i: usize = 4;
        while i < total
            invariant
                4 <= i <= total,
                total == 4 + n,
                total <= self.buf@.len(),
                msg@ == self.buf@.subrange(4, i as int),
            decreases total - i,
        {
            msg.push(self.buf[i]);
            i = i + 1;
            assert(msg@ =~= self.buf@.subrange(4, i as int));
        }
        let mut rest: Vec<u8> = Vec::new();
        let mut j: usize = total;
        while j < self.buf.len()
            invariant
                total <= j <= self.buf@.len(),
                rest@ == self.buf@.subrange(total as int, j as int),
            decreases self.buf@.len() - j,
        {
            rest.push(self.buf[j]);
            j = j + 1;
            assert(rest@ =~= self.buf@.subrange(total as int, j as int));
        }
        assert(rest@ =~= self.buf@.skip(total as int));
        self.buf = rest;
        Ok(Some(msg))
    }
}

/// The fixed marker an initiating side writes before framing begins.
pub open spec fn handshake_marker_spec() -> Seq<u8> {
    seq![80u8, 72u8, 73u8, 78u8, 89u8, 95u8, 72u8, 65u8, 78u8, 68u8, 83u8, 72u8, 65u8, 75u8, 69u8, 95u8, 86u8, 49u8]
}

/// The marker bytes to write when initiating a connection.
pub fn handshake_marker() -> (r: Vec<u8>)
    ensures
        r@ == handshake_marker_spec(),
{
    let mut m: Vec<u8> = Vec::new();
    m.push(80u8);
    m.push(72u8);
    m.push(73u8);
    m.push(78u8);
    m.push(89u8);
    m.push(95u8);
    m.push(72u8);
    m.push(65u8);
    m.push(78u8);
    m.push(68u8);
    m.push(83u8);
    m.push(72u8);
    m.push(65u8);
    m.push(75u8);
    m.push(69u8);
    m.push(95u8);
    m.push(86u8);
    m.push(49u8);
    assert(m@ =~= handshake_marker_spec());
    m
}

/// Validate the marker an accepting side has read; anything but the exact
/// marker fails with `HandshakeFailed`.
pub fn check_handshake(received: &[u8]) -> (r: Result<(), SessionError>)
    ensures
        received@ == handshake_marker_spec() <==> r == Ok::<(), SessionError>(()),
        r is Err ==> r == Err::<(), _>(SessionError::HandshakeFailed),
{
    let expected = handshake_marker();
    if received.len() != expected.len() {
        assert(received@ != handshake_marker_spec());
        return Err(SessionError::HandshakeFailed);
    }
    let mut i: usize = 0;
    while i < expected.len()
        invariant
            i <= expected@.len(),
            received@.len() == expected@.len(),
            expected@ == handshake_marker_spec(),
            forall|k: int| 0 <= k < i ==> received@[k] == expected@[k],
        decreases expected@.len() - i,
    {
        if received[i] != expected[i] {
            assert(received@ != handshake_marker_spec());
            return Err(SessionError::HandshakeFailed);
        }
        i = i + 1;
    }
    assert(received@ =~= handshake_marker_spec());
    Ok(())
}

} // verus!
