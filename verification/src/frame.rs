//! The frame record: one sequenced unit of codec-encoded audio.
//!
//! A frame travels as a fixed binary record: the four big-endian bytes of
//! its sequence number, the four big-endian bytes of its payload length,
//! then the payload. The record is self-delimiting, so decoding rejects a
//! truncated record — one whose bytes fall short of the claimed length —
//! as well as an oversized payload, with `MalformedFrame`.

use vstd::prelude::*;

use crate::endian::{be32_bytes, be32_value, lemma_be32_value_of_bytes, push_be32, read_be32};
use crate::errors::SessionError;
use crate::framing::Message;

verus! {

/// Cap on one frame's codec payload, sized to the largest packet the speech
/// codec is given room to emit.
pub const MAX_FRAME_PAYLOAD_LEN: usize = 4000;

/// The record that carries a frame: sequence number, payload length,
/// then the payload.
pub open spec fn frame_bytes(seq: u32, payload: Seq<u8>) -> Seq<u8> {
    be32_bytes(seq) + be32_bytes(payload.len() as u32) + payload
}

/// The sequence number and payload spelled by a frame record, or `None` if
/// the record is truncated — shorter or longer than its length field
/// claims — or its payload oversized.
pub open spec fn parse_frame(b: Seq<u8>) -> Option<(u32, Seq<u8>)> {
    if b.len() < 8 {
        None
    } else if be32_value(b[4], b[5], b[6], b[7]) > MAX_FRAME_PAYLOAD_LEN {
        None
    } else if b.len() - 8 != be32_value(b[4], b[5], b[6], b[7]) {
        None
    } else {
        Some((be32_value(b[0], b[1], b[2], b[3]), b.skip(8)))
    }
}

/// Decoding an encoded frame record yields the sequence number and payload
/// it was built from.
pub proof fn lemma_frame_round_trip(seq: u32, payload: Seq<u8>)
    requires
        payload.len() <= MAX_FRAME_PAYLOAD_LEN,
    ensures
        parse_frame(frame_bytes(seq, payload)) == Some((seq, payload)),
{
    let b = frame_bytes(seq, payload);
    lemma_be32_value_of_bytes(seq);
    lemma_be32_value_of_bytes(payload.len() as u32);
    assert(b[4] == be32_bytes(payload.len() as u32)[0]);
    assert(b[5] == be32_bytes(payload.len() as u32)[1]);
    assert(b[6] == be32_bytes(payload.len() as u32)[2]);
    assert(b[7] == be32_bytes(payload.len() as u32)[3]);
    assert(b.skip(8) =~= payload);
}

/// One sequenced unit of codec-encoded audio.
#[derive(Debug, Clone, PartialEq, Eq)]
pub struct AudioFrame {
    /// Position of this frame in its sender's stream; wraps at 2^32.
    pub sequence_number: u32,
    /// The codec's bytes for one sample block.
    pub samples: Vec<u8>,
}

impl AudioFrame {
    pub fn new(sequence_number: u32, samples: Vec<u8>) -> (f: AudioFrame)
        ensures
            f.sequence_number == sequence_number,
            f.samples@ == samples@,
    {
        AudioFrame { sequence_number, samples }
    }

    /// The wire record for this frame; fails with `MalformedFrame` exactly
    /// when the payload exceeds the cap.
    pub fn encode(&self) -> (r: Result<Vec<u8>, SessionError>)
        ensures
            self.samples@.len() <= MAX_FRAME_PAYLOAD_LEN ==> (r matches Ok(v) && v@ == frame_bytes(
                self.sequence_number,
                self.samples@,
            )),
            self.samples@.len() > MAX_FRAME_PAYLOAD_LEN ==> r == Err::<Vec<u8>, _>(
                SessionError::MalformedFrame,
            ),
    {
        if self.samples.len() > MAX_FRAME_PAYLOAD_LEN {
            return Err(SessionError::MalformedFrame);
        }
        let mut out: Vec<u8> = Vec::new();
        push_be32(&mut out, self.sequence_number);
        push_be32(&mut out, self.samples.len() as u32);
        let ghost header = be32_bytes(self.sequence_number) + be32_bytes(
            self.samples@.len() as u32,
        );
        let mut i: usize = 0;
        while i < self.samples.len()
            invariant
                i <= self.samples@.len(),
                header == be32_bytes(self.sequence_number) + be32_bytes(
                    self.samples@.len() as u32,
                ),
                out@ == header + self.samples@.subrange(0, i as int),
            decreases self.samples@.len() - i,
        {
            out.push(self.samples[i]);
            i = i + 1;
            assert(out@ =~= header + self.samples@.subrange(0, i as int));
        }
        assert(out@ =~= frame_bytes(self.sequence_number, self.samples@));
        Ok(out)
    }

    /// Rebuild a frame from its wire record; fails with `MalformedFrame`
    /// exactly when the record is truncated, carries trailing bytes, or
    /// claims an oversized payload. A strict prefix of a valid record is
    /// never accepted: its length field claims more bytes than follow.
    pub fn decode(data: &[u8]) -> (r: Result<AudioFrame, SessionError>)
        ensures
            parse_frame(data@) matches Some(f) ==> (r matches Ok(frame)
                && frame.sequence_number == f.0 && frame.samples@ == f.1),
            parse_frame(data@) is None ==> r == Err::<AudioFrame, _>(SessionError::MalformedFrame),
    {
        if data.len() < 8 {
            return Err(SessionError::MalformedFrame);
        }
        let len = read_be32(data[4], data[5], data[6], data[7]);
        if len as usize > MAX_FRAME_PAYLOAD_LEN {
            return Err(SessionError::MalformedFrame);
        }
        if data.len() - 8 != len as usize {
            return Err(SessionError::MalformedFrame);
        }
        let seq = read_be32(data[0], data[1], data[2], data[3]);
        let mut samples: Vec<u8> = Vec::new();
        let mut i: usize = 8;
        while i < data.len()
            invariant
                8 <= i <= data@.len(),
                samples@ == data@.subrange(8, i as int),
            decreases data@.len() - i,
        {
            samples.push(data[i]);
            i = i + 1;
            assert(samples@ =~= data@.subrange(8, i as int));
        }
        assert(samples@ =~= data@.skip(8));
        Ok(AudioFrame { sequence_number: seq, samples })
    }
}

impl Message for AudioFrame {
    fn serialize(&self) -> Result<Vec<u8>, SessionError> {
        self.encode()
    }

    fn deserialize(data: &[u8]) -> Result<AudioFrame, SessionError> {
        AudioFrame::decode(data)
    }
}

} // verus!
