//! Orchestration of one session's two directions.
//!
//! Outbound, each codec-encoded sample block becomes the next sequenced
//! frame and is framed for the wire. Inbound, each received wire payload is
//! taken apart and submitted to the jitter buffer; the playback side drains
//! the buffer in sequence order. A failure on one frame only disposes of
//! that frame — it never tears the session down; connection-level failures
//! are the caller's to surface.

use vstd::prelude::*;

use crate::errors::SessionError;
use crate::frame::{frame_bytes, parse_frame, MAX_FRAME_PAYLOAD_LEN};
use crate::framing::{encode_wire_message, wire_message};
use crate::jitter::{contains_seq, JitterBuffer, JitterInsert, JitterModel};
use crate::processor::{next_sequence_number, valid_codec_config, InputProcessor, OutputProcessor};

verus! {

/// What became of one inbound wire payload.
#[derive(Clone, Copy, Debug, PartialEq, Eq, Structural)]
pub enum FrameDisposition {
    /// A well-formed frame, buffered for ordered release.
    Buffered,
    /// A well-formed frame at or below the release cursor: dropped.
    LateDropped,
    /// A well-formed frame already buffered: dropped.
    DuplicateDropped,
    /// Not a frame record; skipped.
    Malformed,
}

/// One session's processing state: the outbound sequencer, the inbound
/// frame parser, and the jitter buffer between network and playback.
pub struct SessionPipeline {
    input: InputProcessor,
    output: OutputProcessor,
    jitter: JitterBuffer,
    message_cap: u32,
}

impl SessionPipeline {
    /// The sequence number the next outbound frame will carry.
    pub closed spec fn out_seq(self) -> u32 {
        self.input.seq_spec()
    }

    /// The jitter buffer's content.
    pub closed spec fn buffered(self) -> JitterModel {
        self.jitter.model()
    }

    /// The jitter buffer's release cursor.
    pub closed spec fn release_floor(self) -> u64 {
        self.jitter.floor_spec()
    }

    /// The cap on one wire message's payload.
    pub closed spec fn message_cap_spec(self) -> u32 {
        self.message_cap
    }

    pub closed spec fn jitter_spec(self) -> JitterBuffer {
        self.jitter
    }

    /// The pipeline's invariant: its jitter buffer is well formed.
    pub open spec fn wf(self) -> bool {
        self.jitter_spec().wf()
    }

    /// Fails with `Codec` exactly when the configuration is outside the
    /// speech codec's range; a fresh pipeline sequences from 0.
    pub fn new(
        sample_rate: u32,
        channels: u16,
        target_depth: usize,
        max_hold_ms: u64,
        message_cap: u32,
    ) -> (r: Result<SessionPipeline, SessionError>)
        requires
            target_depth >= 1,
        ensures
            valid_codec_config(sample_rate, channels) ==> (r matches Ok(p) && p.wf() && p.out_seq()
                == 0 && p.buffered() == Seq::<(u32, u64, Seq<u8>)>::empty() && p.release_floor()
                == 0 && p.message_cap_spec() == message_cap),
            !valid_codec_config(sample_rate, channels) ==> r == Err::<SessionPipeline, _>(
                SessionError::Codec,
            ),
    {
        let input = InputProcessor::new(sample_rate, channels)?;
        let output = OutputProcessor::new(sample_rate, channels)?;
        let jitter = JitterBuffer::new(target_depth, max_hold_ms);
        Ok(SessionPipeline { input, output, jitter, message_cap })
    }

    /// Turn one codec-encoded sample block into its wire message: the next
    /// sequenced frame record behind a length prefix.
    ///
    /// Fails with `MalformedFrame` on a payload above the frame cap and
    /// with `Framing` on a record above the message cap; either way the
    /// block is skipped without burning a sequence number.
    pub fn outbound_block(&mut self, payload: &[u8]) -> (r: Result<Vec<u8>, SessionError>)
        requires
            old(self).wf(),
        ensures
            final(self).wf(),
            final(self).buffered() == old(self).buffered(),
            final(self).release_floor() == old(self).release_floor(),
            final(self).message_cap_spec() == old(self).message_cap_spec(),
            payload@.len() > MAX_FRAME_PAYLOAD_LEN ==> (r == Err::<Vec<u8>, _>(
                SessionError::MalformedFrame,
            ) && final(self).out_seq() == old(self).out_seq()),
            payload@.len() <= MAX_FRAME_PAYLOAD_LEN && payload@.len() + 8 > old(self).message_cap_spec() ==> (r == Err::<Vec<u8>, _>(SessionError::Framing) && final(self).out_seq() == old(self).out_seq()),
            payload@.len() <= MAX_FRAME_PAYLOAD_LEN && payload@.len() + 8 <= old(self).message_cap_spec() ==> (r matches Ok(v) && v@ == wire_message(
                frame_bytes(old(self).out_seq(), payload@),
            ) && final(self).out_seq() == next_sequence_number(old(self).out_seq())),
    {
        if payload.len() > MAX_FRAME_PAYLOAD_LEN {
            return Err(SessionError::MalformedFrame);
        }
        if payload.len() as u64 + 8 > self.message_cap as u64 {
            return Err(SessionError::Framing);
        }
        let record = match self.input.process_payload(payload) {
            Ok(v) => v,
            Err(e) => {
                return Err(e);
            },
        };
        let message = match encode_wire_message(record.as_slice(), self.message_cap) {
            Ok(v) => v,
            Err(e) => {
                return Err(e);
            },
        };
        Ok(message)
    }

    /// Submit one received wire payload: parse the frame record and hand
    /// it to the jitter buffer. Total — a bad or late frame is disposed
    /// of, never fatal.
    pub fn inbound_message(&mut self, data: &[u8], now_ms: u64) -> (r: FrameDisposition)
        requires
            old(self).wf(),
        ensures
            final(self).wf(),
            final(self).out_seq() == old(self).out_seq(),
            final(self).release_floor() == old(self).release_floor(),
            final(self).message_cap_spec() == old(self).message_cap_spec(),
            parse_frame(data@) is None ==> (r == FrameDisposition::Malformed && final(self).buffered() == old(self).buffered()),
            parse_frame(data@) matches Some(f) ==> (((f.0 as u64) < old(self).release_floor()
                ==> (r == FrameDisposition::LateDropped && final(self).buffered() == old(self).buffered())) && ((f.0 as u64) >= old(self).release_floor() && contains_seq(
                old(self).buffered(),
                f.0,
            ) ==> (r == FrameDisposition::DuplicateDropped && final(self).buffered() == old(self).buffered())) && ((f.0 as u64) >= old(self).release_floor() && !contains_seq(
                old(self).buffered(),
                f.0,
            ) ==> (r == FrameDisposition::Buffered && exists|k: int|
                0 <= k <= old(self).buffered().len() && final(self).buffered() == #[trigger] old(self).buffered().insert(k, (f.0, now_ms, f.1))))),
    {
        let frame = match self.output.process_frame(data) {
            Ok(f) => f,
            Err(_) => {
                return FrameDisposition::Malformed;
            },
        };
        match self.jitter.insert(frame.sequence_number, now_ms, frame.samples) {
            JitterInsert::Accepted => FrameDisposition::Buffered,
            JitterInsert::Late => FrameDisposition::LateDropped,
            JitterInsert::Duplicate => FrameDisposition::DuplicateDropped,
        }
    }

    /// Release the next frame for playback, in strictly ascending sequence
    /// order, when the jitter buffer's policy says so.
    pub fn next_playback(&mut self, now_ms: u64) -> (r: Option<(u32, Vec<u8>)>)
        requires
            old(self).wf(),
        ensures
            final(self).wf(),
            final(self).out_seq() == old(self).out_seq(),
            final(self).message_cap_spec() == old(self).message_cap_spec(),
            !old(self).jitter_spec().release_ready(now_ms) ==> (r is None && final(self).buffered()
                == old(self).buffered() && final(self).release_floor() == old(self).release_floor()),
            old(self).jitter_spec().release_ready(now_ms) ==> (r matches Some(p) && p.0 == old(self).buffered()[0].0 && p.1@ == old(self).buffered()[0].2 && final(self).buffered() == old(self).buffered().skip(1) && final(self).release_floor() == old(self).buffered()[0].0 as u64
                + 1),
            r matches Some(p) ==> (p.0 as u64) >= old(self).release_floor(),
    {
        self.jitter.poll(now_ms)
    }

    /// How many late or duplicate frames the jitter buffer dropped.
    pub fn dropped_frames(&self) -> (n: u64)
        ensures
            n == self.jitter_spec().dropped_spec(),
    {
        self.jitter.dropped()
    }

    /// How many sequence slots were skipped over gaps.
    pub fn skipped_slots(&self) -> (n: u64)
        ensures
            n == self.jitter_spec().skipped_spec(),
    {
        self.jitter.skipped()
    }
}

} // verus!
