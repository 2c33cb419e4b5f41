//! Per-direction frame processing around the speech codec.
//!
//! The codec itself is an external collaborator: the processors exchange
//! plain bytes with it. Outbound, [`InputProcessor`] assigns each encoded
//! sample block its sequence number and builds the frame record. Inbound,
//! [`OutputProcessor`] takes a received record apart again. Both accept only
//! the sample rates and channel counts the speech codec supports.

use vstd::prelude::*;

use crate::errors::SessionError;
use crate::frame::{frame_bytes, parse_frame, AudioFrame, MAX_FRAME_PAYLOAD_LEN};

verus! {

/// The sample rates and channel counts the speech codec accepts.
pub open spec fn valid_codec_config(sample_rate: u32, channels: u16) -> bool {
    (sample_rate == 8000 || sample_rate == 12000 || sample_rate == 16000 || sample_rate == 24000
        || sample_rate == 48000) && (channels == 1 || channels == 2)
}

/// The sequence number following `s`, wrapping at 2^32.
pub open spec fn next_sequence_number(s: u32) -> u32 {
    ((s + 1) % 0x1_0000_0000) as u32
}

/// Check a sample rate and channel count against the codec's range.
pub fn check_codec_config(sample_rate: u32, channels: u16) -> (r: bool)
    ensures
        r == valid_codec_config(sample_rate, channels),
{
    (sample_rate == 8000 || sample_rate == 12000 || sample_rate == 16000 || sample_rate == 24000
        || sample_rate == 48000) && (channels == 1 || channels == 2)
}

/// Builds the outbound frame stream: one record per encoded sample block,
/// sequence numbers starting at 0 and incremented by 1 per block.
pub struct InputProcessor {
    sample_rate: u32,
    channels: u16,
    sequence_number: u32,
}

impl InputProcessor {
    /// The sequence number the next frame will carry.
    pub closed spec fn seq_spec(self) -> u32 {
        self.sequence_number
    }

    pub closed spec fn sample_rate_spec(self) -> u32 {
        self.sample_rate
    }

    pub closed spec fn channels_spec(self) -> u16 {
        self.channels
    }

    /// Fails with `Codec` exactly when the configuration is outside the
    /// speech codec's range; a fresh processor starts its stream at 0.
    pub fn new(sample_rate: u32, channels: u16) -> (r: Result<InputProcessor, SessionError>)
        ensures
            valid_codec_config(sample_rate, channels) ==> (r matches Ok(p) && p.seq_spec() == 0
                && p.sample_rate_spec() == sample_rate && p.channels_spec() == channels),
            !valid_codec_config(sample_rate, channels) ==> r == Err::<InputProcessor, _>(
                SessionError::Codec,
            ),
    {
        if !check_codec_config(sample_rate, channels) {
            return Err(SessionError::Codec);
        }
        Ok(InputProcessor { sample_rate, channels, sequence_number: 0 })
    }

    /// Frame one codec-encoded sample block and advance the sequence number.
    ///
    /// Fails with `MalformedFrame` exactly when the payload exceeds the
    /// frame cap, in which case the stream position is unchanged, so a
    /// skipped block never burns a sequence number.
    pub fn process_payload(&mut self, payload: &[u8]) -> (r: Result<Vec<u8>, SessionError>)
        ensures
            final(self).sample_rate_spec() == old(self).sample_rate_spec(),
            final(self).channels_spec() == old(self).channels_spec(),
            payload@.len() <= MAX_FRAME_PAYLOAD_LEN ==> (r matches Ok(v) && v@ == frame_bytes(
                old(self).seq_spec(),
                payload@,
            ) && final(self).seq_spec() == next_sequence_number(old(self).seq_spec())),
            payload@.len() > MAX_FRAME_PAYLOAD_LEN ==> (r == Err::<Vec<u8>, _>(
                SessionError::MalformedFrame,
            ) && final(self).seq_spec() == old(self).seq_spec()),
    {
        let mut samples: Vec<u8> = Vec::new();
        let mut i: usize = 0;
        while i < payload.len()
            invariant
                i <= payload@.len(),
                samples@ == payload@.subrange(0, i as int),
            decreases payload@.len() - i,
        {
            samples.push(payload[i]);
            i = i + 1;
            assert(samples@ =~= payload@.subrange(0, i as int));
        }
        assert(samples@ =~= payload@);
        let frame = AudioFrame::new(self.sequence_number, samples);
        let encoded = frame.encode()?;
        self.sequence_number = if self.sequence_number == u32::MAX {
            0
        } else {
            self.sequence_number + 1
        };
        Ok(encoded)
    }
}

/// Takes inbound frame records apart for the playback side.
pub struct OutputProcessor {
    sample_rate: u32,
    channels: u16,
}

impl OutputProcessor {
    pub closed spec fn sample_rate_spec(self) -> u32 {
        self.sample_rate
    }

    pub closed spec fn channels_spec(self) -> u16 {
        self.channels
    }

    /// Fails with `Codec` exactly when the configuration is outside the
    /// speech codec's range.
    pub fn new(sample_rate: u32, channels: u16) -> (r: Result<OutputProcessor, SessionError>)
        ensures
            valid_codec_config(sample_rate, channels) ==> (r matches Ok(p)
                && p.sample_rate_spec() == sample_rate && p.channels_spec() == channels),
            !valid_codec_config(sample_rate, channels) ==> r == Err::<OutputProcessor, _>(
                SessionError::Codec,
            ),
    {
        if !check_codec_config(sample_rate, channels) {
            return Err(SessionError::Codec);
        }
        Ok(OutputProcessor { sample_rate, channels })
    }

    /// Take one received record apart into its frame.
    ///
    /// Fails with `MalformedFrame` exactly when the record is truncated or
    /// its payload oversized; such a frame is skipped, never fatal.
    pub fn process_frame(&self, data: &[u8]) -> (r: Result<AudioFrame, SessionError>)
        ensures
            parse_frame(data@) matches Some(f) ==> (r matches Ok(frame)
                && frame.sequence_number == f.0 && frame.samples@ == f.1),
            parse_frame(data@) is None ==> r == Err::<AudioFrame, _>(SessionError::MalformedFrame),
    {
        AudioFrame::decode(data)
    }
}

} // verus!
