//! Incremental decompression of one Zstandard frame.

use crate::error::FatalError;
use async_compression::codecs::DecodeV2;
use vstd::prelude::*;

verus! {

/// The decoder of `async_compression`'s codecs, carried as an opaque value.
#[verifier::external_type_specification]
#[verifier::external_body]
pub struct ExZstdDecoder(async_compression::codecs::ZstdDecoder);

/// The error of a decoding round, carried as an opaque value.
#[verifier::external_type_specification]
#[verifier::external_body]
pub struct ExIoError(std::io::Error);

/// The most bytes that one decoding round hands out.
pub const DECODE_ROOM: usize = 16384;

/// Calls `ZstdDecoder::new`. Trusted; nothing is claimed of the decoder.
#[verifier::external_body]
fn zstd_new() -> async_compression::codecs::ZstdDecoder {
    async_compression::codecs::ZstdDecoder::new()
}

/// Calls `DecodeV2::decode` of `ZstdDecoder` once, reading from `input` and
/// writing to the front of `output`. Returns how many bytes were read, how
/// many were written, and whether the frame ended. Trusted: `output` keeps its
/// length, no more is read than `input` holds, and no more is written than
/// `output` holds. Which bytes come out depends on the decoder's state, of which
/// nothing is claimed.
#[verifier::external_body]
fn zstd_decode(
    codec: &mut async_compression::codecs::ZstdDecoder,
    input: &[u8],
    output: &mut Vec<u8>,
) -> (r: Result<(usize, usize, bool), std::io::Error>)
    ensures
        final(output)@.len() == old(output)@.len(),
        r matches Ok(t) ==> t.0 <= input@.len() && t.1 <= old(output)@.len(),
{
    let mut source = async_compression::core::util::PartialBuffer::new(input);
    let mut sink = async_compression::core::util::WriteBuffer::new_initialized(output.as_mut_slice());
    let ended = codec.decode(&mut source, &mut sink)?;
    Ok((source.written_len(), sink.written_len(), ended))
}

/// What one decoding round did.
pub struct Decoded {
    /// How many bytes of the input were taken.
    pub consumed: usize,
    /// The decompressed bytes that came out.
    pub output: Vec<u8>,
}

/// A decoder for one frame, with what the run has to remember about it.
pub struct Decompressor {
    codec: async_compression::codecs::ZstdDecoder,
    ended: bool,
    fed: bool,
    pending: bool,
}

impl Decompressor {
    /// Whether the decoder has reported the end of the frame.
    pub closed spec fn frame_ended(&self) -> bool {
        self.ended
    }

    /// Whether any compressed byte has been offered.
    pub closed spec fn saw_input(&self) -> bool {
        self.fed
    }

    /// Whether the last round filled its output, so that the decoder may hold
    /// more.
    pub closed spec fn may_hold_output(&self) -> bool {
        self.pending
    }

    /// A decoder at the start of a frame.
    pub fn new() -> (d: Self)
        ensures
            !d.frame_ended(),
            !d.saw_input(),
            !d.may_hold_output(),
    {
        Decompressor { codec: zstd_new(), ended: false, fed: false, pending: false }
    }

    /// Whether the decoder has reported the end of the frame.
    pub fn is_ended(&self) -> (b: bool)
        ensures
            b == self.frame_ended(),
    {
        self.ended
    }

    /// Whether the decoder may hold output that it has not handed out.
    pub fn is_pending(&self) -> (b: bool)
        ensures
            b == self.may_hold_output(),
    {
        self.pending
    }

    /// One decoding round over `input`, handing out at most `DECODE_ROOM`
    /// bytes. Once the frame has ended, whatever follows it is skipped.
    /// An error of the decoder is a corrupt stream.
    pub fn pull(&mut self, input: &[u8]) -> (r: Result<Decoded, FatalError>)
        ensures
            final(self).saw_input() == (old(self).saw_input() || input@.len() > 0),
            old(self).frame_ended() ==> final(self).frame_ended(),
            old(self).frame_ended() ==> (r matches Ok(d) && d.consumed == input@.len()
                && d.output@.len() == 0),
            match r {
                Ok(d) => {
                    &&& d.consumed <= input@.len()
                    &&& d.output@.len() <= DECODE_ROOM
                    &&& final(self).may_hold_output() == (!final(self).frame_ended()
                        && d.output@.len() == DECODE_ROOM)
                },
                Err(e) => e == FatalError::CorruptStream && !old(self).frame_ended(),
            },
    {
        if input.len() > 0 {
            self.fed = true;
        }
        if self.ended {
            self.pending = false;
            return Ok(Decoded { consumed: input.len(), output: Vec::new() });
        }
        let mut output: Vec<u8> = Vec::new();
        while output.len() < DECODE_ROOM
            invariant
                output@.len() <= DECODE_ROOM,
            decreases DECODE_ROOM - output@.len(),
        {
            output.push(0u8);
        }
        match zstd_decode(&mut self.codec, input, &mut output) {
            Ok((consumed, written, ended)) => {
                output.truncate(written);
                self.ended = ended;
                self.pending = !ended && written == DECODE_ROOM;
                Ok(Decoded { consumed, output })
            },
            Err(_) => Err(FatalError::CorruptStream),
        }
    }

    /// The verdict at the end of the compressed stream: the frame must have
    /// ended. A stream that held no byte is an empty body; any other stream
    /// that stops inside its frame is corrupt.
    pub fn close(&self) -> (r: Result<(), FatalError>)
        ensures
            r == end_verdict(self.frame_ended(), self.saw_input()),
    {
        if self.ended {
            Ok(())
        } else if !self.fed {
            Err(FatalError::EmptyBody)
        } else {
            Err(FatalError::CorruptStream)
        }
    }
}

/// The verdict at the end of a compressed stream, from whether its frame ended
/// and whether it held any byte.
pub open spec fn end_verdict(frame_ended: bool, saw_input: bool) -> Result<(), FatalError> {
    if frame_ended {
        Ok(())
    } else if !saw_input {
        Err(FatalError::EmptyBody)
    } else {
        Err(FatalError::CorruptStream)
    }
}

} // verus!
