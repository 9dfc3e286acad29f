//! The decode pipeline: raw byte chunks in, validated readings out.
//!
//! Each completed frame from the assembler is checksum-verified and
//! parsed; the result — a reading or the frame's first failure — is
//! yielded in arrival order. A bad frame never stops the pipeline:
//! decoding continues with the next frame, and only the byte source
//! ending ends the sequence, a concern that stays with the caller
//! driving this state machine.

use vstd::prelude::*;

use crate::assembler::{run, FrameAssembler, FramingMode};
use crate::frame::{DecodeError, TeleinfoFrame};
use crate::parser::{parse_frame, parse_result_ok};

verus! {

/// Composes frame assembly, checksum verification and field
/// extraction into one continuous decoder.
pub struct DecodePipeline {
    stage: FrameAssembler,
}

impl DecodePipeline {
    /// The framing strategy of the underlying assembler.
    pub closed spec fn strategy(&self) -> FramingMode {
        self.stage.strategy()
    }

    /// The bytes the underlying assembler has accumulated.
    pub closed spec fn buffer(&self) -> Seq<u8> {
        self.stage.buffer()
    }

    /// A fresh pipeline with an empty accumulation buffer.
    pub fn new(mode: FramingMode) -> (p: DecodePipeline)
        ensures
            p.strategy() == mode,
            p.buffer() == Seq::<u8>::empty(),
    {
        DecodePipeline { stage: FrameAssembler::new(mode) }
    }

    /// Feeds one chunk of bytes; returns one result per frame that
    /// completed inside it, in arrival order.
    pub fn push_chunk(&mut self, chunk: &[u8]) -> (out: Vec<Result<TeleinfoFrame, DecodeError>>)
        ensures
            final(self).strategy() == old(self).strategy(),
            final(self).buffer() == run(old(self).strategy(), old(self).buffer(), chunk@).0,
            out@.len() == run(old(self).strategy(), old(self).buffer(), chunk@).1.len(),
            forall|i: int|
                0 <= i < out@.len() ==> parse_result_ok(
                    run(old(self).strategy(), old(self).buffer(), chunk@).1[i],
                    #[trigger] out@[i],
                ),
    {
        let ghost frames_spec = run(self.stage.strategy(), self.stage.buffer(), chunk@).1;
        let frames = self.stage.push_chunk(chunk);
        proof {
            assert(frames.deep_view() == frames_spec);
        }
        let mut out: Vec<Result<TeleinfoFrame, DecodeError>> = Vec::new();
        let n = frames.len();
        let mut i: usize = 0;
        while i < n
            invariant
                i <= n == frames@.len(),
                frames.deep_view() == frames_spec,
                out@.len() == i,
                forall|j: int|
                    0 <= j < i ==> parse_result_ok(frames_spec[j], #[trigger] out@[j]),
            decreases n - i,
        {
            let fr: &Vec<u8> = &frames[i];
            let r = parse_frame(fr.as_slice());
            proof {
                assert(frames.deep_view()[i as int] == frames@[i as int]@);
            }
            out.push(r);
            i = i + 1;
        }
        out
    }
}

} // verus!
