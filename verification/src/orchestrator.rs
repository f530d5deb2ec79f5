//! Synthesis orchestration: one request's text becomes one finished audio
//! container, or fails as a whole.
//!
//! The text is split into sentence segments; the synthesis capability is
//! asked for each segment in order, one call at a time, and the returned
//! samples are appended in segment order. The capability itself lives outside
//! the library, so a job is driven step by step: the driver fetches the next
//! pending segment, reports the samples or the failure back, and closes the
//! job. If any segment fails, the whole request fails and the samples already
//! accumulated are discarded — a finished container is produced only when
//! every segment succeeded.

use vstd::prelude::*;

use crate::codec::{encode_wav, max_encodable_samples, wav_bytes, AudioDuration};
use crate::protocol::{CHANNELS, SAMPLE_RATE};
use crate::text::{segment_text, segments_of};

verus! {

/// Failure of a synthesize request: some segment could not be synthesized.
#[derive(Clone, Debug)]
pub struct SynthesisFailure {
    /// A human-readable description of the failure.
    pub message: String,
}

/// A finished synthesize request: the container and its exact duration.
#[derive(Clone, Debug)]
pub struct SynthesisOutput {
    /// The complete container bytes.
    pub wav: Vec<u8>,
    /// The exact duration of the container's payload.
    pub duration: AudioDuration,
}

/// One synthesize request in progress: the segments still to synthesize, the
/// samples accumulated so far, and whether a segment has failed.
pub struct SynthesisJob {
    /// The sentence segments of the request's text, in order.
    pub segments: Vec<String>,
    /// How many leading segments have been synthesized already.
    pub done: usize,
    /// The samples of the synthesized segments, in segment order.
    pub acc: Vec<i16>,
    /// The failure that ended the job early, if any.
    pub failed: Option<String>,
}

impl SynthesisJob {
    /// A job is well formed while its progress counter stays within its
    /// segment list and its sample count stays encodable.
    pub open spec fn wf(self) -> bool {
        self.done <= self.segments@.len() && self.acc@.len() <= max_encodable_samples()
    }

    /// Start a job for one request text: its segments are the text's sentence
    /// segments, nothing is synthesized yet, nothing has failed.
    pub fn new(text: &str) -> (job: Self)
        ensures
            job.wf(),
            job.segments@.map_values(|t: String| t@) == segments_of(text@),
            job.done == 0,
            job.acc@ == Seq::<i16>::empty(),
            job.failed is None,
    {
        let segments = segment_text(text);
        SynthesisJob { segments, done: 0, acc: Vec::new(), failed: None }
    }

    /// Whether a segment is still waiting to be synthesized.
    pub fn has_pending(&self) -> (b: bool)
        ensures
            b == (self.failed is None && self.done < self.segments@.len()),
    {
        self.failed.is_none() && self.done < self.segments.len()
    }

    /// The segment to synthesize next.
    pub fn current_segment(&self) -> (s: String)
        requires
            self.done < self.segments@.len(),
        ensures
            s@ == self.segments@[self.done as int]@,
    {
        self.segments[self.done].clone()
    }

    /// Record the samples of the segment just synthesized: they are appended
    /// after the samples already accumulated, in order, and the job moves to
    /// the next segment.
    pub fn on_segment_ok(&mut self, samples: &Vec<i16>)
        requires
            old(self).wf(),
            old(self).failed is None,
            old(self).done < old(self).segments@.len(),
            old(self).acc@.len() + samples@.len() <= max_encodable_samples(),
        ensures
            final(self).wf(),
            final(self).acc@ == old(self).acc@ + samples@,
            final(self).done == old(self).done + 1,
            final(self).segments == old(self).segments,
            final(self).failed is None,
    {
        let mut k: usize = 0;
        while k < samples.len()
            invariant
                k <= samples@.len(),
                self.acc@ == old(self).acc@ + samples@.take(k as int),
                self.acc@.len() <= max_encodable_samples(),
                self.done == old(self).done,
                self.done < self.segments@.len(),
                self.segments == old(self).segments,
                self.failed == old(self).failed,
                old(self).acc@.len() + samples@.len() <= max_encodable_samples(),
            decreases samples@.len() - k,
        {
            self.acc.push(samples[k]);
            proof {
                assert(samples@.take(k as int).push(samples@[k as int]) =~= samples@.take(
                    k as int + 1,
                ));
            }
            k = k + 1;
        }
        proof {
            assert(samples@.take(samples@.len() as int) =~= samples@);
        }
        let n = self.segments.len();
        assert(self.done < n);
        self.done = self.done + 1;
    }

    /// Record that the segment just synthesized failed: the job is over and
    /// can only end in failure, whatever was accumulated before.
    pub fn on_segment_failed(&mut self, message: String)
        requires
            old(self).wf(),
        ensures
            final(self).wf(),
            final(self).failed is Some,
            final(self).failed.unwrap()@ == message@,
            final(self).segments == old(self).segments,
            final(self).done == old(self).done,
    {
        self.failed = Some(message);
    }

    /// Close the job once every segment has been answered.
    ///
    /// If any segment failed, the result is that failure and nothing else:
    /// no container leaves a failed job. Otherwise the result is the
    /// container of exactly the accumulated samples, in the fixed audio
    /// format, with its exact duration.
    pub fn finish(self) -> (r: Result<SynthesisOutput, SynthesisFailure>)
        requires
            self.wf(),
            self.failed is Some || self.done == self.segments@.len(),
        ensures
            self.failed is Some ==> r is Err && r.unwrap_err().message@ == self.failed.unwrap()@,
            self.failed is None ==> r is Ok && r.unwrap().wav@ == wav_bytes(
                self.acc@,
                CHANNELS,
                SAMPLE_RATE,
            ) && r.unwrap().duration == (AudioDuration {
                frames: self.acc@.len() as u32,
                rate: SAMPLE_RATE,
            }),
    {
        match self.failed {
            Some(message) => Err(SynthesisFailure { message }),
            None => {
                let wav = encode_wav(&self.acc, CHANNELS, SAMPLE_RATE);
                let frames: u32 = self.acc.len() as u32;
                Ok(
                    SynthesisOutput {
                        wav,
                        duration: AudioDuration { frames, rate: SAMPLE_RATE },
                    },
                )
            },
        }
    }
}

} // verus!
