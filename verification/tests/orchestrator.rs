//! Tests of the synthesis orchestrator: sequential segment accumulation,
//! whole-request failure, and the finished container.

use sirius::codec::{encode_wav, estimate_wav_duration};
use sirius::orchestrator::SynthesisJob;

/// Drive a job the way a connection task would, answering each segment from
/// a table of canned results.
fn drive(job: &mut SynthesisJob, answers: &[Result<Vec<i16>, &str>]) {
    let mut i = 0;
    while job.has_pending() {
        let _segment = job.current_segment();
        match &answers[i] {
            Ok(samples) => job.on_segment_ok(samples),
            Err(msg) => job.on_segment_failed(msg.to_string()),
        }
        i += 1;
    }
}

#[test]
fn two_segments_concatenated_in_order() {
    let mut job = SynthesisJob::new("Hello. World.");
    assert_eq!(job.segments.len(), 2);
    assert_eq!(job.current_segment(), "Hello");
    drive(&mut job, &[Ok(vec![1, 2, 3]), Ok(vec![4, 5])]);
    let out = job.finish().expect("both segments succeeded");
    let expected = encode_wav(&vec![1, 2, 3, 4, 5], 1, 24000);
    assert_eq!(out.wav, expected);
    assert_eq!(out.duration.frames, 5);
    assert_eq!(out.duration.rate, 24000);
}

#[test]
fn successful_exchange_has_positive_duration() {
    let mut job = SynthesisJob::new("Hello. World.");
    drive(&mut job, &[Ok(vec![0; 24000]), Ok(vec![0; 12000])]);
    let out = job.finish().expect("both segments succeeded");
    let d = estimate_wav_duration(&out.wav).expect("produced container decodes");
    assert!(d.millis() > 0);
    assert_eq!(d.millis(), 1500);
}

#[test]
fn mid_text_failure_discards_earlier_audio() {
    let mut job = SynthesisJob::new("good. bad. never");
    drive(&mut job, &[Ok(vec![1, 2, 3]), Err("segment refused"), Ok(vec![9])]);
    // The third segment was never asked for: the job stopped at the failure.
    assert_eq!(job.done, 1);
    let err = job.finish().expect_err("a failed segment fails the request");
    assert_eq!(err.message, "segment refused");
}

#[test]
fn whitespace_text_synthesizes_to_empty_container() {
    let mut job = SynthesisJob::new("   ");
    assert!(!job.has_pending());
    drive(&mut job, &[]);
    let out = job.finish().expect("no segments, so nothing can fail");
    assert_eq!(out.wav.len(), 44);
    assert_eq!(out.duration.frames, 0);
    let d = estimate_wav_duration(&out.wav).expect("empty container decodes");
    assert_eq!(d.millis(), 0);
}

#[test]
fn failure_on_first_segment() {
    let mut job = SynthesisJob::new("only");
    drive(&mut job, &[Err("engine down")]);
    let err = job.finish().expect_err("failure propagates");
    assert_eq!(err.message, "engine down");
}
