//! End-to-end scenarios: a request flows through segmentation, the
//! orchestrated job, the server's response frames, and the client's
//! exchange, without a real connection in between.

use sirius::codec::estimate_wav_duration;
use sirius::handler::{handle_frame, response_frames, ClientEvent, Dispatch, ServerFrame};
use sirius::orchestrator::SynthesisJob;
use sirius::protocol::{Request, Response, SynthesizeRequest};
use sirius::session::{exchange_step, ClientFrameEvent, ExchangeState, ExchangeStep};

/// Feed the server's response frames to the client's exchange, as the
/// connection would, and return how the exchange ended.
fn run_exchange(frames: Vec<ServerFrame>) -> ExchangeStep {
    let mut state = ExchangeState::AwaitingMeta;
    let mut frames = frames.into_iter();
    loop {
        let ev = match frames.next() {
            Some(ServerFrame::Text(resp)) => ClientFrameEvent::Text(Ok(resp)),
            Some(ServerFrame::Binary(bytes)) => ClientFrameEvent::Binary(bytes),
            None => return ExchangeStep::Continue(state),
        };
        match exchange_step(state, ev) {
            ExchangeStep::Continue(next) => state = next,
            done => return done,
        }
    }
}

#[test]
fn request_with_default_settings_round_trips() {
    // The client sends a two-sentence request with every default.
    let req = SynthesizeRequest::new("Hello. World.");
    let dispatched = handle_frame(ClientEvent::Text(Ok(Request::Synthesize(req))));
    let req = match dispatched {
        Dispatch::Synthesize(r) => r,
        other => panic!("expected a synthesize dispatch, got {:?}", other),
    };

    // The server runs the job: two non-empty segments, in order.
    let mut job = SynthesisJob::new(&req.text);
    let segments = job.segments.clone();
    assert_eq!(segments, vec!["Hello".to_string(), "World".to_string()]);
    job.on_segment_ok(&vec![10; 24000]);
    job.on_segment_ok(&vec![-10; 24000]);
    let out = job.finish().expect("both segments succeeded");
    let wav = out.wav.clone();

    // Its response frames reach the client in order.
    let frames = response_frames(Ok(out));
    match &frames[0] {
        ServerFrame::Text(Response::AudioReady { sample_rate, channels, .. }) => {
            assert_eq!(*sample_rate, 24000);
            assert_eq!(*channels, 1);
        }
        other => panic!("expected the metadata frame first, got {:?}", other),
    }
    let finished = run_exchange(frames);
    let bytes = match finished {
        ExchangeStep::Finished(bytes) => bytes,
        other => panic!("the exchange must succeed, got {:?}", other),
    };
    assert_eq!(bytes, wav);
    let d = estimate_wav_duration(&bytes).expect("received container decodes");
    assert!(d.millis() > 0);
}

#[test]
fn failed_request_reaches_the_client_as_one_error() {
    let mut job = SynthesisJob::new("good. bad.");
    job.on_segment_ok(&vec![1, 2, 3]);
    job.on_segment_failed("TTS generation error: boom".to_string());
    let outcome = job.finish();
    let frames = response_frames(outcome);
    match run_exchange(frames) {
        ExchangeStep::Failed(m) => assert_eq!(m, "Server error: TTS generation error: boom"),
        other => panic!("the exchange must fail with the server's message, got {:?}", other),
    }
}
