//! Per-connection request handling: what the server answers to each inbound
//! frame, and in which order the response frames leave.
//!
//! The handler is a pure decision function: the surrounding connection task
//! reads frames, hands each one in as an event, and performs the returned
//! dispatch. One request is processed to completion before the next frame is
//! read, so the response frames of one request are never interleaved with
//! anything else on the same connection.

use vstd::prelude::*;
use vstd::string::StringExecFns;

use crate::orchestrator::{SynthesisFailure, SynthesisOutput};
use crate::protocol::{Request, Response, SynthesizeRequest, CHANNELS};

verus! {

/// One frame leaving the server: structured metadata or raw container bytes.
#[derive(Clone, Debug)]
pub enum ServerFrame {
    /// A structured response, sent as one text frame.
    Text(Response),
    /// Raw container bytes, sent as one binary frame.
    Binary(Vec<u8>),
}

/// Whether a frame is the metadata that announces a binary payload.
pub open spec fn frame_is_audio_ready(f: ServerFrame) -> bool {
    f matches ServerFrame::Text(Response::AudioReady { .. })
}

/// The response frames owed for one finished synthesize request: on success
/// the metadata frame first, then the one binary frame with the container
/// bytes; on failure one error frame and nothing else.
pub open spec fn spec_response_frames(outcome: Result<SynthesisOutput, SynthesisFailure>) -> Seq<
    ServerFrame,
> {
    match outcome {
        Ok(out) => seq![
            ServerFrame::Text(
                Response::AudioReady {
                    duration_millis: out.duration.spec_millis() as u64,
                    sample_rate: out.duration.rate,
                    channels: CHANNELS,
                    size_bytes: out.wav@.len() as usize,
                },
            ),
            ServerFrame::Binary(out.wav),
        ],
        Err(f) => seq![ServerFrame::Text(Response::Error { message: f.message })],
    }
}

/// Build the response frames for one finished synthesize request.
pub fn response_frames(outcome: Result<SynthesisOutput, SynthesisFailure>) -> (frames: Vec<
    ServerFrame,
>)
    requires
        outcome is Ok ==> outcome.unwrap().duration.wf(),
    ensures
        frames@ == spec_response_frames(outcome),
{
    match outcome {
        Ok(out) => {
            let duration_millis = out.duration.millis();
            let sample_rate = out.duration.rate;
            let size_bytes = out.wav.len();
            let mut frames: Vec<ServerFrame> = Vec::new();
            frames.push(
                ServerFrame::Text(
                    Response::AudioReady { duration_millis, sample_rate, channels: CHANNELS, size_bytes },
                ),
            );
            frames.push(ServerFrame::Binary(out.wav));
            proof {
                assert(frames@ =~= spec_response_frames(Ok(out)));
            }
            frames
        },
        Err(f) => {
            let mut frames: Vec<ServerFrame> = Vec::new();
            frames.push(ServerFrame::Text(Response::Error { message: f.message }));
            proof {
                assert(frames@ =~= spec_response_frames(Err(f)));
            }
            frames
        },
    }
}

/// Ordering of a successful exchange: the response to a successful request is
/// exactly one metadata frame followed immediately by its one binary frame —
/// every binary frame in the response directly follows the metadata frame
/// that announces it, and nothing is interleaved between the two.
pub proof fn lemma_success_frames_ordered(outcome: Result<SynthesisOutput, SynthesisFailure>)
    requires
        outcome is Ok,
    ensures
        spec_response_frames(outcome).len() == 2,
        frame_is_audio_ready(spec_response_frames(outcome)[0]),
        spec_response_frames(outcome)[1] is Binary,
        forall|i: int|
            0 <= i < spec_response_frames(outcome).len() && (#[trigger] spec_response_frames(
                outcome,
            )[i]) is Binary ==> 0 < i && frame_is_audio_ready(spec_response_frames(outcome)[i - 1]),
{
}

/// Atomicity of failure: the response to a failed request is exactly one
/// error frame carrying the failure's message — no metadata frame and no
/// binary frame is ever part of it.
pub proof fn lemma_failure_atomic(outcome: Result<SynthesisOutput, SynthesisFailure>)
    requires
        outcome is Err,
    ensures
        spec_response_frames(outcome).len() == 1,
        spec_response_frames(outcome)[0] matches ServerFrame::Text(Response::Error { message })
            && message == outcome.unwrap_err().message,
        forall|i: int|
            0 <= i < spec_response_frames(outcome).len() ==> !((#[trigger] spec_response_frames(
                outcome,
            )[i]) is Binary) && !frame_is_audio_ready(spec_response_frames(outcome)[i]),
{
}

/// One inbound frame, as the connection task saw it: a text frame already
/// decoded into a request (or the decode failure's description), raw binary,
/// a transport-level probe or its answer, the close frame, or anything else.
#[derive(Debug)]
pub enum ClientEvent {
    /// A text frame: the decoded request, or the decode failure's message.
    Text(Result<Request, String>),
    /// A binary frame; binary is server-to-client only, so it carries nothing.
    Binary(Vec<u8>),
    /// A transport-level probe with its payload.
    Ping(Vec<u8>),
    /// A transport-level probe answer.
    Pong,
    /// The close frame.
    Close,
    /// Any other frame; ignored for forward compatibility.
    Other,
}

/// What the connection task must do next for one inbound frame.
#[derive(Debug)]
pub enum Dispatch {
    /// Send this one structured response frame and keep reading.
    Respond(Response),
    /// Run one synthesize request to completion, send its response frames in
    /// order, then keep reading.
    Synthesize(SynthesizeRequest),
    /// Echo a transport-level probe with the same payload and keep reading.
    TransportPong(Vec<u8>),
    /// Do nothing and keep reading.
    Ignore,
    /// Stop reading and close the connection.
    CloseConnection,
}

/// Decide what one inbound frame gets: a decode failure is answered with an
/// error frame and the connection stays open; a keep-alive request gets
/// exactly one pong and nothing else; a synthesize request is run as a whole;
/// unexpected binary and unknown frames are ignored; the close frame closes.
pub fn handle_frame(ev: ClientEvent) -> (d: Dispatch)
    ensures
        match ev {
            ClientEvent::Text(Ok(Request::Ping)) => d matches Dispatch::Respond(Response::Pong),
            ClientEvent::Text(Ok(Request::Synthesize(req))) => d matches Dispatch::Synthesize(r)
                && r.text@ == req.text@ && r.voice@ == req.voice@ && r.lang@ == req.lang@
                && r.speed == req.speed,
            ClientEvent::Text(Err(msg)) => d matches Dispatch::Respond(
                Response::Error { message },
            ) && message@ == "Invalid request: "@ + msg@,
            ClientEvent::Binary(_) => d is Ignore,
            ClientEvent::Ping(data) => d matches Dispatch::TransportPong(p) && p@ == data@,
            ClientEvent::Pong => d is Ignore,
            ClientEvent::Close => d is CloseConnection,
            ClientEvent::Other => d is Ignore,
        },
{
    match ev {
        ClientEvent::Text(Ok(Request::Ping)) => Dispatch::Respond(Response::Pong),
        ClientEvent::Text(Ok(Request::Synthesize(req))) => Dispatch::Synthesize(req),
        ClientEvent::Text(Err(msg)) => {
            let message = "Invalid request: ".to_owned().concat(msg.as_str());
            Dispatch::Respond(Response::Error { message })
        },
        ClientEvent::Binary(_) => Dispatch::Ignore,
        ClientEvent::Ping(data) => Dispatch::TransportPong(data),
        ClientEvent::Pong => Dispatch::Ignore,
        ClientEvent::Close => Dispatch::CloseConnection,
        ClientEvent::Other => Dispatch::Ignore,
    }
}

} // verus!
