//! Streaming text-to-speech core: the message framing between client and
//! server, the serialization discipline around a single synthesis
//! capability, the linear-PCM container codec, and the client-side
//! interactive session with its duration-based playback scheduling.
//!
//! Everything here is pure logic on plain values: the synthesis engine, the
//! sockets, the JSON serializer and the audio device are external
//! collaborators that the surrounding application wires in.

pub mod codec;
pub mod handler;
pub mod orchestrator;
pub mod protocol;
pub mod session;
pub mod text;
