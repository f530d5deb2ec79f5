//! Wire protocol data model: the requests a client may send and the responses
//! a server may answer with, together with the fixed audio format constants.
//!
//! Speeds and durations are carried as exact integers: a speed is given in
//! thousandths of the nominal speaking rate, a duration in whole
//! milliseconds, so the protocol model needs no floating-point value.

use vstd::prelude::*;

verus! {

/// Sample rate of every container this service produces, in frames per second.
pub const SAMPLE_RATE: u32 = 24000;

/// Channel count of every container this service produces.
pub const CHANNELS: u16 = 1;

/// Bit depth of every container this service produces.
pub const BITS_PER_SAMPLE: u16 = 16;

/// Speed used when a request does not name one: 990 thousandths.
pub fn default_speed() -> (s: u32)
    ensures
        s == 990,
{
    990
}

/// Voice used when a request does not name one.
pub fn default_voice() -> (v: String)
    ensures
        v@ == "am_onyx.4+bm_lewis.6"@,
{
    "am_onyx.4+bm_lewis.6".to_owned()
}

/// Language used when a request does not name one.
pub fn default_lang() -> (l: String)
    ensures
        l@ == "en-us"@,
{
    "en-us".to_owned()
}

/// A request to synthesize one text with a voice, a language and a speed in
/// thousandths of the nominal rate.
#[derive(Clone, Debug)]
pub struct SynthesizeRequest {
    /// The text to synthesize.
    pub text: String,
    /// The voice mix to speak with.
    pub voice: String,
    /// The language code.
    pub lang: String,
    /// Speaking speed, in thousandths of the nominal rate.
    pub speed: u32,
}

impl SynthesizeRequest {
    /// A request for the given text with every other field at its default.
    pub fn new(text: &str) -> (r: Self)
        ensures
            r.text@ == text@,
            r.voice@ == "am_onyx.4+bm_lewis.6"@,
            r.lang@ == "en-us"@,
            r.speed == 990,
    {
        SynthesizeRequest {
            text: text.to_owned(),
            voice: default_voice(),
            lang: default_lang(),
            speed: default_speed(),
        }
    }

    /// The same request with the voice replaced.
    pub fn with_voice(self, voice: &str) -> (r: Self)
        ensures
            r.voice@ == voice@,
            r.text@ == self.text@,
            r.lang@ == self.lang@,
            r.speed == self.speed,
    {
        SynthesizeRequest { voice: voice.to_owned(), ..self }
    }

    /// The same request with the language replaced.
    pub fn with_lang(self, lang: &str) -> (r: Self)
        ensures
            r.lang@ == lang@,
            r.text@ == self.text@,
            r.voice@ == self.voice@,
            r.speed == self.speed,
    {
        SynthesizeRequest { lang: lang.to_owned(), ..self }
    }

    /// The same request with the speed replaced, in thousandths.
    pub fn with_speed(self, speed: u32) -> (r: Self)
        ensures
            r.speed == speed,
            r.text@ == self.text@,
            r.voice@ == self.voice@,
            r.lang@ == self.lang@,
    {
        SynthesizeRequest { speed, ..self }
    }
}

/// What a client may send inside a text frame.
#[derive(Clone, Debug)]
pub enum Request {
    /// Synthesize a text and answer with its audio.
    Synthesize(SynthesizeRequest),
    /// Keep-alive probe; answered with `Pong` and nothing else.
    Ping,
}

/// What a server may answer inside a text frame.
#[derive(Clone, Debug)]
pub enum Response {
    /// The audio is coming next, as one binary frame; its metadata.
    AudioReady {
        /// Payload duration in whole milliseconds.
        duration_millis: u64,
        /// Frames per second of the payload.
        sample_rate: u32,
        /// Channel count of the payload.
        channels: u16,
        /// Size of the container in bytes.
        size_bytes: usize,
    },
    /// Answer to a keep-alive probe.
    Pong,
    /// The request failed; terminal for that request alone.
    Error {
        /// A human-readable description of the failure.
        message: String,
    },
}

} // verus!
