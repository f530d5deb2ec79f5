//! Client-side session: the interactive command language, the mutable
//! session state it drives, and the per-request exchange with the server.
//!
//! A speed is carried in thousandths of the nominal rate and read from the
//! user as a plain decimal numeral with up to seven integer and up to three
//! fractional digits; speeds outside `[0.5, 2.0]` are rejected without
//! touching the session.

use vstd::prelude::*;
use vstd::string::StrSliceExecFns;
use vstd::string::StringExecFns;

use crate::codec::{wav_duration_of, estimate_wav_duration};
use crate::protocol::{Response, SynthesizeRequest};
use crate::text::{trim_str, trimmed};

verus! {

/// Decimal digit test.
pub open spec fn is_digit(c: char) -> bool {
    c == '0' || c == '1' || c == '2' || c == '3' || c == '4' || c == '5' || c == '6' || c == '7'
        || c == '8' || c == '9'
}

/// Value of a decimal digit; zero on anything else.
pub open spec fn digit_val(c: char) -> int {
    if c == '1' {
        1
    } else if c == '2' {
        2
    } else if c == '3' {
        3
    } else if c == '4' {
        4
    } else if c == '5' {
        5
    } else if c == '6' {
        6
    } else if c == '7' {
        7
    } else if c == '8' {
        8
    } else if c == '9' {
        9
    } else {
        0
    }
}

/// Whether every character is a decimal digit.
pub open spec fn all_digits(s: Seq<char>) -> bool {
    forall|i: int| 0 <= i < s.len() ==> is_digit(#[trigger] s[i])
}

/// Value of a digit string read as a base-ten numeral.
pub open spec fn digits_val(s: Seq<char>) -> int
    decreases s.len(),
{
    if s.len() == 0 {
        0
    } else {
        10 * digits_val(s.drop_last()) + digit_val(s.last())
    }
}

/// Ten to the `n`.
pub open spec fn pow10(n: nat) -> int
    decreases n,
{
    if n == 0 {
        1
    } else {
        10 * pow10((n - 1) as nat)
    }
}

pub proof fn lemma_digits_val_bound(s: Seq<char>)
    ensures
        0 <= digits_val(s) < pow10(s.len()),
    decreases s.len(),
{
    if s.len() > 0 {
        lemma_digits_val_bound(s.drop_last());
    }
}

/// Index of the first `'.'`, or the length when there is none.
pub open spec fn find_dot(s: Seq<char>) -> int
    decreases s.len(),
{
    if s.len() == 0 {
        0
    } else if s[0] == '.' {
        0
    } else {
        1 + find_dot(s.skip(1))
    }
}

proof fn lemma_find_dot_at(s: Seq<char>, i: int)
    requires
        0 <= i <= s.len(),
        forall|j: int| 0 <= j < i ==> s[j] != '.',
        i < s.len() ==> s[i] == '.',
    ensures
        find_dot(s) == i,
    decreases i,
{
    if i == 0 {
    } else {
        assert(s[0] != '.');
        lemma_find_dot_at(s.skip(1), i - 1);
    }
}

/// The speed named by a decimal numeral, in thousandths: an integer part of
/// one to seven digits, optionally followed by `'.'` and one to three
/// fractional digits. Anything else names no speed.
pub open spec fn spec_parse_speed(s: Seq<char>) -> Option<int> {
    let k = find_dot(s);
    let ip = s.subrange(0, k);
    if k < 1 || k > 7 || !all_digits(ip) {
        None
    } else if k == s.len() {
        Some(digits_val(ip) * 1000)
    } else {
        let frac = s.subrange(k + 1, s.len() as int);
        if 1 <= frac.len() <= 3 && all_digits(frac) {
            Some(digits_val(ip) * 1000 + digits_val(frac) * pow10((3 - frac.len()) as nat))
        } else {
            None
        }
    }
}

/// Decimal digit test, executably.
fn is_digit_char(c: char) -> (b: bool)
    ensures
        b == is_digit(c),
{
    c == '0' || c == '1' || c == '2' || c == '3' || c == '4' || c == '5' || c == '6' || c == '7'
        || c == '8' || c == '9'
}

/// Value of a decimal digit, executably.
fn digit_val_char(c: char) -> (d: u64)
    ensures
        d == digit_val(c),
{
    if c == '1' {
        1
    } else if c == '2' {
        2
    } else if c == '3' {
        3
    } else if c == '4' {
        4
    } else if c == '5' {
        5
    } else if c == '6' {
        6
    } else if c == '7' {
        7
    } else if c == '8' {
        8
    } else if c == '9' {
        9
    } else {
        0
    }
}

proof fn lemma_pow10_small()
    ensures
        pow10(0) == 1,
        pow10(1) == 10,
        pow10(2) == 100,
        pow10(3) == 1000,
        pow10(4) == 10000,
        pow10(5) == 100000,
        pow10(6) == 1000000,
        pow10(7) == 10000000,
{
    assert(pow10(0) == 1);
    assert(pow10(1) == 10);
    assert(pow10(2) == 100);
    assert(pow10(3) == 1000);
    assert(pow10(4) == 10000);
    assert(pow10(5) == 100000);
    assert(pow10(6) == 1000000);
    assert(pow10(7) == 10000000);
}

/// Read the value of a run of digits, in the order given.
///
/// Yields the numeral's value when every character of the subrange is a
/// digit, and nothing otherwise.
fn digits_value(s: &str, from: usize, to: usize, max_len: usize) -> (r: Option<u64>)
    requires
        from <= to <= s@.len(),
        to - from <= max_len <= 7,
    ensures
        all_digits(s@.subrange(from as int, to as int)) ==> r is Some && r.unwrap()
            == digits_val(s@.subrange(from as int, to as int)),
        !all_digits(s@.subrange(from as int, to as int)) ==> r is None,
{
    let ghost whole = s@.subrange(from as int, to as int);
    let mut v: u64 = 0;
    let mut i: usize = from;
    proof {
        lemma_pow10_small();
        assert(whole.subrange(0, 0) =~= Seq::<char>::empty());
    }
    while i < to
        invariant
            from <= i <= to <= s@.len(),
            to - from <= 7,
            whole == s@.subrange(from as int, to as int),
            all_digits(whole.subrange(0, i - from)),
            v == digits_val(whole.subrange(0, i - from)),
            v < pow10((i - from) as nat),
            pow10(7) == 10000000,
        decreases to - i,
    {
        let c = s.get_char(i);
        if !is_digit_char(c) {
            proof {
                assert(whole[i - from] == s@[i as int]);
                assert(!all_digits(whole));
            }
            return None;
        }
        let d = digit_val_char(c);
        proof {
            lemma_pow10_small();
            lemma_digits_val_bound(whole.subrange(0, i - from));
            assert(pow10((i - from) as nat) <= pow10(6)) by {
                lemma_pow10_monotone((i - from) as nat, 6);
            };
            assert(whole.subrange(0, i - from + 1).drop_last() =~= whole.subrange(0, i - from));
            assert(whole.subrange(0, i - from + 1).last() == s@[i as int]);
        }
        v = 10 * v + d;
        i = i + 1;
    }
    proof {
        assert(whole.subrange(0, (to - from) as int) =~= whole);
    }
    Some(v)
}

proof fn lemma_pow10_monotone(a: nat, b: nat)
    requires
        a <= b,
    ensures
        pow10(a) <= pow10(b),
    decreases b,
{
    if a < b {
        lemma_pow10_monotone(a, (b - 1) as nat);
        lemma_pow10_positive((b - 1) as nat);
        assert(pow10(b) == 10 * pow10((b - 1) as nat));
    }
}

proof fn lemma_pow10_positive(n: nat)
    ensures
        pow10(n) >= 1,
    decreases n,
{
    if n > 0 {
        lemma_pow10_positive((n - 1) as nat);
    }
}

/// Read a speed numeral, in thousandths of the nominal rate.
pub fn parse_speed(s: &str) -> (r: Option<u64>)
    ensures
        match r {
            Some(v) => spec_parse_speed(s@) == Some(v as int),
            None => spec_parse_speed(s@) is None,
        },
{
    let n = s.unicode_len();
    // Find the first '.'.
    let mut k: usize = 0;
    while k < n && s.get_char(k) != '.'
        invariant
            k <= n,
            n == s@.len(),
            forall|j: int| 0 <= j < k ==> s@[j] != '.',
        decreases n - k,
    {
        k = k + 1;
    }
    proof {
        lemma_find_dot_at(s@, k as int);
        lemma_pow10_small();
    }
    if k < 1 || k > 7 {
        return None;
    }
    let ip = match digits_value(s, 0, k, 7) {
        Some(v) => v,
        None => {
            return None;
        },
    };
    proof {
        assert(ip < 10000000) by {
            lemma_digits_val_bound(s@.subrange(0, k as int));
            lemma_pow10_monotone(s@.subrange(0, k as int).len() as nat, 7);
        };
    }
    if k == n {
        return Some(ip * 1000);
    }
    let fl = n - k - 1;
    if fl < 1 || fl > 3 {
        return None;
    }
    let fv = match digits_value(s, k + 1, n, 3) {
        Some(v) => v,
        None => {
            return None;
        },
    };
    proof {
        assert(fv < 1000) by {
            lemma_digits_val_bound(s@.subrange(k as int + 1, n as int));
            lemma_pow10_monotone(s@.subrange(k as int + 1, n as int).len() as nat, 3);
        };
    }
    let scale: u64 = if fl == 1 {
        100
    } else if fl == 2 {
        10
    } else {
        1
    };
    proof {
        assert(scale == pow10((3 - (n - k - 1)) as nat));
    }
    Some(ip * 1000 + fv * scale)
}

/// Whether two strings hold the same characters.
fn str_eq_str(a: &str, b: &str) -> (r: bool)
    ensures
        r == (a@ == b@),
{
    let n = a.unicode_len();
    if n != b.unicode_len() {
        return false;
    }
    let mut i: usize = 0;
    while i < n
        invariant
            i <= n,
            n == a@.len(),
            n == b@.len(),
            forall|j: int| 0 <= j < i ==> a@[j] == b@[j],
        decreases n - i,
    {
        if a.get_char(i) != b.get_char(i) {
            return false;
        }
        i = i + 1;
    }
    proof {
        assert(a@ =~= b@);
    }
    true
}

/// Whether `p` is a prefix of `s`.
fn str_has_prefix(s: &str, p: &str) -> (r: bool)
    ensures
        r == (p@.len() <= s@.len() && s@.subrange(0, p@.len() as int) == p@),
{
    let pn = p.unicode_len();
    if s.unicode_len() < pn {
        return false;
    }
    let mut i: usize = 0;
    while i < pn
        invariant
            i <= pn,
            pn == p@.len(),
            pn <= s@.len(),
            forall|j: int| 0 <= j < i ==> s@[j] == p@[j],
        decreases pn - i,
    {
        if s.get_char(i) != p.get_char(i) {
            proof {
                assert(s@.subrange(0, pn as int)[i as int] == s@[i as int]);
            }
            return false;
        }
        i = i + 1;
    }
    proof {
        assert(s@.subrange(0, pn as int) =~= p@);
    }
    true
}

/// One line of interactive input, understood.
#[derive(Debug)]
pub enum Command {
    /// A blank line; nothing happens.
    Empty,
    /// Leave the session.
    Quit,
    /// Change the session's voice.
    SetVoice(String),
    /// Change the session's speed, in thousandths of the nominal rate.
    SetSpeed(u32),
    /// A speed change with an unreadable or out-of-range value; rejected
    /// without touching the session.
    InvalidSpeed,
    /// Any other non-empty line: text to synthesize.
    Synthesize(String),
}

/// Understand one line of interactive input.
///
/// The line is trimmed first. `:q` and `:quit` end the session; `:v ` changes
/// the voice to the trimmed remainder; `:s ` changes the speed when the
/// trimmed remainder reads as a speed within `[0.5, 2.0]` — in thousandths,
/// `[500, 2000]` — and is rejected otherwise; any other non-empty line is
/// text to synthesize.
pub fn parse_command(line: &str) -> (cmd: Command)
    ensures
        ({
            let t = trimmed(line@);
            if t.len() == 0 {
                cmd is Empty
            } else if t == ":q"@ || t == ":quit"@ {
                cmd is Quit
            } else if t.len() >= 3 && t.subrange(0, 3) == ":v "@ {
                cmd matches Command::SetVoice(v) && v@ == trimmed(t.skip(3))
            } else if t.len() >= 3 && t.subrange(0, 3) == ":s "@ {
                match spec_parse_speed(trimmed(t.skip(3))) {
                    Some(v) => if 500 <= v <= 2000 {
                        cmd matches Command::SetSpeed(sp) && sp == v
                    } else {
                        cmd is InvalidSpeed
                    },
                    None => cmd is InvalidSpeed,
                }
            } else {
                cmd matches Command::Synthesize(x) && x@ == t
            }
        }),
{
    let t = trim_str(line);
    let n = t.as_str().unicode_len();
    if n == 0 {
        return Command::Empty;
    }
    if str_eq_str(t.as_str(), ":q") || str_eq_str(t.as_str(), ":quit") {
        return Command::Quit;
    }
    proof {
        reveal_strlit(":v ");
        reveal_strlit(":s ");
    }
    if str_has_prefix(t.as_str(), ":v ") {
        let rest = t.as_str().substring_char(3, n);
        let voice = trim_str(rest);
        return Command::SetVoice(voice);
    }
    if str_has_prefix(t.as_str(), ":s ") {
        let rest = t.as_str().substring_char(3, n);
        let value = trim_str(rest);
        match parse_speed(value.as_str()) {
            Some(v) => {
                if 500 <= v && v <= 2000 {
                    return Command::SetSpeed(v as u32);
                } else {
                    return Command::InvalidSpeed;
                }
            },
            None => {
                return Command::InvalidSpeed;
            },
        }
    }
    Command::Synthesize(t)
}

/// The mutable state of one interactive session: the voice, language and
/// speed used for each synthesize request sent over its one connection.
pub struct Session {
    /// Voice mix for the next request.
    pub voice: String,
    /// Language code for the next request.
    pub lang: String,
    /// Speed for the next request, in thousandths of the nominal rate.
    pub speed: u32,
}

impl Session {
    /// Apply one understood line to the session: only a voice or speed
    /// change touches it; in particular a rejected speed leaves the session
    /// exactly as it was.
    pub fn apply_command(&mut self, cmd: &Command)
        ensures
            match cmd {
                Command::SetVoice(v) => final(self).voice@ == v@ && final(self).lang
                    == old(self).lang && final(self).speed == old(self).speed,
                Command::SetSpeed(v) => final(self).speed == v && final(self).voice
                    == old(self).voice && final(self).lang == old(self).lang,
                _ => *final(self) == *old(self),
            },
    {
        match cmd {
            Command::SetVoice(v) => {
                self.voice = v.clone();
            },
            Command::SetSpeed(v) => {
                self.speed = *v;
            },
            _ => {},
        }
    }

    /// The request this session sends for a text: the text with the
    /// session's current voice, language and speed.
    pub fn request_for(&self, text: &str) -> (r: SynthesizeRequest)
        ensures
            r.text@ == text@,
            r.voice@ == self.voice@,
            r.lang@ == self.lang@,
            r.speed == self.speed,
    {
        SynthesizeRequest {
            text: text.to_owned(),
            voice: self.voice.clone(),
            lang: self.lang.clone(),
            speed: self.speed,
        }
    }
}

/// Where one request's exchange stands: still waiting for the metadata
/// frame, or holding it and waiting for the one binary frame it announces.
#[derive(Debug)]
pub enum ExchangeState {
    /// No metadata seen yet for this request.
    AwaitingMeta,
    /// Metadata received; the next binary frame is the audio it announces.
    AwaitingAudio {
        /// Announced payload duration in whole milliseconds.
        duration_millis: u64,
        /// Announced container size in bytes.
        size_bytes: usize,
    },
}

/// One frame arriving at the client during an exchange: a text frame already
/// decoded into a response (or the decode failure's description), raw
/// binary, the close frame, or anything else.
#[derive(Debug)]
pub enum ClientFrameEvent {
    /// A text frame: the decoded response, or the decode failure's message.
    Text(Result<Response, String>),
    /// A binary frame with its payload.
    Binary(Vec<u8>),
    /// The close frame.
    Close,
    /// Any other frame; ignored.
    Other,
}

/// What one frame does to an exchange.
#[derive(Debug)]
pub enum ExchangeStep {
    /// Keep reading, in this state.
    Continue(ExchangeState),
    /// The exchange succeeded: the container bytes, as announced.
    Finished(Vec<u8>),
    /// The exchange failed with this message; the connection stays open
    /// unless the failure was the close frame itself.
    Failed(String),
}

/// Advance one request's exchange by one inbound frame.
///
/// Metadata puts the exchange into the awaiting-audio state; a binary frame
/// completes it only once metadata has been seen, and is ignored otherwise;
/// an error response or an undecodable response fails the exchange; a pong
/// and unknown frames change nothing; the close frame fails the exchange.
pub fn exchange_step(state: ExchangeState, ev: ClientFrameEvent) -> (step: ExchangeStep)
    ensures
        match ev {
            ClientFrameEvent::Text(Ok(Response::AudioReady { duration_millis, size_bytes, .. })) =>
                step matches ExchangeStep::Continue(ExchangeState::AwaitingAudio {
                    duration_millis: d,
                    size_bytes: z,
                }) && d == duration_millis && z == size_bytes,
            ClientFrameEvent::Text(Ok(Response::Pong)) => step matches ExchangeStep::Continue(st)
                && st == state,
            ClientFrameEvent::Text(Ok(Response::Error { message })) => step
                matches ExchangeStep::Failed(m) && m@ == "Server error: "@ + message@,
            ClientFrameEvent::Text(Err(msg)) => step matches ExchangeStep::Failed(m) && m@ == msg@,
            ClientFrameEvent::Binary(data) => if state is AwaitingAudio {
                step matches ExchangeStep::Finished(b) && b@ == data@
            } else {
                step matches ExchangeStep::Continue(st) && st == state
            },
            ClientFrameEvent::Close => step matches ExchangeStep::Failed(m) && m@
                == "Connection closed by server"@,
            ClientFrameEvent::Other => step matches ExchangeStep::Continue(st) && st == state,
        },
{
    match ev {
        ClientFrameEvent::Text(Ok(Response::AudioReady { duration_millis, size_bytes, .. })) =>
            ExchangeStep::Continue(
                ExchangeState::AwaitingAudio { duration_millis, size_bytes },
            ),
        ClientFrameEvent::Text(Ok(Response::Pong)) => ExchangeStep::Continue(state),
        ClientFrameEvent::Text(Ok(Response::Error { message })) => {
            let m = "Server error: ".to_owned().concat(message.as_str());
            ExchangeStep::Failed(m)
        },
        ClientFrameEvent::Text(Err(msg)) => ExchangeStep::Failed(msg),
        ClientFrameEvent::Binary(data) => {
            match state {
                ExchangeState::AwaitingAudio { .. } => ExchangeStep::Finished(data),
                ExchangeState::AwaitingMeta => ExchangeStep::Continue(ExchangeState::AwaitingMeta),
            }
        },
        ClientFrameEvent::Close => ExchangeStep::Failed("Connection closed by server".to_owned()),
        ClientFrameEvent::Other => ExchangeStep::Continue(state),
    }
}

/// Extra playback time beyond the decoded duration, in milliseconds, so an
/// asynchronously playing device is not cut short.
pub const PLAYBACK_BUFFER_MILLIS: u64 = 100;

/// How long to wait for playback of a received container: its decoded
/// duration plus a fixed buffer, or nothing when the duration cannot be
/// decoded — the caller must then wait for the playback sink itself.
pub fn playback_wait_millis(wav_data: &[u8]) -> (w: Option<u64>)
    ensures
        match wav_duration_of(wav_data@) {
            Some(d) => w == Some((d.spec_millis() + PLAYBACK_BUFFER_MILLIS) as u64),
            None => w is None,
        },
{
    match estimate_wav_duration(wav_data) {
        Some(d) => {
            let m = d.millis();
            proof {
                vstd::arithmetic::div_mod::lemma_div_nonincreasing(
                    d.frames as int * 1000,
                    d.rate as int,
                );
            }
            Some(m + PLAYBACK_BUFFER_MILLIS)
        },
        None => None,
    }
}

} // verus!
