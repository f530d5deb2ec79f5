//! Tests of the interactive session: command parsing, session state, the
//! per-request exchange, and playback scheduling.

use sirius::codec::encode_wav;
use sirius::protocol::Response;
use sirius::session::{
    exchange_step, parse_command, parse_speed, playback_wait_millis, ClientFrameEvent, Command,
    ExchangeState, ExchangeStep, Session,
};

fn default_session() -> Session {
    Session { voice: "am_onyx.4+bm_lewis.6".to_string(), lang: "en-us".to_string(), speed: 990 }
}

#[test]
fn speed_numerals_parse_in_thousandths() {
    assert_eq!(parse_speed("0.5"), Some(500));
    assert_eq!(parse_speed("2.0"), Some(2000));
    assert_eq!(parse_speed("0.99"), Some(990));
    assert_eq!(parse_speed("1"), Some(1000));
    assert_eq!(parse_speed("1.25"), Some(1250));
    assert_eq!(parse_speed("3.0"), Some(3000));
    assert_eq!(parse_speed("0.125"), Some(125));
}

#[test]
fn malformed_speed_numerals_parse_to_none() {
    assert_eq!(parse_speed(""), None);
    assert_eq!(parse_speed("abc"), None);
    assert_eq!(parse_speed(".5"), None);
    assert_eq!(parse_speed("1."), None);
    assert_eq!(parse_speed("1.2345"), None);
    assert_eq!(parse_speed("1.2.3"), None);
    assert_eq!(parse_speed("-1.0"), None);
    assert_eq!(parse_speed("1e0"), None);
}

#[test]
fn out_of_range_speed_is_rejected_and_state_kept() {
    // The interactive command `:s 3.0` is rejected: the speed is unchanged
    // and the old speed is still used on the next synthesize request.
    let cmd = parse_command(":s 3.0");
    assert!(matches!(cmd, Command::InvalidSpeed));
    let mut session = default_session();
    session.apply_command(&cmd);
    assert_eq!(session.speed, 990);
    let req = session.request_for("again");
    assert_eq!(req.speed, 990);
}

#[test]
fn in_range_speed_changes_the_session() {
    let cmd = parse_command(":s 1.5");
    assert!(matches!(cmd, Command::SetSpeed(1500)));
    let mut session = default_session();
    session.apply_command(&cmd);
    assert_eq!(session.speed, 1500);
    assert_eq!(session.request_for("text").speed, 1500);
}

#[test]
fn boundary_speeds_are_accepted() {
    assert!(matches!(parse_command(":s 0.5"), Command::SetSpeed(500)));
    assert!(matches!(parse_command(":s 2.0"), Command::SetSpeed(2000)));
    assert!(matches!(parse_command(":s 0.499"), Command::InvalidSpeed));
    assert!(matches!(parse_command(":s 2.001"), Command::InvalidSpeed));
}

#[test]
fn quit_and_voice_and_text_commands() {
    assert!(matches!(parse_command(":q"), Command::Quit));
    assert!(matches!(parse_command(" :quit "), Command::Quit));
    assert!(matches!(parse_command(""), Command::Empty));
    assert!(matches!(parse_command("   "), Command::Empty));
    match parse_command(":v af_heart") {
        Command::SetVoice(v) => assert_eq!(v, "af_heart"),
        other => panic!("expected a voice change, got {:?}", other),
    }
    match parse_command("Hello there. General speech.") {
        Command::Synthesize(t) => assert_eq!(t, "Hello there. General speech."),
        other => panic!("expected text to synthesize, got {:?}", other),
    }
}

#[test]
fn bare_command_prefixes_are_plain_text() {
    // Only `:v ` and `:s ` with a space are commands; the bare words are
    // ordinary text to synthesize.
    match parse_command(":v") {
        Command::Synthesize(t) => assert_eq!(t, ":v"),
        other => panic!("expected text, got {:?}", other),
    }
    match parse_command(":s") {
        Command::Synthesize(t) => assert_eq!(t, ":s"),
        other => panic!("expected text, got {:?}", other),
    }
    assert!(matches!(parse_command(":s abc"), Command::InvalidSpeed));
    assert!(matches!(parse_command(":s 0.4999"), Command::InvalidSpeed));
}

#[test]
fn voice_change_keeps_speed_and_lang() {
    let mut session = default_session();
    session.apply_command(&parse_command(":v bm_lewis"));
    assert_eq!(session.voice, "bm_lewis");
    assert_eq!(session.lang, "en-us");
    assert_eq!(session.speed, 990);
}

#[test]
fn exchange_success_path_metadata_then_binary() {
    let st = ExchangeState::AwaitingMeta;
    let meta = Response::AudioReady {
        duration_millis: 500,
        sample_rate: 24000,
        channels: 1,
        size_bytes: 6,
    };
    let step = exchange_step(st, ClientFrameEvent::Text(Ok(meta)));
    let st = match step {
        ExchangeStep::Continue(st @ ExchangeState::AwaitingAudio { .. }) => st,
        other => panic!("metadata moves the exchange to awaiting audio, got {:?}", other),
    };
    let step = exchange_step(st, ClientFrameEvent::Binary(vec![9, 9, 9]));
    match step {
        ExchangeStep::Finished(bytes) => assert_eq!(bytes, vec![9, 9, 9]),
        other => panic!("the binary frame finishes the exchange, got {:?}", other),
    }
}

#[test]
fn binary_before_metadata_is_ignored() {
    let step = exchange_step(ExchangeState::AwaitingMeta, ClientFrameEvent::Binary(vec![1]));
    assert!(matches!(step, ExchangeStep::Continue(ExchangeState::AwaitingMeta)));
}

#[test]
fn error_response_fails_the_exchange_with_its_message() {
    let step = exchange_step(
        ExchangeState::AwaitingMeta,
        ClientFrameEvent::Text(Ok(Response::Error { message: "TTS error: boom".to_string() })),
    );
    match step {
        ExchangeStep::Failed(m) => assert_eq!(m, "Server error: TTS error: boom"),
        other => panic!("an error response fails the exchange, got {:?}", other),
    }
}

#[test]
fn close_frame_fails_the_exchange() {
    let step = exchange_step(ExchangeState::AwaitingMeta, ClientFrameEvent::Close);
    match step {
        ExchangeStep::Failed(m) => assert_eq!(m, "Connection closed by server"),
        other => panic!("the close frame fails the exchange, got {:?}", other),
    }
}

#[test]
fn pong_changes_nothing() {
    let step = exchange_step(ExchangeState::AwaitingMeta, ClientFrameEvent::Text(Ok(Response::Pong)));
    assert!(matches!(step, ExchangeStep::Continue(ExchangeState::AwaitingMeta)));
}

#[test]
fn playback_wait_is_duration_plus_buffer() {
    let samples: Vec<i16> = vec![0; 12000];
    let wav = encode_wav(&samples, 1, 24000);
    assert_eq!(playback_wait_millis(&wav), Some(600));
    // An undecodable container gives no wait: the caller must block on the
    // playback sink instead.
    assert_eq!(playback_wait_millis(&[0u8; 10]), None);
}
