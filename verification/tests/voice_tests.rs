use std::collections::HashSet;

use discord_voice::audio_io::AudioInput;
use discord_voice::error::{Error, ReadError};
use discord_voice::gateway::CallInformation;
use discord_voice::payload::{select_protocol, voice_heartbeat};
use discord_voice::rtp::{build_voice_packet, PacketError};
use discord_voice::voice::{
    read_key, udp_address, FrameError, SendStep, SetupStep, SocketEvent, Voice, VoiceEvent, VoiceFrame,
};

const SILENCE: [u8; 3] = [0xF8, 0xFF, 0xFE];
const READY: &str = r#"{"op":2,"d":{"ip":"203.0.113.9","port":50004,"ssrc":12345,"modes":[]}}"#;

fn call() -> CallInformation {
    CallInformation {
        endpoint: "wss://h/?v=7".to_owned(),
        server_id: "s".to_owned(),
        user_id: "u".to_owned(),
        session_id: "x".to_owned(),
        token: "t".to_owned(),
    }
}

fn voice() -> Voice {
    Voice::new(&call()).0
}

fn key() -> [u8; 32] {
    let mut key = [0u8; 32];
    for (i, b) in key.iter_mut().enumerate() {
        *b = 7 * i as u8;
    }
    key
}

fn key_message() -> String {
    format!(r#"{{"op":4,"d":{{"mode":"xsalsa20_poly1305","secret_key":{:?}}}}}"#, key())
}

fn ready_voice() -> Voice {
    let mut voice = voice();
    voice.read(READY).unwrap();
    voice.read(&key_message()).unwrap();
    voice
}

fn buffer(packet: &[u8]) -> [u8; 1024] {
    let mut buffer = [0xEEu8; 1024];
    buffer[..packet.len()].copy_from_slice(packet);
    buffer
}

#[test]
fn call_starts_by_identifying() {
    let (_, text) = Voice::new(&call());
    assert_eq!(
        text,
        r#"{"d":{"server_id":"s","session_id":"x","token":"t","user_id":"u"},"op":0}"#
    );
}

#[test]
fn ready_is_heard_once() {
    let mut voice = voice();
    assert_eq!(
        voice.read(READY),
        Ok(VoiceEvent::Ready { ip: "203.0.113.9".to_owned(), port: 50004, ssrc: 12345 })
    );
    assert_eq!(voice.read(READY), Ok(VoiceEvent::Nothing));
    assert_eq!(voice.read(r#"{"op":2,"d":{}}"#), Ok(VoiceEvent::Nothing));
}

#[test]
fn incomplete_ready_ends_the_wait() {
    let mut voice = voice();
    assert_eq!(
        voice.read(r#"{"op":2,"d":{"ip":"h","ssrc":1}}"#),
        Err(ReadError::Malformed)
    );
    assert_eq!(voice.read(READY), Ok(VoiceEvent::Nothing));
}

#[test]
fn large_numbers_are_cut() {
    assert_eq!(
        voice().read(r#"{"op":2,"d":{"ip":"h","port":65537,"ssrc":4294967299}}"#),
        Ok(VoiceEvent::Ready { ip: "h".to_owned(), port: 1, ssrc: 3 })
    );
}

#[test]
fn hello_starts_the_voice_heartbeat() {
    assert_eq!(
        voice().read(r#"{"op":8,"d":{"heartbeat_interval":13750}}"#),
        Ok(VoiceEvent::StartHeartbeat(13750))
    );
    assert_eq!(voice().read(r#"{"op":8,"d":{}}"#), Err(ReadError::Malformed));
}

#[test]
fn other_voice_messages_are_told_apart() {
    let mut voice = voice();
    assert_eq!(voice.read(r#"{"op":6,"d":3}"#), Ok(VoiceEvent::Nothing));
    assert_eq!(voice.read(r#"{"op":5,"d":{}}"#), Ok(VoiceEvent::UnhandledOp(5)));
    assert_eq!(voice.read("4006: session invalid"), Err(ReadError::Closed));
    assert_eq!(voice.read(r#"{"d":{}}"#), Err(ReadError::Malformed));
}

#[test]
fn voice_frame_holds_what_is_looked_at() {
    let frame = VoiceFrame::parse(
        r#"{"op":4,"d":{"ip":"h","port":1,"ssrc":2,"secret_key":[1,"x",300],"heartbeat_interval":5}}"#,
    )
    .unwrap();
    assert_eq!(
        frame,
        VoiceFrame {
            op: Some(4),
            ip: Some("h".to_owned()),
            port: Some(1),
            ssrc: Some(2),
            secret_key: Some(vec![Some(1), None, Some(300)]),
            heartbeat_interval: Some(5),
        }
    );
    assert_eq!(VoiceFrame::parse(""), None);
}

#[test]
fn keys_are_read() {
    let listed: Vec<Option<u64>> = key().iter().map(|b| Some(*b as u64)).collect();
    assert_eq!(read_key(&listed), Some(key()));
    let mut short = [0u8; 32];
    short[0] = 1;
    short[1] = 2;
    assert_eq!(read_key(&vec![Some(257), Some(2)]), Some(short));
    assert_eq!(read_key(&vec![]), Some([0; 32]));
    assert_eq!(read_key(&vec![Some(1); 33]), None);
    assert_eq!(read_key(&vec![Some(1), None]), None);
}

#[test]
fn bad_keys_are_malformed() {
    let mut voice = voice();
    assert_eq!(voice.read(r#"{"op":4,"d":{}}"#), Err(ReadError::Malformed));
    assert_eq!(voice.read(r#"{"op":4,"d":{"secret_key":[-1]}}"#), Err(ReadError::Malformed));
    assert_eq!(voice.send_frame(&SILENCE), Err(FrameError::NoKey));
    assert_eq!(voice.read(&key_message()), Ok(VoiceEvent::KeyReceived));
    assert!(voice.send_frame(&SILENCE).is_ok());
}

#[test]
fn quiet_call_sends_nothing() {
    let mut voice = ready_voice();
    let mut input = AudioInput::new();
    assert_eq!(voice.send_audio(&mut input), SendStep::Idle);
}

#[test]
fn speaking_without_a_key_sends_nothing() {
    let mut voice = voice();
    let mut input = AudioInput::new();
    voice.read(READY).unwrap();
    voice.set_sending(true);
    assert_eq!(voice.send_audio(&mut input), SendStep::Idle);
}

#[test]
fn speech_goes_to_both_channels() {
    let mut voice = ready_voice();
    let mut input = AudioInput::new();
    voice.set_sending(true);
    let first: Vec<i16> = (0..960).collect();
    input.record(&first);
    let mut expected: Vec<i16> = Vec::new();
    for s in &first {
        expected.push(*s);
        expected.push(*s);
    }
    assert_eq!(voice.send_audio(&mut input), SendStep::Encode(expected.clone()));
    input.record(&[-1, -2]);
    expected[0] = -1;
    expected[1] = -1;
    expected[2] = -2;
    expected[3] = -2;
    assert_eq!(voice.send_audio(&mut input), SendStep::Encode(expected));
}

#[test]
fn recorded_samples_are_used_up_while_quiet() {
    let mut voice = ready_voice();
    let mut input = AudioInput::new();
    input.record(&[1, 2, 3]);
    assert_eq!(voice.send_audio(&mut input), SendStep::Idle);
    let mut data = [9i16; 3];
    input.pop(&mut data);
    assert_eq!(data, [9, 9, 9]);
}

#[test]
fn packets_are_numbered() {
    let mut voice = ready_voice();
    for n in 0..3u16 {
        assert_eq!(
            voice.send_frame(b"frame"),
            Ok(build_voice_packet(&key(), n, 960 * n as u32, 12345, b"frame"))
        );
    }
}

#[test]
fn frames_that_do_not_fit_are_refused() {
    let mut voice = ready_voice();
    assert_eq!(voice.send_frame(&[0; 997]), Err(FrameError::TooLong));
    assert_eq!(
        voice.send_frame(&[0; 996]),
        Ok(build_voice_packet(&key(), 0, 0, 12345, &[0; 996]))
    );
}

#[test]
fn six_packets_of_silence_follow() {
    let mut voice = ready_voice();
    let mut input = AudioInput::new();
    voice.set_sending(true);
    voice.send_frame(b"frame").unwrap();
    voice.set_sending(false);
    for n in 1..7u16 {
        assert_eq!(
            voice.send_audio(&mut input),
            SendStep::Send(build_voice_packet(&key(), n, 960 * n as u32, 12345, &SILENCE))
        );
    }
    for _ in 0..3 {
        assert_eq!(voice.send_audio(&mut input), SendStep::Idle);
    }
}

#[test]
fn silence_runs_out_without_a_key() {
    let mut voice = voice();
    let mut input = AudioInput::new();
    voice.set_sending(false);
    for _ in 0..6 {
        assert_eq!(voice.send_audio(&mut input), SendStep::Idle);
    }
    voice.read(&key_message()).unwrap();
    assert_eq!(voice.send_audio(&mut input), SendStep::Idle);
}

#[test]
fn nonces_do_not_repeat() {
    let mut voice = ready_voice();
    let mut seen = HashSet::new();
    for _ in 0..70000 {
        let packet = voice.send_frame(&[]).unwrap();
        assert!(seen.insert(packet[..12].to_vec()));
    }
    let packet = voice.send_frame(&[]).unwrap();
    assert_eq!(packet[2..4], (70000u32 as u16).to_be_bytes());
    assert_eq!(packet[4..8], (70000u32 * 960).to_be_bytes());
}

#[test]
fn sent_audio_is_played() {
    let mut sender = ready_voice();
    let receiver = ready_voice();
    let packet = sender.send_frame(b"hello").unwrap();
    assert_eq!(
        receiver.read_socket(&buffer(&packet), packet.len()),
        Ok(SocketEvent::Audio(b"hello".to_vec()))
    );
}

#[test]
fn audio_before_the_key_is_ignored() {
    let packet = ready_voice().send_frame(b"hello").unwrap();
    assert_eq!(
        voice().read_socket(&buffer(&packet), packet.len()),
        Ok(SocketEvent::Ignored)
    );
    assert_eq!(voice().read_socket(&buffer(&packet), 3), Ok(SocketEvent::Ignored));
}

#[test]
fn unusable_audio_is_refused() {
    let voice = ready_voice();
    let packet = ready_voice().send_frame(b"hello").unwrap();
    assert_eq!(voice.read_socket(&buffer(&packet), 5), Err(PacketError::Truncated));
    for len in 12..28 {
        assert_eq!(voice.read_socket(&buffer(&packet), len), Err(PacketError::Forged));
    }
    assert_eq!(voice.read_socket(&buffer(&packet), 20), Err(PacketError::Forged));
}

#[test]
fn discovery_answer_selects_the_protocol() {
    let mut answer = [0u8; 1024];
    answer[1] = 2;
    answer[8..17].copy_from_slice(b"192.0.2.1");
    answer[72] = 0x13;
    answer[73] = 0x88;
    assert_eq!(
        voice().read_socket(&answer, 74),
        Ok(SocketEvent::SelectProtocol(
            r#"{"d":{"data":{"address":"192.0.2.1","mode":"xsalsa20_poly1305","port":5000},"protocol":"udp"},"op":1}"#
                .to_owned()
        ))
    );
    answer[8] = 0xC0;
    assert_eq!(voice().read_socket(&answer, 74), Err(PacketError::NotText));
}

#[test]
fn other_datagrams_are_unknown() {
    assert_eq!(ready_voice().read_socket(&[0; 1024], 8), Ok(SocketEvent::Unknown));
}

#[test]
fn speaking_is_announced() {
    let voice = ready_voice();
    assert_eq!(voice.speaking(true), r#"{"d":{"delay":5,"speaking":1,"ssrc":12345},"op":5}"#);
    assert_eq!(voice.speaking(false), r#"{"d":{"delay":5,"speaking":0,"ssrc":12345},"op":5}"#);
}

#[test]
fn voice_heartbeat_tells_the_time() {
    assert_eq!(Voice::heartbeat(1700000000), r#"{"d":1700000000,"op":3}"#);
    assert_eq!(voice_heartbeat(u64::MAX), r#"{"d":18446744073709551615,"op":3}"#);
}

#[test]
fn payload_text_is_escaped() {
    assert_eq!(
        select_protocol("a\"\n", 1),
        r#"{"d":{"data":{"address":"a\"\n","mode":"xsalsa20_poly1305","port":1},"protocol":"udp"},"op":1}"#
    );
}

#[test]
fn audio_address_is_one_text() {
    assert_eq!(udp_address("203.0.113.9", 50004), "203.0.113.9:50004");
    assert_eq!(udp_address("h", 0), "h:0");
    assert_eq!(udp_address("", 65535), ":65535");
    assert_eq!(udp_address("x", 10), "x:10");
}

#[test]
fn discovery_names_the_source() {
    let packet = ready_voice().discovery(50004);
    assert_eq!(packet[..8], [0, 1, 0, 70, 0, 0, 0x30, 0x39]);
    assert_eq!(packet[72..], [0xC3, 0x54]);
}

#[test]
fn messages_leave_audio_alone() {
    let mut voice = ready_voice();
    let mut input = AudioInput::new();
    voice.set_sending(true);
    voice.send_frame(b"frame").unwrap();
    voice.set_sending(false);
    voice.send_audio(&mut input);
    voice.read(READY).unwrap();
    voice.read(r#"{"op":6}"#).unwrap();
    assert_eq!(voice.read(r#"{"op":4,"d":{"secret_key":null}}"#), Err(ReadError::Malformed));
    assert_eq!(
        voice.send_audio(&mut input),
        SendStep::Send(build_voice_packet(&key(), 2, 1920, 12345, &SILENCE))
    );
}

#[test]
fn longest_datagram_is_read() {
    let packet = ready_voice().send_frame(&[9; 996]).unwrap();
    assert_eq!(
        ready_voice().read_socket(&buffer(&packet), 1024),
        Ok(SocketEvent::Audio(vec![9; 996]))
    );
}

#[test]
fn speaking_again_ends_the_silence() {
    let mut voice = ready_voice();
    let mut input = AudioInput::new();
    voice.set_sending(false);
    voice.send_audio(&mut input);
    voice.set_sending(true);
    assert_eq!(voice.send_audio(&mut input), SendStep::Encode(vec![0; 1920]));
}

#[test]
fn failed_steps_end_in_their_errors() {
    for step in [SetupStep::BindSocket, SetupStep::ConnectSocket, SetupStep::SendDiscovery] {
        assert_eq!(step.error(), Error::SocketError);
    }
    for step in [SetupStep::AwaitReady, SetupStep::CreateEncoder, SetupStep::CreateDecoder] {
        assert_eq!(step.error(), Error::ApplicationError);
    }
}
