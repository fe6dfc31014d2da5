use discord_voice::error::{Error, ReadError};
use discord_voice::gateway::{
    build_endpoint_url, CallInformation, Gateway, GatewayEvent, GatewayFrame,
};
use tokio_tungstenite::tungstenite::Error as WebSocketError;

type Line = Gateway<&'static str>;
type Event = GatewayEvent<&'static str>;

fn gateway() -> Line {
    Line::new().unwrap().0
}

fn called() -> Line {
    let mut gateway = gateway();
    gateway.start_call("99", "state", "server");
    gateway
}

fn pair(a: &str, b: &str) -> Option<(String, String)> {
    Some((a.to_owned(), b.to_owned()))
}

const STATE: &str =
    r#"{"op":0,"s":5,"t":"VOICE_STATE_UPDATE","d":{"session_id":"abc","user_id":"17"}}"#;
const SERVER: &str =
    r#"{"op":0,"s":6,"t":"VOICE_SERVER_UPDATE","d":{"endpoint":"host.example:443","token":"tok"}}"#;

fn state_event(sender: &'static str) -> Event {
    GatewayEvent::VoiceState {
        sender,
        session_id: "abc".to_owned(),
        user_id: "17".to_owned(),
    }
}

fn server_event(sender: &'static str) -> Event {
    GatewayEvent::VoiceServer {
        sender,
        endpoint: "host.example:443".to_owned(),
        token: "tok".to_owned(),
    }
}

#[test]
fn gateway_starts_at_its_url() {
    let (gateway, url) = Line::new().unwrap();
    assert_eq!(url, "wss://gateway.discord.gg/?v=9");
    assert_eq!(gateway.sequence, 0);
    assert_eq!((gateway.voice_state_sender, gateway.voice_server_sender), (None, None));
}

#[test]
fn gateway_without_url_is_an_error() {
    assert_eq!(Line::at(None), Err(Error::ApplicationError));
}

#[test]
fn websocket_failure_is_a_gateway_error() {
    assert_eq!(Error::from(WebSocketError::ConnectionClosed), Error::GatewayError);
    assert_eq!(Error::from(WebSocketError::Utf8), Error::GatewayError);
}

#[test]
fn ready_is_reported() {
    let mut gateway = gateway();
    assert_eq!(
        gateway.read(r#"{"op":0,"s":1,"t":"READY","d":{}}"#),
        Ok(GatewayEvent::Ready)
    );
    assert_eq!(gateway.sequence, 1);
}

#[test]
fn hello_starts_the_heartbeat() {
    let mut gateway = gateway();
    assert_eq!(
        gateway.read(r#"{"op":10,"d":{"heartbeat_interval":41250}}"#),
        Ok(GatewayEvent::StartHeartbeat(41250))
    );
}

#[test]
fn acknowledged_heartbeat_is_nothing() {
    assert_eq!(gateway().read(r#"{"op":11}"#), Ok(GatewayEvent::Nothing));
}

#[test]
fn unused_messages_are_reported() {
    let mut gateway = gateway();
    assert_eq!(gateway.read(r#"{"op":7,"d":null}"#), Ok(GatewayEvent::UnhandledOp(7)));
    assert_eq!(
        gateway.read(r#"{"op":0,"s":3,"t":"MESSAGE_CREATE","d":{}}"#),
        Ok(GatewayEvent::UnhandledDispatch("MESSAGE_CREATE".to_owned()))
    );
    assert_eq!(gateway.sequence, 3);
}

#[test]
fn text_that_is_no_json_closes() {
    let mut gateway = called();
    assert_eq!(gateway.read("Authentication failed."), Err(ReadError::Closed));
    assert_eq!(gateway, called());
}

#[test]
fn missing_fields_are_malformed() {
    let mut gateway = called();
    assert_eq!(gateway.read("{}"), Err(ReadError::Malformed));
    assert_eq!(gateway.read("[1,2]"), Err(ReadError::Malformed));
    assert_eq!(gateway.read(r#"{"op":-1}"#), Err(ReadError::Malformed));
    assert_eq!(gateway.read(r#"{"op":"0"}"#), Err(ReadError::Malformed));
    assert_eq!(gateway.read(r#"{"op":10,"d":{}}"#), Err(ReadError::Malformed));
    assert_eq!(gateway.read(r#"{"op":0,"t":"READY"}"#), Err(ReadError::Malformed));
    assert_eq!(gateway, called());
}

#[test]
fn number_is_kept_even_if_the_kind_is_missing() {
    let mut gateway = gateway();
    assert_eq!(gateway.read(r#"{"op":0,"s":9}"#), Err(ReadError::Malformed));
    assert_eq!(gateway.sequence, 9);
}

#[test]
fn numbers_are_kept_modulo_32_bits() {
    let mut gateway = gateway();
    gateway.read(r#"{"op":0,"s":-1,"t":"X"}"#).unwrap();
    assert_eq!(gateway.sequence, u32::MAX);
    gateway.read(r#"{"op":0,"s":4294967298,"t":"X"}"#).unwrap();
    assert_eq!(gateway.sequence, 2);
}

#[test]
fn updates_without_a_call_are_ignored() {
    let mut gateway = gateway();
    assert_eq!(gateway.read(STATE), Ok(GatewayEvent::Nothing));
    assert_eq!(gateway.read(SERVER), Ok(GatewayEvent::Nothing));
    assert_eq!(gateway.sequence, 6);
}

#[test]
fn call_is_delivered_once_in_any_order() {
    let mut gateway = called();
    assert_eq!(gateway.read(STATE), Ok(state_event("state")));
    assert_eq!(gateway.read(STATE), Ok(GatewayEvent::Nothing));
    assert_eq!(gateway.read(SERVER), Ok(server_event("server")));
    assert_eq!(gateway.read(SERVER), Ok(GatewayEvent::Nothing));
    let request = gateway.start_call("99", "a", "b");
    assert_eq!((request.replaced_state, request.replaced_server), (None, None));
    assert_eq!(gateway.read(SERVER), Ok(server_event("b")));
    assert_eq!(gateway.read(STATE), Ok(state_event("a")));
}

#[test]
fn second_call_replaces_the_first() {
    let mut gateway = called();
    let request = gateway.start_call("100", "state 2", "server 2");
    assert_eq!(request.replaced_state, Some("state"));
    assert_eq!(request.replaced_server, Some("server"));
    assert_eq!(gateway.read(STATE), Ok(state_event("state 2")));
    assert_eq!(gateway.read(SERVER), Ok(server_event("server 2")));
}

#[test]
fn second_call_replaces_what_the_first_lacks() {
    let mut gateway = called();
    assert_eq!(gateway.read(STATE), Ok(state_event("state")));
    let request = gateway.start_call("100", "state 2", "server 2");
    assert_eq!(request.replaced_state, None);
    assert_eq!(request.replaced_server, Some("server"));
    assert_eq!(
        CallInformation::new("99".to_owned(), pair("abc", "17"), None),
        Err(Error::ApplicationError)
    );
    assert_eq!(gateway.read(SERVER), Ok(server_event("server 2")));
    assert_eq!(gateway.read(STATE), Ok(state_event("state 2")));
}

#[test]
fn incomplete_update_ends_the_wait() {
    let mut gateway = called();
    assert_eq!(
        gateway.read(r#"{"op":0,"s":5,"t":"VOICE_STATE_UPDATE","d":{"session_id":"abc"}}"#),
        Err(ReadError::Malformed)
    );
    assert_eq!(gateway.voice_state_sender, None);
    assert_eq!(
        gateway.read(r#"{"op":0,"s":5,"t":"VOICE_SERVER_UPDATE","d":{"endpoint":null,"token":"t"}}"#),
        Err(ReadError::Malformed)
    );
    assert_eq!(gateway.voice_server_sender, None);
}

#[test]
fn frame_holds_what_is_looked_at() {
    let frame = GatewayFrame::parse(
        r#"{"op":0,"s":-7,"t":"T","d":{"session_id":"a","user_id":"b","endpoint":"c","token":"d","heartbeat_interval":1}}"#,
    )
    .unwrap();
    assert_eq!(
        frame,
        GatewayFrame {
            op: Some(0),
            sequence: Some(-7),
            kind: Some("T".to_owned()),
            session_id: Some("a".to_owned()),
            user_id: Some("b".to_owned()),
            endpoint: Some("c".to_owned()),
            token: Some("d".to_owned()),
            heartbeat_interval: Some(1),
        }
    );
    assert_eq!(GatewayFrame::parse("{"), None);
    let big = GatewayFrame::parse(r#"{"op":1.5,"s":9223372036854775808}"#).unwrap();
    assert_eq!((big.op, big.sequence), (None, None));
}

#[test]
fn heartbeat_names_the_last_dispatch() {
    let mut gateway = gateway();
    assert_eq!(gateway.heartbeat(), r#"{"d":null,"op":1}"#);
    gateway.read(r#"{"op":0,"s":42,"t":"READY"}"#).unwrap();
    assert_eq!(gateway.heartbeat(), r#"{"d":42,"op":1}"#);
    gateway.read(r#"{"op":11}"#).unwrap();
    assert_eq!(gateway.heartbeat(), r#"{"d":42,"op":1}"#);
}

#[test]
fn identify_sends_the_token() {
    assert_eq!(
        gateway().identify("to\"ken".to_owned()),
        r#"{"d":{"properties":{"browser":"Chrome","capabilities":1021,"device":"","os":"Windows"},"token":"to\"ken"},"op":2}"#
    );
}

#[test]
fn start_call_sends_the_channel() {
    assert_eq!(
        gateway().start_call("123", "a", "b").text,
        r#"{"d":{"channel_id":"123","guild_id":null,"self_deaf":false,"self_mute":false,"self_video":false},"op":4}"#
    );
}

#[test]
fn call_information_is_put_together() {
    let info = CallInformation::new(
        "123".to_owned(),
        pair("session", "user"),
        pair("VOICE.Example.com:443", "token"),
    )
    .unwrap();
    assert_eq!(
        info,
        CallInformation {
            endpoint: "wss://voice.example.com/?v=7".to_owned(),
            server_id: "123".to_owned(),
            user_id: "user".to_owned(),
            session_id: "session".to_owned(),
            token: "token".to_owned(),
        }
    );
}

#[test]
fn call_information_needs_every_part() {
    let id = || "123".to_owned();
    let state = || pair("session", "user");
    let server = || pair("host", "token");
    assert_eq!(CallInformation::new(id(), None, server()), Err(Error::ApplicationError));
    assert_eq!(CallInformation::new(id(), state(), None), Err(Error::ApplicationError));
    assert_eq!(CallInformation::new(id(), None, None), Err(Error::ApplicationError));
    assert_eq!(
        CallInformation::new(id(), state(), pair("host:port", "token")),
        Err(Error::ApplicationError)
    );
    assert_eq!(
        CallInformation::at(None, id(), id(), id(), id()),
        Err(Error::ApplicationError)
    );
}

#[test]
fn endpoint_url_has_the_version() {
    assert_eq!(build_endpoint_url("host:80"), "wss://host:80/?v=7");
}

fn endpoint(host: &str) -> Result<String, Error> {
    CallInformation::new("1".to_owned(), pair("a", "b"), pair(host, "t")).map(|info| info.endpoint)
}

#[test]
fn international_host_is_encoded() {
    assert_eq!(endpoint("b\u{fc}cher.example"), Ok("wss://xn--bcher-kva.example/?v=7".to_owned()));
    assert_eq!(endpoint("%41bc"), Ok("wss://abc/?v=7".to_owned()));
}

#[test]
fn overlong_international_host_is_refused() {
    let mut host = "a".repeat(3999);
    host.push('\u{1062cd}');
    assert_eq!(endpoint(&host), Err(Error::ApplicationError));
    let mut host = "a".repeat(3999);
    host.push('\u{fc}');
    assert_eq!(endpoint(&host), Err(Error::ApplicationError));
}

#[test]
fn strange_hosts_are_refused() {
    for host in ["", "[::1", "a b", "256.256.256.256", "host:99999", "@", "xn--a\u{fc}"] {
        assert_eq!(endpoint(host), Err(Error::ApplicationError));
    }
    assert_eq!(endpoint("[::1]:5"), Ok("wss://[::1]:5/?v=7".to_owned()));
}

#[test]
fn every_login_is_reported() {
    let mut gateway = called();
    for s in 1..4 {
        let text = format!(r#"{{"op":0,"s":{s},"t":"READY","d":{{}}}}"#);
        assert_eq!(gateway.read(&text), Ok(GatewayEvent::Ready));
    }
    assert_eq!(
        gateway.read(r#"{"op":0,"s":4,"t":"RESUMED","d":{}}"#),
        Ok(GatewayEvent::UnhandledDispatch("RESUMED".to_owned()))
    );
    assert_eq!(gateway.read(r#"{"op":1,"s":5,"t":"READY"}"#), Ok(GatewayEvent::UnhandledOp(1)));
}

#[test]
fn long_numbers_are_read() {
    let text = format!(r#"{{"op":11,"s":{}}}"#, "9".repeat(300));
    assert_eq!(gateway().read(&text), Ok(GatewayEvent::Nothing));
    let text = format!(r#"{{"op":11,"s":{}}}"#, "9".repeat(400));
    assert_eq!(gateway().read(&text), Err(ReadError::Closed));
}
